//! Loading and overlaying device capability catalogs.
//!
//! A catalog declares, per protocol, the transport matchers and the
//! capability profiles at each precedence level. An optional user
//! catalog overlays policy (allow/deny/reserved-index) and
//! address-level profiles onto the base catalog; user profiles attach
//! as leaves whose parent is the matched identifier profile or the
//! protocol default. Decoding catalog documents from their textual
//! form, and checking them against the schema, happens outside this
//! crate; the functions here take the decoded documents.

use vstd::prelude::*;
use crate::configuration::{
    BluetoothLESpecifier, DeviceConfigurationManager, DeviceMessageAttributes, HIDSpecifier,
    LovenseConnectServiceSpecifier, ProtocolDeviceAttributes, ProtocolDeviceConfiguration,
    ProtocolDeviceSpecifier, SerialSpecifier, USBSpecifier, WebsocketSpecifier, XInputSpecifier,
    message_type_lookup,
};
use crate::errors::{ButtplugDeviceError, ButtplugError};
use crate::messages::ButtplugDeviceMessageType;
use crate::util::{assoc_lookup, assoc_get};

verus! {

/// Version of the catalog format this runtime was built against.
pub const INTERNAL_CONFIG_VERSION: u32 = 2;

/// The catalog version the runtime itself carries.
pub fn get_internal_config_version() -> (r: u32)
    ensures
        r == INTERNAL_CONFIG_VERSION,
{
    INTERNAL_CONFIG_VERSION
}

/// One user-supplied per-address overlay: a display name, policy
/// flags, profile overrides and a reserved device index.
#[derive(Debug)]
pub struct DeviceUserConfig {
    pub display_name: Option<String>,
    pub allow: Option<bool>,
    pub deny: Option<bool>,
    pub messages: Option<Vec<(ButtplugDeviceMessageType, DeviceMessageAttributes)>>,
    pub index: Option<u32>,
}

/// One capability profile of a base catalog, keyed by identifiers.
#[derive(Debug)]
pub struct ProtocolAttributes {
    pub identifier: Option<Vec<String>>,
    pub name: Option<String>,
    pub messages: Option<Vec<(ButtplugDeviceMessageType, DeviceMessageAttributes)>>,
}

/// The default section of a user catalog: per-address overlays that
/// attach under the protocol default profile.
#[derive(Debug)]
pub struct UserConfigAttributes {
    pub identifier: Option<Vec<String>>,
    pub user_configs: Option<Vec<(String, DeviceUserConfig)>>,
}

/// One protocol of a base catalog: its transport matchers, a default
/// profile and identifier-keyed profiles.
#[derive(Debug)]
pub struct ProtocolDefinition {
    pub usb: Option<Vec<USBSpecifier>>,
    pub btle: Option<BluetoothLESpecifier>,
    pub serial: Option<Vec<SerialSpecifier>>,
    pub hid: Option<Vec<HIDSpecifier>>,
    pub xinput: Option<XInputSpecifier>,
    pub websocket: Option<WebsocketSpecifier>,
    pub lovense_connect_service: Option<LovenseConnectServiceSpecifier>,
    pub defaults: Option<ProtocolAttributes>,
    pub configurations: Vec<ProtocolAttributes>,
}

/// One protocol of a user catalog: extra transport matchers plus
/// per-identifier, per-address overlays.
#[derive(Debug)]
pub struct UserConfigDefinition {
    pub usb: Option<Vec<USBSpecifier>>,
    pub btle: Option<BluetoothLESpecifier>,
    pub serial: Option<Vec<SerialSpecifier>>,
    pub hid: Option<Vec<HIDSpecifier>>,
    pub xinput: Option<XInputSpecifier>,
    pub websocket: Option<WebsocketSpecifier>,
    pub lovense_connect_service: Option<LovenseConnectServiceSpecifier>,
    pub defaults: Option<UserConfigAttributes>,
    pub configurations: Vec<(String, Vec<(String, DeviceUserConfig)>)>,
}

/// A decoded catalog document: its declared version, base protocols
/// and user overlays.
#[derive(Debug)]
pub struct ProtocolConfiguration {
    pub version: u32,
    pub protocols: Option<Vec<(String, ProtocolDefinition)>>,
    pub user_configs: Option<Vec<(String, UserConfigDefinition)>>,
}

impl Default for ProtocolConfiguration {
    /// An empty catalog at the runtime's own version.
    fn default() -> (r: Self)
        ensures
            r.version == INTERNAL_CONFIG_VERSION,
            r.protocols is Some && r.protocols->Some_0@.len() == 0,
            r.user_configs is Some && r.user_configs->Some_0@.len() == 0,
    {
        Self {
            version: INTERNAL_CONFIG_VERSION,
            protocols: Some(Vec::new()),
            user_configs: Some(Vec::new()),
        }
    }
}

impl ProtocolConfiguration {
    /// Overlays another catalog document onto this one. The other
    /// document's entries are consulted first thereafter, so its
    /// per-protocol entries overlay this document's; its user
    /// overlays are likewise appended in front. The declared version
    /// stays this document's.
    pub fn merge(&mut self, other: ProtocolConfiguration)
        ensures
            final(self).version == old(self).version,
            spec_entry_seq_generic(final(self).protocols) == spec_entry_seq_generic(
                other.protocols,
            ) + spec_entry_seq_generic(old(self).protocols),
            spec_user_entry_seq(final(self).user_configs) == spec_user_entry_seq(
                other.user_configs,
            ) + spec_user_entry_seq(old(self).user_configs),
    {
        let mut merged = match other.protocols {
            Some(v) => v,
            None => Vec::new(),
        };
        let mut own_opt: Option<Vec<(String, ProtocolDefinition)>> = None;
        core::mem::swap(&mut own_opt, &mut self.protocols);
        let mut own = match own_opt {
            Some(v) => v,
            None => Vec::new(),
        };
        let ghost merged0 = merged@;
        let ghost own0 = own@;
        let n = own.len();
        let mut i: usize = 0;
        proof {
            assert(own0.skip(0) =~= own0);
            assert(own0.take(0) =~= Seq::<(String, ProtocolDefinition)>::empty());
            assert(merged@ =~= merged0 + own0.take(0));
        }
        while i < n
            invariant
                n == own0.len(),
                own@ == own0.skip(i as int),
                0 <= i <= n,
                merged@ == merged0 + own0.take(i as int),
            decreases n - i,
        {
            proof {
                assert(own0.skip(i as int)[0] == own0[i as int]);
                assert(own0.skip(i as int).remove(0) =~= own0.skip(i as int + 1));
                assert((merged0 + own0.take(i as int)).push(own0[i as int]) =~= merged0
                    + own0.take(i as int + 1));
            }
            let entry = own.remove(0);
            merged.push(entry);
            i = i + 1;
        }
        proof {
            assert(own0.take(n as int) =~= own0);
        }
        self.protocols = Some(merged);
        let mut merged_users = match other.user_configs {
            Some(v) => v,
            None => Vec::new(),
        };
        let mut own_users_opt: Option<Vec<(String, UserConfigDefinition)>> = None;
        core::mem::swap(&mut own_users_opt, &mut self.user_configs);
        let mut own_users = match own_users_opt {
            Some(v) => v,
            None => Vec::new(),
        };
        let ghost musers0 = merged_users@;
        let ghost ousers0 = own_users@;
        let m = own_users.len();
        let mut j: usize = 0;
        proof {
            assert(ousers0.skip(0) =~= ousers0);
            assert(ousers0.take(0) =~= Seq::<(String, UserConfigDefinition)>::empty());
            assert(merged_users@ =~= musers0 + ousers0.take(0));
        }
        while j < m
            invariant
                m == ousers0.len(),
                own_users@ == ousers0.skip(j as int),
                0 <= j <= m,
                merged_users@ == musers0 + ousers0.take(j as int),
            decreases m - j,
        {
            proof {
                assert(ousers0.skip(j as int)[0] == ousers0[j as int]);
                assert(ousers0.skip(j as int).remove(0) =~= ousers0.skip(j as int + 1));
                assert((musers0 + ousers0.take(j as int)).push(ousers0[j as int]) =~= musers0
                    + ousers0.take(j as int + 1));
            }
            let entry = own_users.remove(0);
            merged_users.push(entry);
            j = j + 1;
        }
        proof {
            assert(ousers0.take(m as int) =~= ousers0);
        }
        self.user_configs = Some(merged_users);
    }
}

/// The entries of an optional base-protocol list, an absent list being
/// empty.
pub open spec fn spec_entry_seq_generic(v: Option<Vec<(String, ProtocolDefinition)>>) -> Seq<
    (String, ProtocolDefinition),
> {
    match v {
        Some(entries) => entries@,
        None => Seq::empty(),
    }
}

/// The entries of an optional user-overlay list, an absent list being
/// empty.
pub open spec fn spec_user_entry_seq(v: Option<Vec<(String, UserConfigDefinition)>>) -> Seq<
    (String, UserConfigDefinition),
> {
    match v {
        Some(entries) => entries@,
        None => Seq::empty(),
    }
}

/// The matcher list a group of optional transport sections yields, in
/// a fixed transport order.
pub open spec fn spec_specifier_parts(
    usb: Option<Vec<USBSpecifier>>,
    serial: Option<Vec<SerialSpecifier>>,
    hid: Option<Vec<HIDSpecifier>>,
    btle: Option<BluetoothLESpecifier>,
    xinput: Option<XInputSpecifier>,
    websocket: Option<WebsocketSpecifier>,
    lovense_connect_service: Option<LovenseConnectServiceSpecifier>,
) -> Seq<ProtocolDeviceSpecifier> {
    (match usb {
        Some(v) => v@.map_values(|x: USBSpecifier| ProtocolDeviceSpecifier::USB(x)),
        None => Seq::empty(),
    }) + (match serial {
        Some(v) => v@.map_values(|x: SerialSpecifier| ProtocolDeviceSpecifier::Serial(x)),
        None => Seq::empty(),
    }) + (match hid {
        Some(v) => v@.map_values(|x: HIDSpecifier| ProtocolDeviceSpecifier::HID(x)),
        None => Seq::empty(),
    }) + (match btle {
        Some(b) => seq![ProtocolDeviceSpecifier::BluetoothLE(b)],
        None => Seq::empty(),
    }) + (match xinput {
        Some(x) => seq![ProtocolDeviceSpecifier::XInput(x)],
        None => Seq::empty(),
    }) + (match websocket {
        Some(w) => seq![ProtocolDeviceSpecifier::Websocket(w)],
        None => Seq::empty(),
    }) + (match lovense_connect_service {
        Some(l) => seq![ProtocolDeviceSpecifier::LovenseConnectService(l)],
        None => Seq::empty(),
    })
}

/// The transport matchers a base protocol definition carries.
pub open spec fn spec_protocol_specifiers(d: ProtocolDefinition) -> Seq<ProtocolDeviceSpecifier> {
    spec_specifier_parts(d.usb, d.serial, d.hid, d.btle, d.xinput, d.websocket, d.lovense_connect_service)
}

/// The extra transport matchers a user protocol definition carries.
pub open spec fn spec_user_specifiers(d: UserConfigDefinition) -> Seq<ProtocolDeviceSpecifier> {
    spec_specifier_parts(d.usb, d.serial, d.hid, d.btle, d.xinput, d.websocket, d.lovense_connect_service)
}

/// Pushes the USB matchers of a definition section.
fn push_usb_specifiers(out: &mut Vec<ProtocolDeviceSpecifier>, usb: Option<Vec<USBSpecifier>>)
    ensures
        final(out)@ == old(out)@ + (match usb {
            Some(v) => v@.map_values(|x: USBSpecifier| ProtocolDeviceSpecifier::USB(x)),
            None => Seq::<ProtocolDeviceSpecifier>::empty(),
        }),
{
    let ghost base = out@;
    if let Some(v) = usb {
        let n = v.len();
        let mut i: usize = 0;
        while i < n
            invariant
                n == v@.len(),
                0 <= i <= n,
                out@ =~= base + v@.take(i as int).map_values(
                    |x: USBSpecifier| ProtocolDeviceSpecifier::USB(x),
                ),
            decreases n - i,
        {
            out.push(ProtocolDeviceSpecifier::USB(v[i]));
            i = i + 1;
        }
        proof {
            assert(v@.take(n as int) =~= v@);
        }
    } else {
        proof {
            assert(out@ =~= base + Seq::<ProtocolDeviceSpecifier>::empty());
        }
    }
}

/// Pushes the serial matchers of a definition section.
fn push_serial_specifiers(
    out: &mut Vec<ProtocolDeviceSpecifier>,
    serial: Option<Vec<SerialSpecifier>>,
)
    ensures
        final(out)@ == old(out)@ + (match serial {
            Some(v) => v@.map_values(|x: SerialSpecifier| ProtocolDeviceSpecifier::Serial(x)),
            None => Seq::<ProtocolDeviceSpecifier>::empty(),
        }),
{
    let ghost base = out@;
    if let Some(v) = serial {
        let n = v.len();
        let mut i: usize = 0;
        while i < n
            invariant
                n == v@.len(),
                0 <= i <= n,
                out@ =~= base + v@.take(i as int).map_values(
                    |x: SerialSpecifier| ProtocolDeviceSpecifier::Serial(x),
                ),
            decreases n - i,
        {
            let port = v[i].port.clone();
            out.push(ProtocolDeviceSpecifier::Serial(SerialSpecifier { port }));
            proof {
                assert(out@ =~= base + v@.take(i as int + 1).map_values(
                    |x: SerialSpecifier| ProtocolDeviceSpecifier::Serial(x),
                ));
            }
            i = i + 1;
        }
        proof {
            assert(v@.take(n as int) =~= v@);
        }
    } else {
        proof {
            assert(out@ =~= base + Seq::<ProtocolDeviceSpecifier>::empty());
        }
    }
}

/// Pushes the HID matchers of a definition section.
fn push_hid_specifiers(out: &mut Vec<ProtocolDeviceSpecifier>, hid: Option<Vec<HIDSpecifier>>)
    ensures
        final(out)@ == old(out)@ + (match hid {
            Some(v) => v@.map_values(|x: HIDSpecifier| ProtocolDeviceSpecifier::HID(x)),
            None => Seq::<ProtocolDeviceSpecifier>::empty(),
        }),
{
    let ghost base = out@;
    if let Some(v) = hid {
        let n = v.len();
        let mut i: usize = 0;
        while i < n
            invariant
                n == v@.len(),
                0 <= i <= n,
                out@ =~= base + v@.take(i as int).map_values(
                    |x: HIDSpecifier| ProtocolDeviceSpecifier::HID(x),
                ),
            decreases n - i,
        {
            out.push(ProtocolDeviceSpecifier::HID(v[i]));
            i = i + 1;
        }
        proof {
            assert(v@.take(n as int) =~= v@);
        }
    } else {
        proof {
            assert(out@ =~= base + Seq::<ProtocolDeviceSpecifier>::empty());
        }
    }
}

/// Pushes the matchers of a definition's transport sections, in the
/// fixed transport order.
#[verifier::rlimit(50)]
fn push_protocol_specifiers(
    out: &mut Vec<ProtocolDeviceSpecifier>,
    usb: Option<Vec<USBSpecifier>>,
    serial: Option<Vec<SerialSpecifier>>,
    hid: Option<Vec<HIDSpecifier>>,
    btle: Option<BluetoothLESpecifier>,
    xinput: Option<XInputSpecifier>,
    websocket: Option<WebsocketSpecifier>,
    lovense_connect_service: Option<LovenseConnectServiceSpecifier>,
)
    ensures
        final(out)@ == old(out)@ + spec_specifier_parts(
            usb,
            serial,
            hid,
            btle,
            xinput,
            websocket,
            lovense_connect_service,
        ),
{
    let ghost start = out@;
    let ghost btle_part: Seq<ProtocolDeviceSpecifier> = match &btle {
        Some(b) => seq![ProtocolDeviceSpecifier::BluetoothLE(*b)],
        None => Seq::empty(),
    };
    let ghost xinput_part: Seq<ProtocolDeviceSpecifier> = match &xinput {
        Some(x) => seq![ProtocolDeviceSpecifier::XInput(*x)],
        None => Seq::empty(),
    };
    let ghost websocket_part: Seq<ProtocolDeviceSpecifier> = match &websocket {
        Some(w) => seq![ProtocolDeviceSpecifier::Websocket(*w)],
        None => Seq::empty(),
    };
    let ghost lcs_part: Seq<ProtocolDeviceSpecifier> = match &lovense_connect_service {
        Some(l) => seq![ProtocolDeviceSpecifier::LovenseConnectService(*l)],
        None => Seq::empty(),
    };
    let ghost usb_part: Seq<ProtocolDeviceSpecifier> = match &usb {
        Some(v) => v@.map_values(|x: USBSpecifier| ProtocolDeviceSpecifier::USB(x)),
        None => Seq::empty(),
    };
    let ghost serial_part: Seq<ProtocolDeviceSpecifier> = match &serial {
        Some(v) => v@.map_values(|x: SerialSpecifier| ProtocolDeviceSpecifier::Serial(x)),
        None => Seq::empty(),
    };
    let ghost hid_part: Seq<ProtocolDeviceSpecifier> = match &hid {
        Some(v) => v@.map_values(|x: HIDSpecifier| ProtocolDeviceSpecifier::HID(x)),
        None => Seq::empty(),
    };
    let ghost mut acc: Seq<ProtocolDeviceSpecifier> = Seq::empty();
    push_usb_specifiers(out, usb);
    proof {
        assert(Seq::<ProtocolDeviceSpecifier>::empty() + usb_part =~= usb_part);
        acc = usb_part;
    }
    push_serial_specifiers(out, serial);
    proof {
        crate::util::lemma_seq_add_assoc(start, acc, serial_part);
        acc = acc + serial_part;
    }
    push_hid_specifiers(out, hid);
    proof {
        crate::util::lemma_seq_add_assoc(start, acc, hid_part);
        acc = acc + hid_part;
    }
    let ghost mid = out@;
    if let Some(b) = btle {
        out.push(ProtocolDeviceSpecifier::BluetoothLE(b));
    }
    proof {
        assert(out@ =~= mid + btle_part);
        crate::util::lemma_seq_add_assoc(start, acc, btle_part);
        acc = acc + btle_part;
    }
    let ghost mid = out@;
    if let Some(x) = xinput {
        out.push(ProtocolDeviceSpecifier::XInput(x));
    }
    proof {
        assert(out@ =~= mid + xinput_part);
        crate::util::lemma_seq_add_assoc(start, acc, xinput_part);
        acc = acc + xinput_part;
    }
    let ghost mid = out@;
    if let Some(w) = websocket {
        out.push(ProtocolDeviceSpecifier::Websocket(w));
    }
    proof {
        assert(out@ =~= mid + websocket_part);
        crate::util::lemma_seq_add_assoc(start, acc, websocket_part);
        acc = acc + websocket_part;
    }
    let ghost mid = out@;
    if let Some(l) = lovense_connect_service {
        out.push(ProtocolDeviceSpecifier::LovenseConnectService(l));
    }
    proof {
        assert(out@ =~= mid + lcs_part);
        crate::util::lemma_seq_add_assoc(start, acc, lcs_part);
        acc = acc + lcs_part;
        assert(out@ == start + acc);
    }
}

/// Whether `r` is the device-facing form of base catalog protocol `d`:
/// the matchers in transport order, the default profile carried over,
/// one identifier-level entry per declared identifier (each resolving
/// its own declarations first and the default profile second), and no
/// address entries yet.
pub open spec fn spec_is_device_configuration(
    r: ProtocolDeviceConfiguration,
    d: ProtocolDefinition,
) -> bool {
    &&& r.specifiers@ == spec_protocol_specifiers(d)
    &&& r.address_attributes@.len() == 0
    &&& match d.defaults {
        Some(def) => match r.default_attributes {
            Some(a) => {
                &&& a.name == def.name
                &&& a.display_name is None
                &&& a.parent is None
                &&& a.message_attributes@ == (match def.messages {
                    Some(m) => m@,
                    None => Seq::<(ButtplugDeviceMessageType, DeviceMessageAttributes)>::empty(),
                })
            },
            None => false,
        },
        None => r.default_attributes is None,
    }
    &&& forall|k: Seq<char>|
        match #[trigger] assoc_lookup(r.identifier_attributes@, k) {
            Some(a) => exists|c: int|
                0 <= c < d.configurations@.len() && spec_config_declares_identifier(
                    #[trigger] d.configurations@[c],
                    k,
                ) && spec_identifier_entry_matches(a, d.configurations@[c], r.default_attributes),
            None => true,
        }
    &&& forall|c: int, j: int|
        0 <= c < d.configurations@.len() && #[trigger] spec_config_identifier_at(
            d.configurations@[c],
            j,
        ) ==> assoc_lookup(
            r.identifier_attributes@,
            d.configurations@[c].identifier->Some_0@[j]@,
        ) is Some
}

impl ProtocolDefinition {
    /// Turns one base catalog protocol into its device-facing form
    /// (see [`spec_is_device_configuration`]).
    pub fn into_device_configuration(self) -> (r: ProtocolDeviceConfiguration)
        ensures
            spec_is_device_configuration(r, self),
    {
        let ProtocolDefinition {
            usb,
            btle,
            serial,
            hid,
            xinput,
            websocket,
            lovense_connect_service,
            defaults,
            configurations,
        } = self;
        let mut specifiers: Vec<ProtocolDeviceSpecifier> = Vec::new();
        push_protocol_specifiers(
            &mut specifiers,
            usb,
            serial,
            hid,
            btle,
            xinput,
            websocket,
            lovense_connect_service,
        );
        let default_attributes: Option<ProtocolDeviceAttributes> = match defaults {
            Some(def) => {
                let messages = match def.messages {
                    Some(m) => m,
                    None => Vec::new(),
                };
                Some(ProtocolDeviceAttributes::new(def.name, None, messages, None))
            },
            None => None,
        };
        let mut config = ProtocolDeviceConfiguration::new(
            specifiers,
            default_attributes,
            Vec::new(),
            Vec::new(),
        );
        let ghost specs0 = config.specifiers@;
        let ghost dflt0 = config.default_attributes;
        let n = configurations.len();
        let ghost cfgs = configurations@;
        let mut c: usize = 0;
        while c < n
            invariant
                n == cfgs.len(),
                configurations@ == cfgs,
                0 <= c <= n,
                config.specifiers@ == specs0,
                config.default_attributes == dflt0,
                config.address_attributes@.len() == 0,
                forall|k: Seq<char>|
                    match #[trigger] assoc_lookup(config.identifier_attributes@, k) {
                        Some(a) => exists|ci: int|
                            0 <= ci < c && spec_config_declares_identifier(
                                #[trigger] cfgs[ci],
                                k,
                            ) && spec_identifier_entry_matches(a, cfgs[ci], dflt0),
                        None => true,
                    },
                forall|ci: int, j: int|
                    0 <= ci < c && #[trigger] spec_config_identifier_at(cfgs[ci], j)
                        ==> assoc_lookup(
                        config.identifier_attributes@,
                        cfgs[ci].identifier->Some_0@[j]@,
                    ) is Some,
            decreases n - c,
        {
            let entry = &configurations[c];
            if let Some(identifiers) = &entry.identifier {
                let m = identifiers.len();
                let mut j: usize = 0;
                while j < m
                    invariant
                        n == cfgs.len(),
                        configurations@ == cfgs,
                        0 <= c < n,
                        config.specifiers@ == specs0,
                        config.default_attributes == dflt0,
                        config.address_attributes@.len() == 0,
                        m == identifiers@.len(),
                        *entry == cfgs[c as int],
                        identifiers == cfgs[c as int].identifier->Some_0,
                        cfgs[c as int].identifier is Some,
                        0 <= j <= m,
                        forall|k: Seq<char>|
                            match #[trigger] assoc_lookup(config.identifier_attributes@, k) {
                                Some(a) => (exists|ci: int|
                                    0 <= ci < c && spec_config_declares_identifier(
                                        #[trigger] cfgs[ci],
                                        k,
                                    ) && spec_identifier_entry_matches(a, cfgs[ci], dflt0)) || (
                                (exists|l: int| 0 <= l < j && identifiers@[l]@ == k)
                                    && spec_identifier_entry_matches(a, cfgs[c as int], dflt0)),
                                None => true,
                            },
                        forall|ci: int, jj: int|
                            0 <= ci < c && #[trigger] spec_config_identifier_at(cfgs[ci], jj)
                                ==> assoc_lookup(
                                config.identifier_attributes@,
                                cfgs[ci].identifier->Some_0@[jj]@,
                            ) is Some,
                        forall|l: int|
                            0 <= l < j ==> assoc_lookup(
                                config.identifier_attributes@,
                                #[trigger] identifiers@[l]@,
                            ) is Some,
                    decreases m - j,
                {
                    let name = match &entry.name {
                        Some(s) => Some(s.clone()),
                        None => None,
                    };
                    let messages = match &entry.messages {
                        Some(m) => duplicate_attr_list(m),
                        None => Vec::new(),
                    };
                    let parent = match &config.default_attributes {
                        Some(d) => Some(Box::new(d.duplicate())),
                        None => None,
                    };
                    let attrs = ProtocolDeviceAttributes::new(name, None, messages, parent);
                    proof {
                        assert(spec_identifier_entry_matches(attrs, cfgs[c as int], dflt0)) by {
                            assert(crate::configuration::spec_attr_lists_equivalent(
                                attrs.message_attributes@,
                                spec_config_messages(cfgs[c as int]),
                            ));
                            assert forall|t: ButtplugDeviceMessageType| #[trigger] attrs
                                .spec_message_attributes(t) == (match message_type_lookup(
                                spec_config_messages(cfgs[c as int]),
                                t,
                            ) {
                                Some(m) => Some(m@),
                                None => match dflt0 {
                                    Some(d) => d.spec_message_attributes(t),
                                    None => None,
                                },
                            }) by {
                                crate::configuration::lemma_equivalent_lookup(
                                    attrs.message_attributes@,
                                    spec_config_messages(cfgs[c as int]),
                                    t,
                                );
                                match (attrs.parent, dflt0) {
                                    (Some(pd), Some(d)) => {
                                        assert((*pd).spec_message_attributes(t)
                                            == d.spec_message_attributes(t));
                                    },
                                    _ => {},
                                }
                            }
                        }
                    }
                    config.add_identifier_attributes(identifiers[j].clone(), attrs);
                    j = j + 1;
                }
                proof {
                    assert forall|k: Seq<char>| true implies match #[trigger] assoc_lookup(
                        config.identifier_attributes@,
                        k,
                    ) {
                        Some(a) => exists|ci: int|
                            0 <= ci < c + 1 && spec_config_declares_identifier(
                                #[trigger] cfgs[ci],
                                k,
                            ) && spec_identifier_entry_matches(a, cfgs[ci], dflt0),
                        None => true,
                    } by {
                        match assoc_lookup(config.identifier_attributes@, k) {
                            Some(a) => {
                                if !(exists|ci: int|
                                    0 <= ci < c && spec_config_declares_identifier(
                                        #[trigger] cfgs[ci],
                                        k,
                                    ) && spec_identifier_entry_matches(a, cfgs[ci], dflt0)) {
                                    assert(spec_config_declares_identifier(cfgs[c as int], k));
                                    assert(spec_identifier_entry_matches(
                                        a,
                                        cfgs[c as int],
                                        dflt0,
                                    ));
                                }
                            },
                            None => {},
                        }
                    }
                }
            }
            c = c + 1;
        }
        config
    }
}

/// The attribute entries a catalog profile declares, or none.
pub open spec fn spec_config_messages(p: ProtocolAttributes) -> Seq<
    (ButtplugDeviceMessageType, DeviceMessageAttributes),
> {
    match p.messages {
        Some(m) => m@,
        None => Seq::empty(),
    }
}

/// Whether `a` is the identifier-level profile built from catalog
/// profile `p` under the given protocol default: it carries `p`'s
/// name, and resolves `p`'s own attribute declarations first, falling
/// back to the default profile's resolution.
pub open spec fn spec_identifier_entry_matches(
    a: ProtocolDeviceAttributes,
    p: ProtocolAttributes,
    default_attributes: Option<ProtocolDeviceAttributes>,
) -> bool {
    &&& a.name == p.name
    &&& a.display_name is None
    &&& forall|t: ButtplugDeviceMessageType| #[trigger] a.spec_message_attributes(t) == (
    match message_type_lookup(spec_config_messages(p), t) {
        Some(m) => Some(m@),
        None => match default_attributes {
            Some(d) => d.spec_message_attributes(t),
            None => None,
        },
    })
}

/// Whether a catalog profile lists `k` among its identifiers.
pub open spec fn spec_config_declares_identifier(p: ProtocolAttributes, k: Seq<char>) -> bool {
    match p.identifier {
        Some(ids) => exists|j: int| 0 <= j < ids@.len() && (#[trigger] ids@[j])@ == k,
        None => false,
    }
}

/// Whether `j` indexes one of a catalog profile's identifiers.
pub open spec fn spec_config_identifier_at(p: ProtocolAttributes, j: int) -> bool {
    match p.identifier {
        Some(ids) => 0 <= j < ids@.len(),
        None => false,
    }
}

/// Copies an attribute list entry for entry; the copy's entries carry
/// the same kinds and mathematically equal attributes.
fn duplicate_attr_list(v: &Vec<(ButtplugDeviceMessageType, DeviceMessageAttributes)>) -> (r: Vec<
    (ButtplugDeviceMessageType, DeviceMessageAttributes),
>)
    ensures
        crate::configuration::spec_attr_lists_equivalent(r@, v@),
{
    let n = v.len();
    let mut r: Vec<(ButtplugDeviceMessageType, DeviceMessageAttributes)> = Vec::new();
    let mut i: usize = 0;
    while i < n
        invariant
            n == v@.len(),
            0 <= i <= n,
            r@.len() == i,
            forall|j: int|
                0 <= j < i ==> (#[trigger] r@[j]).0 == (#[trigger] v@[j]).0 && r@[j].1@
                    == v@[j].1@,
        decreases n - i,
    {
        let pair = &v[i];
        let steps = crate::util::copy_u32_vec(&pair.1.step_count);
        r.push((pair.0, DeviceMessageAttributes::new(pair.1.feature_count, steps)));
        i = i + 1;
    }
    r
}

/// The profile overrides a user overlay declares, or nothing.
pub open spec fn spec_uc_messages(uc: DeviceUserConfig) -> Seq<
    (ButtplugDeviceMessageType, DeviceMessageAttributes),
> {
    match uc.messages {
        Some(m) => m@,
        None => Seq::empty(),
    }
}

/// The addresses an overlay map allow-lists, in map order.
pub open spec fn spec_map_allow(configs: Seq<(String, DeviceUserConfig)>) -> Seq<String>
    decreases configs.len(),
{
    if configs.len() == 0 {
        Seq::empty()
    } else {
        spec_map_allow(configs.drop_last()) + (if configs.last().1.allow == Some(true) {
            seq![configs.last().0]
        } else {
            Seq::empty()
        })
    }
}

/// The addresses an overlay map deny-lists, in map order.
pub open spec fn spec_map_deny(configs: Seq<(String, DeviceUserConfig)>) -> Seq<String>
    decreases configs.len(),
{
    if configs.len() == 0 {
        Seq::empty()
    } else {
        spec_map_deny(configs.drop_last()) + (if configs.last().1.deny == Some(true) {
            seq![configs.last().0]
        } else {
            Seq::empty()
        })
    }
}

/// The reserved device indexes an overlay map claims, in map order.
pub open spec fn spec_map_reserved(configs: Seq<(String, DeviceUserConfig)>) -> Seq<(u32, String)>
    decreases configs.len(),
{
    if configs.len() == 0 {
        Seq::empty()
    } else {
        spec_map_reserved(configs.drop_last()) + (match configs.last().1.index {
            Some(i) => seq![(i, configs.last().0)],
            None => Seq::empty(),
        })
    }
}

/// Whether an overlay map names the address `k`.
pub open spec fn spec_map_has_addr(configs: Seq<(String, DeviceUserConfig)>, k: Seq<char>) -> bool {
    exists|j: int| 0 <= j < configs.len() && (#[trigger] configs[j]).0@ == k
}

/// Whether position `j` holds the map's last entry for its address.
pub open spec fn spec_is_last_addr(configs: Seq<(String, DeviceUserConfig)>, j: int) -> bool {
    forall|l: int| j < l < configs.len() ==> (#[trigger] configs[l]).0@ != configs[j].0@
}

/// The last overlay an address map declares for address `k`: the one
/// that governs, since later entries shadow earlier ones.
pub open spec fn spec_map_last_uc(
    m: Seq<(String, DeviceUserConfig)>,
    k: Seq<char>,
) -> Option<DeviceUserConfig>
    decreases m.len(),
{
    if m.len() == 0 {
        None
    } else if m.last().0@ == k {
        Some(m.last().1)
    } else {
        spec_map_last_uc(m.drop_last(), k)
    }
}

/// The per-address overlays a user protocol definition's default
/// section declares, if it has one.
pub open spec fn spec_defaults_section(def: UserConfigDefinition) -> Option<
    Seq<(String, DeviceUserConfig)>,
> {
    match def.defaults {
        Some(da) => match da.user_configs {
            Some(v) => Some(v@),
            None => None,
        },
        None => None,
    }
}

/// Whether `a` is the leaf profile a user overlay attaches: no name of
/// its own, the overlay's display name, and attribute resolution that
/// consults the overlay's declarations first and the parent profile
/// second.
pub open spec fn spec_leaf_matches(
    a: ProtocolDeviceAttributes,
    uc: DeviceUserConfig,
    parent: ProtocolDeviceAttributes,
) -> bool {
    &&& a.name is None
    &&& a.display_name == uc.display_name
    &&& forall|t: ButtplugDeviceMessageType| #[trigger] a.spec_message_attributes(t) == (
    match message_type_lookup(spec_uc_messages(uc), t) {
        Some(m) => Some(m@),
        None => parent.spec_message_attributes(t),
    })
}

/// The overlay that governs address `k` once one protocol definition
/// is applied, with the base profile it attaches under: identifier
/// sections are consulted from the last backwards (later sections
/// shadow earlier ones, and all of them shadow the default section),
/// skipping identifiers the base protocol does not declare.
pub open spec fn spec_def_addr_winner(
    default_attributes: Option<ProtocolDeviceAttributes>,
    identifier_attrs: Seq<(String, ProtocolDeviceAttributes)>,
    defaults_section: Option<Seq<(String, DeviceUserConfig)>>,
    confs: Seq<(String, Vec<(String, DeviceUserConfig)>)>,
    k: Seq<char>,
) -> Option<(DeviceUserConfig, ProtocolDeviceAttributes)>
    decreases confs.len(),
{
    if confs.len() > 0 {
        let rest = spec_def_addr_winner(
            default_attributes,
            identifier_attrs,
            defaults_section,
            confs.drop_last(),
            k,
        );
        match assoc_lookup(identifier_attrs, confs.last().0@) {
            Some(parent) => match spec_map_last_uc(confs.last().1@, k) {
                Some(uc) => Some((uc, parent)),
                None => rest,
            },
            None => rest,
        }
    } else {
        match (default_attributes, defaults_section) {
            (Some(d), Some(m)) => match spec_map_last_uc(m, k) {
                Some(uc) => Some((uc, d)),
                None => None,
            },
            _ => None,
        }
    }
}

/// Whether `e` is `old_e` with one user protocol definition applied:
/// matchers unioned, default and identifier profiles untouched, and
/// every address the definition overlays (under a declared identifier
/// or the default) resolving to its governing leaf, all other
/// addresses untouched.
pub open spec fn spec_protocol_overlay_applied(
    old_e: ProtocolDeviceConfiguration,
    def: UserConfigDefinition,
    e: ProtocolDeviceConfiguration,
) -> bool {
    &&& e.specifiers@ == old_e.specifiers@ + spec_user_specifiers(def)
    &&& e.default_attributes == old_e.default_attributes
    &&& e.identifier_attributes == old_e.identifier_attributes
    &&& forall|k: Seq<char>|
        match spec_def_addr_winner(
            old_e.default_attributes,
            old_e.identifier_attributes@,
            spec_defaults_section(def),
            def.configurations@,
            k,
        ) {
            Some(win) => match #[trigger] assoc_lookup(e.address_attributes@, k) {
                Some(a) => spec_leaf_matches(a, win.0, win.1),
                None => false,
            },
            None => assoc_lookup(e.address_attributes@, k) == assoc_lookup(
                old_e.address_attributes@,
                k,
            ),
        }
}

/// A named address has a governing (last) overlay, found at its last
/// occurrence.
proof fn lemma_map_last_uc_of_named(m: Seq<(String, DeviceUserConfig)>, k: Seq<char>)
    requires
        spec_map_has_addr(m, k),
    ensures
        exists|j: int|
            0 <= j < m.len() && (#[trigger] m[j]).0@ == k && spec_is_last_addr(m, j)
                && spec_map_last_uc(m, k) == Some(m[j].1),
    decreases m.len(),
{
    if m.last().0@ == k {
        let j = m.len() - 1;
        assert(m[j].0@ == k && spec_is_last_addr(m, j) && spec_map_last_uc(m, k) == Some(
            m[j].1,
        ));
    } else {
        assert(spec_map_has_addr(m.drop_last(), k)) by {
            let j0 = choose|j0: int| 0 <= j0 < m.len() && (#[trigger] m[j0]).0@ == k;
            assert(j0 < m.len() - 1);
            assert((m.drop_last()[j0]).0@ == k);
        }
        lemma_map_last_uc_of_named(m.drop_last(), k);
        let j = choose|j: int|
            0 <= j < m.drop_last().len() && (#[trigger] m.drop_last()[j]).0@ == k
                && spec_is_last_addr(m.drop_last(), j) && spec_map_last_uc(m.drop_last(), k)
                == Some(m.drop_last()[j].1);
        assert(m[j] == m.drop_last()[j]);
        assert(spec_is_last_addr(m, j)) by {
            assert(forall|l: int|
                j < l < m.len() - 1 ==> (#[trigger] m[l]).0@ == m.drop_last()[l].0@);
        }
        assert(m[j].0@ == k && spec_is_last_addr(m, j) && spec_map_last_uc(m, k) == Some(
            m[j].1,
        ));
    }
}

/// An address the map never names has no governing overlay.
proof fn lemma_map_last_uc_none(m: Seq<(String, DeviceUserConfig)>, k: Seq<char>)
    requires
        !spec_map_has_addr(m, k),
    ensures
        spec_map_last_uc(m, k) is None,
    decreases m.len(),
{
    if m.len() > 0 {
        assert(m[m.len() - 1].0@ != k);
        assert(!spec_map_has_addr(m.drop_last(), k)) by {
            if spec_map_has_addr(m.drop_last(), k) {
                let j = choose|j: int|
                    0 <= j < m.drop_last().len() && (#[trigger] m.drop_last()[j]).0@ == k;
                assert((m[j]).0@ == k);
            }
        }
        lemma_map_last_uc_none(m.drop_last(), k);
    }
}

/// Attaches one identifier's (or the default's) per-address user
/// overlays to a protocol entry, recording policy flags on the way.
/// Each overlaid address resolves its own declared attributes first
/// and falls back to the matched parent profile — the merged-leaf
/// semantics of user configuration.
pub fn apply_user_configs_under_parent(
    entry: &mut ProtocolDeviceConfiguration,
    parent: &ProtocolDeviceAttributes,
    configs: Vec<(String, DeviceUserConfig)>,
    allow_list: &mut Vec<String>,
    deny_list: &mut Vec<String>,
    reserved_indexes: &mut Vec<(u32, String)>,
)
    ensures
        final(allow_list)@ == old(allow_list)@ + spec_map_allow(configs@),
        final(deny_list)@ == old(deny_list)@ + spec_map_deny(configs@),
        final(reserved_indexes)@ == old(reserved_indexes)@ + spec_map_reserved(configs@),
        final(entry).specifiers == old(entry).specifiers,
        final(entry).default_attributes == old(entry).default_attributes,
        final(entry).identifier_attributes == old(entry).identifier_attributes,
        forall|k: Seq<char>|
            !spec_map_has_addr(configs@, k) ==> #[trigger] assoc_lookup(
                final(entry).address_attributes@,
                k,
            ) == assoc_lookup(old(entry).address_attributes@, k),
        forall|j: int|
            0 <= j < configs@.len() && #[trigger] spec_is_last_addr(configs@, j)
                ==> match assoc_lookup(final(entry).address_attributes@, configs@[j].0@) {
                Some(a) => {
                    &&& a.name is None
                    &&& a.display_name == configs@[j].1.display_name
                    &&& forall|t: ButtplugDeviceMessageType| #[trigger] a.spec_message_attributes(
                        t,
                    ) == (match message_type_lookup(spec_uc_messages(configs@[j].1), t) {
                        Some(m) => Some(m@),
                        None => parent.spec_message_attributes(t),
                    })
                },
                None => false,
            },
{
    let ghost cfgs = configs@;
    let n = configs.len();
    let mut i: usize = 0;
    let ghost allow0 = allow_list@;
    let ghost deny0 = deny_list@;
    let ghost reserved0 = reserved_indexes@;
    let ghost addr0 = entry.address_attributes@;
    let mut configs = configs;
    proof {
        assert(cfgs.take(0) =~= Seq::<(String, DeviceUserConfig)>::empty());
        assert(cfgs.skip(0) =~= cfgs);
    }
    while i < n
        invariant
            n == cfgs.len(),
            configs@ == cfgs.skip(i as int),
            0 <= i <= n,
            allow_list@ == allow0 + spec_map_allow(cfgs.take(i as int)),
            deny_list@ == deny0 + spec_map_deny(cfgs.take(i as int)),
            reserved_indexes@ == reserved0 + spec_map_reserved(cfgs.take(i as int)),
            entry.specifiers == old(entry).specifiers,
            entry.default_attributes == old(entry).default_attributes,
            entry.identifier_attributes == old(entry).identifier_attributes,
            forall|k: Seq<char>|
                !spec_map_has_addr(cfgs.take(i as int), k) ==> #[trigger] assoc_lookup(
                    entry.address_attributes@,
                    k,
                ) == assoc_lookup(addr0, k),
            forall|j: int|
                0 <= j < i && #[trigger] spec_is_last_addr(cfgs.take(i as int), j)
                    ==> match assoc_lookup(entry.address_attributes@, cfgs[j].0@) {
                    Some(a) => {
                        &&& a.name is None
                        &&& a.display_name == cfgs[j].1.display_name
                        &&& forall|t: ButtplugDeviceMessageType| #[trigger] a.spec_message_attributes(
                            t,
                        ) == (match message_type_lookup(spec_uc_messages(cfgs[j].1), t) {
                            Some(m) => Some(m@),
                            None => parent.spec_message_attributes(t),
                        })
                    },
                    None => false,
                },
        decreases n - i,
    {
        let ghost pre_addrs = entry.address_attributes@;
        proof {
            assert(cfgs.skip(i as int)[0] == cfgs[i as int]);
            assert(cfgs.skip(i as int).remove(0) =~= cfgs.skip(i as int + 1));
        }
        let pair = configs.remove(0);
        i = i + 1;
        let (address, uc) = pair;
        let ghost j0 = i - 1;
        proof {
            assert(cfgs[j0 as int].0 == address && cfgs[j0 as int].1 == uc);
        }
        if match uc.allow {
            Some(b) => b,
            None => false,
        } {
            allow_list.push(address.clone());
        }
        if match uc.deny {
            Some(b) => b,
            None => false,
        } {
            deny_list.push(address.clone());
        }
        if let Some(index) = uc.index {
            reserved_indexes.push((index, address.clone()));
        }
        let messages = match uc.messages {
            Some(m) => m,
            None => Vec::new(),
        };
        let ghost guc = cfgs[j0 as int].1;
        let attrs = ProtocolDeviceAttributes::new(
            None,
            uc.display_name,
            messages,
            Some(Box::new(parent.duplicate())),
        );
        let ghost gattrs = attrs;
        let ghost gaddr = address@;
        entry.add_address_attributes(address, attrs);
        proof {
            assert(cfgs.take(j0 as int).push(cfgs[j0 as int]) =~= cfgs.take(i as int));
            assert(cfgs.take(i as int).drop_last() =~= cfgs.take(j0 as int));
            assert(cfgs.take(i as int).last() == cfgs[j0 as int]);
            assert(allow_list@ =~= allow0 + spec_map_allow(cfgs.take(i as int)));
            assert(deny_list@ =~= deny0 + spec_map_deny(cfgs.take(i as int)));
            assert(reserved_indexes@ =~= reserved0 + spec_map_reserved(cfgs.take(i as int)));
            assert forall|k: Seq<char>|
                !spec_map_has_addr(cfgs.take(i as int), k) implies #[trigger] assoc_lookup(
                entry.address_attributes@,
                k,
            ) == assoc_lookup(addr0, k) by {
                assert(!spec_map_has_addr(cfgs.take(j0 as int), k)) by {
                    if spec_map_has_addr(cfgs.take(j0 as int), k) {
                        let l = choose|l: int|
                            0 <= l < cfgs.take(j0 as int).len() && (#[trigger] cfgs.take(
                                j0 as int,
                            )[l]).0@ == k;
                        assert((cfgs.take(i as int)[l]).0@ == k);
                    }
                }
                assert(k != cfgs[j0 as int].0@) by {
                    if k == cfgs[j0 as int].0@ {
                        assert((cfgs.take(i as int)[j0 as int]).0@ == k);
                    }
                }
            }
            assert forall|t: ButtplugDeviceMessageType| #[trigger] gattrs.spec_message_attributes(
                t,
            ) == (match message_type_lookup(spec_uc_messages(guc), t) {
                Some(m) => Some(m@),
                None => parent.spec_message_attributes(t),
            }) by {
                assert(gattrs.message_attributes@ == spec_uc_messages(guc));
                match gattrs.parent {
                    Some(pd) => {
                        assert((*pd).spec_message_attributes(t) == parent.spec_message_attributes(
                            t,
                        ));
                    },
                    None => {},
                }
            }
            assert forall|j: int|
                0 <= j < i && #[trigger] spec_is_last_addr(cfgs.take(i as int), j)
                    implies match assoc_lookup(entry.address_attributes@, cfgs[j].0@) {
                Some(a) => {
                    &&& a.name is None
                    &&& a.display_name == cfgs[j].1.display_name
                    &&& forall|t: ButtplugDeviceMessageType| #[trigger] a.spec_message_attributes(
                        t,
                    ) == (match message_type_lookup(spec_uc_messages(cfgs[j].1), t) {
                        Some(m) => Some(m@),
                        None => parent.spec_message_attributes(t),
                    })
                },
                None => false,
            } by {
                if j == j0 {
                    assert(assoc_lookup(entry.address_attributes@, gaddr) == Some(gattrs));
                } else {
                    assert(cfgs[j].0@ != gaddr) by {
                        assert(spec_is_last_addr(cfgs.take(i as int), j));
                        assert((cfgs.take(i as int)[j0 as int]).0@ == gaddr);
                    }
                    assert(spec_is_last_addr(cfgs.take(j0 as int), j)) by {
                        assert forall|l: int|
                            j < l < cfgs.take(j0 as int).len() implies (#[trigger] cfgs.take(
                            j0 as int,
                        )[l]).0@ != cfgs.take(j0 as int)[j].0@ by {
                            assert((cfgs.take(i as int)[l]).0@ != cfgs.take(i as int)[j].0@);
                        }
                    }
                    assert(assoc_lookup(entry.address_attributes@, cfgs[j].0@) == assoc_lookup(
                        pre_addrs,
                        cfgs[j].0@,
                    ));
                }
            }
        }
    }
    proof {
        assert(cfgs.take(n as int) =~= cfgs);
    }
}

/// The addresses one user protocol definition allow-lists, given the
/// identifier profiles its base protocol declares: only overlays under
/// a declared identifier take effect.
pub open spec fn spec_def_allow(
    identifier_attrs: Seq<(String, ProtocolDeviceAttributes)>,
    confs: Seq<(String, Vec<(String, DeviceUserConfig)>)>,
) -> Seq<String>
    decreases confs.len(),
{
    if confs.len() == 0 {
        Seq::empty()
    } else {
        spec_def_allow(identifier_attrs, confs.drop_last()) + (if assoc_lookup(
            identifier_attrs,
            confs.last().0@,
        ) is Some {
            spec_map_allow(confs.last().1@)
        } else {
            Seq::empty()
        })
    }
}

/// The addresses one user protocol definition deny-lists.
pub open spec fn spec_def_deny(
    identifier_attrs: Seq<(String, ProtocolDeviceAttributes)>,
    confs: Seq<(String, Vec<(String, DeviceUserConfig)>)>,
) -> Seq<String>
    decreases confs.len(),
{
    if confs.len() == 0 {
        Seq::empty()
    } else {
        spec_def_deny(identifier_attrs, confs.drop_last()) + (if assoc_lookup(
            identifier_attrs,
            confs.last().0@,
        ) is Some {
            spec_map_deny(confs.last().1@)
        } else {
            Seq::empty()
        })
    }
}

/// The reserved indexes one user protocol definition claims.
pub open spec fn spec_def_reserved(
    identifier_attrs: Seq<(String, ProtocolDeviceAttributes)>,
    confs: Seq<(String, Vec<(String, DeviceUserConfig)>)>,
) -> Seq<(u32, String)>
    decreases confs.len(),
{
    if confs.len() == 0 {
        Seq::empty()
    } else {
        spec_def_reserved(identifier_attrs, confs.drop_last()) + (if assoc_lookup(
            identifier_attrs,
            confs.last().0@,
        ) is Some {
            spec_map_reserved(confs.last().1@)
        } else {
            Seq::empty()
        })
    }
}

/// Applies one user protocol definition to its base protocol entry:
/// unions the transport matchers, attaches default-level overlays
/// under the protocol default, attaches identifier-level overlays
/// under the matched identifier profile, and records policy flags.
/// Afterwards every overlaid address resolves to its governing leaf
/// (see [`spec_def_addr_winner`]) and all other addresses are
/// untouched.
#[verifier::rlimit(100)]
pub fn apply_user_config_to_protocol(
    entry: &mut ProtocolDeviceConfiguration,
    def: UserConfigDefinition,
    allow_list: &mut Vec<String>,
    deny_list: &mut Vec<String>,
    reserved_indexes: &mut Vec<(u32, String)>,
)
    ensures
        spec_protocol_overlay_applied(*old(entry), def, *final(entry)),
        final(allow_list)@ == old(allow_list)@ + spec_def_allow(
            old(entry).identifier_attributes@,
            def.configurations@,
        ),
        final(deny_list)@ == old(deny_list)@ + spec_def_deny(
            old(entry).identifier_attributes@,
            def.configurations@,
        ),
        final(reserved_indexes)@ == old(reserved_indexes)@ + spec_def_reserved(
            old(entry).identifier_attributes@,
            def.configurations@,
        ),
{
    let ghost gdef = def;
    let ghost dflt0 = entry.default_attributes;
    let ghost ident_attrs = entry.identifier_attributes@;
    let ghost identv = entry.identifier_attributes;
    let ghost addrs0 = entry.address_attributes@;
    let ghost dsec = spec_defaults_section(gdef);
    let UserConfigDefinition {
        usb,
        btle,
        serial,
        hid,
        xinput,
        websocket,
        lovense_connect_service,
        defaults,
        configurations,
    } = def;
    push_protocol_specifiers(
        &mut entry.specifiers,
        usb,
        serial,
        hid,
        btle,
        xinput,
        websocket,
        lovense_connect_service,
    );
    if let Some(default_section) = defaults {
        if let Some(user_configs) = default_section.user_configs {
            let ghost omap = user_configs@;
            let parent = match &entry.default_attributes {
                Some(d) => Some(d.duplicate()),
                None => None,
            };
            if let Some(parent) = parent {
                let mut scratch_allow: Vec<String> = Vec::new();
                let mut scratch_deny: Vec<String> = Vec::new();
                let mut scratch_reserved: Vec<(u32, String)> = Vec::new();
                let stripped = strip_policy(user_configs);
                let ghost smap = stripped@;
                apply_user_configs_under_parent(
                    entry,
                    &parent,
                    stripped,
                    &mut scratch_allow,
                    &mut scratch_deny,
                    &mut scratch_reserved,
                );
                proof {
                    let d = dflt0->Some_0;
                    assert forall|k: Seq<char>| true implies match spec_def_addr_winner(
                        dflt0,
                        ident_attrs,
                        dsec,
                        Seq::<(String, Vec<(String, DeviceUserConfig)>)>::empty(),
                        k,
                    ) {
                        Some(win) => match #[trigger] assoc_lookup(
                            entry.address_attributes@,
                            k,
                        ) {
                            Some(a) => spec_leaf_matches(a, win.0, win.1),
                            None => false,
                        },
                        None => assoc_lookup(entry.address_attributes@, k) == assoc_lookup(
                            addrs0,
                            k,
                        ),
                    } by {
                        if spec_map_has_addr(omap, k) {
                            lemma_map_last_uc_of_named(omap, k);
                            let j = choose|j: int|
                                0 <= j < omap.len() && (#[trigger] omap[j]).0@ == k
                                    && spec_is_last_addr(omap, j) && spec_map_last_uc(omap, k)
                                    == Some(omap[j].1);
                            assert(smap[j].0@ == k);
                            assert(spec_is_last_addr(smap, j)) by {
                                assert(forall|l: int|
                                    j < l < smap.len() ==> (#[trigger] smap[l]).0@
                                        == omap[l].0@);
                            }
                            match assoc_lookup(entry.address_attributes@, smap[j].0@) {
                                Some(a) => {
                                    assert(spec_leaf_matches(a, omap[j].1, d)) by {
                                        assert(spec_uc_messages(smap[j].1) == spec_uc_messages(
                                            omap[j].1,
                                        ));
                                        assert(forall|t: ButtplugDeviceMessageType| #[trigger]
                                        parent.spec_message_attributes(t)
                                            == d.spec_message_attributes(t));
                                    }
                                },
                                None => {},
                            }
                        } else {
                            assert(!spec_map_has_addr(smap, k)) by {
                                if spec_map_has_addr(smap, k) {
                                    let l = choose|l: int|
                                        0 <= l < smap.len() && (#[trigger] smap[l]).0@ == k;
                                    assert(omap[l].0@ == k);
                                }
                            }
                            lemma_map_last_uc_none(omap, k);
                        }
                    }
                }
            }
        }
    }
    proof {
        assert forall|k: Seq<char>| true implies match spec_def_addr_winner(
            dflt0,
            ident_attrs,
            dsec,
            Seq::<(String, Vec<(String, DeviceUserConfig)>)>::empty(),
            k,
        ) {
            Some(win) => match #[trigger] assoc_lookup(entry.address_attributes@, k) {
                Some(a) => spec_leaf_matches(a, win.0, win.1),
                None => false,
            },
            None => assoc_lookup(entry.address_attributes@, k) == assoc_lookup(addrs0, k),
        } by {}
    }
    let ghost confs = gdef.configurations@;
    let n = configurations.len();
    let mut configurations = configurations;
    let mut i: usize = 0;
    let ghost allow0 = allow_list@;
    let ghost deny0 = deny_list@;
    let ghost reserved0 = reserved_indexes@;
    let ghost specs1 = entry.specifiers@;
    proof {
        assert(confs.take(0) =~= Seq::<(String, Vec<(String, DeviceUserConfig)>)>::empty());
        assert(confs.skip(0) =~= confs);
    }
    while i < n
        invariant
            n == confs.len(),
            configurations@ == confs.skip(i as int),
            0 <= i <= n,
            entry.specifiers@ == specs1,
            entry.default_attributes == dflt0,
            entry.identifier_attributes == identv,
            entry.identifier_attributes@ == ident_attrs,
            allow_list@ == allow0 + spec_def_allow(ident_attrs, confs.take(i as int)),
            deny_list@ == deny0 + spec_def_deny(ident_attrs, confs.take(i as int)),
            reserved_indexes@ == reserved0 + spec_def_reserved(ident_attrs, confs.take(i as int)),
            forall|k: Seq<char>|
                match spec_def_addr_winner(dflt0, ident_attrs, dsec, confs.take(i as int), k) {
                    Some(win) => match #[trigger] assoc_lookup(entry.address_attributes@, k) {
                        Some(a) => spec_leaf_matches(a, win.0, win.1),
                        None => false,
                    },
                    None => assoc_lookup(entry.address_attributes@, k) == assoc_lookup(
                        addrs0,
                        k,
                    ),
                },
        decreases n - i,
    {
        proof {
            assert(confs.skip(i as int)[0] == confs[i as int]);
            assert(confs.skip(i as int).remove(0) =~= confs.skip(i as int + 1));
        }
        let pair = configurations.remove(0);
        i = i + 1;
        let ghost j0 = i - 1;
        let (identifier, map) = pair;
        let ghost gmap = map@;
        let found = assoc_get(&entry.identifier_attributes, &identifier);
        match found {
            Some(p) => {
                let ghost base = *p;
                let parent = p.duplicate();
                apply_user_configs_under_parent(
                    entry,
                    &parent,
                    map,
                    allow_list,
                    deny_list,
                    reserved_indexes,
                );
                proof {
                    assert(confs.take(j0 as int).push(confs[j0 as int]) =~= confs.take(
                        i as int,
                    ));
                    assert(confs.take(i as int).drop_last() =~= confs.take(j0 as int));
                    assert(confs.take(i as int).last() == confs[j0 as int]);
                    assert(assoc_lookup(ident_attrs, confs[j0 as int].0@) == Some(base));
                    assert forall|k: Seq<char>| true implies match spec_def_addr_winner(
                        dflt0,
                        ident_attrs,
                        dsec,
                        confs.take(i as int),
                        k,
                    ) {
                        Some(win) => match #[trigger] assoc_lookup(
                            entry.address_attributes@,
                            k,
                        ) {
                            Some(a) => spec_leaf_matches(a, win.0, win.1),
                            None => false,
                        },
                        None => assoc_lookup(entry.address_attributes@, k) == assoc_lookup(
                            addrs0,
                            k,
                        ),
                    } by {
                        if spec_map_has_addr(gmap, k) {
                            lemma_map_last_uc_of_named(gmap, k);
                            let j = choose|j: int|
                                0 <= j < gmap.len() && (#[trigger] gmap[j]).0@ == k
                                    && spec_is_last_addr(gmap, j) && spec_map_last_uc(gmap, k)
                                    == Some(gmap[j].1);
                            match assoc_lookup(entry.address_attributes@, gmap[j].0@) {
                                Some(a) => {
                                    assert(spec_leaf_matches(a, gmap[j].1, base)) by {
                                        assert(forall|t: ButtplugDeviceMessageType| #[trigger]
                                        parent.spec_message_attributes(t)
                                            == base.spec_message_attributes(t));
                                    }
                                },
                                None => {},
                            }
                        } else {
                            lemma_map_last_uc_none(gmap, k);
                        }
                    }
                }
            },
            None => {
                proof {
                    assert(confs.take(j0 as int).push(confs[j0 as int]) =~= confs.take(
                        i as int,
                    ));
                    assert(confs.take(i as int).drop_last() =~= confs.take(j0 as int));
                    assert(confs.take(i as int).last() == confs[j0 as int]);
                    assert(assoc_lookup(ident_attrs, confs[j0 as int].0@) is None);
                }
            },
        }
        proof {
            assert(confs.take(j0 as int).push(confs[j0 as int]) =~= confs.take(i as int));
            assert(confs.take(i as int).drop_last() =~= confs.take(j0 as int));
            assert(confs.take(i as int).last() == confs[j0 as int]);
            assert(allow_list@ =~= allow0 + spec_def_allow(ident_attrs, confs.take(i as int)));
            assert(deny_list@ =~= deny0 + spec_def_deny(ident_attrs, confs.take(i as int)));
            assert(reserved_indexes@ =~= reserved0 + spec_def_reserved(
                ident_attrs,
                confs.take(i as int),
            ));
        }
    }
    proof {
        assert(confs.take(n as int) =~= confs);
        assert(entry.specifiers@ == old(entry).specifiers@ + spec_user_specifiers(gdef));
    }
}

/// Default-level overlays never carry policy flags downstream: the
/// allow, deny and reserved-index fields apply only under declared
/// identifiers, so they are cleared before attaching; addresses,
/// display names and attribute overrides pass through unchanged.
fn strip_policy(configs: Vec<(String, DeviceUserConfig)>) -> (r: Vec<(String, DeviceUserConfig)>)
    ensures
        spec_map_allow(r@).len() == 0,
        spec_map_deny(r@).len() == 0,
        spec_map_reserved(r@).len() == 0,
        r@.len() == configs@.len(),
        forall|j: int|
            0 <= j < r@.len() ==> (#[trigger] r@[j]).0 == configs@[j].0 && r@[j].1.display_name
                == configs@[j].1.display_name && r@[j].1.messages == configs@[j].1.messages,
{
    let ghost orig = configs@;
    let mut r: Vec<(String, DeviceUserConfig)> = Vec::new();
    let n = configs.len();
    let mut configs = configs;
    let mut i: usize = 0;
    proof {
        assert(orig.skip(0) =~= orig);
    }
    while i < n
        invariant
            n == orig.len(),
            configs@ == orig.skip(i as int),
            0 <= i <= n,
            r@.len() == i,
            spec_map_allow(r@).len() == 0,
            spec_map_deny(r@).len() == 0,
            spec_map_reserved(r@).len() == 0,
            forall|j: int|
                0 <= j < i ==> (#[trigger] r@[j]).0 == orig[j].0 && r@[j].1.display_name
                    == orig[j].1.display_name && r@[j].1.messages == orig[j].1.messages,
        decreases n - i,
    {
        proof {
            assert(orig.skip(i as int)[0] == orig[i as int]);
            assert(orig.skip(i as int).remove(0) =~= orig.skip(i as int + 1));
        }
        let (address, uc) = configs.remove(0);
        let ghost pre = r@;
        r.push(
            (
                address,
                DeviceUserConfig {
                    display_name: uc.display_name,
                    allow: None,
                    deny: None,
                    messages: uc.messages,
                    index: None,
                },
            ),
        );
        proof {
            assert(r@.drop_last() =~= pre);
        }
        i = i + 1;
    }
    r
}

/// The in-memory result of loading a base catalog plus user overlays:
/// the device-facing protocol registry and the policy lists.
#[derive(Debug)]
pub struct ExternalDeviceConfiguration {
    pub allow_list: Vec<String>,
    pub deny_list: Vec<String>,
    pub reserved_indexes: Vec<(u32, String)>,
    pub protocol_configurations: Vec<(String, ProtocolDeviceConfiguration)>,
}

impl ExternalDeviceConfiguration {
    /// An empty registry with empty policy lists.
    pub fn new() -> (r: Self)
        ensures
            r.allow_list@.len() == 0,
            r.deny_list@.len() == 0,
            r.reserved_indexes@.len() == 0,
            r.protocol_configurations@.len() == 0,
    {
        Self {
            allow_list: Vec::new(),
            deny_list: Vec::new(),
            reserved_indexes: Vec::new(),
            protocol_configurations: Vec::new(),
        }
    }

    pub fn allow_list(&self) -> (r: &Vec<String>)
        ensures
            r == &self.allow_list,
    {
        &self.allow_list
    }

    pub fn deny_list(&self) -> (r: &Vec<String>)
        ensures
            r == &self.deny_list,
    {
        &self.deny_list
    }

    pub fn reserved_indexes(&self) -> (r: &Vec<(u32, String)>)
        ensures
            r == &self.reserved_indexes,
    {
        &self.reserved_indexes
    }

    pub fn protocol_configurations(&self) -> (r: &Vec<(String, ProtocolDeviceConfiguration)>)
        ensures
            r == &self.protocol_configurations,
    {
        &self.protocol_configurations
    }
}

/// The addresses a whole user catalog allow-lists against a base
/// registry: contributions of each named protocol that the registry
/// knows, in catalog order.
pub open spec fn spec_defs_allow(
    protocols: Seq<(String, ProtocolDeviceConfiguration)>,
    defs: Seq<(String, UserConfigDefinition)>,
) -> Seq<String>
    decreases defs.len(),
{
    if defs.len() == 0 {
        Seq::empty()
    } else {
        spec_defs_allow(protocols, defs.drop_last()) + (match assoc_lookup(
            protocols,
            defs.last().0@,
        ) {
            Some(pdc) => spec_def_allow(
                pdc.identifier_attributes@,
                defs.last().1.configurations@,
            ),
            None => Seq::empty(),
        })
    }
}

/// The addresses a whole user catalog deny-lists.
pub open spec fn spec_defs_deny(
    protocols: Seq<(String, ProtocolDeviceConfiguration)>,
    defs: Seq<(String, UserConfigDefinition)>,
) -> Seq<String>
    decreases defs.len(),
{
    if defs.len() == 0 {
        Seq::empty()
    } else {
        spec_defs_deny(protocols, defs.drop_last()) + (match assoc_lookup(
            protocols,
            defs.last().0@,
        ) {
            Some(pdc) => spec_def_deny(pdc.identifier_attributes@, defs.last().1.configurations@),
            None => Seq::empty(),
        })
    }
}

/// The reserved indexes a whole user catalog claims.
pub open spec fn spec_defs_reserved(
    protocols: Seq<(String, ProtocolDeviceConfiguration)>,
    defs: Seq<(String, UserConfigDefinition)>,
) -> Seq<(u32, String)>
    decreases defs.len(),
{
    if defs.len() == 0 {
        Seq::empty()
    } else {
        spec_defs_reserved(protocols, defs.drop_last()) + (match assoc_lookup(
            protocols,
            defs.last().0@,
        ) {
            Some(pdc) => spec_def_reserved(
                pdc.identifier_attributes@,
                defs.last().1.configurations@,
            ),
            None => Seq::empty(),
        })
    }
}

/// Overlays a user catalog onto a loaded registry. A user entry for a
/// protocol the registry does not know is skipped; for known
/// protocols, matchers are unioned, per-address profiles attach as
/// leaves, and allow/deny/reserved policy is recorded exactly as
/// [`spec_defs_allow`] and its siblings state.
pub fn add_user_configs_to_protocol(
    external_config: &mut ExternalDeviceConfiguration,
    user_config_def: Vec<(String, UserConfigDefinition)>,
)
    ensures
        final(external_config).allow_list@ == old(external_config).allow_list@ + spec_defs_allow(
            old(external_config).protocol_configurations@,
            user_config_def@,
        ),
        final(external_config).deny_list@ == old(external_config).deny_list@ + spec_defs_deny(
            old(external_config).protocol_configurations@,
            user_config_def@,
        ),
        final(external_config).reserved_indexes@ == old(external_config).reserved_indexes@
            + spec_defs_reserved(
            old(external_config).protocol_configurations@,
            user_config_def@,
        ),
        forall|k: Seq<char>|
            (#[trigger] assoc_lookup(
                final(external_config).protocol_configurations@,
                k,
            )) is Some == assoc_lookup(old(external_config).protocol_configurations@, k) is Some,
        forall|k: Seq<char>|
            match (
                assoc_lookup(final(external_config).protocol_configurations@, k),
                #[trigger] assoc_lookup(old(external_config).protocol_configurations@, k),
            ) {
                (Some(a), Some(b)) => a.identifier_attributes@ == b.identifier_attributes@
                    && a.default_attributes == b.default_attributes,
                (None, None) => true,
                _ => false,
            },
        // A protocol no user entry names is left exactly as it was.
        forall|k: Seq<char>|
            (forall|d: int|
                0 <= d < user_config_def@.len() ==> (#[trigger] user_config_def@[d]).0@ != k)
                ==> #[trigger] assoc_lookup(final(external_config).protocol_configurations@, k)
                == assoc_lookup(old(external_config).protocol_configurations@, k),
        // A protocol exactly one user entry names carries that entry's
        // overlay: matchers unioned, identifier and default profiles
        // untouched, and every overlaid address resolving to its
        // governing merged leaf.
        forall|d: int|
            0 <= d < user_config_def@.len() && (forall|d2: int|
                0 <= d2 < user_config_def@.len() && d2 != d ==> (
                #[trigger] user_config_def@[d2]).0@ != user_config_def@[d].0@) ==> match (
                assoc_lookup(
                    old(external_config).protocol_configurations@,
                    (#[trigger] user_config_def@[d]).0@,
                ),
                assoc_lookup(
                    final(external_config).protocol_configurations@,
                    user_config_def@[d].0@,
                ),
            ) {
                (Some(b), Some(e)) => spec_protocol_overlay_applied(
                    b,
                    user_config_def@[d].1,
                    e,
                ),
                (None, None) => true,
                _ => false,
            },
{
    let ghost protos0 = external_config.protocol_configurations@;
    let ghost defs = user_config_def@;
    let ghost allow0 = external_config.allow_list@;
    let ghost deny0 = external_config.deny_list@;
    let ghost reserved0 = external_config.reserved_indexes@;
    let n = user_config_def.len();
    let mut user_config_def = user_config_def;
    let mut i: usize = 0;
    proof {
        assert(defs.take(0) =~= Seq::<(String, UserConfigDefinition)>::empty());
        assert(defs.skip(0) =~= defs);
    }
    while i < n
        invariant
            n == defs.len(),
            user_config_def@ == defs.skip(i as int),
            0 <= i <= n,
            external_config.allow_list@ == allow0 + spec_defs_allow(protos0, defs.take(i as int)),
            external_config.deny_list@ == deny0 + spec_defs_deny(protos0, defs.take(i as int)),
            external_config.reserved_indexes@ == reserved0 + spec_defs_reserved(
                protos0,
                defs.take(i as int),
            ),
            forall|k: Seq<char>|
                (#[trigger] assoc_lookup(
                    external_config.protocol_configurations@,
                    k,
                )) is Some == assoc_lookup(protos0, k) is Some,
            forall|k: Seq<char>|
                match (
                    assoc_lookup(external_config.protocol_configurations@, k),
                    #[trigger] assoc_lookup(protos0, k),
                ) {
                    (Some(a), Some(b)) => a.identifier_attributes@ == b.identifier_attributes@
                        && a.default_attributes == b.default_attributes,
                    (None, None) => true,
                    _ => false,
                },
            forall|k: Seq<char>|
                (forall|d: int| 0 <= d < i ==> (#[trigger] defs[d]).0@ != k)
                    ==> #[trigger] assoc_lookup(external_config.protocol_configurations@, k)
                    == assoc_lookup(protos0, k),
            forall|d: int|
                0 <= d < i && (forall|d2: int|
                    0 <= d2 < defs.len() && d2 != d ==> (#[trigger] defs[d2]).0@
                        != defs[d].0@) ==> match (
                    assoc_lookup(protos0, (#[trigger] defs[d]).0@),
                    assoc_lookup(external_config.protocol_configurations@, defs[d].0@),
                ) {
                    (Some(b), Some(e)) => spec_protocol_overlay_applied(b, defs[d].1, e),
                    (None, None) => true,
                    _ => false,
                },
        decreases n - i,
    {
        proof {
            assert(defs.skip(i as int)[0] == defs[i as int]);
            assert(defs.skip(i as int).remove(0) =~= defs.skip(i as int + 1));
        }
        let pair = user_config_def.remove(0);
        i = i + 1;
        let ghost j0 = i - 1;
        let (protocol_name, def) = pair;
        let ghost gdef = def;
        let index_opt = crate::util::assoc_index_of(
            &external_config.protocol_configurations,
            &protocol_name,
        );
        if let Some(index) = index_opt {
            let ghost pre_protos = external_config.protocol_configurations@;
            let mut entry = external_config.protocol_configurations.remove(index);
            let ghost entry0 = entry;
            proof {
                crate::util::lemma_assoc_lookup_at_first(pre_protos, index as int);
                assert(assoc_lookup(pre_protos, protocol_name@) == Some(entry0.1));
                assert(match assoc_lookup(protos0, protocol_name@) {
                    Some(b) => b.identifier_attributes@ == entry0.1.identifier_attributes@,
                    None => false,
                });
            }
            apply_user_config_to_protocol(
                &mut entry.1,
                def,
                &mut external_config.allow_list,
                &mut external_config.deny_list,
                &mut external_config.reserved_indexes,
            );
            external_config.protocol_configurations.insert(index, entry);
            proof {
                assert(external_config.protocol_configurations@ =~= pre_protos.update(
                    index as int,
                    (entry0.0, entry.1),
                ));
                assert forall|k: Seq<char>| true implies #[trigger] assoc_lookup(
                    external_config.protocol_configurations@,
                    k,
                ) == (if k == entry0.0@ {
                    Some(entry.1)
                } else {
                    assoc_lookup(pre_protos, k)
                }) by {
                    crate::util::lemma_assoc_lookup_update(
                        pre_protos,
                        index as int,
                        (entry0.0, entry.1),
                        k,
                    );
                }
                assert(match assoc_lookup(protos0, protocol_name@) {
                    Some(b) => spec_def_allow(b.identifier_attributes@, gdef.configurations@)
                        == spec_def_allow(
                        entry0.1.identifier_attributes@,
                        gdef.configurations@,
                    ) && spec_def_deny(b.identifier_attributes@, gdef.configurations@)
                        == spec_def_deny(entry0.1.identifier_attributes@, gdef.configurations@)
                        && spec_def_reserved(b.identifier_attributes@, gdef.configurations@)
                        == spec_def_reserved(
                        entry0.1.identifier_attributes@,
                        gdef.configurations@,
                    ),
                    None => false,
                });
            }
        } else {
            proof {
                assert(assoc_lookup(external_config.protocol_configurations@, protocol_name@)
                    is None) by {
                    if assoc_lookup(
                        external_config.protocol_configurations@,
                        protocol_name@,
                    ) is Some {
                        lemma_assoc_lookup_some_member(
                            external_config.protocol_configurations@,
                            protocol_name@,
                        );
                    }
                }
                assert(assoc_lookup(protos0, protocol_name@) is None);
            }
        }
        proof {
            assert(defs.take(j0 as int).push(defs[j0 as int]) =~= defs.take(i as int));
            assert(defs.take(i as int).drop_last() =~= defs.take(j0 as int));
            assert(defs.take(i as int).last() == defs[j0 as int]);
            assert(external_config.allow_list@ =~= allow0 + spec_defs_allow(
                protos0,
                defs.take(i as int),
            ));
            assert(external_config.deny_list@ =~= deny0 + spec_defs_deny(
                protos0,
                defs.take(i as int),
            ));
            assert(external_config.reserved_indexes@ =~= reserved0 + spec_defs_reserved(
                protos0,
                defs.take(i as int),
            ));
        }
    }
    proof {
        assert(defs.take(n as int) =~= defs);
    }
}

/// A successful lookup means some entry carries the key.
proof fn lemma_assoc_lookup_some_member<V>(s: Seq<(String, V)>, k: Seq<char>)
    requires
        assoc_lookup(s, k) is Some,
    ensures
        exists|j: int| 0 <= j < s.len() && (#[trigger] s[j]).0@ == k,
    decreases s.len(),
{
    if s.len() > 0 {
        if s[0].0@ == k {
        } else {
            lemma_assoc_lookup_some_member(s.drop_first(), k);
            let j = choose|j: int|
                0 <= j < s.drop_first().len() && (#[trigger] s.drop_first()[j]).0@ == k;
            assert(s[j + 1].0@ == k);
        }
    }
}

/// Validates a decoded catalog document. A document that failed to
/// decode is rejected outright; one declaring a version older than the
/// runtime's is rejected unless the check is explicitly skipped (as it
/// is for locally authored user catalogs).
pub fn load_protocol_config_from_json(
    parsed_config: Option<ProtocolConfiguration>,
    skip_version_check: bool,
) -> (r: Result<ProtocolConfiguration, ButtplugError>)
    ensures
        match parsed_config {
            None => r == Err::<ProtocolConfiguration, ButtplugError>(
                ButtplugError::ButtplugDeviceError(
                    ButtplugDeviceError::DeviceConfigurationFileError,
                ),
            ),
            Some(c) => if !skip_version_check && c.version < INTERNAL_CONFIG_VERSION {
                r == Err::<ProtocolConfiguration, ButtplugError>(
                    ButtplugError::ButtplugDeviceError(
                        ButtplugDeviceError::DeviceConfigurationVersionError(
                            c.version,
                            INTERNAL_CONFIG_VERSION,
                        ),
                    ),
                )
            } else {
                r == Ok::<ProtocolConfiguration, ButtplugError>(c)
            },
        },
{
    match parsed_config {
        None => Err(
            ButtplugError::ButtplugDeviceError(ButtplugDeviceError::DeviceConfigurationFileError),
        ),
        Some(c) => {
            if !skip_version_check && c.version < INTERNAL_CONFIG_VERSION {
                Err(
                    ButtplugError::ButtplugDeviceError(
                        ButtplugDeviceError::DeviceConfigurationVersionError(
                            c.version,
                            INTERNAL_CONFIG_VERSION,
                        ),
                    ),
                )
            } else {
                Ok(c)
            }
        },
    }
}

/// The protocol names of the runtime's built-in catalog, in catalog
/// order.
pub open spec fn spec_builtin_protocol_names() -> Seq<Seq<char>> {
    seq![
        "magic-motion-3"@,
        "mizzzee"@,
        "youou"@,
        "hismith"@,
        "kizuna"@,
        "hgod"@,
        "vorze-sa"@,
        "satisfyer"@,
        "thehandy"@,
        "tcode-v03"@,
    ]
}

/// A protocol list carries a key exactly when its name sequence does.
pub proof fn lemma_have_key_iff_name_member(s: Seq<(String, ProtocolDefinition)>, k: Seq<char>)
    ensures
        spec_protocols_have_key(s, k) == s.map_values(
            |p: (String, ProtocolDefinition)| p.0@,
        ).contains(k),
{
    let names = s.map_values(|p: (String, ProtocolDefinition)| p.0@);
    if spec_protocols_have_key(s, k) {
        let j = choose|j: int| 0 <= j < s.len() && (#[trigger] s[j]).0@ == k;
        assert(names[j] == k);
    }
    if names.contains(k) {
        let j = choose|j: int| 0 <= j < names.len() && names[j] == k;
        assert(s[j].0@ == k);
    }
}

/// Whether a protocol list carries an entry named `k`.
pub open spec fn spec_protocols_have_key(
    protocols: Seq<(String, ProtocolDefinition)>,
    k: Seq<char>,
) -> bool {
    exists|j: int| 0 <= j < protocols.len() && (#[trigger] protocols[j]).0@ == k
}

/// Builds the device-facing registry from a base catalog and an
/// optional user catalog. A missing base catalog falls back to the
/// runtime's built-in one; validation failures of either document
/// surface as configuration errors and nothing is built.
pub fn load_protocol_configs_from_json(
    main_config: Option<ProtocolConfiguration>,
    user_config: Option<ProtocolConfiguration>,
    skip_version_check: bool,
) -> (r: Result<ExternalDeviceConfiguration, ButtplugError>)
    ensures
        r is Err <==> (!skip_version_check && ((main_config matches Some(m) && m.version
            < INTERNAL_CONFIG_VERSION) || (user_config matches Some(u) && u.version
            < INTERNAL_CONFIG_VERSION))),
        match r {
            Ok(external) => {
                &&& match main_config {
                    Some(m) => (forall|k: Seq<char>|
                        (#[trigger] assoc_lookup(
                            external.protocol_configurations@,
                            k,
                        )) is Some == spec_protocols_have_key(
                            spec_entry_seq_generic(m.protocols),
                            k,
                        )) && (user_config is None ==> forall|j: int|
                        0 <= j < spec_entry_seq_generic(m.protocols).len() && (forall|j2: int|
                            0 <= j2 < spec_entry_seq_generic(m.protocols).len() && j2 != j ==> (
                            #[trigger] spec_entry_seq_generic(m.protocols)[j2]).0@
                                != spec_entry_seq_generic(m.protocols)[j].0@)
                            ==> match assoc_lookup(
                            external.protocol_configurations@,
                            (#[trigger] spec_entry_seq_generic(m.protocols)[j]).0@,
                        ) {
                            Some(e) => spec_is_device_configuration(
                                e,
                                spec_entry_seq_generic(m.protocols)[j].1,
                            ),
                            None => false,
                        }),
                    None => forall|k: Seq<char>|
                        (#[trigger] assoc_lookup(
                            external.protocol_configurations@,
                            k,
                        )) is Some == spec_builtin_protocol_names().contains(k),
                }
                &&& ((match user_config {
                    Some(u) => match u.user_configs {
                        Some(defs) => defs@.len() == 0,
                        None => true,
                    },
                    None => true,
                }) ==> external.allow_list@.len() == 0 && external.deny_list@.len() == 0
                    && external.reserved_indexes@.len() == 0)
            },
            Err(e) => if main_config matches Some(m) && m.version < INTERNAL_CONFIG_VERSION {
                e == ButtplugError::ButtplugDeviceError(
                    ButtplugDeviceError::DeviceConfigurationVersionError(
                        main_config->Some_0.version,
                        INTERNAL_CONFIG_VERSION,
                    ),
                )
            } else {
                e == ButtplugError::ButtplugDeviceError(
                    ButtplugDeviceError::DeviceConfigurationVersionError(
                        user_config->Some_0.version,
                        INTERNAL_CONFIG_VERSION,
                    ),
                )
            },
        },
{
    let ghost from_builtin = main_config is None;
    let main = match main_config {
        Some(c) => c,
        None => internal_device_configuration(),
    };
    let ghost main0 = main;
    let main = load_protocol_config_from_json(Some(main), skip_version_check)?;
    let mut external = ExternalDeviceConfiguration::new();
    if let Some(protocol_defs) = main.protocols {
        let ghost defs0 = protocol_defs@;
        let n = protocol_defs.len();
        let mut protocol_defs = protocol_defs;
        let mut i: usize = 0;
        proof {
            assert(defs0.skip(0) =~= defs0);
            assert(!spec_protocols_have_key(defs0.take(0), Seq::<char>::empty()));
        }
        while i < n
            invariant
                n == defs0.len(),
                protocol_defs@ == defs0.skip(i as int),
                0 <= i <= n,
                external.allow_list@.len() == 0,
                external.deny_list@.len() == 0,
                external.reserved_indexes@.len() == 0,
                forall|k: Seq<char>|
                    (#[trigger] assoc_lookup(
                        external.protocol_configurations@,
                        k,
                    )) is Some == spec_protocols_have_key(defs0.take(i as int), k),
                forall|j: int|
                    0 <= j < i && (forall|j2: int|
                        0 <= j2 < defs0.len() && j2 != j ==> (#[trigger] defs0[j2]).0@
                            != defs0[j].0@) ==> match assoc_lookup(
                        external.protocol_configurations@,
                        (#[trigger] defs0[j]).0@,
                    ) {
                        Some(e) => spec_is_device_configuration(e, defs0[j].1),
                        None => false,
                    },
            decreases n - i,
        {
            proof {
                assert(defs0.skip(i as int)[0] == defs0[i as int]);
                assert(defs0.skip(i as int).remove(0) =~= defs0.skip(i as int + 1));
            }
            let (name, def) = protocol_defs.remove(0);
            let ghost gname = name@;
            let ghost gdef = def;
            let ghost pre = external.protocol_configurations@;
            let entry = (name, def.into_device_configuration());
            let ghost gentry = entry;
            external.protocol_configurations.insert(0, entry);
            proof {
                assert(external.protocol_configurations@ =~= pre.insert(0, gentry));
                assert forall|k: Seq<char>|
                    (#[trigger] assoc_lookup(
                        external.protocol_configurations@,
                        k,
                    )) is Some == spec_protocols_have_key(defs0.take(i as int + 1), k) by {
                    crate::util::lemma_assoc_lookup_prepend(pre, gentry, k);
                    if k == gname {
                        assert(defs0.take(i as int + 1)[i as int].0@ == k);
                    } else {
                        assert(spec_protocols_have_key(defs0.take(i as int + 1), k)
                            == spec_protocols_have_key(defs0.take(i as int), k)) by {
                            if spec_protocols_have_key(defs0.take(i as int + 1), k) {
                                let j = choose|j: int|
                                    0 <= j < defs0.take(i as int + 1).len() && (
                                    #[trigger] defs0.take(i as int + 1)[j]).0@ == k;
                                assert(j < i as int + 1);
                                if j < i as int {
                                    assert(defs0.take(i as int)[j].0@ == k);
                                }
                            }
                            if spec_protocols_have_key(defs0.take(i as int), k) {
                                let j = choose|j: int|
                                    0 <= j < defs0.take(i as int).len() && (#[trigger] defs0.take(
                                        i as int,
                                    )[j]).0@ == k;
                                assert(defs0.take(i as int + 1)[j].0@ == k);
                            }
                        }
                    }
                }
                assert forall|k: Seq<char>| k != gname implies #[trigger] assoc_lookup(
                    external.protocol_configurations@,
                    k,
                ) == assoc_lookup(pre, k) by {
                    crate::util::lemma_assoc_lookup_prepend(pre, gentry, k);
                }
                assert forall|j: int|
                    0 <= j < i + 1 && (forall|j2: int|
                        0 <= j2 < defs0.len() && j2 != j ==> (#[trigger] defs0[j2]).0@
                            != defs0[j].0@) implies match assoc_lookup(
                    external.protocol_configurations@,
                    (#[trigger] defs0[j]).0@,
                ) {
                    Some(e) => spec_is_device_configuration(e, defs0[j].1),
                    None => false,
                } by {
                    if j == i as int {
                        assert(defs0[j].0@ == gname && defs0[j].1 == gdef);
                        assert(assoc_lookup(external.protocol_configurations@, gname) == Some(
                            gentry.1,
                        ));
                        assert(spec_is_device_configuration(gentry.1, gdef));
                    } else {
                        assert(defs0[j].0@ != gname);
                        assert(assoc_lookup(external.protocol_configurations@, defs0[j].0@)
                            == assoc_lookup(pre, defs0[j].0@));
                    }
                }
            }
            i = i + 1;
        }
        proof {
            assert(defs0.take(n as int) =~= defs0);
            if from_builtin {
                assert forall|k: Seq<char>|
                    (#[trigger] assoc_lookup(
                        external.protocol_configurations@,
                        k,
                    )) is Some == spec_builtin_protocol_names().contains(k) by {
                    lemma_have_key_iff_name_member(defs0, k);
                }
            }
        }
    }
    if let Some(user) = user_config {
        let user = load_protocol_config_from_json(Some(user), skip_version_check)?;
        if let Some(user_defs) = user.user_configs {
            add_user_configs_to_protocol(&mut external, user_defs);
        }
    }
    Ok(external)
}

/// One built-in Bluetooth LE protocol entry: name matchers plus a
/// default profile declaring per-kind feature step counts.
fn builtin_btle_protocol(
    names: Vec<String>,
    vibrate_steps: Vec<u32>,
    rotate_steps: Vec<u32>,
    linear_steps: Vec<u32>,
) -> ProtocolDefinition {
    let mut messages: Vec<(ButtplugDeviceMessageType, DeviceMessageAttributes)> = Vec::new();
    if vibrate_steps.len() > 0 {
        let count = #[verifier::truncate] (vibrate_steps.len() as u32);
        messages.push(
            (
                ButtplugDeviceMessageType::VibrateCmd,
                DeviceMessageAttributes::new(count, vibrate_steps),
            ),
        );
    }
    if rotate_steps.len() > 0 {
        let count = #[verifier::truncate] (rotate_steps.len() as u32);
        messages.push(
            (
                ButtplugDeviceMessageType::RotateCmd,
                DeviceMessageAttributes::new(count, rotate_steps),
            ),
        );
    }
    if linear_steps.len() > 0 {
        let count = #[verifier::truncate] (linear_steps.len() as u32);
        messages.push(
            (
                ButtplugDeviceMessageType::LinearCmd,
                DeviceMessageAttributes::new(count, linear_steps),
            ),
        );
    }
    ProtocolDefinition {
        usb: None,
        btle: Some(BluetoothLESpecifier::new(names, Vec::new())),
        serial: None,
        hid: None,
        xinput: None,
        websocket: None,
        lovense_connect_service: None,
        defaults: Some(
            ProtocolAttributes { identifier: None, name: None, messages: Some(messages) },
        ),
        configurations: Vec::new(),
    }
}

/// The runtime's built-in base catalog: a representative set of
/// Bluetooth LE protocols with their advertised-name matchers and
/// default capability profiles.
pub fn internal_device_configuration() -> (r: ProtocolConfiguration)
    ensures
        r.version == INTERNAL_CONFIG_VERSION,
        r.protocols is Some,
        spec_entry_seq_generic(r.protocols).map_values(|p: (String, ProtocolDefinition)| p.0@)
            == spec_builtin_protocol_names(),
        r.user_configs is None,
{
    let mut protocols: Vec<(String, ProtocolDefinition)> = Vec::new();
    let mut names: Vec<String> = Vec::new();
    names.push(String::from_str("Krush"));
    let mut steps: Vec<u32> = Vec::new();
    steps.push(78);
    protocols.push(
        (
            String::from_str("magic-motion-3"),
            builtin_btle_protocol(names, steps, Vec::new(), Vec::new()),
        ),
    );
    let mut names: Vec<String> = Vec::new();
    names.push(String::from_str("NFY008"));
    let mut steps: Vec<u32> = Vec::new();
    steps.push(68);
    protocols.push(
        (
            String::from_str("mizzzee"),
            builtin_btle_protocol(names, steps, Vec::new(), Vec::new()),
        ),
    );
    let mut names: Vec<String> = Vec::new();
    names.push(String::from_str("VX001_*"));
    let mut steps: Vec<u32> = Vec::new();
    steps.push(247);
    protocols.push(
        (
            String::from_str("youou"),
            builtin_btle_protocol(names, steps, Vec::new(), Vec::new()),
        ),
    );
    let mut names: Vec<String> = Vec::new();
    names.push(String::from_str("HISMITH*"));
    let mut steps: Vec<u32> = Vec::new();
    steps.push(100);
    protocols.push(
        (
            String::from_str("hismith"),
            builtin_btle_protocol(names, steps, Vec::new(), Vec::new()),
        ),
    );
    let mut names: Vec<String> = Vec::new();
    names.push(String::from_str("NS01*"));
    let mut steps: Vec<u32> = Vec::new();
    steps.push(100);
    protocols.push(
        (
            String::from_str("kizuna"),
            builtin_btle_protocol(names, steps, Vec::new(), Vec::new()),
        ),
    );
    let mut names: Vec<String> = Vec::new();
    names.push(String::from_str("HGOD*"));
    let mut steps: Vec<u32> = Vec::new();
    steps.push(100);
    protocols.push(
        (
            String::from_str("hgod"),
            builtin_btle_protocol(names, steps, Vec::new(), Vec::new()),
        ),
    );
    let mut names: Vec<String> = Vec::new();
    names.push(String::from_str("Bach smart"));
    names.push(String::from_str("ROCKET"));
    names.push(String::from_str("CycSA"));
    names.push(String::from_str("UFO SA"));
    names.push(String::from_str("VorzePiston"));
    protocols.push((String::from_str("vorze-sa"), builtin_vorze_protocol(names)));
    let mut names: Vec<String> = Vec::new();
    names.push(String::from_str("SF*"));
    let mut steps: Vec<u32> = Vec::new();
    steps.push(100);
    steps.push(100);
    protocols.push(
        (
            String::from_str("satisfyer"),
            builtin_btle_protocol(names, steps, Vec::new(), Vec::new()),
        ),
    );
    let mut names: Vec<String> = Vec::new();
    names.push(String::from_str("The Handy"));
    let mut linear_steps: Vec<u32> = Vec::new();
    linear_steps.push(100);
    protocols.push(
        (
            String::from_str("thehandy"),
            builtin_btle_protocol(names, Vec::new(), Vec::new(), linear_steps),
        ),
    );
    let mut names: Vec<String> = Vec::new();
    names.push(String::from_str("TCODE-*"));
    let mut vibrate_steps: Vec<u32> = Vec::new();
    vibrate_steps.push(99);
    let mut linear_steps: Vec<u32> = Vec::new();
    linear_steps.push(99);
    protocols.push(
        (
            String::from_str("tcode-v03"),
            builtin_btle_protocol(names, vibrate_steps, Vec::new(), linear_steps),
        ),
    );
    proof {
        assert(protocols@.map_values(|p: (String, ProtocolDefinition)| p.0@)
            =~= spec_builtin_protocol_names());
    }
    ProtocolConfiguration {
        version: INTERNAL_CONFIG_VERSION,
        protocols: Some(protocols),
        user_configs: None,
    }
}

/// Builds a device configuration manager over the built-in catalog,
/// as test setups do: every built-in protocol ends up registered.
pub fn create_test_dcm(allow_raw_messages: bool) -> (r: DeviceConfigurationManager)
    ensures
        r.allow_raw_messages == allow_raw_messages,
        forall|j: int|
            0 <= j < spec_builtin_protocol_names().len() ==> assoc_lookup(
                r.protocol_configurations@,
                #[trigger] spec_builtin_protocol_names()[j],
            ) is Some,
{
    let devices = match load_protocol_configs_from_json(None, None, false) {
        Ok(d) => d,
        Err(_) => vstd::pervasive::unreached(),
    };
    let mut dcm = DeviceConfigurationManager::new(allow_raw_messages);
    let mut entries = devices.protocol_configurations;
    let ghost entries0 = entries@;
    let n = entries.len();
    let mut i: usize = 0;
    proof {
        assert(entries0.skip(0) =~= entries0);
    }
    while i < n
        invariant
            n == entries0.len(),
            entries@ == entries0.skip(i as int),
            0 <= i <= n,
            dcm.allow_raw_messages == allow_raw_messages,
            forall|j: int|
                0 <= j < i ==> assoc_lookup(
                    dcm.protocol_configurations@,
                    (#[trigger] entries0[j]).0@,
                ) is Some,
        decreases n - i,
    {
        proof {
            assert(entries0.skip(i as int)[0] == entries0[i as int]);
            assert(entries0.skip(i as int).remove(0) =~= entries0.skip(i as int + 1));
        }
        let (name, def) = entries.remove(0);
        let _ = dcm.add_protocol_device_configuration(&name, def);
        i = i + 1;
    }
    proof {
        assert forall|j: int|
            0 <= j < spec_builtin_protocol_names().len() implies assoc_lookup(
            dcm.protocol_configurations@,
            #[trigger] spec_builtin_protocol_names()[j],
        ) is Some by {
            let k = spec_builtin_protocol_names()[j];
            assert(assoc_lookup(entries0, k) is Some);
            lemma_assoc_lookup_some_member(entries0, k);
        }
    }
    dcm
}

/// The built-in entry for the vorze hardware family: each device model
/// is an identifier-level profile declaring only the command kind its
/// hardware has.
fn builtin_vorze_protocol(names: Vec<String>) -> ProtocolDefinition {
    let mut configurations: Vec<ProtocolAttributes> = Vec::new();
    let mut identifiers: Vec<String> = Vec::new();
    identifiers.push(String::from_str("Bach smart"));
    identifiers.push(String::from_str("ROCKET"));
    let mut steps: Vec<u32> = Vec::new();
    steps.push(100);
    let mut messages: Vec<(ButtplugDeviceMessageType, DeviceMessageAttributes)> = Vec::new();
    messages.push((ButtplugDeviceMessageType::VibrateCmd, DeviceMessageAttributes::new(1, steps)));
    configurations.push(
        ProtocolAttributes {
            identifier: Some(identifiers),
            name: None,
            messages: Some(messages),
        },
    );
    let mut identifiers: Vec<String> = Vec::new();
    identifiers.push(String::from_str("CycSA"));
    identifiers.push(String::from_str("UFO SA"));
    let mut steps: Vec<u32> = Vec::new();
    steps.push(100);
    let mut messages: Vec<(ButtplugDeviceMessageType, DeviceMessageAttributes)> = Vec::new();
    messages.push((ButtplugDeviceMessageType::RotateCmd, DeviceMessageAttributes::new(1, steps)));
    configurations.push(
        ProtocolAttributes {
            identifier: Some(identifiers),
            name: None,
            messages: Some(messages),
        },
    );
    let mut identifiers: Vec<String> = Vec::new();
    identifiers.push(String::from_str("VorzePiston"));
    let mut steps: Vec<u32> = Vec::new();
    steps.push(200);
    let mut messages: Vec<(ButtplugDeviceMessageType, DeviceMessageAttributes)> = Vec::new();
    messages.push((ButtplugDeviceMessageType::LinearCmd, DeviceMessageAttributes::new(1, steps)));
    configurations.push(
        ProtocolAttributes {
            identifier: Some(identifiers),
            name: None,
            messages: Some(messages),
        },
    );
    ProtocolDefinition {
        usb: None,
        btle: Some(BluetoothLESpecifier::new(names, Vec::new())),
        serial: None,
        hid: None,
        xinput: None,
        websocket: None,
        lovense_connect_service: None,
        defaults: None,
        configurations,
    }
}

} // verus!
