//! Capability profiles and identity resolution.
//!
//! A discovered device's advertised identity is resolved to a
//! [`ProtocolDeviceAttributes`] profile through a fixed precedence
//! chain: an address-level entry wins over an identifier-level entry,
//! which wins over the protocol default. Profiles may inherit from a
//! parent profile; the chain is built once at configuration time and
//! never mutated afterwards.

use vstd::prelude::*;
use crate::errors::{ButtplugError, ButtplugDeviceError, ButtplugServerError};
use crate::messages::ButtplugDeviceMessageType;
use crate::util::{
    assoc_lookup, assoc_get, assoc_contains_key, lemma_assoc_lookup_prepend, name_matches,
    spec_name_matches, string_seq_contains, string_vec_contains,
};

verus! {

/// Largest step count a capability profile may declare for a feature.
pub const MAX_STEP_COUNT: u32 = 1_000_000;

/// Declared shape of one command kind: how many features it drives and
/// how many discrete steps each feature resolves.
#[derive(Debug)]
#[verifier::ext_equal]
pub struct DeviceMessageAttributes {
    pub feature_count: u32,
    pub step_count: Vec<u32>,
}

impl DeviceMessageAttributes {
    /// One step count per declared feature, each nonzero and bounded.
    pub open spec fn wf(self) -> bool {
        &&& self.step_count@.len() == self.feature_count
        &&& forall|i: int|
            0 <= i < self.step_count@.len() ==> 1 <= #[trigger] self.step_count@[i]
                <= MAX_STEP_COUNT
    }

    pub fn new(feature_count: u32, step_count: Vec<u32>) -> (r: Self)
        ensures
            r == (DeviceMessageAttributes { feature_count, step_count }),
    {
        Self { feature_count, step_count }
    }
}

/// Mathematical shape of one command kind's attributes.
pub struct DmaView {
    pub feature_count: u32,
    pub step_count: Seq<u32>,
}

impl View for DeviceMessageAttributes {
    type V = DmaView;

    open spec fn view(&self) -> DmaView {
        DmaView { feature_count: self.feature_count, step_count: self.step_count@ }
    }
}

/// First attribute entry declared for `t` in an attribute list.
pub open spec fn message_type_lookup(
    s: Seq<(ButtplugDeviceMessageType, DeviceMessageAttributes)>,
    t: ButtplugDeviceMessageType,
) -> Option<DeviceMessageAttributes>
    decreases s.len(),
{
    if s.len() == 0 {
        None
    } else if s[0].0 == t {
        Some(s[0].1)
    } else {
        message_type_lookup(s.drop_first(), t)
    }
}

/// A capability profile: a name, per-command-kind attributes, and an
/// optional parent profile consulted for anything not declared here.
#[derive(Debug)]
#[verifier::ext_equal]
pub struct ProtocolDeviceAttributes {
    pub name: Option<String>,
    pub display_name: Option<String>,
    pub message_attributes: Vec<(ButtplugDeviceMessageType, DeviceMessageAttributes)>,
    pub parent: Option<Box<ProtocolDeviceAttributes>>,
}

impl ProtocolDeviceAttributes {
    pub fn new(
        name: Option<String>,
        display_name: Option<String>,
        message_attributes: Vec<(ButtplugDeviceMessageType, DeviceMessageAttributes)>,
        parent: Option<Box<ProtocolDeviceAttributes>>,
    ) -> (r: Self)
        ensures
            r == (ProtocolDeviceAttributes { name, display_name, message_attributes, parent }),
    {
        Self { name, display_name, message_attributes, parent }
    }

    /// Every declared attribute entry along the chain is well formed.
    pub open spec fn wf(self) -> bool
        decreases self,
    {
        &&& forall|i: int|
            0 <= i < self.message_attributes@.len() ==> (
            #[trigger] self.message_attributes@[i]).1.wf()
        &&& match self.parent {
            Some(p) => p.wf(),
            None => true,
        }
    }

    /// The attributes this profile resolves for command kind `t`: its
    /// own declaration if present, else the parent chain's.
    pub open spec fn spec_message_attributes(self, t: ButtplugDeviceMessageType) -> Option<DmaView>
        decreases self,
    {
        match message_type_lookup(self.message_attributes@, t) {
            Some(a) => Some(a@),
            None => match self.parent {
                Some(p) => p.spec_message_attributes(t),
                None => None,
            },
        }
    }

    /// Resolves the attributes for command kind `t` through the parent
    /// chain.
    pub fn message_attributes_for(&self, t: ButtplugDeviceMessageType) -> (r: Option<
        &DeviceMessageAttributes,
    >)
        ensures
            match r {
                Some(a) => self.spec_message_attributes(t) == Some(a@),
                None => self.spec_message_attributes(t) is None,
            },
        decreases *self,
    {
        let n = self.message_attributes.len();
        let mut i: usize = 0;
        proof {
            assert(self.message_attributes@.skip(0) =~= self.message_attributes@);
        }
        while i < n
            invariant
                n == self.message_attributes@.len(),
                0 <= i <= n,
                message_type_lookup(self.message_attributes@, t) == message_type_lookup(
                    self.message_attributes@.skip(i as int),
                    t,
                ),
            decreases n - i,
        {
            proof {
                assert(self.message_attributes@.skip(i as int).drop_first() =~= self
                    .message_attributes@.skip(i as int + 1));
                assert(self.message_attributes@.skip(i as int)[0] == self.message_attributes@[i as int]);
            }
            if self.message_attributes[i].0 == t {
                return Some(&self.message_attributes[i].1);
            }
            i = i + 1;
        }
        match &self.parent {
            Some(p) => p.message_attributes_for(t),
            None => None,
        }
    }

    /// Number of features the profile declares for `t`, or zero.
    pub fn feature_count_for(&self, t: ButtplugDeviceMessageType) -> (r: u32)
        ensures
            r == match self.spec_message_attributes(t) {
                Some(a) => a.feature_count,
                None => 0u32,
            },
    {
        match self.message_attributes_for(t) {
            Some(a) => a.feature_count,
            None => 0,
        }
    }

}

/// Entry-wise correspondence of two attribute lists: same kinds in the
/// same order, with attribute values of the same mathematical shape.
pub open spec fn spec_attr_lists_equivalent(
    a: Seq<(ButtplugDeviceMessageType, DeviceMessageAttributes)>,
    b: Seq<(ButtplugDeviceMessageType, DeviceMessageAttributes)>,
) -> bool {
    &&& a.len() == b.len()
    &&& forall|i: int|
        0 <= i < a.len() ==> (#[trigger] a[i]).0 == (#[trigger] b[i]).0 && a[i].1@ == b[i].1@
}

/// Looking a kind up in corresponding attribute lists yields the same
/// mathematical value.
pub proof fn lemma_equivalent_lookup(
    a: Seq<(ButtplugDeviceMessageType, DeviceMessageAttributes)>,
    b: Seq<(ButtplugDeviceMessageType, DeviceMessageAttributes)>,
    t: ButtplugDeviceMessageType,
)
    requires
        spec_attr_lists_equivalent(a, b),
    ensures
        match (message_type_lookup(a, t), message_type_lookup(b, t)) {
            (Some(x), Some(y)) => x@ == y@,
            (None, None) => true,
            _ => false,
        },
    decreases a.len(),
{
    if a.len() > 0 {
        if a[0].0 == t {
        } else {
            assert(spec_attr_lists_equivalent(a.drop_first(), b.drop_first())) by {
                assert(forall|i: int|
                    0 <= i < a.drop_first().len() ==> #[trigger] a.drop_first()[i] == a[i + 1]
                        && #[trigger] b.drop_first()[i] == b[i + 1]);
            }
            lemma_equivalent_lookup(a.drop_first(), b.drop_first(), t);
        }
    }
}

impl ProtocolDeviceAttributes {
    /// Copies the whole chain. The copy carries the same names and
    /// resolves the same attributes for every command kind.
    pub fn duplicate(&self) -> (r: Self)
        ensures
            r.name == self.name,
            r.display_name == self.display_name,
            forall|t: ButtplugDeviceMessageType| #[trigger]
                r.spec_message_attributes(t) == self.spec_message_attributes(t),
            r.wf() == self.wf(),
        decreases *self,
    {
        let name = match &self.name {
            Some(s) => Some(s.clone()),
            None => None,
        };
        let display_name = match &self.display_name {
            Some(s) => Some(s.clone()),
            None => None,
        };
        let n = self.message_attributes.len();
        let mut attrs: Vec<(ButtplugDeviceMessageType, DeviceMessageAttributes)> = Vec::new();
        let mut i: usize = 0;
        while i < n
            invariant
                n == self.message_attributes@.len(),
                0 <= i <= n,
                attrs@.len() == i,
                forall|j: int|
                    0 <= j < i ==> (#[trigger] attrs@[j]).0 == (
                    #[trigger] self.message_attributes@[j]).0 && attrs@[j].1@
                        == self.message_attributes@[j].1@,
            decreases n - i,
        {
            let pair = &self.message_attributes[i];
            let steps = crate::util::copy_u32_vec(&pair.1.step_count);
            attrs.push((pair.0, DeviceMessageAttributes::new(pair.1.feature_count, steps)));
            i = i + 1;
        }
        let parent = match &self.parent {
            Some(p) => Some(Box::new((**p).duplicate())),
            None => None,
        };
        let r = Self { name, display_name, message_attributes: attrs, parent };
        proof {
            assert(spec_attr_lists_equivalent(r.message_attributes@, self.message_attributes@));
            assert forall|t: ButtplugDeviceMessageType| #[trigger] r.spec_message_attributes(t)
                == self.spec_message_attributes(t) by {
                lemma_equivalent_lookup(r.message_attributes@, self.message_attributes@, t);
                match (r.parent, self.parent) {
                    (Some(rp), Some(sp)) => {
                        assert((*rp).spec_message_attributes(t) == (*sp).spec_message_attributes(
                            t,
                        ));
                    },
                    _ => {},
                }
            }
            assert forall|j: int| 0 <= j < r.message_attributes@.len() implies (
            #[trigger] r.message_attributes@[j]).1.wf() == self.message_attributes@[j].1.wf() by {
                assert(r.message_attributes@[j].1@ == self.message_attributes@[j].1@);
            }
            assert forall|j: int| 0 <= j < self.message_attributes@.len() implies (
            #[trigger] self.message_attributes@[j]).1.wf() == r.message_attributes@[j].1.wf() by {
                assert(r.message_attributes@[j].1@ == self.message_attributes@[j].1@);
            }
            assert(r.wf() == self.wf()) by {
                if self.wf() {
                    assert(r.wf());
                }
                if r.wf() {
                    assert(forall|j: int|
                        0 <= j < self.message_attributes@.len() ==> (
                        #[trigger] self.message_attributes@[j]).1.wf());
                    assert(self.wf());
                }
            }
        }
        r
    }
}

/// Decides well-formedness of one attribute entry.
fn dma_well_formed(a: &DeviceMessageAttributes) -> (r: bool)
    ensures
        r == a.wf(),
{
    if a.step_count.len() != (a.feature_count as usize) {
        return false;
    }
    let n = a.step_count.len();
    let mut i: usize = 0;
    while i < n
        invariant
            n == a.step_count@.len(),
            0 <= i <= n,
            forall|j: int| 0 <= j < i ==> 1 <= #[trigger] a.step_count@[j] <= MAX_STEP_COUNT,
        decreases n - i,
    {
        let step = a.step_count[i];
        if step < 1 || step > MAX_STEP_COUNT {
            return false;
        }
        i = i + 1;
    }
    true
}

impl ProtocolDeviceAttributes {
    /// Decides well-formedness of the whole chain, so an unverified
    /// embedder can check a resolved profile before handing it to a
    /// handler constructor whose precondition demands it.
    pub fn well_formed(&self) -> (r: bool)
        ensures
            r == self.wf(),
        decreases *self,
    {
        let n = self.message_attributes.len();
        let mut i: usize = 0;
        while i < n
            invariant
                n == self.message_attributes@.len(),
                0 <= i <= n,
                forall|j: int|
                    0 <= j < i ==> (#[trigger] self.message_attributes@[j]).1.wf(),
            decreases n - i,
        {
            if !dma_well_formed(&self.message_attributes[i].1) {
                return false;
            }
            i = i + 1;
        }
        match &self.parent {
            Some(p) => (**p).well_formed(),
            None => true,
        }
    }

    /// Decides whether every step count the profile resolves for a
    /// command kind stays within `limit`, as the byte-level wire
    /// formats of the handlers demand.
    pub fn resolved_steps_bounded(&self, t: ButtplugDeviceMessageType, limit: u32) -> (r: bool)
        ensures
            r == (match self.spec_message_attributes(t) {
                Some(a) => spec_steps_bounded(a.step_count, limit),
                None => true,
            }),
    {
        match self.message_attributes_for(t) {
            Some(a) => {
                let n = a.step_count.len();
                let mut i: usize = 0;
                let mut ok = true;
                while i < n
                    invariant
                        n == a@.step_count.len(),
                        0 <= i <= n,
                        ok == (forall|j: int| 0 <= j < i ==> #[trigger] a@.step_count[j] <= limit),
                    decreases n - i,
                {
                    if a.step_count[i] > limit {
                        proof {
                            assert(a@.step_count[i as int] > limit);
                        }
                        ok = false;
                    } else {
                        proof {
                            assert(a@.step_count[i as int] <= limit);
                        }
                    }
                    i = i + 1;
                }
                proof {
                    assert(ok == spec_steps_bounded(a@.step_count, limit));
                }
                ok
            },
            None => true,
        }
    }
}

/// Every step count in the sequence stays within `limit`.
pub open spec fn spec_steps_bounded(steps: Seq<u32>, limit: u32) -> bool {
    forall|i: int| 0 <= i < steps.len() ==> #[trigger] steps[i] <= limit
}

/// Bluetooth LE matcher: advertised-name patterns (with optional
/// trailing-star wildcards) and advertised service ids.
#[derive(Debug)]
#[verifier::ext_equal]
pub struct BluetoothLESpecifier {
    pub names: Vec<String>,
    pub services: Vec<u128>,
}

impl BluetoothLESpecifier {
    pub fn new(names: Vec<String>, services: Vec<u128>) -> (r: Self)
        ensures
            r == (BluetoothLESpecifier { names, services }),
    {
        Self { names, services }
    }
}

/// Matcher for USB transports.
#[derive(PartialEq, Eq, Structural, Debug, Clone, Copy)]
pub struct USBSpecifier {
    pub vendor_id: u16,
    pub product_id: u16,
}

/// Matcher for HID transports.
#[derive(PartialEq, Eq, Structural, Debug, Clone, Copy)]
pub struct HIDSpecifier {
    pub vendor_id: u16,
    pub product_id: u16,
}

/// Matcher for serial transports.
#[derive(Debug)]
#[verifier::ext_equal]
pub struct SerialSpecifier {
    pub port: String,
}

/// Matcher for XInput gamepad transports.
#[derive(PartialEq, Eq, Structural, Debug, Clone, Copy)]
pub struct XInputSpecifier {
    pub exists: bool,
}

/// Matcher for websocket transports.
#[derive(Debug)]
#[verifier::ext_equal]
pub struct WebsocketSpecifier {
    pub names: Vec<String>,
}

/// Matcher for the Lovense connect service.
#[derive(PartialEq, Eq, Structural, Debug, Clone, Copy)]
pub struct LovenseConnectServiceSpecifier {
    pub exists: bool,
}

/// One transport matcher of a protocol.
#[derive(Debug)]
#[verifier::ext_equal]
pub enum ProtocolDeviceSpecifier {
    BluetoothLE(BluetoothLESpecifier),
    USB(USBSpecifier),
    Serial(SerialSpecifier),
    HID(HIDSpecifier),
    XInput(XInputSpecifier),
    Websocket(WebsocketSpecifier),
    LovenseConnectService(LovenseConnectServiceSpecifier),
}

/// Whether a Bluetooth LE specifier matches an advertisement carrying
/// `name` and `services`: some name pattern matches, or some declared
/// service id was advertised.
pub open spec fn spec_btle_specifier_matches(
    b: BluetoothLESpecifier,
    name: Seq<char>,
    services: Seq<u128>,
) -> bool {
    ||| exists|i: int| 0 <= i < b.names@.len() && spec_name_matches(b.names@[i]@, name)
    ||| exists|i: int, j: int|
        0 <= i < b.services@.len() && 0 <= j < services.len() && b.services@[i] == services[j]
}

/// Whether one specifier, if it is a Bluetooth LE matcher, claims the
/// advertisement.
pub open spec fn spec_specifier_is_btle_match(
    s: ProtocolDeviceSpecifier,
    name: Seq<char>,
    services: Seq<u128>,
) -> bool {
    match s {
        ProtocolDeviceSpecifier::BluetoothLE(b) => spec_btle_specifier_matches(b, name, services),
        _ => false,
    }
}

/// Whether any specifier in the list matches a Bluetooth LE
/// advertisement.
pub open spec fn spec_specifiers_match_btle(
    specs: Seq<ProtocolDeviceSpecifier>,
    name: Seq<char>,
    services: Seq<u128>,
) -> bool {
    exists|i: int|
        0 <= i < specs.len() && spec_specifier_is_btle_match(#[trigger] specs[i], name, services)
}

/// Matches one Bluetooth LE specifier against an advertisement.
fn btle_specifier_matches(b: &BluetoothLESpecifier, name: &String, services: &Vec<u128>) -> (r:
    bool)
    ensures
        r == spec_btle_specifier_matches(*b, name@, services@),
{
    let n = b.names.len();
    let mut i: usize = 0;
    while i < n
        invariant
            n == b.names@.len(),
            0 <= i <= n,
            forall|k: int| 0 <= k < i ==> !spec_name_matches(b.names@[k]@, name@),
        decreases n - i,
    {
        if name_matches(&b.names[i], name) {
            return true;
        }
        i = i + 1;
    }
    let m = b.services.len();
    let sn = services.len();
    let mut i: usize = 0;
    while i < m
        invariant
            m == b.services@.len(),
            sn == services@.len(),
            0 <= i <= m,
            forall|k: int, l: int|
                0 <= k < i && 0 <= l < sn ==> b.services@[k] != services@[l],
            forall|k: int| 0 <= k < b.names@.len() ==> !spec_name_matches(b.names@[k]@, name@),
        decreases m - i,
    {
        let mut j: usize = 0;
        while j < sn
            invariant
                m == b.services@.len(),
                sn == services@.len(),
                0 <= i < m,
                0 <= j <= sn,
                forall|l: int| 0 <= l < j ==> b.services@[i as int] != services@[l],
            decreases sn - j,
        {
            if b.services[i] == services[j] {
                return true;
            }
            j = j + 1;
        }
        i = i + 1;
    }
    false
}

/// The full device-facing description of one protocol: its transport
/// matchers and its capability profiles at every precedence level.
#[derive(Debug)]
#[verifier::ext_equal]
pub struct ProtocolDeviceConfiguration {
    pub specifiers: Vec<ProtocolDeviceSpecifier>,
    pub default_attributes: Option<ProtocolDeviceAttributes>,
    pub identifier_attributes: Vec<(String, ProtocolDeviceAttributes)>,
    pub address_attributes: Vec<(String, ProtocolDeviceAttributes)>,
}

/// The profile a protocol resolves for a device with the given address
/// and identifier: address entries win over identifier entries, which
/// win over the protocol default. A lookup with no match at any level
/// fails closed.
pub open spec fn spec_resolve_attributes(
    config: ProtocolDeviceConfiguration,
    address: Seq<char>,
    identifier: Seq<char>,
) -> Option<ProtocolDeviceAttributes> {
    match assoc_lookup(config.address_attributes@, address) {
        Some(a) => Some(a),
        None => match assoc_lookup(config.identifier_attributes@, identifier) {
            Some(a) => Some(a),
            None => config.default_attributes,
        },
    }
}

impl ProtocolDeviceConfiguration {
    pub fn new(
        specifiers: Vec<ProtocolDeviceSpecifier>,
        default_attributes: Option<ProtocolDeviceAttributes>,
        identifier_attributes: Vec<(String, ProtocolDeviceAttributes)>,
        address_attributes: Vec<(String, ProtocolDeviceAttributes)>,
    ) -> (r: Self)
        ensures
            r == (ProtocolDeviceConfiguration {
                specifiers,
                default_attributes,
                identifier_attributes,
                address_attributes,
            }),
    {
        Self { specifiers, default_attributes, identifier_attributes, address_attributes }
    }

    pub fn specifiers(&self) -> (r: &Vec<ProtocolDeviceSpecifier>)
        ensures
            r == &self.specifiers,
    {
        &self.specifiers
    }

    /// Appends one transport matcher.
    pub fn add_specifier(&mut self, spec: ProtocolDeviceSpecifier)
        ensures
            final(self).specifiers@ == old(self).specifiers@.push(spec),
            final(self).default_attributes == old(self).default_attributes,
            final(self).identifier_attributes == old(self).identifier_attributes,
            final(self).address_attributes == old(self).address_attributes,
    {
        self.specifiers.push(spec);
    }

    /// Registers an identifier-level profile; a fresh entry shadows an
    /// older one for the same identifier.
    pub fn add_identifier_attributes(&mut self, identifier: String, attrs: ProtocolDeviceAttributes)
        ensures
            forall|k: Seq<char>|
                #[trigger] assoc_lookup(final(self).identifier_attributes@, k) == if k
                    == identifier@ {
                    Some(attrs)
                } else {
                    assoc_lookup(old(self).identifier_attributes@, k)
                },
            final(self).specifiers == old(self).specifiers,
            final(self).default_attributes == old(self).default_attributes,
            final(self).address_attributes == old(self).address_attributes,
    {
        let ghost olds = self.identifier_attributes@;
        self.identifier_attributes.insert(0, (identifier, attrs));
        proof {
            assert forall|k: Seq<char>| true implies #[trigger] assoc_lookup(
                self.identifier_attributes@,
                k,
            ) == if k == identifier@ {
                Some(attrs)
            } else {
                assoc_lookup(olds, k)
            } by {
                lemma_assoc_lookup_prepend(olds, (identifier, attrs), k);
            }
        }
    }

    /// Registers an address-level profile; a fresh entry shadows an
    /// older one for the same address.
    pub fn add_address_attributes(&mut self, address: String, attrs: ProtocolDeviceAttributes)
        ensures
            forall|k: Seq<char>|
                #[trigger] assoc_lookup(final(self).address_attributes@, k) == if k == address@ {
                    Some(attrs)
                } else {
                    assoc_lookup(old(self).address_attributes@, k)
                },
            final(self).specifiers == old(self).specifiers,
            final(self).default_attributes == old(self).default_attributes,
            final(self).identifier_attributes == old(self).identifier_attributes,
    {
        let ghost olds = self.address_attributes@;
        self.address_attributes.insert(0, (address, attrs));
        proof {
            assert forall|k: Seq<char>| true implies #[trigger] assoc_lookup(
                self.address_attributes@,
                k,
            ) == if k == address@ {
                Some(attrs)
            } else {
                assoc_lookup(olds, k)
            } by {
                lemma_assoc_lookup_prepend(olds, (address, attrs), k);
            }
        }
    }

    /// Whether this protocol claims a Bluetooth LE advertisement.
    pub fn matches_btle(&self, name: &String, services: &Vec<u128>) -> (r: bool)
        ensures
            r == spec_specifiers_match_btle(self.specifiers@, name@, services@),
    {
        let n = self.specifiers.len();
        let mut i: usize = 0;
        while i < n
            invariant
                n == self.specifiers@.len(),
                0 <= i <= n,
                forall|k: int|
                    0 <= k < i ==> !spec_specifier_is_btle_match(
                        #[trigger] self.specifiers@[k],
                        name@,
                        services@,
                    ),
            decreases n - i,
        {
            match &self.specifiers[i] {
                ProtocolDeviceSpecifier::BluetoothLE(b) => {
                    if btle_specifier_matches(b, name, services) {
                        return true;
                    }
                },
                _ => {},
            }
            i = i + 1;
        }
        false
    }

    /// Resolves the profile for a device: address entry, else
    /// identifier entry, else protocol default, else failure.
    pub fn create<'a>(&'a self, address: &String, identifier: &String) -> (r: Result<
        &'a ProtocolDeviceAttributes,
        ButtplugError,
    >)
        ensures
            match r {
                Ok(a) => spec_resolve_attributes(*self, address@, identifier@) == Some(*a),
                Err(e) => {
                    &&& spec_resolve_attributes(*self, address@, identifier@) is None
                    &&& e == ButtplugError::ButtplugDeviceError(
                        ButtplugDeviceError::ProtocolAttributesNotFound,
                    )
                },
            },
    {
        match assoc_get(&self.address_attributes, address) {
            Some(a) => Ok(a),
            None => match assoc_get(&self.identifier_attributes, identifier) {
                Some(a) => Ok(a),
                None => match &self.default_attributes {
                    Some(a) => Ok(a),
                    None => Err(
                        ButtplugError::ButtplugDeviceError(
                            ButtplugDeviceError::ProtocolAttributesNotFound,
                        ),
                    ),
                },
            },
        }
    }
}

/// Resolution precedence: while an address-level entry exists for a
/// device's address, resolution returns that entry — never the
/// identifier-level profile and never the default, whatever those hold.
pub proof fn lemma_address_overrides_identifier(
    config: ProtocolDeviceConfiguration,
    address: Seq<char>,
    identifier: Seq<char>,
)
    requires
        assoc_lookup(config.address_attributes@, address) is Some,
    ensures
        spec_resolve_attributes(config, address, identifier) == assoc_lookup(
            config.address_attributes@,
            address,
        ),
{
}

/// Resolution falls back: with no address-level entry, an
/// identifier-level entry wins over the default.
pub proof fn lemma_identifier_overrides_default(
    config: ProtocolDeviceConfiguration,
    address: Seq<char>,
    identifier: Seq<char>,
)
    requires
        assoc_lookup(config.address_attributes@, address) is None,
        assoc_lookup(config.identifier_attributes@, identifier) is Some,
    ensures
        spec_resolve_attributes(config, address, identifier) == assoc_lookup(
            config.identifier_attributes@,
            identifier,
        ),
{
}

/// Index of the first registered protocol whose specifiers claim a
/// Bluetooth LE advertisement.
pub open spec fn spec_find_btle_protocol(
    protocols: Seq<(String, ProtocolDeviceConfiguration)>,
    name: Seq<char>,
    services: Seq<u128>,
    i: int,
) -> Option<int>
    decreases protocols.len() - i,
{
    if i < 0 || i >= protocols.len() {
        None
    } else if spec_specifiers_match_btle(protocols[i].1.specifiers@, name, services) {
        Some(i)
    } else {
        spec_find_btle_protocol(protocols, name, services, i + 1)
    }
}

/// The registry of configured protocols together with the user policy
/// lists. Read-only once configuration loading finishes.
#[derive(Debug)]
pub struct DeviceConfigurationManager {
    pub allow_raw_messages: bool,
    pub protocol_configurations: Vec<(String, ProtocolDeviceConfiguration)>,
    pub allow_list: Vec<String>,
    pub deny_list: Vec<String>,
    pub reserved_indexes: Vec<(u32, String)>,
}

/// Whether policy admits a device address: a deny-list entry always
/// blocks the address; otherwise a non-empty allow-list admits only its
/// members; with neither list involved every address is admitted.
pub open spec fn spec_address_allowed(
    allow_list: Seq<String>,
    deny_list: Seq<String>,
    address: Seq<char>,
) -> bool {
    if string_seq_contains(deny_list, address) {
        false
    } else if allow_list.len() > 0 {
        string_seq_contains(allow_list, address)
    } else {
        true
    }
}

impl DeviceConfigurationManager {
    pub fn new(allow_raw_messages: bool) -> (r: Self)
        ensures
            r.allow_raw_messages == allow_raw_messages,
            r.protocol_configurations@.len() == 0,
            r.allow_list@.len() == 0,
            r.deny_list@.len() == 0,
            r.reserved_indexes@.len() == 0,
    {
        Self {
            allow_raw_messages,
            protocol_configurations: Vec::new(),
            allow_list: Vec::new(),
            deny_list: Vec::new(),
            reserved_indexes: Vec::new(),
        }
    }

    /// Registers a protocol under a name not yet taken.
    pub fn add_protocol_device_configuration(
        &mut self,
        name: &String,
        config: ProtocolDeviceConfiguration,
    ) -> (r: Result<(), ButtplugServerError>)
        ensures
            match r {
                Ok(()) => {
                    &&& assoc_lookup(old(self).protocol_configurations@, name@) is None
                    &&& forall|k: Seq<char>|
                        #[trigger] assoc_lookup(final(self).protocol_configurations@, k) == if k
                            == name@ {
                            Some(config)
                        } else {
                            assoc_lookup(old(self).protocol_configurations@, k)
                        }
                },
                Err(e) => {
                    &&& assoc_lookup(old(self).protocol_configurations@, name@) is Some
                    &&& e == ButtplugServerError::ProtocolAlreadyAdded(*name)
                    &&& *final(self) == *old(self)
                },
            },
            final(self).allow_raw_messages == old(self).allow_raw_messages,
            final(self).allow_list == old(self).allow_list,
            final(self).deny_list == old(self).deny_list,
            final(self).reserved_indexes == old(self).reserved_indexes,
    {
        if assoc_contains_key(&self.protocol_configurations, name) {
            return Err(ButtplugServerError::ProtocolAlreadyAdded(name.clone()));
        }
        let ghost olds = self.protocol_configurations@;
        self.protocol_configurations.insert(0, (name.clone(), config));
        proof {
            assert forall|k: Seq<char>| true implies #[trigger] assoc_lookup(
                self.protocol_configurations@,
                k,
            ) == if k == name@ {
                Some(config)
            } else {
                assoc_lookup(olds, k)
            } by {
                lemma_assoc_lookup_prepend(olds, (*name, config), k);
                assert(self.protocol_configurations@ =~= olds.insert(0, (*name, config)));
            }
        }
        Ok(())
    }

    /// The configuration registered under `name`, if any.
    pub fn protocol_device_configuration(&self, name: &String) -> (r: Option<
        &ProtocolDeviceConfiguration,
    >)
        ensures
            match r {
                Some(c) => assoc_lookup(self.protocol_configurations@, name@) == Some(*c),
                None => assoc_lookup(self.protocol_configurations@, name@) is None,
            },
    {
        assoc_get(&self.protocol_configurations, name)
    }

    /// Finds the first registered protocol claiming a Bluetooth LE
    /// advertisement.
    pub fn protocol_for_btle_advertisement<'a>(
        &'a self,
        name: &String,
        services: &Vec<u128>,
    ) -> (r: Option<&'a (String, ProtocolDeviceConfiguration)>)
        ensures
            match r {
                Some(entry) => {
                    &&& spec_find_btle_protocol(
                        self.protocol_configurations@,
                        name@,
                        services@,
                        0,
                    ) is Some
                    &&& *entry == self.protocol_configurations@[spec_find_btle_protocol(
                        self.protocol_configurations@,
                        name@,
                        services@,
                        0,
                    )->Some_0]
                },
                None => spec_find_btle_protocol(
                    self.protocol_configurations@,
                    name@,
                    services@,
                    0,
                ) is None,
            },
    {
        let n = self.protocol_configurations.len();
        let mut i: usize = 0;
        while i < n
            invariant
                n == self.protocol_configurations@.len(),
                0 <= i <= n,
                spec_find_btle_protocol(self.protocol_configurations@, name@, services@, 0)
                    == spec_find_btle_protocol(
                    self.protocol_configurations@,
                    name@,
                    services@,
                    i as int,
                ),
            decreases n - i,
        {
            if self.protocol_configurations[i].1.matches_btle(name, services) {
                return Some(&self.protocol_configurations[i]);
            }
            i = i + 1;
        }
        None
    }

    /// Applies the allow/deny policy to a device address; deny wins.
    pub fn address_allowed(&self, address: &String) -> (r: bool)
        ensures
            r == spec_address_allowed(self.allow_list@, self.deny_list@, address@),
    {
        if string_vec_contains(&self.deny_list, address) {
            false
        } else if self.allow_list.len() > 0 {
            string_vec_contains(&self.allow_list, address)
        } else {
            true
        }
    }
}

} // verus!
