//! The Bluetooth LE adapter task's decision core.
//!
//! The long-lived adapter task reacts to central events and scanning
//! commands. Everything it decides — which advertisements are novel
//! enough to announce, when the deduplication set resets, which
//! adapter operation a command maps to — lives here; the surrounding
//! event loop performs the adapter calls and feeds the results back
//! in. A peripheral's transport identity is its platform peripheral
//! id, modelled as a plain integer, together with the advertised name
//! and service ids.

use vstd::prelude::*;

verus! {

/// A scanning command for the adapter task.
#[derive(PartialEq, Eq, Structural, Debug, Clone, Copy)]
pub enum BtleplugAdapterCommand {
    StartScanning,
    StopScanning,
}

/// The adapter operation a scanning command maps to.
#[derive(PartialEq, Eq, Structural, Debug, Clone, Copy)]
pub enum AdapterAction {
    StartScan,
    StopScan,
}

/// One observed advertisement: the peripheral's transport identity
/// plus what it advertised.
#[derive(Debug, Clone, PartialEq)]
pub struct PeripheralInfo {
    pub name: Option<String>,
    pub peripheral_id: u64,
    pub services: Vec<u128>,
}

/// A device-found announcement handed to the session layer.
#[derive(Debug, Clone, PartialEq)]
pub struct DeviceFoundEvent {
    pub name: String,
    pub address: u64,
}

/// The mathematical identity of an advertisement.
pub open spec fn spec_info_view(p: PeripheralInfo) -> (Option<Seq<char>>, u64, Seq<u128>) {
    (
        match p.name {
            Some(s) => Some(s@),
            None => None,
        },
        p.peripheral_id,
        p.services@,
    )
}

/// Whether an advertisement carries an observable identity: a
/// non-empty name or at least one service id. Anything else cannot be
/// matched to a protocol and is ignored.
pub open spec fn spec_observable(p: PeripheralInfo) -> bool {
    ||| match p.name {
        Some(s) => s@.len() > 0,
        None => false,
    }
    ||| p.services@.len() > 0
}

/// Whether the deduplication set already holds this identity.
pub open spec fn spec_tried_contains(tried: Seq<PeripheralInfo>, p: PeripheralInfo) -> bool {
    exists|i: int| 0 <= i < tried.len() && spec_info_view(#[trigger] tried[i]) == spec_info_view(p)
}

/// The deduplication step: a novel observable advertisement joins the
/// set and is announced; anything else changes nothing.
pub open spec fn spec_maybe_add(tried: Seq<PeripheralInfo>, info: PeripheralInfo) -> (
    Seq<PeripheralInfo>,
    bool,
) {
    if spec_observable(info) && !spec_tried_contains(tried, info) {
        (tried.push(info), true)
    } else {
        (tried, false)
    }
}

/// The deduplication set after a peripheral disconnects: every record
/// of that peripheral id leaves, so it can be rediscovered.
pub open spec fn spec_remove_disconnected(tried: Seq<PeripheralInfo>, peripheral_id: u64) -> Seq<
    PeripheralInfo,
> {
    tried.filter(|p: PeripheralInfo| p.peripheral_id != peripheral_id)
}

/// Scanning dedup law, first half: once an identity has been offered
/// in a scanning session, offering it again announces nothing and
/// changes nothing — however often it advertises.
pub proof fn lemma_advertisement_dedup(
    tried: Seq<PeripheralInfo>,
    info: PeripheralInfo,
    info2: PeripheralInfo,
)
    requires
        spec_observable(info),
        spec_info_view(info2) == spec_info_view(info),
    ensures
        ({
            let (t1, e1) = spec_maybe_add(tried, info);
            let (t2, e2) = spec_maybe_add(t1, info2);
            &&& !spec_tried_contains(tried, info) ==> e1
            &&& !e2
            &&& t2 == t1
        }),
{
    let (t1, e1) = spec_maybe_add(tried, info);
    assert(spec_observable(info2)) by {
        match (info.name, info2.name) {
            (Some(_), Some(_)) => {},
            (None, None) => {},
            _ => {},
        }
    }
    if e1 {
        assert(t1 == tried.push(info));
        assert(spec_info_view(t1[tried.len() as int]) == spec_info_view(info2));
        assert(spec_tried_contains(t1, info2));
    } else {
        if spec_observable(info) {
            assert(spec_tried_contains(tried, info));
            let i = choose|i: int|
                0 <= i < tried.len() && spec_info_view(#[trigger] tried[i]) == spec_info_view(
                    info,
                );
            assert(spec_tried_contains(t1, info2));
        }
    }
}

/// Scanning dedup law, second half: after a disconnect event for a
/// peripheral id, a fresh observable advertisement of that peripheral
/// is announced again.
pub proof fn lemma_rediscovery_after_disconnect(tried: Seq<PeripheralInfo>, info: PeripheralInfo)
    requires
        spec_observable(info),
    ensures
        spec_maybe_add(spec_remove_disconnected(tried, info.peripheral_id), info).1,
{
    let pred = |p: PeripheralInfo| p.peripheral_id != info.peripheral_id;
    let t1 = tried.filter(pred);
    assert(!spec_tried_contains(t1, info)) by {
        if spec_tried_contains(t1, info) {
            let i = choose|i: int|
                0 <= i < t1.len() && spec_info_view(#[trigger] t1[i]) == spec_info_view(info);
            tried.lemma_filter_pred(pred, i);
            assert(t1[i].peripheral_id == info.peripheral_id);
        }
    }
}

/// The adapter task's mutable state: the per-scanning-session
/// deduplication set.
#[derive(Debug)]
pub struct BtleplugAdapterTask {
    pub tried_addresses: Vec<PeripheralInfo>,
}

impl BtleplugAdapterTask {
    pub fn new() -> (r: Self)
        ensures
            r.tried_addresses@.len() == 0,
    {
        Self { tried_addresses: Vec::new() }
    }

    /// Decides whether an advertisement is novel enough to announce:
    /// an observable identity not yet offered in this scanning
    /// session joins the deduplication set and yields a device-found
    /// event carrying the advertised name (or an empty name) and the
    /// peripheral id.
    pub fn maybe_add_peripheral(&mut self, info: &PeripheralInfo) -> (r: Option<DeviceFoundEvent>)
        ensures
            ({
                let (t, emits) = spec_maybe_add(old(self).tried_addresses@, *info);
                if emits {
                    &&& match r {
                        Some(e) => {
                            &&& e.address == info.peripheral_id
                            &&& e.name@ == (match info.name {
                                Some(n) => n@,
                                None => Seq::<char>::empty(),
                            })
                        },
                        None => false,
                    }
                    &&& final(self).tried_addresses@.len() == old(self).tried_addresses@.len() + 1
                    &&& final(self).tried_addresses@.take(
                        old(self).tried_addresses@.len() as int,
                    ) == old(self).tried_addresses@
                    &&& spec_info_view(final(self).tried_addresses@.last()) == spec_info_view(
                        *info,
                    )
                } else {
                    r is None && final(self).tried_addresses@ == old(self).tried_addresses@
                }
            }),
    {
        let observable = match &info.name {
            Some(n) => !n.as_str().is_empty() || info.services.len() > 0,
            None => info.services.len() > 0,
        };
        if !observable {
            return None;
        }
        if self.tried_contains(info) {
            return None;
        }
        let name = match &info.name {
            Some(n) => n.clone(),
            None => String::new(),
        };
        let services = copy_u128_vec(&info.services);
        let stored = PeripheralInfo {
            name: match &info.name {
                Some(n) => Some(n.clone()),
                None => None,
            },
            peripheral_id: info.peripheral_id,
            services,
        };
        let ghost pre = self.tried_addresses@;
        self.tried_addresses.push(stored);
        proof {
            assert(self.tried_addresses@.take(pre.len() as int) =~= pre);
        }
        Some(DeviceFoundEvent { name, address: info.peripheral_id })
    }

    /// Searches the deduplication set for an identity.
    fn tried_contains(&self, info: &PeripheralInfo) -> (r: bool)
        ensures
            r == spec_tried_contains(self.tried_addresses@, *info),
    {
        let n = self.tried_addresses.len();
        let mut i: usize = 0;
        while i < n
            invariant
                n == self.tried_addresses@.len(),
                0 <= i <= n,
                forall|j: int|
                    0 <= j < i ==> spec_info_view(#[trigger] self.tried_addresses@[j])
                        != spec_info_view(*info),
            decreases n - i,
        {
            if peripheral_info_eq(&self.tried_addresses[i], info) {
                return true;
            }
            i = i + 1;
        }
        false
    }

    /// A disconnect event removes the peripheral's records from the
    /// deduplication set, enabling rediscovery.
    pub fn on_device_disconnected(&mut self, peripheral_id: u64)
        ensures
            final(self).tried_addresses@ == spec_remove_disconnected(
                old(self).tried_addresses@,
                peripheral_id,
            ),
    {
        let ghost orig = self.tried_addresses@;
        let n = self.tried_addresses.len();
        let mut kept: Vec<PeripheralInfo> = Vec::new();
        let mut old_list: Vec<PeripheralInfo> = Vec::new();
        core::mem::swap(&mut old_list, &mut self.tried_addresses);
        let mut i: usize = 0;
        proof {
            assert(orig.take(0) =~= Seq::<PeripheralInfo>::empty());
            assert(orig.skip(0) =~= orig);
            reveal(Seq::filter);
            assert(spec_remove_disconnected(orig.take(0), peripheral_id) =~= Seq::<
                PeripheralInfo,
            >::empty());
        }
        while i < n
            invariant
                n == orig.len(),
                old_list@ == orig.skip(i as int),
                0 <= i <= n,
                kept@ == spec_remove_disconnected(orig.take(i as int), peripheral_id),
            decreases n - i,
        {
            proof {
                reveal(Seq::filter);
                assert(orig.skip(i as int)[0] == orig[i as int]);
                assert(orig.skip(i as int).remove(0) =~= orig.skip(i as int + 1));
                assert(orig.take(i as int + 1).drop_last() =~= orig.take(i as int));
                assert(orig.take(i as int + 1).last() == orig[i as int]);
            }
            let p = old_list.remove(0);
            if p.peripheral_id != peripheral_id {
                kept.push(p);
                proof {
                    reveal(Seq::filter);
                    assert(kept@ =~= spec_remove_disconnected(
                        orig.take(i as int + 1),
                        peripheral_id,
                    ));
                }
            } else {
                proof {
                    reveal(Seq::filter);
                    assert(kept@ =~= spec_remove_disconnected(
                        orig.take(i as int + 1),
                        peripheral_id,
                    ));
                }
            }
            i = i + 1;
        }
        proof {
            assert(orig.take(n as int) =~= orig);
        }
        self.tried_addresses = kept;
    }

    /// Maps a scanning command to the adapter operation to perform; a
    /// start command opens a fresh scanning session by clearing the
    /// deduplication set.
    pub fn handle_command(&mut self, command: BtleplugAdapterCommand) -> (r: AdapterAction)
        ensures
            command == BtleplugAdapterCommand::StartScanning ==> final(self).tried_addresses@.len()
                == 0 && r == AdapterAction::StartScan,
            command == BtleplugAdapterCommand::StopScanning ==> final(self).tried_addresses
                == old(self).tried_addresses && r == AdapterAction::StopScan,
    {
        match command {
            BtleplugAdapterCommand::StartScanning => {
                self.tried_addresses = Vec::new();
                AdapterAction::StartScan
            },
            BtleplugAdapterCommand::StopScanning => AdapterAction::StopScan,
        }
    }
}

/// Compares two advertisements as identities.
fn peripheral_info_eq(a: &PeripheralInfo, b: &PeripheralInfo) -> (r: bool)
    ensures
        r == (spec_info_view(*a) == spec_info_view(*b)),
{
    if a.peripheral_id != b.peripheral_id {
        return false;
    }
    let names_eq = match (&a.name, &b.name) {
        (Some(x), Some(y)) => *x == *y,
        (None, None) => true,
        _ => false,
    };
    if !names_eq {
        proof {
            assert(spec_info_view(*a).0 != spec_info_view(*b).0);
        }
        return false;
    }
    let n = a.services.len();
    if b.services.len() != n {
        return false;
    }
    let mut i: usize = 0;
    while i < n
        invariant
            n == a.services@.len(),
            n == b.services@.len(),
            0 <= i <= n,
            forall|j: int| 0 <= j < i ==> a.services@[j] == b.services@[j],
        decreases n - i,
    {
        if a.services[i] != b.services[i] {
            return false;
        }
        i = i + 1;
    }
    proof {
        assert(a.services@ =~= b.services@);
    }
    true
}

/// Copies a vector of service ids.
fn copy_u128_vec(v: &Vec<u128>) -> (r: Vec<u128>)
    ensures
        r@ == v@,
{
    let n = v.len();
    let mut r: Vec<u128> = Vec::new();
    let mut i: usize = 0;
    while i < n
        invariant
            n == v.len(),
            0 <= i <= n,
            r@ =~= v@.take(i as int),
        decreases n - i,
    {
        r.push(v[i]);
        i = i + 1;
    }
    proof {
        assert(r@ =~= v@);
    }
    r
}

} // verus!
