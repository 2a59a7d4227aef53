//! The Bluetooth LE communication manager's decision core.
//!
//! The manager owns the adapter-level deduplication and connection
//! sets and decides when scanning starts and stops, which discovered
//! peripherals become device-found events, and how central events
//! update the sets. The sets live in concurrent maps so the
//! surrounding event tasks can share them; the maps' contents are
//! reasoned about through the trusted contracts below. A peripheral's
//! transport address is modelled as a plain integer.

use vstd::prelude::*;
use crate::errors::{ButtplugDeviceError, ButtplugError};

verus! {

#[verifier::external_type_specification]
#[verifier::external_body]
#[verifier::reject_recursive_types(K)]
#[verifier::reject_recursive_types(V)]
#[verifier::reject_recursive_types(S)]
pub struct ExDashMap<K, V, S>(dashmap::DashMap<K, V, S>);

/// The set of addresses a shared address map holds.
pub uninterp spec fn spec_address_set(m: dashmap::DashMap<u64, ()>) -> Set<u64>;

/// Relies on dashmap::DashMap::new: a freshly built map holds no
/// entries.
#[verifier::external_body]
fn address_set_new() -> (m: dashmap::DashMap<u64, ()>)
    ensures
        spec_address_set(m) == Set::<u64>::empty(),
{
    dashmap::DashMap::new()
}

/// Relies on dashmap::DashMap::insert: the key is bound afterwards and
/// no other key's presence changes.
#[verifier::external_body]
fn address_set_insert(m: &mut dashmap::DashMap<u64, ()>, address: u64)
    ensures
        spec_address_set(*final(m)) == spec_address_set(*old(m)).insert(address),
{
    m.insert(address, ());
}

/// Relies on dashmap::DashMap::remove: the key is unbound afterwards
/// and no other key's presence changes.
#[verifier::external_body]
fn address_set_remove(m: &mut dashmap::DashMap<u64, ()>, address: u64)
    ensures
        spec_address_set(*final(m)) == spec_address_set(*old(m)).remove(address),
{
    m.remove(&address);
}

/// Relies on dashmap::DashMap::contains_key: reports whether the key
/// is bound.
#[verifier::external_body]
fn address_set_contains(m: &dashmap::DashMap<u64, ()>, address: u64) -> (r: bool)
    ensures
        r == spec_address_set(*m).contains(address),
{
    m.contains_key(&address)
}

/// Relies on dashmap::DashMap::clear: removes every entry.
#[verifier::external_body]
fn address_set_clear(m: &mut dashmap::DashMap<u64, ()>)
    ensures
        spec_address_set(*final(m)) == Set::<u64>::empty(),
{
    m.clear();
}

/// A central event as the decision core sees it.
#[derive(PartialEq, Eq, Structural, Debug, Clone, Copy)]
pub enum CentralDeviceEvent {
    DeviceDiscovered(u64),
    DeviceUpdated(u64),
    DeviceConnected(u64),
    DeviceDisconnected(u64),
}

/// A device announced by the scanning loop.
#[derive(Debug, Clone, PartialEq)]
pub struct DiscoveredDevice {
    pub name: String,
    pub address: u64,
}

/// Scanning state and the shared address sets of one adapter.
#[derive(Debug)]
pub struct BtlePlugCommunicationManager {
    pub adapter_present: bool,
    pub tried_addresses: dashmap::DashMap<u64, ()>,
    pub connected_addresses: dashmap::DashMap<u64, ()>,
    pub is_scanning: bool,
}

impl BtlePlugCommunicationManager {
    /// The addresses already offered during this scanning session.
    pub open spec fn spec_tried(self) -> Set<u64> {
        spec_address_set(self.tried_addresses)
    }

    /// The addresses of currently connected devices.
    pub open spec fn spec_connected(self) -> Set<u64> {
        spec_address_set(self.connected_addresses)
    }

    /// Builds the manager; whether an adapter was found is the
    /// caller's discovery.
    pub fn new(adapter_present: bool) -> (r: Self)
        ensures
            r.adapter_present == adapter_present,
            r.spec_tried() == Set::<u64>::empty(),
            r.spec_connected() == Set::<u64>::empty(),
            !r.is_scanning,
    {
        Self {
            adapter_present,
            tried_addresses: address_set_new(),
            connected_addresses: address_set_new(),
            is_scanning: false,
        }
    }

    /// The manager's registered name.
    pub fn name(&self) -> (r: &'static str)
        ensures
            r@ == "BtlePlugCommunicationManager"@,
    {
        "BtlePlugCommunicationManager"
    }

    /// Whether a scan is currently running.
    pub fn scanning_status(&self) -> (r: bool)
        ensures
            r == self.is_scanning,
    {
        self.is_scanning
    }

    /// Updates the shared sets for one central event: a connection
    /// records the address, a disconnection clears it from both sets
    /// so the device can be rediscovered, and bare
    /// discovery/update events change nothing here.
    pub fn handle_central_event(&mut self, event: CentralDeviceEvent)
        ensures
            final(self).adapter_present == old(self).adapter_present,
            final(self).is_scanning == old(self).is_scanning,
            match event {
                CentralDeviceEvent::DeviceConnected(addr) => {
                    &&& final(self).spec_connected() == old(self).spec_connected().insert(addr)
                    &&& final(self).spec_tried() == old(self).spec_tried()
                },
                CentralDeviceEvent::DeviceDisconnected(addr) => {
                    &&& final(self).spec_connected() == old(self).spec_connected().remove(addr)
                    &&& final(self).spec_tried() == old(self).spec_tried().remove(addr)
                },
                _ => {
                    &&& final(self).spec_connected() == old(self).spec_connected()
                    &&& final(self).spec_tried() == old(self).spec_tried()
                },
            },
    {
        match event {
            CentralDeviceEvent::DeviceConnected(addr) => {
                address_set_insert(&mut self.connected_addresses, addr);
            },
            CentralDeviceEvent::DeviceDisconnected(addr) => {
                address_set_remove(&mut self.connected_addresses, addr);
                address_set_remove(&mut self.tried_addresses, addr);
            },
            _ => {},
        }
    }

    /// Starts a scan: refused while no adapter is available, otherwise
    /// the caller attempts the adapter-level scan and reports its
    /// outcome through [`Self::handle_scan_start_result`].
    pub fn start_scanning(&mut self) -> (r: Result<(), ButtplugError>)
        ensures
            *final(self) == *old(self),
            if !old(self).adapter_present {
                r == Err::<(), ButtplugError>(
                    ButtplugError::ButtplugDeviceError(ButtplugDeviceError::UnhandledCommand),
                )
            } else {
                r == Ok::<(), ButtplugError>(())
            },
    {
        if !self.adapter_present {
            return Err(ButtplugError::ButtplugDeviceError(ButtplugDeviceError::UnhandledCommand));
        }
        Ok(())
    }

    /// Records the outcome of the adapter-level scan attempt: on
    /// success the scanning session is live; a refusal by the adapter
    /// (typically missing radio permissions) is reported as a
    /// permission error and no session starts.
    pub fn handle_scan_start_result(&mut self, success: bool) -> (r: Result<(), ButtplugError>)
        ensures
            final(self).adapter_present == old(self).adapter_present,
            final(self).spec_tried() == old(self).spec_tried(),
            final(self).spec_connected() == old(self).spec_connected(),
            if success {
                r == Ok::<(), ButtplugError>(()) && final(self).is_scanning
            } else {
                &&& r == Err::<(), ButtplugError>(
                    ButtplugError::ButtplugDeviceError(ButtplugDeviceError::DevicePermissionError),
                )
                &&& final(self).is_scanning == old(self).is_scanning
            },
    {
        if !success {
            return Err(
                ButtplugError::ButtplugDeviceError(ButtplugDeviceError::DevicePermissionError),
            );
        }
        self.is_scanning = true;
        Ok(())
    }

    /// Decides whether an enumerated peripheral becomes a device-found
    /// event: only while scanning, only with a non-empty name, and
    /// only for addresses neither already offered nor already
    /// connected; an offered address joins the deduplication set.
    pub fn handle_discovered_peripheral(&mut self, address: u64, local_name: Option<&String>) -> (r:
        Option<DiscoveredDevice>)
        ensures
            final(self).adapter_present == old(self).adapter_present,
            final(self).is_scanning == old(self).is_scanning,
            final(self).spec_connected() == old(self).spec_connected(),
            ({
                let emits = {
                    &&& old(self).is_scanning
                    &&& match local_name {
                        Some(n) => n@.len() > 0,
                        None => false,
                    }
                    &&& !old(self).spec_tried().contains(address)
                    &&& !old(self).spec_connected().contains(address)
                };
                if emits {
                    &&& final(self).spec_tried() == old(self).spec_tried().insert(address)
                    &&& match r {
                        Some(d) => d.address == address && d.name@ == local_name->Some_0@,
                        None => false,
                    }
                } else {
                    &&& final(self).spec_tried() == old(self).spec_tried()
                    &&& r is None
                }
            }),
    {
        if !self.is_scanning {
            return None;
        }
        let name = match local_name {
            Some(n) => {
                if n.as_str().is_empty() {
                    return None;
                }
                n.clone()
            },
            None => {
                return None;
            },
        };
        if address_set_contains(&self.tried_addresses, address) {
            return None;
        }
        if address_set_contains(&self.connected_addresses, address) {
            return None;
        }
        address_set_insert(&mut self.tried_addresses, address);
        Some(DiscoveredDevice { name, address })
    }

    /// Stops a scan: refused while none is running, otherwise the
    /// scanning flag falls and the caller winds the enumeration down
    /// through [`Self::finish_scan`].
    pub fn stop_scanning(&mut self) -> (r: Result<(), ButtplugError>)
        ensures
            final(self).adapter_present == old(self).adapter_present,
            final(self).spec_tried() == old(self).spec_tried(),
            final(self).spec_connected() == old(self).spec_connected(),
            if old(self).is_scanning {
                r == Ok::<(), ButtplugError>(()) && !final(self).is_scanning
            } else {
                &&& r == Err::<(), ButtplugError>(
                    ButtplugError::ButtplugDeviceError(
                        ButtplugDeviceError::DeviceScanningAlreadyStopped,
                    ),
                )
                &&& final(self).is_scanning == old(self).is_scanning
            },
    {
        if self.is_scanning {
            self.is_scanning = false;
            Ok(())
        } else {
            Err(
                ButtplugError::ButtplugDeviceError(
                    ButtplugDeviceError::DeviceScanningAlreadyStopped,
                ),
            )
        }
    }

    /// Ends a scanning session: the deduplication set is cleared so
    /// the next session rediscovers everything; the caller then emits
    /// its scanning-finished event.
    pub fn finish_scan(&mut self)
        ensures
            final(self).adapter_present == old(self).adapter_present,
            final(self).is_scanning == old(self).is_scanning,
            final(self).spec_connected() == old(self).spec_connected(),
            final(self).spec_tried() == Set::<u64>::empty(),
    {
        address_set_clear(&mut self.tried_addresses);
    }
}

} // verus!
