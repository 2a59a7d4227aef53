//! The session state machine: the single entry point for client
//! messages.
//!
//! A session accepts nothing but the handshake until the handshake
//! succeeds, negotiates the protocol version downward, stamps every
//! reply with the request's correlation id, and disconnects with a
//! single broadcast error when the ping watchdog fires. The watchdog's
//! clock runs outside this crate: the owner arms a timer over
//! `max_ping_time`, rearms it whenever a ping is acknowledged here,
//! and calls [`ButtplugServer::on_ping_timeout`] when it elapses.

use vstd::prelude::*;
use crate::BUTTPLUG_CURRENT_MESSAGE_SPEC_VERSION;
use crate::device_configuration::{
    ExternalDeviceConfiguration, ProtocolConfiguration, UserConfigDefinition,
    load_protocol_config_from_json, load_protocol_configs_from_json,
};
use crate::errors::{ButtplugError, ButtplugHandshakeError, ButtplugPingError};
use crate::messages::{
    ButtplugClientMessage, ButtplugServerMessage, ErrorMessage, OkMessage, ServerInfo,
    StopAllDevices, StopScanning,
};

pub use crate::errors::ButtplugServerError;

verus! {

/// What the session does with one accepted message: reply directly,
/// or hand it to the device-management layer.
#[derive(Debug)]
pub enum SessionOutput {
    Reply(ButtplugServerMessage),
    RoutedDeviceMessage(ButtplugClientMessage),
}

/// Whether a message is the handshake request.
pub open spec fn spec_is_handshake(msg: ButtplugClientMessage) -> bool {
    msg is RequestServerInfo
}

/// Whether a message is a keepalive ping.
pub open spec fn spec_is_ping(msg: ButtplugClientMessage) -> bool {
    msg is Ping
}

/// Whether a message belongs to the device-management layer.
pub open spec fn spec_is_device_message(msg: ButtplugClientMessage) -> bool {
    !(msg is RequestServerInfo) && !(msg is Ping)
}

/// The broadcast event emitted when the watchdog fires.
pub open spec fn spec_ping_timeout_event() -> ButtplugServerMessage {
    ButtplugServerMessage::Error(
        ErrorMessage {
            id: 0u32,
            error: ButtplugError::ButtplugPingError(ButtplugPingError::PingedOut),
        },
    )
}

/// The watchdog transition: a connected session disconnects, records
/// the timeout, and broadcasts exactly one error event; a session
/// already disconnected is left exactly as it is.
pub open spec fn spec_ping_timeout_step(
    connected: bool,
    pinged_out: bool,
    events: Seq<ButtplugServerMessage>,
) -> (bool, bool, Seq<ButtplugServerMessage>) {
    if connected {
        (false, true, events.push(spec_ping_timeout_event()))
    } else {
        (connected, pinged_out, events)
    }
}

/// Firing the watchdog on a connected session broadcasts exactly one
/// timeout error and disconnects; firing it again afterwards changes
/// nothing and broadcasts nothing more.
pub proof fn lemma_ping_timeout_exactly_once(
    connected: bool,
    pinged_out: bool,
    events: Seq<ButtplugServerMessage>,
)
    requires
        connected,
    ensures
        ({
            let (c1, p1, e1) = spec_ping_timeout_step(connected, pinged_out, events);
            let (c2, p2, e2) = spec_ping_timeout_step(c1, p1, e1);
            &&& !c1 && p1
            &&& e1.len() == events.len() + 1
            &&& e1.last() == spec_ping_timeout_event()
            &&& (c2, p2, e2) == (c1, p1, e1)
        }),
{
}

/// Configuration for a server under construction. The two catalog
/// fields hold the textual documents as handed in by the embedder;
/// decoding them happens outside the verified core, and the decoded
/// documents are passed to [`ButtplugServerBuilder::finish`].
#[derive(Debug)]
pub struct ButtplugServerBuilder {
    pub name: String,
    pub max_ping_time: Option<u32>,
    pub allow_raw_messages: bool,
    pub device_configuration_json: Option<String>,
    pub user_device_configuration_json: Option<String>,
}

impl Default for ButtplugServerBuilder {
    fn default() -> (r: Self)
        ensures
            r.name@ == "Buttplug Server"@,
            r.max_ping_time is None,
            !r.allow_raw_messages,
            r.device_configuration_json is None,
            r.user_device_configuration_json is None,
    {
        Self {
            name: "Buttplug Server".to_owned(),
            max_ping_time: None,
            allow_raw_messages: false,
            device_configuration_json: None,
            user_device_configuration_json: None,
        }
    }
}

impl ButtplugServerBuilder {
    /// Sets the name the server announces in the handshake reply.
    pub fn name<'a>(&'a mut self, name: &str) -> (r: &'a mut Self)
        ensures
            r.name@ == name@,
            r.max_ping_time == old(self).max_ping_time,
            r.allow_raw_messages == old(self).allow_raw_messages,
            r.device_configuration_json == old(self).device_configuration_json,
            r.user_device_configuration_json == old(self).user_device_configuration_json,
            *final(self) == *final(r),
    {
        self.name = name.to_owned();
        self
    }

    /// Sets the maximum ping interval the watchdog tolerates.
    pub fn max_ping_time<'a>(&'a mut self, ping_time: u32) -> (r: &'a mut Self)
        ensures
            *r == (ButtplugServerBuilder { max_ping_time: Some(ping_time), ..*old(self) }),
            *final(self) == *final(r),
    {
        self.max_ping_time = Some(ping_time);
        self
    }

    /// Allows or refuses raw device pass-through messages.
    pub fn allow_raw_messages<'a>(&'a mut self, allow: bool) -> (r: &'a mut Self)
        ensures
            *r == (ButtplugServerBuilder { allow_raw_messages: allow, ..*old(self) }),
            *final(self) == *final(r),
    {
        self.allow_raw_messages = allow;
        self
    }

    /// Sets the textual base catalog document.
    pub fn device_configuration_json<'a>(&'a mut self, config_json: Option<String>) -> (r:
        &'a mut Self)
        ensures
            *r == (ButtplugServerBuilder { device_configuration_json: config_json, ..*old(self) }),
            *final(self) == *final(r),
    {
        self.device_configuration_json = config_json;
        self
    }

    /// Sets the textual user catalog document.
    pub fn user_device_configuration_json<'a>(&'a mut self, config_json: Option<String>) -> (r:
        &'a mut Self)
        ensures
            *r == (ButtplugServerBuilder {
                user_device_configuration_json: config_json,
                ..*old(self)
            }),
            *final(self) == *final(r),
    {
        self.user_device_configuration_json = config_json;
        self
    }

    /// Builds the server from the decoded catalog documents: the user
    /// catalog is validated leniently (no version floor), the base
    /// catalog strictly; the user document's own protocol entries
    /// overlay the base document's, its overlay sections attach on
    /// top, and a missing base catalog falls back to the user
    /// document or, with none, to the built-in catalog. Construction
    /// fails exactly on a base catalog older than the runtime.
    pub fn finish(
        &self,
        device_config: Option<ProtocolConfiguration>,
        user_config: Option<ProtocolConfiguration>,
    ) -> (r: Result<ButtplugServer, ButtplugError>)
        ensures
            r is Err <==> (device_config matches Some(m) && m.version
                < crate::device_configuration::INTERNAL_CONFIG_VERSION),
            match r {
                Ok(server) => {
                    &&& server.server_name@ == self.name@
                    &&& server.max_ping_time == (match self.max_ping_time {
                        Some(t) => t,
                        None => 0u32,
                    })
                    &&& server.allow_raw_messages == self.allow_raw_messages
                    &&& !server.connected
                    &&& !server.pinged_out
                    &&& server.output_events@.len() == 0
                    &&& match (device_config, user_config) {
                        (Some(m), Some(u)) => forall|k: Seq<char>|
                            (#[trigger] crate::util::assoc_lookup(
                                server.device_configuration.protocol_configurations@,
                                k,
                            )) is Some == crate::device_configuration::spec_protocols_have_key(
                                crate::device_configuration::spec_entry_seq_generic(u.protocols)
                                    + crate::device_configuration::spec_entry_seq_generic(
                                    m.protocols,
                                ),
                                k,
                            ),
                        (Some(m), None) => forall|k: Seq<char>|
                            (#[trigger] crate::util::assoc_lookup(
                                server.device_configuration.protocol_configurations@,
                                k,
                            )) is Some == crate::device_configuration::spec_protocols_have_key(
                                crate::device_configuration::spec_entry_seq_generic(m.protocols),
                                k,
                            ),
                        (None, Some(u)) => forall|k: Seq<char>|
                            (#[trigger] crate::util::assoc_lookup(
                                server.device_configuration.protocol_configurations@,
                                k,
                            )) is Some == crate::device_configuration::spec_protocols_have_key(
                                crate::device_configuration::spec_entry_seq_generic(u.protocols),
                                k,
                            ),
                        (None, None) => forall|k: Seq<char>|
                            (#[trigger] crate::util::assoc_lookup(
                                server.device_configuration.protocol_configurations@,
                                k,
                            )) is Some
                                == crate::device_configuration::spec_builtin_protocol_names()
                                .contains(k),
                    }
                    &&& ((match device_config {
                        Some(m) => m.user_configs is None,
                        None => true,
                    }) && (match user_config {
                        Some(u) => u.user_configs is None,
                        None => true,
                    }) ==> server.device_configuration.allow_list@.len() == 0
                        && server.device_configuration.deny_list@.len() == 0
                        && server.device_configuration.reserved_indexes@.len() == 0)
                },
                Err(e) => e == ButtplugError::ButtplugDeviceError(
                    crate::errors::ButtplugDeviceError::DeviceConfigurationVersionError(
                        device_config->Some_0.version,
                        crate::device_configuration::INTERNAL_CONFIG_VERSION,
                    ),
                ),
            },
    {
        let user = match user_config {
            Some(u) => Some(load_protocol_config_from_json(Some(u), true)?),
            None => None,
        };
        let device = match device_config {
            Some(m) => Some(load_protocol_config_from_json(Some(m), false)?),
            None => None,
        };
        let combined: Option<ProtocolConfiguration> = match (device, user) {
            (Some(mut m), Some(u)) => {
                m.merge(u);
                Some(m)
            },
            (Some(m), None) => Some(m),
            (None, Some(u)) => Some(u),
            (None, None) => None,
        };
        let device_configuration = match combined {
            Some(mut c) => {
                let mut overlays_opt: Option<Vec<(String, UserConfigDefinition)>> = None;
                core::mem::swap(&mut overlays_opt, &mut c.user_configs);
                let overlay_doc = match overlays_opt {
                    Some(o) => Some(
                        ProtocolConfiguration {
                            version: crate::device_configuration::INTERNAL_CONFIG_VERSION,
                            protocols: None,
                            user_configs: Some(o),
                        },
                    ),
                    None => None,
                };
                load_protocol_configs_from_json(Some(c), overlay_doc, true)?
            },
            None => load_protocol_configs_from_json(None, None, true)?,
        };
        let ping_time = match self.max_ping_time {
            Some(t) => t,
            None => 0,
        };
        Ok(
            ButtplugServer {
                server_name: self.name.clone(),
                max_ping_time: ping_time,
                connected: false,
                pinged_out: false,
                allow_raw_messages: self.allow_raw_messages,
                device_configuration,
                output_events: Vec::new(),
            },
        )
    }
}

/// One client connection's handshake, version, and keepalive state,
/// plus the loaded device registry the session routes against.
#[derive(Debug)]
pub struct ButtplugServer {
    pub server_name: String,
    pub max_ping_time: u32,
    pub connected: bool,
    pub pinged_out: bool,
    pub allow_raw_messages: bool,
    pub device_configuration: ExternalDeviceConfiguration,
    pub output_events: Vec<ButtplugServerMessage>,
}

impl Default for ButtplugServer {
    /// A server under the default configuration; with no catalog
    /// documents involved, construction cannot fail.
    fn default() -> (r: Self)
        ensures
            !r.connected,
            !r.pinged_out,
            r.output_events@.len() == 0,
    {
        let builder = ButtplugServerBuilder::default();
        match builder.finish(None, None) {
            Ok(server) => server,
            Err(_) => vstd::pervasive::unreached(),
        }
    }
}

impl ButtplugServer {
    /// Whether the handshake has completed and the session is live.
    pub fn connected(&self) -> (r: bool)
        ensures
            r == self.connected,
    {
        self.connected
    }

    /// Hands out the broadcast events accumulated so far and clears
    /// the queue.
    pub fn drain_events(&mut self) -> (r: Vec<ButtplugServerMessage>)
        ensures
            r@ == old(self).output_events@,
            final(self).output_events@.len() == 0,
            final(self).connected == old(self).connected,
            final(self).pinged_out == old(self).pinged_out,
            final(self).max_ping_time == old(self).max_ping_time,
            final(self).server_name == old(self).server_name,
            final(self).allow_raw_messages == old(self).allow_raw_messages,
            final(self).device_configuration == old(self).device_configuration,
    {
        let mut out: Vec<ButtplugServerMessage> = Vec::new();
        core::mem::swap(&mut out, &mut self.output_events);
        out
    }

    /// The single entry point for client messages. Before the
    /// handshake completes, a timed-out session reports the timeout
    /// and any other session rejects every non-handshake message with
    /// a handshake-required error; every reply, accepted or rejected,
    /// is stamped with the request's correlation id.
    pub fn parse_message(&mut self, msg: ButtplugClientMessage) -> (r: Result<
        SessionOutput,
        ErrorMessage,
    >)
        ensures
            final(self).server_name == old(self).server_name,
            final(self).max_ping_time == old(self).max_ping_time,
            final(self).pinged_out == old(self).pinged_out,
            final(self).output_events == old(self).output_events,
            final(self).allow_raw_messages == old(self).allow_raw_messages,
            final(self).device_configuration == old(self).device_configuration,
            // A timed-out, unconnected session reports the timeout first.
            (!old(self).connected && old(self).pinged_out) ==> r == Err::<
                SessionOutput,
                ErrorMessage,
            >(
                ErrorMessage {
                    id: msg.spec_id(),
                    error: ButtplugError::ButtplugPingError(ButtplugPingError::PingedOut),
                },
            ) && final(self).connected == old(self).connected,
            // Handshake required: anything but the handshake is rejected.
            (!old(self).connected && !old(self).pinged_out && !spec_is_handshake(msg)) ==> r
                == Err::<SessionOutput, ErrorMessage>(
                ErrorMessage {
                    id: msg.spec_id(),
                    error: ButtplugError::ButtplugHandshakeError(
                        ButtplugHandshakeError::RequestServerInfoExpected,
                    ),
                },
            ) && final(self).connected == old(self).connected,
            // A second handshake on a connected session is rejected.
            (old(self).connected && spec_is_handshake(msg)) ==> r == Err::<
                SessionOutput,
                ErrorMessage,
            >(
                ErrorMessage {
                    id: msg.spec_id(),
                    error: ButtplugError::ButtplugHandshakeError(
                        ButtplugHandshakeError::HandshakeAlreadyHappened,
                    ),
                },
            ) && final(self).connected == old(self).connected,
            // Handshake: versions above the server's are rejected with
            // both versions; accepted versions connect the session and
            // announce the server.
            (!old(self).connected && !old(self).pinged_out && spec_is_handshake(msg))
                ==> match msg {
                ButtplugClientMessage::RequestServerInfo(rsi) => {
                    if rsi.message_version > BUTTPLUG_CURRENT_MESSAGE_SPEC_VERSION {
                        &&& r == Err::<SessionOutput, ErrorMessage>(
                            ErrorMessage {
                                id: rsi.id,
                                error: ButtplugError::ButtplugHandshakeError(
                                    ButtplugHandshakeError::MessageSpecVersionMismatch(
                                        BUTTPLUG_CURRENT_MESSAGE_SPEC_VERSION,
                                        rsi.message_version,
                                    ),
                                ),
                            },
                        )
                        &&& final(self).connected == old(self).connected
                    } else {
                        &&& final(self).connected
                        &&& match r {
                            Ok(SessionOutput::Reply(ButtplugServerMessage::ServerInfo(si))) => {
                                &&& si.id == rsi.id
                                &&& si.server_name@ == old(self).server_name@
                                &&& si.message_version
                                    == BUTTPLUG_CURRENT_MESSAGE_SPEC_VERSION
                                &&& si.max_ping_time == old(self).max_ping_time
                            },
                            _ => false,
                        }
                    }
                },
                _ => false,
            },
            // Ping on a live session acknowledges (the caller rearms
            // its watchdog timer) unless keepalive is disabled.
            (old(self).connected && spec_is_ping(msg)) ==> final(self).connected == old(
                self,
            ).connected && (if old(self).max_ping_time == 0 {
                r == Err::<SessionOutput, ErrorMessage>(
                    ErrorMessage {
                        id: msg.spec_id(),
                        error: ButtplugError::ButtplugPingError(
                            ButtplugPingError::PingTimerNotRunning,
                        ),
                    },
                )
            } else {
                r == Ok::<SessionOutput, ErrorMessage>(
                    SessionOutput::Reply(
                        ButtplugServerMessage::OkMessage(OkMessage { id: msg.spec_id() }),
                    ),
                )
            }),
            // Device-management and device-command messages route on.
            (old(self).connected && spec_is_device_message(msg)) ==> r == Ok::<
                SessionOutput,
                ErrorMessage,
            >(SessionOutput::RoutedDeviceMessage(msg)) && final(self).connected == old(
                self,
            ).connected,
    {
        let id = msg.id();
        if !self.connected {
            if self.pinged_out {
                return Err(
                    ErrorMessage::new(
                        id,
                        ButtplugError::ButtplugPingError(ButtplugPingError::PingedOut),
                    ),
                );
            }
            match &msg {
                ButtplugClientMessage::RequestServerInfo(_) => {},
                _ => {
                    return Err(
                        ErrorMessage::new(
                            id,
                            ButtplugError::ButtplugHandshakeError(
                                ButtplugHandshakeError::RequestServerInfoExpected,
                            ),
                        ),
                    );
                },
            }
        }
        match msg {
            ButtplugClientMessage::RequestServerInfo(rsi) => {
                if self.connected {
                    return Err(
                        ErrorMessage::new(
                            rsi.id,
                            ButtplugError::ButtplugHandshakeError(
                                ButtplugHandshakeError::HandshakeAlreadyHappened,
                            ),
                        ),
                    );
                }
                if rsi.message_version > BUTTPLUG_CURRENT_MESSAGE_SPEC_VERSION {
                    return Err(
                        ErrorMessage::new(
                            rsi.id,
                            ButtplugError::ButtplugHandshakeError(
                                ButtplugHandshakeError::MessageSpecVersionMismatch(
                                    BUTTPLUG_CURRENT_MESSAGE_SPEC_VERSION,
                                    rsi.message_version,
                                ),
                            ),
                        ),
                    );
                }
                self.connected = true;
                Ok(
                    SessionOutput::Reply(
                        ButtplugServerMessage::ServerInfo(
                            ServerInfo {
                                id: rsi.id,
                                server_name: self.server_name.clone(),
                                message_version: BUTTPLUG_CURRENT_MESSAGE_SPEC_VERSION,
                                max_ping_time: self.max_ping_time,
                            },
                        ),
                    ),
                )
            },
            ButtplugClientMessage::Ping(p) => {
                if self.max_ping_time == 0 {
                    return Err(
                        ErrorMessage::new(
                            p.id,
                            ButtplugError::ButtplugPingError(ButtplugPingError::PingTimerNotRunning),
                        ),
                    );
                }
                Ok(SessionOutput::Reply(ButtplugServerMessage::OkMessage(OkMessage { id: p.id })))
            },
            other => Ok(SessionOutput::RoutedDeviceMessage(other)),
        }
    }

    /// The watchdog fired: a connected session disconnects, remembers
    /// the timeout, and broadcasts exactly one timeout error to every
    /// observer; anything else is left untouched.
    pub fn on_ping_timeout(&mut self)
        ensures
            final(self).server_name == old(self).server_name,
            final(self).max_ping_time == old(self).max_ping_time,
            final(self).allow_raw_messages == old(self).allow_raw_messages,
            final(self).device_configuration == old(self).device_configuration,
            (final(self).connected, final(self).pinged_out, final(self).output_events@)
                == spec_ping_timeout_step(
                old(self).connected,
                old(self).pinged_out,
                old(self).output_events@,
            ),
    {
        if self.connected {
            self.connected = false;
            self.pinged_out = true;
            self.output_events.push(
                ButtplugServerMessage::Error(
                    ErrorMessage {
                        id: 0,
                        error: ButtplugError::ButtplugPingError(ButtplugPingError::PingedOut),
                    },
                ),
            );
        }
    }

    /// Ends the session: disconnects, stops the watchdog, and hands
    /// back the best-effort cleanup requests — stop scanning, stop all
    /// devices — for the caller to route; their failures are not
    /// surfaced.
    pub fn disconnect(&mut self) -> (r: Result<Vec<ButtplugClientMessage>, ErrorMessage>)
        ensures
            final(self).server_name == old(self).server_name,
            final(self).max_ping_time == old(self).max_ping_time,
            final(self).allow_raw_messages == old(self).allow_raw_messages,
            final(self).device_configuration == old(self).device_configuration,
            !final(self).connected,
            !final(self).pinged_out,
            final(self).output_events == old(self).output_events,
            match r {
                Ok(requests) => requests@ == seq![
                    ButtplugClientMessage::StopScanning(StopScanning { id: 1u32 }),
                    ButtplugClientMessage::StopAllDevices(StopAllDevices { id: 1u32 }),
                ],
                Err(_) => false,
            },
    {
        self.connected = false;
        self.pinged_out = false;
        let mut requests: Vec<ButtplugClientMessage> = Vec::new();
        requests.push(ButtplugClientMessage::StopScanning(StopScanning { id: 1 }));
        requests.push(ButtplugClientMessage::StopAllDevices(StopAllDevices { id: 1 }));
        proof {
            assert(requests@ =~= seq![
                ButtplugClientMessage::StopScanning(StopScanning { id: 1u32 }),
                ButtplugClientMessage::StopAllDevices(StopAllDevices { id: 1u32 }),
            ]);
        }
        Ok(requests)
    }
}

} // verus!
