//! The connection: the header and Open exchange, the remote-channel map
//! that demultiplexes frames to sessions, the idle timer, and the Close
//! choreography.
//!
//! Either peer may start the handshake: both sides emit the 8-byte protocol
//! header, read the peer's, then exchange one Open on channel 0.  After
//! Close (sent or received) nothing but an outgoing Close may be emitted.

use vstd::prelude::*;

use crate::error::{AmqpError, AmqpTransportError, Condition};
use crate::handshake::HandshakeError;
use crate::hb::{Heartbeat, HeartbeatAction};
use crate::protocol::{protocol_header, spec_protocol_header, Close, Configuration, Open,
    Performative, ProtocolId};

verus! {

/// The connection's place in its lifecycle.
#[derive(Clone, Copy, Debug, PartialEq, Eq, Structural)]
pub enum ConnectionState {
    /// Nothing exchanged yet.
    Start,
    /// Our header is out, the peer's is awaited.
    HdrSent,
    /// Both headers are exchanged.
    HdrRcvd,
    /// Header and our Open pipelined out.
    OpenPipe,
    /// Our Open is out, the peer's is awaited.
    OpenSent,
    /// The peer's Open arrived first; ours must answer it.
    OpenRcvd,
    /// Open exchanged both ways: the connection carries traffic.
    Opened,
    /// Our Close is out.
    CloseSent,
    /// The peer's Close arrived.
    CloseRcvd,
    /// The connection is finished.
    Ended,
    /// A fatal error was seen; inbound frames are discarded until Close.
    Discarding,
}

/// Where an inbound frame on a channel must go.
#[derive(Clone, Copy, Debug, PartialEq, Eq, Structural)]
pub enum ChannelRoute {
    /// The channel maps to this live local session channel.
    Known(u16),
    /// Unknown channel carrying Begin: a new session is created for it.
    FreshBegin,
    /// Unknown channel carrying anything else: `not-allowed`, fatal to the
    /// connection.
    Refused,
}

pub struct Connection {
    state: ConnectionState,
    local: Configuration,
    remote: Option<Configuration>,
    /// remote channel -> local session channel, indexed by remote channel.
    remote_map: Vec<Option<u16>>,
    /// Local session channels handed out so far.
    next_channel: u32,
    heartbeat: Option<Heartbeat>,
    error: Option<AmqpError>,
}

impl Connection {
    pub closed spec fn state_spec(self) -> ConnectionState {
        self.state
    }

    pub closed spec fn local_spec(self) -> Configuration {
        self.local
    }

    pub closed spec fn remote_spec(self) -> Option<Configuration> {
        self.remote
    }

    pub closed spec fn remote_map_spec(self) -> Seq<Option<u16>> {
        self.remote_map@
    }

    pub closed spec fn next_channel_spec(self) -> u32 {
        self.next_channel
    }

    pub closed spec fn heartbeat_spec(self) -> Option<Heartbeat> {
        self.heartbeat
    }

    pub closed spec fn error_spec(self) -> Option<AmqpError> {
        self.error
    }

    /// The local session channel an inbound remote channel maps to.
    pub open spec fn spec_mapped(self, remote_channel: u16) -> Option<u16> {
        if remote_channel < self.remote_map_spec().len() {
            self.remote_map_spec()[remote_channel as int]
        } else {
            None
        }
    }

    /// A fresh connection over an unopened stream.
    pub fn new(local: Configuration) -> (r: Connection)
        ensures
            r.state_spec() is Start,
            r.local_spec() == local,
            r.remote_spec() is None,
            r.remote_map_spec() == Seq::<Option<u16>>::empty(),
            r.next_channel_spec() == 0,
            r.heartbeat_spec() is None,
            r.error_spec() is None,
    {
        Connection {
            state: ConnectionState::Start,
            local,
            remote: None,
            remote_map: Vec::new(),
            next_channel: 0,
            heartbeat: None,
            error: None,
        }
    }

    pub fn state(&self) -> (r: ConnectionState)
        ensures
            r == self.state_spec(),
    {
        self.state
    }

    pub fn local_config(&self) -> (r: &Configuration)
        ensures
            *r == self.local_spec(),
    {
        &self.local
    }

    pub fn remote_config(&self) -> (r: &Option<Configuration>)
        ensures
            *r == self.remote_spec(),
    {
        &self.remote
    }

    /// Emit our protocol header.
    pub fn send_header(&mut self) -> (r: [u8; 8])
        requires
            old(self).state_spec() is Start || old(self).state_spec() is HdrRcvd,
        ensures
            r@ == spec_protocol_header(ProtocolId::Amqp),
            final(self).state_spec() == if old(self).state_spec() is Start {
                ConnectionState::HdrSent
            } else {
                ConnectionState::HdrRcvd
            },
            final(self).local_spec() == old(self).local_spec(),
            final(self).remote_spec() == old(self).remote_spec(),
            final(self).remote_map_spec() == old(self).remote_map_spec(),
            final(self).next_channel_spec() == old(self).next_channel_spec(),
            final(self).error_spec() == old(self).error_spec(),
    {
        if let ConnectionState::Start = self.state {
            self.state = ConnectionState::HdrSent;
        }
        protocol_header(ProtocolId::Amqp)
    }

    /// Take the peer's protocol header, or its absence: a plain-AMQP header
    /// completes the header exchange, anything else ends the connection
    /// with the error the peer must be told.
    pub fn on_peer_header(&mut self, got: Option<ProtocolId>) -> (r: Result<(),
        HandshakeError>)
        requires
            old(self).state_spec() is Start || old(self).state_spec() is HdrSent,
        ensures
            final(self).local_spec() == old(self).local_spec(),
            final(self).remote_spec() == old(self).remote_spec(),
            match got {
                Some(ProtocolId::Amqp) => r == Ok::<(), HandshakeError>(())
                    && final(self).state_spec() is HdrRcvd,
                Some(p) => r == Err::<(), HandshakeError>(
                    HandshakeError::UnexpectedProtocol { expected: ProtocolId::Amqp, got: p })
                    && final(self).state_spec() is Ended,
                None => r == Err::<(), HandshakeError>(HandshakeError::Disconnected)
                    && final(self).state_spec() is Ended,
            },
    {
        match got {
            Some(ProtocolId::Amqp) => {
                self.state = ConnectionState::HdrRcvd;
                Ok(())
            },
            Some(p) => {
                self.state = ConnectionState::Ended;
                Err(HandshakeError::UnexpectedProtocol { expected: ProtocolId::Amqp, got: p })
            },
            None => {
                self.state = ConnectionState::Ended;
                Err(HandshakeError::Disconnected)
            },
        }
    }

    /// Emit our Open on channel 0.
    pub fn send_open(&mut self) -> (r: Open)
        requires
            old(self).state_spec() is HdrRcvd || old(self).state_spec() is OpenRcvd,
        ensures
            r.container_id@ == old(self).local_spec().container_id@,
            r.max_frame_size == old(self).local_spec().max_frame_size,
            r.channel_max == old(self).local_spec().channel_max,
            r.idle_timeout == old(self).local_spec().idle_timeout,
            r.hostname == old(self).local_spec().hostname,
            final(self).state_spec() == if old(self).state_spec() is HdrRcvd {
                ConnectionState::OpenSent
            } else {
                ConnectionState::Opened
            },
            final(self).local_spec() == old(self).local_spec(),
            final(self).remote_spec() == old(self).remote_spec(),
            final(self).remote_map_spec() == old(self).remote_map_spec(),
            final(self).error_spec() == old(self).error_spec(),
    {
        if let ConnectionState::HdrRcvd = self.state {
            self.state = ConnectionState::OpenSent;
        } else {
            self.state = ConnectionState::Opened;
        }
        self.local.to_open()
    }

    /// Take the peer's Open: its configuration becomes the effective remote
    /// configuration.
    pub fn on_peer_open(&mut self, open: &Open)
        requires
            old(self).state_spec() is HdrRcvd || old(self).state_spec() is OpenSent,
        ensures
            final(self).state_spec() == if old(self).state_spec() is HdrRcvd {
                ConnectionState::OpenRcvd
            } else {
                ConnectionState::Opened
            },
            final(self).remote_spec() matches Some(c) && c.container_id@
                == open.container_id@ && c.max_frame_size == open.max_frame_size
                && c.channel_max == open.channel_max && c.idle_timeout == open.idle_timeout,
            final(self).local_spec() == old(self).local_spec(),
            final(self).remote_map_spec() == old(self).remote_map_spec(),
            final(self).error_spec() == old(self).error_spec(),
    {
        if let ConnectionState::HdrRcvd = self.state {
            self.state = ConnectionState::OpenRcvd;
        } else {
            self.state = ConnectionState::Opened;
        }
        self.remote = Some(Configuration::from_open(open));
    }

    /// Start policing the idle timeout once the connection is open: the
    /// peer must speak within its declared idle timeout, and we must speak
    /// towards it at least every half of that.
    pub fn start_heartbeat(&mut self, now: u64)
        requires
            old(self).state_spec() is Opened,
        ensures
            final(self).state_spec() == old(self).state_spec(),
            final(self).remote_spec() == old(self).remote_spec(),
            match old(self).remote_spec() {
                Some(c) => match c.idle_timeout {
                    Some(t) => final(self).heartbeat_spec() matches Some(hb)
                        && hb.local_period() == t as u64
                        && hb.remote_period() == Some((t / 2) as u64)
                        && hb.expire_local() == now && hb.expire_remote() == now,
                    None => final(self).heartbeat_spec() is None,
                },
                None => final(self).heartbeat_spec() is None,
            },
    {
        let period = match &self.remote {
            Some(c) => c.idle_timeout,
            None => None,
        };
        self.heartbeat = match period {
            Some(t) => Some(Heartbeat::new(t as u64, Some((t / 2) as u64), now)),
            None => None,
        };
    }

    /// Record inbound traffic for the idle timer.
    pub fn on_traffic_in(&mut self, now: u64)
        ensures
            final(self).state_spec() == old(self).state_spec(),
            match old(self).heartbeat_spec() {
                Some(hb) => final(self).heartbeat_spec() matches Some(nhb)
                    && nhb.expire_local() == now && nhb.expire_remote() == hb.expire_remote()
                    && nhb.local_period() == hb.local_period()
                    && nhb.remote_period() == hb.remote_period(),
                None => final(self).heartbeat_spec() is None,
            },
    {
        if let Some(hb) = &mut self.heartbeat {
            hb.update_local(true, now);
        }
    }

    /// Record outbound traffic for the idle timer.
    pub fn on_traffic_out(&mut self, now: u64)
        ensures
            final(self).state_spec() == old(self).state_spec(),
            match old(self).heartbeat_spec() {
                Some(hb) => final(self).heartbeat_spec() matches Some(nhb)
                    && nhb.expire_local() == hb.expire_local()
                    && nhb.expire_remote() == (if hb.remote_period() is Some { now } else {
                        hb.expire_remote()
                    })
                    && nhb.local_period() == hb.local_period()
                    && nhb.remote_period() == hb.remote_period(),
                None => final(self).heartbeat_spec() is None,
            },
    {
        if let Some(hb) = &mut self.heartbeat {
            hb.update_remote(true, now);
        }
    }

    /// A timer tick: nothing, a heartbeat to emit, or an idle-timeout close.
    pub fn on_tick(&mut self, now: u64) -> (r: HeartbeatAction)
        requires
            old(self).heartbeat_spec() matches Some(hb) ==> now >= hb.expire_local()
                && now >= hb.expire_remote(),
        ensures
            final(self).state_spec() == old(self).state_spec(),
            match old(self).heartbeat_spec() {
                Some(hb) => r == crate::hb::spec_heartbeat_action(hb, now),
                None => r is Idle,
            },
    {
        match &mut self.heartbeat {
            Some(hb) => hb.poll(now),
            None => HeartbeatAction::Idle,
        }
    }

    /// Hand out the next local session channel, within the peer's
    /// channel-max.
    pub fn open_session(&mut self) -> (r: Option<u16>)
        requires
            old(self).state_spec() is Opened,
        ensures
            final(self).state_spec() == old(self).state_spec(),
            final(self).remote_map_spec() == old(self).remote_map_spec(),
            ({
                let cmax = match old(self).remote_spec() {
                    Some(c) => c.channel_max,
                    None => u16::MAX,
                };
                if old(self).next_channel_spec() <= cmax {
                    r == Some(old(self).next_channel_spec() as u16)
                        && final(self).next_channel_spec()
                            == old(self).next_channel_spec() + 1
                } else {
                    r is None && final(self).next_channel_spec()
                        == old(self).next_channel_spec()
                }
            }),
    {
        let cmax = match &self.remote {
            Some(c) => c.channel_max,
            None => u16::MAX,
        };
        if self.next_channel <= cmax as u32 {
            let c = self.next_channel as u16;
            self.next_channel = self.next_channel + 1;
            Some(c)
        } else {
            None
        }
    }

    /// Record that the peer's channel `remote` speaks for our session
    /// channel `local`.
    pub fn register_remote_channel(&mut self, remote: u16, local: u16)
        ensures
            final(self).state_spec() == old(self).state_spec(),
            final(self).spec_mapped(remote) == Some(local),
            forall|c: u16| c != remote
                ==> final(self).spec_mapped(c) == old(self).spec_mapped(c),
    {
        let target = remote as usize;
        while self.remote_map.len() <= target
            invariant
                self.remote_map@.len() >= old(self).remote_map_spec().len(),
                forall|k: int| 0 <= k < self.remote_map@.len()
                    ==> #[trigger] self.remote_map@[k] == if k
                        < old(self).remote_map_spec().len() {
                        old(self).remote_map_spec()[k]
                    } else {
                        None::<u16>
                    },
                self.state == old(self).state_spec(),
                self.local == old(self).local_spec(),
                self.remote == old(self).remote_spec(),
                self.next_channel == old(self).next_channel_spec(),
                self.heartbeat == old(self).heartbeat_spec(),
                self.error == old(self).error_spec(),
            decreases target + 1 - self.remote_map@.len(),
        {
            self.remote_map.push(None);
        }
        let ghost padded = self.remote_map@;
        self.remote_map[target] = Some(local);
        proof {
            assert(self.remote_map@ =~= padded.update(target as int, Some(local)));
            assert forall|c: u16| c != remote
                implies self.spec_mapped(c) == old(self).spec_mapped(c) by {
                if c < self.remote_map@.len() {
                    assert(self.remote_map@[c as int] == padded[c as int]);
                }
            }
        }
    }

    /// Release a remote channel when its session ends.
    pub fn unregister_remote_channel(&mut self, remote: u16)
        ensures
            final(self).state_spec() == old(self).state_spec(),
            final(self).spec_mapped(remote) is None,
            forall|c: u16| c != remote
                ==> final(self).spec_mapped(c) == old(self).spec_mapped(c),
    {
        let target = remote as usize;
        if target < self.remote_map.len() {
            self.remote_map[target] = None;
        }
    }

    /// Demultiplex an inbound frame's channel: a mapped channel routes to
    /// its session; an unknown channel creates a session only for Begin and
    /// refuses everything else as `not-allowed`.
    pub fn route_channel(&self, remote_channel: u16, is_begin: bool) -> (r: ChannelRoute)
        ensures
            r == match self.spec_mapped(remote_channel) {
                Some(local) => ChannelRoute::Known(local),
                None => if is_begin {
                    ChannelRoute::FreshBegin
                } else {
                    ChannelRoute::Refused
                },
            },
    {
        let idx = remote_channel as usize;
        let mapped = if idx < self.remote_map.len() {
            self.remote_map[idx]
        } else {
            None
        };
        match mapped {
            Some(local) => ChannelRoute::Known(local),
            None => {
                if is_begin {
                    ChannelRoute::FreshBegin
                } else {
                    ChannelRoute::Refused
                }
            },
        }
    }

    /// Emit our Close, with an error when the connection fails rather than
    /// finishes.
    pub fn send_close(&mut self, error: Option<AmqpError>) -> (r: Close)
        requires
            old(self).state_spec() is Opened || old(self).state_spec() is CloseRcvd
                || old(self).state_spec() is Discarding,
        ensures
            r.error == error,
            final(self).state_spec() == if old(self).state_spec() is CloseRcvd {
                ConnectionState::Ended
            } else {
                ConnectionState::CloseSent
            },
            final(self).remote_map_spec() == old(self).remote_map_spec(),
    {
        if let ConnectionState::CloseRcvd = self.state {
            self.state = ConnectionState::Ended;
        } else {
            self.state = ConnectionState::CloseSent;
        }
        Close { error }
    }

    /// Take the peer's Close: every resource below the connection is dead,
    /// and the returned error is what every outstanding promise fails with.
    pub fn on_peer_close(&mut self, close: &Close) -> (r: AmqpTransportError)
        requires
            old(self).state_spec() is Opened || old(self).state_spec() is CloseSent
                || old(self).state_spec() is Discarding,
        ensures
            final(self).state_spec() == if old(self).state_spec() is CloseSent {
                ConnectionState::Ended
            } else {
                ConnectionState::CloseRcvd
            },
            final(self).error_spec() == close.error,
            r == match close.error {
                Some(e) => AmqpTransportError::Protocol(Some(e)),
                None => AmqpTransportError::Disconnected,
            },
    {
        if let ConnectionState::CloseSent = self.state {
            self.state = ConnectionState::Ended;
        } else {
            self.state = ConnectionState::CloseRcvd;
        }
        self.error = close.error;
        match close.error {
            Some(e) => AmqpTransportError::Protocol(Some(e)),
            None => AmqpTransportError::Disconnected,
        }
    }

    /// The idle timeout fired: the connection fails with `Timeout` and
    /// every outstanding promise with `Disconnected`.
    pub fn on_idle_timeout(&mut self) -> (r: AmqpTransportError)
        requires
            old(self).state_spec() is Opened,
        ensures
            final(self).state_spec() is Discarding,
            r == AmqpTransportError::Timeout,
    {
        self.state = ConnectionState::Discarding;
        AmqpTransportError::Timeout
    }

    /// Whether a frame on channel 0 is legal now: only between the Open
    /// exchange and the Close exchange.
    pub fn channel_zero_open(&self) -> (r: bool)
        ensures
            r == (self.state_spec() is Opened || self.state_spec() is OpenSent
                || self.state_spec() is OpenRcvd),
    {
        match self.state {
            ConnectionState::Opened | ConnectionState::OpenSent | ConnectionState::OpenRcvd
                => true,
            _ => false,
        }
    }
}

/// The Open exchange after the headers: the first inbound frame must be an
/// Open; it is adopted as the remote configuration and answered with ours,
/// and the connection reaches Opened.
pub fn open_connection(conn: &mut Connection, first: Option<Performative>)
    -> (r: Result<Open, HandshakeError>)
    requires
        old(conn).state_spec() is HdrRcvd,
    ensures
        match first {
            Some(Performative::Open(o)) => {
                &&& final(conn).state_spec() is Opened
                &&& final(conn).remote_spec() matches Some(c)
                    && c.container_id@ == o.container_id@
                    && c.idle_timeout == o.idle_timeout
                    && c.max_frame_size == o.max_frame_size
                    && c.channel_max == o.channel_max
                &&& (r matches Ok(reply)
                    && reply.container_id@ == old(conn).local_spec().container_id@
                    && reply.idle_timeout == old(conn).local_spec().idle_timeout
                    && reply.max_frame_size == old(conn).local_spec().max_frame_size
                    && reply.channel_max == old(conn).local_spec().channel_max)
            },
            Some(_) => r == Err::<Open, HandshakeError>(HandshakeError::UnexpectedFrame)
                && final(conn).state_spec() is Ended,
            None => r == Err::<Open, HandshakeError>(HandshakeError::Disconnected)
                && final(conn).state_spec() is Ended,
        },
{
    match first {
        Some(Performative::Open(o)) => {
            conn.on_peer_open(&o);
            Ok(conn.send_open())
        },
        Some(_) => {
            conn.state = ConnectionState::Ended;
            Err(HandshakeError::UnexpectedFrame)
        },
        None => {
            conn.state = ConnectionState::Ended;
            Err(HandshakeError::Disconnected)
        },
    }
}

/// Condition for refusing a frame on an unknown channel.
pub fn unknown_channel_error() -> (r: AmqpError)
    ensures
        r.condition == Condition::NotAllowed,
{
    AmqpError { condition: Condition::NotAllowed }
}

} // verus!
