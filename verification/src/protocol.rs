//! The performatives the core handles, the protocol header, and the modular
//! `u32` arithmetic of AMQP sequence numbers.
//!
//! The byte-level codec is an external collaborator: this module defines the
//! decoded shapes the engine consumes and produces, plus the one piece of
//! wire format that belongs to the core, the 8-byte protocol header.

use vstd::prelude::*;
use vstd::slice::slice_index_get;

use crate::error::AmqpError;
use crate::shim::{bytes_as_slice, bytes_content, bytes_copy_from_slice, bytes_eq, bytes_len};

verus! {

/// A session-scoped number naming a link.
pub type Handle = u32;

/// The modulus of AMQP RFC-1982 style sequence numbers.
pub open spec fn seq_modulus() -> int {
    0x1_0000_0000
}

/// `a + n` as a wrapping 32-bit sequence number.
pub open spec fn spec_seq_add(a: u32, n: int) -> u32 {
    (((a + n) % seq_modulus() + seq_modulus()) % seq_modulus()) as u32
}

/// The next sequence number after `a`.
pub fn seq_inc(a: u32) -> (r: u32)
    ensures
        r == spec_seq_add(a, 1),
{
    if a == u32::MAX {
        0
    } else {
        a + 1
    }
}

/// An application message.  The engine treats the payload as opaque octets;
/// the codec frames it on the way out.
pub struct Message {
    pub body: bytes::Bytes,
}

impl View for Message {
    type V = Seq<u8>;

    open spec fn view(&self) -> Seq<u8> {
        bytes_content(self.body)
    }
}

impl Message {
    /// A message holding a copy of the given payload.
    pub fn new(payload: &[u8]) -> (r: Message)
        ensures
            r@ == payload@,
    {
        Message { body: bytes_copy_from_slice(payload) }
    }

    /// The payload length in octets.
    pub fn len(&self) -> (r: usize)
        ensures
            r == self@.len(),
    {
        bytes_len(&self.body)
    }

    /// The payload octets.
    pub fn payload(&self) -> (r: &[u8])
        ensures
            r@ == self@,
    {
        bytes_as_slice(&self.body)
    }

    /// Whether two messages carry the same payload.
    pub fn payload_eq(&self, other: &Message) -> (r: bool)
        ensures
            r == (self@ == other@),
    {
        bytes_eq(&self.body, &other.body)
    }
}

/// The protocol announced by an 8-byte header.
#[derive(Clone, Copy, Debug, PartialEq, Eq, Structural)]
pub enum ProtocolId {
    /// Plain AMQP, id 0.
    Amqp,
    /// The SASL security layer, id 2.
    AmqpSasl,
    /// TLS, id 3.
    AmqpTls,
}

pub open spec fn spec_protocol_id_byte(p: ProtocolId) -> u8 {
    match p {
        ProtocolId::Amqp => 0,
        ProtocolId::AmqpSasl => 2,
        ProtocolId::AmqpTls => 3,
    }
}

/// The literal 8 bytes `41 4d 51 50 <id> 01 00 00`.
pub open spec fn spec_protocol_header(p: ProtocolId) -> Seq<u8> {
    seq![0x41u8, 0x4du8, 0x51u8, 0x50u8, spec_protocol_id_byte(p), 1u8, 0u8, 0u8]
}

/// Encode the protocol header for `p`.
pub fn protocol_header(p: ProtocolId) -> (r: [u8; 8])
    ensures
        r@ == spec_protocol_header(p),
{
    let id: u8 = match p {
        ProtocolId::Amqp => 0,
        ProtocolId::AmqpSasl => 2,
        ProtocolId::AmqpTls => 3,
    };
    let r: [u8; 8] = [0x41, 0x4d, 0x51, 0x50, id, 1, 0, 0];
    proof {
        assert(r@ =~= spec_protocol_header(p));
    }
    r
}

/// Decode an 8-byte protocol header; `None` when the bytes are not a
/// well-formed header of a protocol the core knows.
pub fn parse_protocol_header(b: &[u8]) -> (r: Option<ProtocolId>)
    ensures
        r matches Some(p) ==> b@ == spec_protocol_header(p),
        r is None ==> (forall|p: ProtocolId| b@ != spec_protocol_header(p)),
{
    if b.len() != 8 {
        proof {
            assert forall|p: ProtocolId| b@ != spec_protocol_header(p) by {
                assert(spec_protocol_header(p).len() == 8);
            }
        }
        return None;
    }
    let fixed_ok = *slice_index_get(b, 0) == 0x41 && *slice_index_get(b, 1) == 0x4d
        && *slice_index_get(b, 2) == 0x51 && *slice_index_get(b, 3) == 0x50
        && *slice_index_get(b, 5) == 1 && *slice_index_get(b, 6) == 0
        && *slice_index_get(b, 7) == 0;
    let id = *slice_index_get(b, 4);
    let r = if !fixed_ok {
        None
    } else {
        match id {
            0 => Some(ProtocolId::Amqp),
            2 => Some(ProtocolId::AmqpSasl),
            3 => Some(ProtocolId::AmqpTls),
            _ => None,
        }
    };
    proof {
        if r is Some {
            assert(b@ =~= spec_protocol_header(r->0));
        } else {
            assert forall|p: ProtocolId| b@ != spec_protocol_header(p) by {
                let h = spec_protocol_header(p);
                assert(h[0] == 0x41 && h[1] == 0x4d && h[2] == 0x51 && h[3] == 0x50
                    && h[5] == 1 && h[6] == 0 && h[7] == 0);
                assert(h[4] == spec_protocol_id_byte(p));
                if b@ == h {
                    assert(b@[0] == h[0] && b@[1] == h[1] && b@[2] == h[2] && b@[3] == h[3]
                        && b@[4] == h[4] && b@[5] == h[5] && b@[6] == h[6] && b@[7] == h[7]);
                }
            }
        }
    }
    r
}

/// The local peer's configuration, announced in its Open.
pub struct Configuration {
    /// Largest frame the peer may send us; at least 512.
    pub max_frame_size: u32,
    /// Highest session channel number we allow.
    pub channel_max: u16,
    /// Milliseconds of our silence beyond which the peer may consider us
    /// dead; `None` when we police no idle timeout.
    pub idle_timeout: Option<u32>,
    /// Identifies this container instance.
    pub container_id: String,
    /// Virtual-host name for the remote.
    pub hostname: Option<String>,
}

impl Default for Configuration {
    /// The defaults of the enumerated options: 64 KiB frames, every
    /// channel, no idle timeout.
    fn default() -> (r: Configuration)
        ensures
            r.wf(),
            r.max_frame_size == 65536,
            r.channel_max == u16::MAX,
            r.idle_timeout is None,
            r.container_id@ == Seq::<char>::empty(),
            r.hostname is None,
    {
        Configuration {
            max_frame_size: 65536,
            channel_max: u16::MAX,
            idle_timeout: None,
            container_id: String::new(),
            hostname: None,
        }
    }
}

impl Configuration {
    /// Well-formedness: the largest frame a peer may be offered is never
    /// below the protocol's minimum of 512 octets.
    pub open spec fn wf(&self) -> bool {
        self.max_frame_size >= 512
    }

    /// The Open performative announcing this configuration.
    pub fn to_open(&self) -> (r: Open)
        ensures
            r.container_id@ == self.container_id@,
            r.hostname == self.hostname,
            r.max_frame_size == self.max_frame_size,
            r.channel_max == self.channel_max,
            r.idle_timeout == self.idle_timeout,
    {
        Open {
            container_id: self.container_id.clone(),
            hostname: if let Some(h) = &self.hostname {
                Some(h.clone())
            } else {
                None
            },
            max_frame_size: self.max_frame_size,
            channel_max: self.channel_max,
            idle_timeout: self.idle_timeout,
        }
    }

    /// The configuration a received Open announces.
    pub fn from_open(open: &Open) -> (r: Configuration)
        ensures
            r.container_id@ == open.container_id@,
            r.hostname == open.hostname,
            r.max_frame_size == open.max_frame_size,
            r.channel_max == open.channel_max,
            r.idle_timeout == open.idle_timeout,
    {
        Configuration {
            max_frame_size: open.max_frame_size,
            channel_max: open.channel_max,
            idle_timeout: open.idle_timeout,
            container_id: open.container_id.clone(),
            hostname: if let Some(h) = &open.hostname {
                Some(h.clone())
            } else {
                None
            },
        }
    }

    /// Half the peer's tolerated silence, in milliseconds: the period at
    /// which we must prove liveness towards it.
    pub fn heartbeat_period(&self) -> (r: Option<u64>)
        ensures
            r == match self.idle_timeout {
                Some(t) => Some((t / 2) as u64),
                None => None::<u64>,
            },
    {
        match self.idle_timeout {
            Some(t) => Some((t / 2) as u64),
            None => None,
        }
    }
}

/// Open, exchanged once on channel 0.
pub struct Open {
    pub container_id: String,
    pub hostname: Option<String>,
    pub max_frame_size: u32,
    pub channel_max: u16,
    pub idle_timeout: Option<u32>,
}

/// Begin, creating a session on a channel.
#[derive(Clone, Copy, Debug, PartialEq, Eq, Structural)]
pub struct Begin {
    pub remote_channel: Option<u16>,
    pub next_outgoing_id: u32,
    pub incoming_window: u32,
    pub outgoing_window: u32,
    pub handle_max: u32,
}

/// Which end of a link a peer is.
#[derive(Clone, Copy, Debug, PartialEq, Eq, Structural)]
pub enum Role {
    Sender,
    Receiver,
}

/// Attach, creating a link on a session.
pub struct Attach {
    pub name: String,
    pub handle: Handle,
    pub role: Role,
    pub initial_delivery_count: Option<u32>,
}

/// Flow, carrying session windows and optional link-scoped credit.
#[derive(Clone, Copy, Debug, PartialEq, Eq, Structural)]
pub struct Flow {
    pub next_incoming_id: Option<u32>,
    pub incoming_window: u32,
    pub next_outgoing_id: u32,
    pub outgoing_window: u32,
    pub handle: Option<Handle>,
    pub delivery_count: Option<u32>,
    pub link_credit: Option<u32>,
    pub available: Option<u32>,
    pub drain: bool,
    pub echo: bool,
}

/// Transfer, carrying one message on a link.
pub struct Transfer {
    pub handle: Handle,
    pub delivery_id: Option<u32>,
    pub settled: bool,
    pub message: Message,
}

/// The terminal outcome of a delivery.
#[derive(Clone, Copy, Debug, PartialEq, Eq, Structural)]
pub enum Outcome {
    Accepted,
    Rejected,
    Released,
    Modified,
}

/// Disposition, settling a contiguous range of delivery ids.
#[derive(Clone, Copy, Debug, PartialEq, Eq, Structural)]
pub struct Disposition {
    pub role: Role,
    pub first: u32,
    pub last: Option<u32>,
    pub settled: bool,
    pub state: Option<Outcome>,
}

/// Detach, closing a link.
pub struct Detach {
    pub handle: Handle,
    pub closed: bool,
    pub error: Option<AmqpError>,
}

/// End, closing a session.
pub struct End {
    pub error: Option<AmqpError>,
}

/// Close, closing a connection.
pub struct Close {
    pub error: Option<AmqpError>,
}

/// One decoded AMQP performative, or the empty (heartbeat) frame body.
pub enum Performative {
    Open(Open),
    Begin(Begin),
    Attach(Attach),
    Flow(Flow),
    Transfer(Transfer),
    Disposition(Disposition),
    Detach(Detach),
    End(End),
    Close(Close),
    Empty,
}

/// One decoded AMQP frame: a channel and a performative.
pub struct AmqpFrame {
    pub channel: u16,
    pub performative: Performative,
}

} // verus!
