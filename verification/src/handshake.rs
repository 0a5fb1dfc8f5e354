//! The protocol-header handshake acceptor: which announced protocols a
//! server accepts and what each inbound announcement leads to.
//!
//! The byte stream and the SASL sub-protocol live with the caller; the
//! acceptor decides, for every first frame a peer can present, whether the
//! connection proceeds as plain AMQP, enters the SASL exchange, or fails.

use vstd::prelude::*;

use crate::protocol::ProtocolId;

verus! {

/// A failure before the connection reached the Open exchange.
#[derive(Clone, Copy, Debug, PartialEq, Eq, Structural)]
pub enum HandshakeError {
    /// The peer announced a protocol the acceptor does not serve here.
    UnexpectedProtocol { expected: ProtocolId, got: ProtocolId },
    /// A performative arrived where only Open is legal.
    UnexpectedFrame,
    /// The stream ended mid-handshake.
    Disconnected,
    /// The caller-supplied handler failed.
    Service,
}

/// A server-side handshake acceptor.
#[derive(Clone, Copy, Debug, PartialEq, Eq, Structural)]
pub struct Handshake {
    sasl: bool,
}

/// An acceptor for plain AMQP only.
pub fn handshake() -> (r: Handshake)
    ensures
        !r.sasl_enabled(),
{
    Handshake::new()
}

impl Handshake {
    /// Whether the SASL security layer is served.
    pub closed spec fn sasl_enabled(self) -> bool {
        self.sasl
    }

    /// An acceptor for plain AMQP only.
    pub fn new() -> (r: Handshake)
        ensures
            !r.sasl_enabled(),
    {
        Handshake { sasl: false }
    }

    /// Also serve the SASL security layer.
    pub fn sasl(self) -> (r: Handshake)
        ensures
            r.sasl_enabled(),
    {
        Handshake { sasl: true }
    }

    /// Decide on the peer's protocol announcement: plain AMQP always
    /// proceeds, SASL proceeds when served, TLS is never served here, and a
    /// closed stream is a disconnect.
    pub fn on_protocol_id(&self, got: Option<ProtocolId>) -> (r: Result<ProtocolId,
        HandshakeError>)
        ensures
            r == match got {
                None => Err::<ProtocolId, HandshakeError>(HandshakeError::Disconnected),
                Some(ProtocolId::Amqp) => Ok::<ProtocolId, HandshakeError>(ProtocolId::Amqp),
                Some(ProtocolId::AmqpSasl) => if self.sasl_enabled() {
                    Ok::<ProtocolId, HandshakeError>(ProtocolId::AmqpSasl)
                } else {
                    Err::<ProtocolId, HandshakeError>(HandshakeError::UnexpectedProtocol {
                        expected: ProtocolId::Amqp,
                        got: ProtocolId::AmqpSasl,
                    })
                },
                Some(ProtocolId::AmqpTls) => Err::<ProtocolId, HandshakeError>(
                    HandshakeError::UnexpectedProtocol {
                        expected: ProtocolId::Amqp,
                        got: ProtocolId::AmqpTls,
                    }),
            },
    {
        match got {
            None => Err(HandshakeError::Disconnected),
            Some(ProtocolId::Amqp) => Ok(ProtocolId::Amqp),
            Some(ProtocolId::AmqpSasl) => {
                if self.sasl {
                    Ok(ProtocolId::AmqpSasl)
                } else {
                    Err(HandshakeError::UnexpectedProtocol {
                        expected: ProtocolId::Amqp,
                        got: ProtocolId::AmqpSasl,
                    })
                }
            },
            Some(ProtocolId::AmqpTls) => Err(HandshakeError::UnexpectedProtocol {
                expected: ProtocolId::Amqp,
                got: ProtocolId::AmqpTls,
            }),
        }
    }

    /// The header a peer announcing `got` must be answered with when only
    /// plain AMQP is served: the expected header, or the error that ends
    /// the stream.
    pub fn expect_amqp(got: ProtocolId) -> (r: Result<ProtocolId, HandshakeError>)
        ensures
            r == if got is Amqp {
                Ok::<ProtocolId, HandshakeError>(ProtocolId::Amqp)
            } else {
                Err::<ProtocolId, HandshakeError>(HandshakeError::UnexpectedProtocol {
                    expected: ProtocolId::Amqp,
                    got,
                })
            },
    {
        if let ProtocolId::Amqp = got {
            Ok(ProtocolId::Amqp)
        } else {
            Err(HandshakeError::UnexpectedProtocol { expected: ProtocolId::Amqp, got })
        }
    }
}

} // verus!
