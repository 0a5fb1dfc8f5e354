//! Error taxonomy of the engine.
//!
//! Errors flow root-ward: a link error detaches only that link, a session
//! error ends that session, a connection error closes the connection.  Every
//! error that crosses a resource boundary carries at most an AMQP error
//! condition; the condition is what contracts and peers see.

use vstd::prelude::*;

verus! {

/// An AMQP error condition from the constrained domains the core handles.
#[derive(Clone, Copy, Debug, PartialEq, Eq, Structural)]
pub enum Condition {
    /// `amqp:internal-error`
    InternalError,
    /// `amqp:not-allowed`
    NotAllowed,
    /// `amqp:connection:framing-error`
    FramingError,
    /// `amqp:session:window-violation`
    WindowViolation,
    /// `amqp:session:handle-in-use`
    HandleInUse,
    /// `amqp:session:unattached-handle`
    UnattachedHandle,
    /// `amqp:link:transfer-limit-exceeded`
    TransferLimitExceeded,
    /// `amqp:link:detach-forced`
    DetachForced,
    /// `amqp:link:message-size-exceeded`
    MessageSizeExceeded,
}

pub open spec fn spec_condition_symbol(c: Condition) -> Seq<char> {
    match c {
        Condition::InternalError => "amqp:internal-error"@,
        Condition::NotAllowed => "amqp:not-allowed"@,
        Condition::FramingError => "amqp:connection:framing-error"@,
        Condition::WindowViolation => "amqp:session:window-violation"@,
        Condition::HandleInUse => "amqp:session:handle-in-use"@,
        Condition::UnattachedHandle => "amqp:session:unattached-handle"@,
        Condition::TransferLimitExceeded => "amqp:link:transfer-limit-exceeded"@,
        Condition::DetachForced => "amqp:link:detach-forced"@,
        Condition::MessageSizeExceeded => "amqp:link:message-size-exceeded"@,
    }
}

impl Condition {
    /// The symbolic value put on the wire for this condition.
    pub fn symbol(&self) -> (r: &'static str)
        ensures
            r@ == spec_condition_symbol(*self),
    {
        match self {
            Condition::InternalError => "amqp:internal-error",
            Condition::NotAllowed => "amqp:not-allowed",
            Condition::FramingError => "amqp:connection:framing-error",
            Condition::WindowViolation => "amqp:session:window-violation",
            Condition::HandleInUse => "amqp:session:handle-in-use",
            Condition::UnattachedHandle => "amqp:session:unattached-handle",
            Condition::TransferLimitExceeded => "amqp:link:transfer-limit-exceeded",
            Condition::DetachForced => "amqp:link:detach-forced",
            Condition::MessageSizeExceeded => "amqp:link:message-size-exceeded",
        }
    }
}

/// The error field of a Detach, End or Close performative.
#[derive(Clone, Copy, Debug, PartialEq, Eq, Structural)]
pub struct AmqpError {
    pub condition: Condition,
}

impl AmqpError {
    pub fn new(condition: Condition) -> (r: AmqpError)
        ensures
            r.condition == condition,
    {
        AmqpError { condition }
    }
}

/// A transport-level failure as delivered to pending deliveries and callers.
#[derive(Clone, Copy, Debug, PartialEq, Eq, Structural)]
pub enum AmqpTransportError {
    /// Malformed frame, unknown performative, size overflow.
    Codec,
    /// Performative valid but illegal in the current state.
    Protocol(Option<AmqpError>),
    /// The link failed or was detached by the peer.
    LinkDetached(Option<AmqpError>),
    /// The session ended.
    SessionEnded(Option<AmqpError>),
    /// I/O failure or unexpected end of stream.
    Disconnected,
    /// The idle timeout fired.
    Timeout,
    /// The caller-supplied handler failed.
    Service,
}

} // verus!
