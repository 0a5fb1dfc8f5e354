//! Builders assembling a server-side acceptor.
//!
//! The caller supplies its state, SASL and link handlers outside the
//! engine; here the builder records which legs of the handshake exist and
//! finalizes into the [`Handshake`] acceptor that decides what each peer
//! announcement leads to.

use vstd::prelude::*;

use crate::connection::Connection;
use crate::handshake::{Handshake, HandshakeError};
use crate::protocol::{Configuration, ProtocolId};

verus! {

/// The server dispatcher factory: one configuration and acceptor, shared
/// by every accepted stream.
pub struct Server {
    config: Configuration,
    acceptor: Handshake,
}

impl Server {
    pub closed spec fn config_spec(self) -> Configuration {
        self.config
    }

    pub closed spec fn acceptor_spec(self) -> Handshake {
        self.acceptor
    }

    /// Create the server dispatcher factory.
    pub fn new(config: Configuration, acceptor: Handshake) -> (r: Server)
        ensures
            r.config_spec() == config,
            r.acceptor_spec() == acceptor,
    {
        Server { config, acceptor }
    }

    /// One dispatcher per accepted stream.
    pub fn new_service(&self) -> (r: ServerService)
        ensures
            r.config_spec().container_id@ == self.config_spec().container_id@,
            r.config_spec().hostname == self.config_spec().hostname,
            r.config_spec().max_frame_size == self.config_spec().max_frame_size,
            r.config_spec().channel_max == self.config_spec().channel_max,
            r.config_spec().idle_timeout == self.config_spec().idle_timeout,
            r.acceptor_spec() == self.acceptor_spec(),
    {
        ServerService {
            config: Configuration {
                max_frame_size: self.config.max_frame_size,
                channel_max: self.config.channel_max,
                idle_timeout: self.config.idle_timeout,
                container_id: self.config.container_id.clone(),
                hostname: match &self.config.hostname {
                    Some(h) => Some(h.clone()),
                    None => None,
                },
            },
            acceptor: self.acceptor,
        }
    }
}

/// The per-stream server dispatcher.
pub struct ServerService {
    config: Configuration,
    acceptor: Handshake,
}

impl ServerService {
    pub closed spec fn config_spec(self) -> Configuration {
        self.config
    }

    pub closed spec fn acceptor_spec(self) -> Handshake {
        self.acceptor
    }

    /// The dispatcher accepts work as soon as it exists.
    pub fn poll_ready(&self) -> (r: bool)
        ensures
            r,
    {
        true
    }

    /// Dispatch on the peer's protocol announcement, exactly as the
    /// acceptor decides it.
    pub fn call(&self, got: Option<ProtocolId>) -> (r: Result<ProtocolId, HandshakeError>)
        ensures
            r is Ok ==> got == Some(r->Ok_0),
            got is None ==> r == Err::<ProtocolId, HandshakeError>(
                HandshakeError::Disconnected),
            got == Some(ProtocolId::Amqp) ==> r == Ok::<ProtocolId, HandshakeError>(
                ProtocolId::Amqp),
            got == Some(ProtocolId::AmqpSasl) && self.acceptor_spec().sasl_enabled()
                ==> r == Ok::<ProtocolId, HandshakeError>(ProtocolId::AmqpSasl),
            got == Some(ProtocolId::AmqpSasl) && !self.acceptor_spec().sasl_enabled()
                ==> r is Err,
            got == Some(ProtocolId::AmqpTls) ==> r == Err::<ProtocolId, HandshakeError>(
                HandshakeError::UnexpectedProtocol {
                    expected: ProtocolId::Amqp,
                    got: ProtocolId::AmqpTls,
                }),
    {
        self.acceptor.on_protocol_id(got)
    }

    /// The connection state machine an accepted stream starts from.
    pub fn connection(&self) -> (r: Connection)
        ensures
            r.state_spec() is Start,
            r.local_spec().container_id@ == self.config_spec().container_id@,
            r.local_spec().idle_timeout == self.config_spec().idle_timeout,
    {
        Connection::new(Configuration {
            max_frame_size: self.config.max_frame_size,
            channel_max: self.config.channel_max,
            idle_timeout: self.config.idle_timeout,
            container_id: self.config.container_id.clone(),
            hostname: match &self.config.hostname {
                Some(h) => Some(h.clone()),
                None => None,
            },
        })
    }
}

/// Entry points for assembling a server acceptor.
pub struct ServiceFactory;

/// A partially assembled acceptor: which handshake legs are served.
pub struct ServiceFactoryBuilder {
    sasl: bool,
}

impl ServiceFactory {
    /// Start from a connection-state handler: plain AMQP only.
    pub fn state() -> (r: ServiceFactoryBuilder)
        ensures
            !r.sasl_enabled(),
    {
        ServiceFactoryBuilder { sasl: false }
    }

    /// Start from a SASL handler: the SASL leg is served.
    pub fn sasl() -> (r: ServiceFactoryBuilder)
        ensures
            r.sasl_enabled(),
    {
        ServiceFactoryBuilder { sasl: true }
    }

    /// Finalize straight from a link handler: plain AMQP only.
    pub fn service() -> (r: Handshake)
        ensures
            !r.sasl_enabled(),
    {
        Handshake::new()
    }
}

impl ServiceFactoryBuilder {
    pub closed spec fn sasl_enabled(self) -> bool {
        self.sasl
    }

    /// Also serve the SASL leg.
    pub fn sasl(self) -> (r: ServiceFactoryBuilder)
        ensures
            r.sasl_enabled(),
    {
        ServiceFactoryBuilder { sasl: true }
    }

    /// Finalize into the handshake acceptor.
    pub fn service(self) -> (r: Handshake)
        ensures
            r.sasl_enabled() == self.sasl_enabled(),
    {
        if self.sasl {
            Handshake::new().sasl()
        } else {
            Handshake::new()
        }
    }
}

} // verus!
