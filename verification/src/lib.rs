//! Ingress layer of a QUIC server: endpoint configuration, the accept loop's
//! decisions, and the bounded reading of unidirectional streams into packets.

pub mod acceptor;
pub mod config;
pub mod connection;
pub mod limits;
pub mod notice;
pub mod stream;
pub mod transport;
