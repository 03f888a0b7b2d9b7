//! A protocol-aware TCP reverse proxy core: variable-length integer codec,
//! length-prefixed packet framing, handshake parsing, hostname routing, and
//! the pure decision logic behind connection relaying and configuration
//! reloads.

pub mod convert;
pub mod handshake;
pub mod packet;
pub mod ranging;
pub mod resolver;
pub mod relay;
pub mod routing;
pub mod store;
pub mod varint;
