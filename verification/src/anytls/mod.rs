//! The AnyTLS protocol engine: many streams over one TLS connection.

pub mod buf;
pub mod padding;
pub mod protocol;
pub mod session;
pub mod session_laws;
pub mod settings;
pub mod pool;
pub mod socks;
pub mod udp;
pub mod relay_laws;
