//! The verified core of the meow proxy: the AnyTLS session engine, the
//! configuration compiler and the rules behind the REST control interface.

pub mod text;
pub mod text_laws;
pub mod number;
pub mod anytls;
pub mod net;
pub mod net_laws;
pub mod socket_laws;
pub mod cidr;
pub mod paths;
pub mod path_laws;
pub mod pattern;
pub mod http;
pub mod http_laws;
pub mod common;
pub mod config;
pub mod codec;
pub mod daemon;
pub mod api;
