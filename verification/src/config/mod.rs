//! The configuration: from the YAML document to everything that runs.

pub mod yaml;
pub mod raw;
pub mod proxy;
pub mod vless;
pub mod group;
pub mod outbound;
pub mod proxy_laws;
pub mod proxy_registry;
pub mod registry_laws;
pub mod node_laws;
pub mod dialer_laws;
pub mod group_laws;
pub mod member_laws;
pub mod listener;
pub mod places;
pub mod geo;
pub mod geo_laws;
pub mod tun;
pub mod sniffer;
pub mod nameserver;
pub mod nameserver_laws;
pub mod dns;
pub mod dns_laws;
pub mod ech;
pub mod ech_laws;
pub mod rule_provider;
pub mod provider_laws;
pub mod assemble;
pub mod config_laws;
pub mod reading_laws;
pub mod outcome_laws;
