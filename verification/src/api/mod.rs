//! The rules behind the control interface.

pub mod reply;
pub mod auth;
pub mod rules;
pub mod groups;
pub mod subscriptions;
pub mod configs;
pub mod delay;
pub mod connections;
pub mod logs;
pub mod dns;
pub mod proxies;
pub mod providers;
pub mod metrics;
pub mod control_laws;
pub mod list_laws;
pub mod feed_laws;
