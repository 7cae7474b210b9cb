//! The running program: health checks, the system service and what is started.

pub mod health;
pub mod service;
pub mod startup;
pub mod laws;
