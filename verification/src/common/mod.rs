//! What every part of the program shares.

pub mod rule;
pub mod process;
pub mod process_laws;
