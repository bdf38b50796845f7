//! Verified core of the agent engine and its chat channels.

pub mod capability;
pub mod channels;
pub mod common;
pub mod executor;
pub mod gate;
pub mod json;
pub mod memory;
pub mod number;
pub mod text;
pub mod types;
