//! Capabilities: what is registered, what is granted, and what is allowed.

pub mod lease;
pub mod planner;
pub mod policy;
pub mod registry;
