//! The data that the engine works on.

pub mod capability;
pub mod doc;
pub mod error;
pub mod event;
pub mod ids;
pub mod message;
pub mod thread;
