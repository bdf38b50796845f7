//! What is kept beyond the life of a thread: documents, and the skills among them.

pub mod skill_tracker;
pub mod store;
