//! Execution of threads: tool calls, embedded Python code, and the loop around
//! them.

pub mod calls;
pub mod code_step;
pub mod compaction;
pub mod context;
pub mod host_actions;
pub mod interchange;
pub mod llm;
pub mod loop_engine;
pub mod orchestrator;
pub mod output;
pub mod python;
pub mod queries;
pub mod scripting;
pub mod structured;
pub mod value;
pub mod versions;
