//! Chat channels: how messages come in from a service, who may send them, and how
//! replies go out.
//!
//! Each channel decides; the host around it reads and writes its workspace, sends the
//! HTTP requests, and hands what came back in as plain values.

pub mod discord;
pub mod discord_access;
pub mod discord_interact;
pub mod discord_poll;
pub mod feishu;
pub mod host;
pub mod prismer;
