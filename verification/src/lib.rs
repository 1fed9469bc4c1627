//! Supervision core for sandboxed workloads with remote interactive sessions.
//!
//! The library covers four concerns: a trust verdict over the ownership and
//! permissions of a directory tree (`security`), construction and teardown of
//! an isolated execution context (`sandbox`), a registry pairing each running
//! workload with its command/output channel endpoints (`task_manager`), and a
//! session layer that maps expiring opaque tokens to workload identifiers and
//! decides how an incoming remote connection is handled (`websocket`).
//!
//! The project-management side (configuration records, version strings, jar
//! inspection) lives in the remaining modules; file and network transport is
//! left to the surrounding application.

pub mod assoc;
pub mod config;
pub mod create;
pub mod file_info;
pub mod info;
pub mod run;
pub mod sandbox;
pub mod security;
pub mod task_manager;
pub mod text;
pub mod websocket;

pub use sandbox::Sandbox;
pub use sandbox::SandboxConfig;
pub use security::check_owner_and_permissions;
pub use task_manager::TaskManager;
pub use websocket::WebSocketManager;
