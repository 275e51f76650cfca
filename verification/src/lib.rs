//! Port forwarding for a sandboxed development container.
//!
//! A workspace is a directory with a container of its own. A port inside the
//! container is made reachable on the host's loopback interface by a sidecar,
//! a small container that relays TCP connections; the sidecars that run, with
//! their labels, are the only record of what is forwarded. A watcher polls the
//! container for listening ports and keeps the sidecars in step with them.
//!
//! The library decides and computes; it runs no command and touches no file.
//! Whoever uses it runs the commands it names and reports their outcomes back.

pub mod commands;
pub mod config;
pub mod config_laws;
pub mod docker;
pub mod forward_ports;
pub mod json;
pub mod json_text;
pub mod numbers;
pub mod paths;
pub mod ports;
pub mod process;
pub mod text;
pub mod workspace;
