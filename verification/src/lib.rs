//! A dynamic plugin manager for a command-dispatch server.
//!
//! The crate models the subsystem that loads handler modules (native shared
//! libraries) at runtime, registers the command groups they export into a
//! live dispatch table, removes them without invalidating in-flight
//! dispatch, and reclaims a module's mapping only on an explicit flush.
//!
//! All file-system and loader I/O (copying the module to its staged path,
//! opening the mapping, resolving the exported entry point) happens outside
//! this crate; the manager is handed the outcome of those steps as plain
//! values and makes every decision — staging names, registry membership,
//! quarantine, dispatch matching — in verified code.

pub mod admin;
pub mod code_block;
pub mod descriptor;
pub mod dispatch;
pub mod errors;
pub mod framework;
pub mod handle;
pub mod laws;
pub mod manager;
pub mod staging;
pub mod yolol_config;
