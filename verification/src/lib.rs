//! Provisioning orchestrator for a multi-tenant wiki fleet.
//!
//! The library holds the verified core: input validation, the event model
//! and its wire encoding, the provisioning pipeline with its step stack and
//! rollback plan, the permissions writer, configuration rendering, and the
//! decision logic of the HTTP handlers. All I/O (database, cache/bus,
//! filesystem, container runtime, HTTP transport) lives outside the library
//! and hands plain values in and out.

pub mod auth;
pub mod create;
pub mod db;
pub mod docker;
pub mod env;
pub mod error;
pub mod events;
pub mod fsplan;
pub mod hostslug;
pub mod ini;
pub mod jsonchars;
pub mod manage;
pub mod orchestrator;
pub mod permissions;
pub mod strutil;
pub mod subscribe;
pub mod tasks;
pub mod validate;
