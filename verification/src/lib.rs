//! A response cache for idempotent remote lookups, written without I/O.
//!
//! The cache memoizes tool responses under a key derived from the tool's
//! name and its arguments, and treats an entry as valid for a configured
//! time-to-live. This crate holds every decision the cache makes: how a key
//! is derived, when an entry is fresh, which directory entries a clear
//! removes and what it reports. Touching the file system, the clock and the
//! configuration is left to the host, which performs the step the cache asks
//! for and hands back what it observed.
//!
//! The parts, from the leaves up:
//!
//! - [`text`]: numbers and lists rendered into strings;
//! - [`notice`]: diagnostics for the log and results of commands;
//! - [`types`]: the argument records of the cached tools;
//! - [`ttl`]: the time-to-live and the setting it is resolved from;
//! - [`fingerprint`] and [`key`]: from a tool's name and its arguments to
//!   the path of the entry;
//! - [`fresh`]: when an entry is still valid;
//! - [`entry`] and [`store`]: the files of the cache root, and what the host
//!   reports of them;
//! - [`cache`]: the cache and what it learns once;
//! - [`get`], [`put`] and [`clear`]: the three operations, step by step;
//! - [`laws`] and [`model`]: what holds of the operations, on their own and
//!   over a store.
pub mod cache;
pub mod clear;
pub mod entry;
pub mod fingerprint;
pub mod fresh;
pub mod get;
pub mod key;
pub mod laws;
pub mod model;
pub mod notice;
pub mod put;
pub mod store;
pub mod text;
pub mod ttl;
pub mod types;
