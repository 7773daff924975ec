//! Job lifecycle and history tracking for a local speech-to-text toolchain.
//!
//! A transcription request becomes a durable job record that moves from
//! `Running` to either `Completed` or `Failed`.  The record store keeps one
//! metadata record per job together with a denormalized index used for fast
//! listing; the query engine filters, sorts and paginates that index; the
//! runner decides how an external engine process is launched and how its
//! outcome is folded back into the record.  All file, process and clock
//! effects are taken as plain values at the boundary, so every decision in
//! this crate is verified.

pub mod bridge;
pub mod models;
pub mod errors;
pub mod laws;
pub mod progress;
pub mod query;
pub mod registry;
pub mod runner;
pub mod store;
pub mod strutil;
pub mod util;
