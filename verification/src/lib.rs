//! Core of a multi-tenant manager for a document-indexing engine.
//!
//! The crate owns tenant credential accounts ("apikey accounts"), the set of
//! indices each tenant controls, id allocation, the atomic-persistence
//! protocol for account metadata, and the multiple-reader/single-writer
//! discipline that makes index lifecycle operations safe to interleave with
//! document mutation and search.  The engine itself (tokenization, ranking,
//! on-disk segments) is an external collaborator: callers perform the engine
//! and filesystem work and hand its outcomes to the verified functions here,
//! which make every decision and keep every registry.
use vstd::prelude::*;

pub mod guard;
pub mod persist;
pub mod registry;
pub mod search;
pub mod store;
pub mod dispatch;
pub mod handle;
pub mod types;

verus! {

/// Errors surfaced by the resource-manager core.
///
/// `NotFound` covers an unknown credential hash or index id; `IOFailure`
/// reports a failed directory/file create, write, or rename; `EngineFailure`
/// carries any error string surfaced by the engine collaborator.
#[derive(Debug, Clone)]
pub enum ApiError {
    NotFound,
    IOFailure(String),
    EngineFailure(String),
}

} // verus!
