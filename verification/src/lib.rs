//! Backup reconciliation engine: rebuilds a readable chat archive from a raw
//! message-export directory tree and reconciles it against a persisted ledger
//! of messages already deleted from the live service.
//!
//! The engine itself is pure: callers read documents and directory listings,
//! hand the raw text in, and get the assembled archive (or a new ledger
//! document) back.
use vstd::prelude::*;

pub mod backup;
pub mod executor;
pub mod export;
pub mod ident;
pub mod json;
pub mod ledger;

verus! {

/// The failure conditions the engine can report.
#[derive(Clone, Copy, Debug, PartialEq, Eq, Structural)]
pub enum EngineError {
    /// The caller-supplied export root is not a directory.
    InvalidInput,
    /// A channel descriptor or message list is missing or structurally bad.
    MalformedExport,
    /// The persisted deletion ledger exists but fails to parse.
    LedgerCorrupt,
    /// The remote delete call could not complete at all.
    RemoteTransportFailure,
}

} // verus!
