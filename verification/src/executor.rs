//! Deletion executor: classifies the result of one remote delete exchange
//! and applies the confirmed ones to the ledger. The exchange itself is the
//! caller's job; the engine only decides and records.
use crate::json::{json_text, Json};
use crate::ledger::{
    doc_view, is_ledger_json, record_deletion, spec_ledger_of_doc, LedgerEntry,
};
use crate::EngineError;
use vstd::prelude::*;

verus! {

/// The result of one attempted remote delete exchange.
pub enum RemoteOutcome {
    /// The exchange completed with this status code.
    Completed(u16),
    /// The exchange could not complete at all.
    TransportFailed,
}

/// A completed exchange confirms the message is gone when the service
/// reports success (2xx) or reports it already absent (404).
pub open spec fn spec_confirms_deletion(status: u16) -> bool {
    status == 404 || (200 <= status && status < 300)
}

/// Decides whether a completed delete exchange is recorded in the ledger.
pub fn confirms_deletion(status: u16) -> (r: bool)
    ensures
        r == spec_confirms_deletion(status),
{
    status == 404 || (200 <= status && status < 300)
}

/// The executor's per-invocation state machine: a completed exchange is
/// reported with its status code verbatim, and the ledger is told to record
/// exactly the confirming ones; a transport failure is a generic failure
/// that never touches the ledger.
pub fn plan_delete(outcome: &RemoteOutcome) -> (r: Result<(u16, bool), EngineError>)
    ensures
        match *outcome {
            RemoteOutcome::Completed(status) => r == Ok::<_, EngineError>(
                (status, spec_confirms_deletion(status)),
            ),
            RemoteOutcome::TransportFailed => r == Err::<(u16, bool), _>(
                EngineError::RemoteTransportFailure,
            ),
        },
{
    match outcome {
        RemoteOutcome::Completed(status) => Ok((*status, confirms_deletion(*status))),
        RemoteOutcome::TransportFailed => Err(EngineError::RemoteTransportFailure),
    }
}

/// One whole delete invocation after the remote exchange: report the status
/// code verbatim, and where the exchange confirms the deletion, hand back
/// the replacement ledger document holding the appended pair. A transport
/// failure or a corrupt ledger changes nothing.
pub fn delete_message(
    outcome: &RemoteOutcome,
    ledger_doc: Option<&str>,
    channel_id: &String,
    message_id: &String,
) -> (r: Result<(u16, Option<String>), EngineError>)
    ensures
        match *outcome {
            RemoteOutcome::TransportFailed => r == Err::<(u16, Option<String>), _>(
                EngineError::RemoteTransportFailure,
            ),
            RemoteOutcome::Completed(status) => if !spec_confirms_deletion(status) {
                r == Ok::<_, EngineError>((status, None::<String>))
            } else {
                match r {
                    Ok(p) => {
                        &&& p.0 == status
                        &&& spec_ledger_of_doc(doc_view(ledger_doc)) is Ok
                        &&& p.1 matches Some(t) && (exists|j: Json|
                            #[trigger] is_ledger_json(
                                j,
                                spec_ledger_of_doc(doc_view(ledger_doc))->Ok_0.push(
                                    LedgerEntry {
                                        channel_id: *channel_id,
                                        message_id: *message_id,
                                    },
                                ),
                            ) && t@ == json_text(j))
                    },
                    Err(e) => e == EngineError::LedgerCorrupt && spec_ledger_of_doc(
                        doc_view(ledger_doc),
                    ) == Err::<Seq<LedgerEntry>, _>(e),
                }
            },
        },
{
    match outcome {
        RemoteOutcome::TransportFailed => Err(EngineError::RemoteTransportFailure),
        RemoteOutcome::Completed(status) => {
            if confirms_deletion(*status) {
                match record_deletion(ledger_doc, channel_id, message_id) {
                    Ok(t) => Ok((*status, Some(t))),
                    Err(e) => Err(e),
                }
            } else {
                Ok((*status, None))
            }
        },
    }
}

} // verus!
