//! Tool operation: the durable side-effect boundary a dispatch fact opens.
//!
//! One operation per tool call; its `current_state` advances from `dispatched`
//! to `completed` as the runtime persists the call, the dispatch fact and the
//! result. Recovery reads these rows to decide whether to re-execute, reconcile
//! or park an interrupted operation.

use crate::store::StoreResult;
use vstd::prelude::*;

verus! {

/// One durable tool side-effect boundary.
#[derive(Debug, PartialEq)]
pub struct ToolOperation {
    pub operation_id: String,
    pub invocation_id: String,
    pub run_id: String,
    pub turn_id: String,
    pub provider_tool_call_id: String,
    pub tool_name: String,
    pub canonical_args_hash: String,
    pub recovery_mode: String,
    pub current_state: String,
    pub call_event_id: String,
    pub result_event_id: Option<String>,
    pub dispatch_event_id: Option<String>,
    pub version: i64,
}

impl Clone for ToolOperation {
    fn clone(&self) -> (r: Self)
        ensures
            r == *self,
    {
        ToolOperation {
            operation_id: self.operation_id.clone(),
            invocation_id: self.invocation_id.clone(),
            run_id: self.run_id.clone(),
            turn_id: self.turn_id.clone(),
            provider_tool_call_id: self.provider_tool_call_id.clone(),
            tool_name: self.tool_name.clone(),
            canonical_args_hash: self.canonical_args_hash.clone(),
            recovery_mode: self.recovery_mode.clone(),
            current_state: self.current_state.clone(),
            call_event_id: self.call_event_id.clone(),
            result_event_id: crate::schema::clone_opt_text(&self.result_event_id),
            dispatch_event_id: crate::schema::clone_opt_text(&self.dispatch_event_id),
            version: self.version,
        }
    }
}

/// Persists tool-operation rows. The runtime writes one row when it dispatches a
/// tool call and upserts it when the result lands.
pub trait ToolOperationStore {
    /// Upsert one tool operation row (`operation_id` is the primary key).
    fn record_tool_operation(&mut self, op: &ToolOperation) -> StoreResult<()>;

    /// Read one tool operation by its operation id.
    fn read_tool_operation(&self, operation_id: &str) -> StoreResult<Option<ToolOperation>>;
}

} // verus!
