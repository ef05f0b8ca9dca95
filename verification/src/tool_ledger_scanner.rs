//! Tool ledger scanner: the single authority for interpreting tool-bearing
//! runtime events, including the reconcile-result and recovery-decision lanes.

use crate::json::opt;
use crate::recovery_fact::ToolRecoveryFactEnvelope;
use crate::recovery_fact::ToolRecoveryFactEnvelopeView;
use crate::runtime_event::Content;
use crate::runtime_event::ContentView;
use crate::runtime_event::Role;
use crate::runtime_event::RuntimeEvent;
use crate::runtime_event::RuntimeEventView;
use crate::runtime_event::ToolDispatch;
use crate::runtime_event::ToolDispatchView;
use crate::text::concat3;
use crate::text::str_eq;
use vstd::hash_map::StringHashMap;
use vstd::hash_set::StringHashSet;
use crate::schema::clone_opt_text;
use vstd::prelude::*;

verus! {

#[derive(Debug, Clone, Copy, PartialEq, Eq, Structural)]
pub enum ToolLedgerLane {
    Ordinary,
    FunctionCall,
    ToolDispatch,
    FunctionResponse,
    /// A `reconcile_result` fact in `actions.toolRecovery`.
    ReconcileResult,
    /// A `recovery_decision` fact in `actions.toolRecovery`.
    RecoveryDecision,
}

#[derive(Debug, Clone, Copy, PartialEq, Eq, Structural)]
pub enum ToolLedgerIssueCode {
    DuplicateEventId,
    DuplicateCall,
    DuplicateDispatch,
    DuplicateResponse,
    OrphanResponse,
    OrphanDispatch,
    IdentityConflict,
    /// A recovery fact with no matching operation.
    RecoveryFactWithoutOperation,
}

#[derive(Debug, PartialEq)]
pub struct ToolLedgerIssue {
    pub code: ToolLedgerIssueCode,
    pub event_id: String,
    pub tool_call_id: Option<String>,
}

#[derive(Debug)]
pub struct ToolLedgerScanOperation {
    pub tool_call_id: String,
    pub tool_name: Option<String>,
    pub operation_id: Option<String>,
    pub call_event: Option<RuntimeEvent>,
    pub dispatch_event: Option<RuntimeEvent>,
    pub response_event: Option<RuntimeEvent>,
    pub reconcile_events: Vec<RuntimeEvent>,
    pub decision_events: Vec<RuntimeEvent>,
    pub issues: Vec<ToolLedgerIssue>,
}

#[derive(Debug)]
pub struct ToolLedgerScanResult {
    pub operations: Vec<ToolLedgerScanOperation>,
    pub issues: Vec<ToolLedgerIssue>,
    pub has_corruption: bool,
}

// ---------------------------------------------------------------------------
// The model
// ---------------------------------------------------------------------------

/// What a [`ToolLedgerIssue`] says.
pub struct IssueView {
    pub code: ToolLedgerIssueCode,
    pub event_id: Seq<char>,
    pub tool_call_id: Option<Seq<char>>,
}

/// What a [`ToolLedgerScanOperation`] says.
pub struct OperationView {
    pub tool_call_id: Seq<char>,
    pub tool_name: Option<Seq<char>>,
    pub operation_id: Option<Seq<char>>,
    pub call_event: Option<RuntimeEventView>,
    pub dispatch_event: Option<RuntimeEventView>,
    pub response_event: Option<RuntimeEventView>,
    pub reconcile_events: Seq<RuntimeEventView>,
    pub decision_events: Seq<RuntimeEventView>,
    pub issues: Seq<IssueView>,
}

impl View for ToolLedgerIssue {
    type V = IssueView;

    open spec fn view(&self) -> IssueView {
        IssueView {
            code: self.code,
            event_id: self.event_id@,
            tool_call_id: opt(self.tool_call_id),
        }
    }
}

pub open spec fn issue_views(v: Seq<ToolLedgerIssue>) -> Seq<IssueView> {
    Seq::new(v.len(), |i: int| v[i]@)
}

/// The events a list holds, as model values.
pub open spec fn event_views(v: Seq<RuntimeEvent>) -> Seq<RuntimeEventView> {
    Seq::new(v.len(), |i: int| v[i]@)
}

impl View for ToolLedgerScanOperation {
    type V = OperationView;

    open spec fn view(&self) -> OperationView {
        OperationView {
            tool_call_id: self.tool_call_id@,
            tool_name: opt(self.tool_name),
            operation_id: opt(self.operation_id),
            call_event: opt(self.call_event),
            dispatch_event: opt(self.dispatch_event),
            response_event: opt(self.response_event),
            reconcile_events: event_views(self.reconcile_events@),
            decision_events: event_views(self.decision_events@),
            issues: issue_views(self.issues@),
        }
    }
}

pub open spec fn operation_views(v: Seq<ToolLedgerScanOperation>) -> Seq<OperationView> {
    Seq::new(v.len(), |i: int| v[i]@)
}

/// The dispatch fact an event carries.
pub open spec fn dispatch_of(e: RuntimeEventView) -> Option<ToolDispatchView> {
    match e.actions {
        Some(a) => a.tool_dispatch,
        None => None,
    }
}

/// The recovery fact an event carries.
pub open spec fn recovery_of(e: RuntimeEventView) -> Option<ToolRecoveryFactEnvelopeView> {
    match e.actions {
        Some(a) => a.tool_recovery,
        None => None,
    }
}

/// Which lane of the tool ledger an event belongs to: calls come from the model,
/// responses from the tool, and facts from the system, without content.
pub open spec fn lane(e: RuntimeEventView) -> ToolLedgerLane {
    match (e.role, e.content) {
        (Role::Model, Some(ContentView::FunctionCall { .. })) => ToolLedgerLane::FunctionCall,
        (Role::Tool, Some(ContentView::FunctionResponse { .. })) => ToolLedgerLane::FunctionResponse,
        (Role::System, None) => match recovery_of(e) {
            Some(ToolRecoveryFactEnvelopeView::ReconcileResult { .. }) => ToolLedgerLane::ReconcileResult,
            Some(ToolRecoveryFactEnvelopeView::RecoveryDecision { .. }) => ToolLedgerLane::RecoveryDecision,
            None => if dispatch_of(e) is Some {
                ToolLedgerLane::ToolDispatch
            } else {
                ToolLedgerLane::Ordinary
            },
        },
        _ => ToolLedgerLane::Ordinary,
    }
}

/// The key an operation is found under: invocation and provider call.
pub open spec fn key_of(invocation_id: Seq<char>, tool_call_id: Seq<char>) -> Seq<char> {
    invocation_id + "\x1f"@ + tool_call_id
}

/// What the scan knows after some prefix of the ledger.
pub struct ScanState {
    pub seen: Set<Seq<char>>,
    /// Operation by call key.
    pub by_call: Map<Seq<char>, usize>,
    /// Operation by operation id, as the latest dispatch bound it.
    pub by_operation: Map<Seq<char>, usize>,
    pub operations: Seq<OperationView>,
    pub issues: Seq<IssueView>,
}

pub open spec fn start() -> ScanState {
    ScanState {
        seen: Set::empty(),
        by_call: Map::empty(),
        by_operation: Map::empty(),
        operations: Seq::empty(),
        issues: Seq::empty(),
    }
}

pub open spec fn issue(
    code: ToolLedgerIssueCode,
    e: RuntimeEventView,
    tool_call_id: Option<Seq<char>>,
) -> IssueView {
    IssueView { code, event_id: e.id, tool_call_id }
}

/// An operation that nothing has been bound to yet.
pub open spec fn blank(tool_call_id: Seq<char>, tool_name: Seq<char>) -> OperationView {
    OperationView {
        tool_call_id,
        tool_name: Some(tool_name),
        operation_id: None,
        call_event: None,
        dispatch_event: None,
        response_event: None,
        reconcile_events: Seq::empty(),
        decision_events: Seq::empty(),
        issues: Seq::empty(),
    }
}

impl OperationView {
    pub open spec fn flagged(self, i: IssueView) -> OperationView {
        OperationView { issues: self.issues.push(i), ..self }
    }
}

impl ScanState {
    pub open spec fn set(self, idx: usize, op: OperationView) -> ScanState {
        ScanState { operations: self.operations.update(idx as int, op), ..self }
    }

    /// Records an issue that belongs to no operation.
    pub open spec fn flag(self, i: IssueView) -> ScanState {
        ScanState { issues: self.issues.push(i), ..self }
    }

    /// Records an issue on the operation `idx` too.
    pub open spec fn flag_op(self, idx: usize, i: IssueView) -> ScanState {
        self.set(idx, self.operations[idx as int].flagged(i)).flag(i)
    }

    /// Opens an operation under `key`.
    pub open spec fn open(self, key: Seq<char>, op: OperationView) -> ScanState {
        ScanState {
            by_call: self.by_call.insert(key, self.operations.len() as usize),
            operations: self.operations.push(op),
            ..self
        }
    }

    pub open spec fn bind(self, operation_id: Seq<char>, idx: usize) -> ScanState {
        ScanState { by_operation: self.by_operation.insert(operation_id, idx), ..self }
    }

    /// A model call: opens the operation; a second call is a duplicate, and a
    /// call behind its own dispatch or response an identity conflict.
    pub open spec fn on_call(
        self,
        e: RuntimeEventView,
        id: Seq<char>,
        name: Seq<char>,
    ) -> ScanState {
        let key = key_of(e.invocation_id, id);
        if self.by_call.contains_key(key) {
            let idx = self.by_call[key];
            let op = self.operations[idx as int];
            if op.call_event is Some {
                self.flag_op(idx, issue(ToolLedgerIssueCode::DuplicateCall, e, Some(id)))
            } else {
                self.set(idx, OperationView { call_event: Some(e), ..op }).flag_op(
                    idx,
                    issue(ToolLedgerIssueCode::IdentityConflict, e, Some(id)),
                )
            }
        } else {
            self.open(key, OperationView { call_event: Some(e), ..blank(id, name) })
        }
    }

    /// A dispatch: binds its operation id to the called operation; without a
    /// call it is an orphan.
    pub open spec fn on_dispatch(self, e: RuntimeEventView, d: ToolDispatchView) -> ScanState {
        let id = d.provider_tool_call_id;
        let key = key_of(e.invocation_id, id);
        if self.by_call.contains_key(key) {
            let idx = self.by_call[key];
            let op = self.operations[idx as int];
            if op.dispatch_event is Some {
                self.flag_op(idx, issue(ToolLedgerIssueCode::DuplicateDispatch, e, Some(id)))
            } else {
                self.set(
                    idx,
                    OperationView {
                        dispatch_event: Some(e),
                        operation_id: Some(d.operation_id),
                        ..op
                    },
                ).bind(d.operation_id, idx)
            }
        } else {
            let idx = self.operations.len() as usize;
            let op = OperationView {
                dispatch_event: Some(e),
                operation_id: Some(d.operation_id),
                ..blank(id, d.tool_name)
            };
            self.open(key, op).bind(d.operation_id, idx).flag_op(
                idx,
                issue(ToolLedgerIssueCode::OrphanDispatch, e, Some(id)),
            )
        }
    }

    /// A recovery fact: joins the operation its operation id is bound to.
    pub open spec fn on_recovery(
        self,
        e: RuntimeEventView,
        fact: ToolRecoveryFactEnvelopeView,
    ) -> ScanState {
        let id = fact.operation_id();
        if self.by_operation.contains_key(id) {
            let idx = self.by_operation[id];
            let op = self.operations[idx as int];
            match fact {
                ToolRecoveryFactEnvelopeView::ReconcileResult { .. } => self.set(
                    idx,
                    OperationView { reconcile_events: op.reconcile_events.push(e), ..op },
                ),
                ToolRecoveryFactEnvelopeView::RecoveryDecision { .. } => self.set(
                    idx,
                    OperationView { decision_events: op.decision_events.push(e), ..op },
                ),
            }
        } else {
            self.flag(issue(ToolLedgerIssueCode::RecoveryFactWithoutOperation, e, Some(id)))
        }
    }

    /// A tool response: closes the called operation; a second response is a
    /// duplicate, one under another tool name an identity conflict, and one
    /// without a call an orphan.
    pub open spec fn on_response(
        self,
        e: RuntimeEventView,
        id: Seq<char>,
        name: Seq<char>,
    ) -> ScanState {
        let key = key_of(e.invocation_id, id);
        if self.by_call.contains_key(key) {
            let idx = self.by_call[key];
            let op = self.operations[idx as int];
            let closed = OperationView { response_event: Some(e), ..op };
            if op.response_event is Some {
                self.flag_op(idx, issue(ToolLedgerIssueCode::DuplicateResponse, e, Some(id)))
            } else if op.tool_name != Some(name) {
                self.set(idx, closed).flag_op(
                    idx,
                    issue(ToolLedgerIssueCode::IdentityConflict, e, Some(id)),
                )
            } else {
                self.set(idx, closed)
            }
        } else {
            let idx = self.operations.len() as usize;
            self.open(key, OperationView { response_event: Some(e), ..blank(id, name) }).flag_op(
                idx,
                issue(ToolLedgerIssueCode::OrphanResponse, e, Some(id)),
            )
        }
    }

    /// What the scan knows after one more event.
    pub open spec fn step(self, e: RuntimeEventView) -> ScanState {
        if self.seen.contains(e.id) {
            self.flag(issue(ToolLedgerIssueCode::DuplicateEventId, e, None))
        } else {
            let st = ScanState { seen: self.seen.insert(e.id), ..self };
            match lane(e) {
                ToolLedgerLane::FunctionCall => match e.content {
                    Some(ContentView::FunctionCall { id, name, .. }) => st.on_call(e, id, name),
                    _ => st,
                },
                ToolLedgerLane::FunctionResponse => match e.content {
                    Some(ContentView::FunctionResponse { id, name, .. }) => st.on_response(
                        e,
                        id,
                        name,
                    ),
                    _ => st,
                },
                ToolLedgerLane::ToolDispatch => st.on_dispatch(e, dispatch_of(e)->0),
                ToolLedgerLane::ReconcileResult | ToolLedgerLane::RecoveryDecision => st.on_recovery(
                    e,
                    recovery_of(e)->0,
                ),
                ToolLedgerLane::Ordinary => st,
            }
        }
    }

    /// Both indexes point at operations, and each operation id at the operation
    /// that was dispatched under it.
    pub open spec fn wf(self) -> bool {
        &&& self.operations.len() <= usize::MAX
        &&& forall|k: Seq<char>| #[trigger]
            self.by_call.contains_key(k) ==> self.by_call[k] < self.operations.len()
        &&& forall|k: Seq<char>| #[trigger]
            self.by_operation.contains_key(k) ==> self.by_operation[k] < self.operations.len()
                && self.operations[self.by_operation[k] as int].operation_id == Some(k)
        &&& forall|i: int|
            0 <= i < self.operations.len() ==> ((#[trigger] self.operations[i]).operation_id is Some
                <==> self.operations[i].dispatch_event is Some)
    }
}

/// What the scan knows after the whole ledger.
pub open spec fn scan(events: Seq<RuntimeEventView>) -> ScanState
    decreases events.len(),
{
    if events.len() == 0 {
        start()
    } else {
        scan(events.drop_last()).step(events.last())
    }
}

// ---------------------------------------------------------------------------
// The scanner
// ---------------------------------------------------------------------------

impl Clone for ToolLedgerIssue {
    fn clone(&self) -> (r: Self)
        ensures
            r@ == self@,
    {
        ToolLedgerIssue {
            code: self.code,
            event_id: self.event_id.clone(),
            tool_call_id: clone_opt_text(&self.tool_call_id),
        }
    }
}

fn clone_event(v: &Option<RuntimeEvent>) -> (r: Option<RuntimeEvent>)
    ensures
        opt(r) == opt(*v),
{
    match v {
        Some(e) => Some(e.clone()),
        None => None,
    }
}

/// A copy of a list of events.
pub fn clone_events(v: &Vec<RuntimeEvent>) -> (r: Vec<RuntimeEvent>)
    ensures
        event_views(r@) == event_views(v@),
{
    let mut out: Vec<RuntimeEvent> = Vec::new();
    let mut i: usize = 0;
    while i < v.len()
        invariant
            i <= v.len(),
            i == out.len(),
            forall|k: int| 0 <= k < i ==> (#[trigger] out@[k])@ == v@[k]@,
        decreases v.len() - i,
    {
        out.push(v[i].clone());
        i = i + 1;
    }
    assert(event_views(out@) =~= event_views(v@));
    out
}

fn clone_issues(v: &Vec<ToolLedgerIssue>) -> (r: Vec<ToolLedgerIssue>)
    ensures
        issue_views(r@) == issue_views(v@),
{
    let mut out: Vec<ToolLedgerIssue> = Vec::new();
    let mut i: usize = 0;
    while i < v.len()
        invariant
            i <= v.len(),
            out.len() == i,
            forall|k: int| 0 <= k < i ==> (#[trigger] out@[k])@ == v@[k]@,
        decreases v.len() - i,
    {
        out.push(v[i].clone());
        i = i + 1;
    }
    assert(issue_views(out@) =~= issue_views(v@));
    out
}

impl Clone for ToolLedgerScanOperation {
    fn clone(&self) -> (r: Self)
        ensures
            r@ == self@,
    {
        ToolLedgerScanOperation {
            tool_call_id: self.tool_call_id.clone(),
            tool_name: clone_opt_text(&self.tool_name),
            operation_id: clone_opt_text(&self.operation_id),
            call_event: clone_event(&self.call_event),
            dispatch_event: clone_event(&self.dispatch_event),
            response_event: clone_event(&self.response_event),
            reconcile_events: clone_events(&self.reconcile_events),
            decision_events: clone_events(&self.decision_events),
            issues: clone_issues(&self.issues),
        }
    }
}

impl Clone for ToolLedgerScanResult {
    fn clone(&self) -> (r: Self)
        ensures
            operation_views(r.operations@) == operation_views(self.operations@),
            issue_views(r.issues@) == issue_views(self.issues@),
            r.has_corruption == self.has_corruption,
    {
        let mut operations: Vec<ToolLedgerScanOperation> = Vec::new();
        let mut i: usize = 0;
        while i < self.operations.len()
            invariant
                i <= self.operations.len(),
                operations.len() == i,
                forall|k: int|
                    0 <= k < i ==> (#[trigger] operations@[k])@ == self.operations@[k]@,
            decreases self.operations.len() - i,
        {
            operations.push(self.operations[i].clone());
            i = i + 1;
        }
        assert(operation_views(operations@) =~= operation_views(self.operations@));
        ToolLedgerScanResult {
            operations,
            issues: clone_issues(&self.issues),
            has_corruption: self.has_corruption,
        }
    }
}

impl Default for ToolLedgerScanResult {
    fn default() -> (r: Self)
        ensures
            r.operations@.len() == 0,
            r.issues@.len() == 0,
            !r.has_corruption,
    {
        ToolLedgerScanResult {
            operations: Vec::new(),
            issues: Vec::new(),
            has_corruption: false,
        }
    }
}

/// Which lane of the tool ledger an event belongs to.
pub fn classify_lane(event: &RuntimeEvent) -> (r: ToolLedgerLane)
    ensures
        r == lane(event@),
{
    match (&event.role, &event.content) {
        (Role::Model, Some(Content::FunctionCall { .. })) => ToolLedgerLane::FunctionCall,
        (Role::Tool, Some(Content::FunctionResponse { .. })) => ToolLedgerLane::FunctionResponse,
        (Role::System, None) => match &event.actions {
            Some(actions) => match &actions.tool_recovery {
                Some(ToolRecoveryFactEnvelope::ReconcileResult {
                    ..
                }) => ToolLedgerLane::ReconcileResult,
                Some(ToolRecoveryFactEnvelope::RecoveryDecision {
                    ..
                }) => ToolLedgerLane::RecoveryDecision,
                None => if actions.tool_dispatch.is_some() {
                    ToolLedgerLane::ToolDispatch
                } else {
                    ToolLedgerLane::Ordinary
                },
            },
            None => ToolLedgerLane::Ordinary,
        },
        _ => ToolLedgerLane::Ordinary,
    }
}

/// The key an operation is found under.
fn call_key(invocation_id: &str, tool_call_id: &str) -> (r: String)
    ensures
        r@ == key_of(invocation_id@, tool_call_id@),
{
    concat3(invocation_id, "\x1f", tool_call_id)
}

/// The scan in progress.
struct Scanner {
    operations: Vec<ToolLedgerScanOperation>,
    issues: Vec<ToolLedgerIssue>,
    seen: StringHashSet,
    by_call: StringHashMap<usize>,
    by_operation: StringHashMap<usize>,
}

impl View for Scanner {
    type V = ScanState;

    closed spec fn view(&self) -> ScanState {
        ScanState {
            seen: self.seen@,
            by_call: self.by_call@,
            by_operation: self.by_operation@,
            operations: operation_views(self.operations@),
            issues: issue_views(self.issues@),
        }
    }
}

fn make_issue(code: ToolLedgerIssueCode, event: &RuntimeEvent, tool_call_id: Option<String>) -> (r:
    ToolLedgerIssue)
    ensures
        r@ == issue(code, event@, opt(tool_call_id)),
{
    ToolLedgerIssue { code, event_id: event.id.clone(), tool_call_id }
}

impl Scanner {
    /// Records an issue, on the operation `op_idx` too where there is one.
    fn push_issue(&mut self, op_idx: Option<usize>, issue: ToolLedgerIssue)
        requires
            op_idx matches Some(i) ==> i < old(self)@.operations.len(),
        ensures
            final(self)@ == match op_idx {
                Some(i) => old(self)@.flag_op(i, issue@),
                None => old(self)@.flag(issue@),
            },
    {
        let ghost before = self@;
        self.issues.push(issue.clone());
        assert(issue_views(self.issues@) =~= before.issues.push(issue@));
        if let Some(i) = op_idx {
            let ghost op = self.operations@[i as int];
            let ghost added = issue@;
            self.operations[i].issues.push(issue);
            assert(self.operations@[i as int]@.issues =~= op@.issues.push(added));
            assert(self@.operations =~= before.flag_op(i, added).operations);
        }
    }

    /// Opens an operation under `key`.
    fn open(&mut self, key: String, op: ToolLedgerScanOperation) -> (idx: usize)
        ensures
            final(self)@ == old(self)@.open(key@, op@),
            idx == old(self)@.operations.len(),
    {
        let ghost before = self@;
        let idx = self.operations.len();
        self.operations.push(op);
        self.by_call.insert(key, idx);
        assert(self@.operations =~= before.operations.push(op@));
        idx
    }

    fn on_call(&mut self, event: &RuntimeEvent, id: &String, name: &String)
        requires
            old(self)@.wf(),
        ensures
            final(self)@ == old(self)@.on_call(event@, id@, name@),
    {
        let ghost before = self@;
        let key = call_key(event.invocation_id.as_str(), id.as_str());
        match self.by_call.get(key.as_str()) {
            Some(found) => {
                let idx = *found;
                assert(before.by_call.contains_key(key@));
                if self.operations[idx].call_event.is_some() {
                    self.push_issue(
                        Some(idx),
                        make_issue(ToolLedgerIssueCode::DuplicateCall, event, Some(id.clone())),
                    );
                } else {
                    self.operations[idx].call_event = Some(event.clone());
                    proof {
                        let op = OperationView {
                            call_event: Some(event@),
                            ..before.operations[idx as int]
                        };
                        assert(self@.operations =~= before.set(idx, op).operations);
                    }
                    self.push_issue(
                        Some(idx),
                        make_issue(ToolLedgerIssueCode::IdentityConflict, event, Some(id.clone())),
                    );
                }
            },
            None => {
                let mut op = blank_operation(id, name);
                op.call_event = Some(event.clone());
                self.open(key, op);
            },
        }
    }

    fn on_dispatch(&mut self, event: &RuntimeEvent, dispatch: &ToolDispatch)
        requires
            old(self)@.wf(),
        ensures
            final(self)@ == old(self)@.on_dispatch(event@, dispatch@),
    {
        let ghost before = self@;
        let id = &dispatch.provider_tool_call_id;
        let key = call_key(event.invocation_id.as_str(), id.as_str());
        match self.by_call.get(key.as_str()) {
            Some(found) => {
                let idx = *found;
                assert(before.by_call.contains_key(key@));
                if self.operations[idx].dispatch_event.is_some() {
                    self.push_issue(
                        Some(idx),
                        make_issue(ToolLedgerIssueCode::DuplicateDispatch, event, Some(id.clone())),
                    );
                } else {
                    self.operations[idx].dispatch_event = Some(event.clone());
                    self.operations[idx].operation_id = Some(dispatch.operation_id.clone());
                    proof {
                        let op = OperationView {
                            dispatch_event: Some(event@),
                            operation_id: Some(dispatch.operation_id@),
                            ..before.operations[idx as int]
                        };
                        assert(self@.operations =~= before.set(idx, op).operations);
                    }
                    self.by_operation.insert(dispatch.operation_id.clone(), idx);
                }
            },
            None => {
                let mut op = blank_operation(id, &dispatch.tool_name);
                op.dispatch_event = Some(event.clone());
                op.operation_id = Some(dispatch.operation_id.clone());
                let idx = self.open(key, op);
                self.by_operation.insert(dispatch.operation_id.clone(), idx);
                self.push_issue(
                    Some(idx),
                    make_issue(ToolLedgerIssueCode::OrphanDispatch, event, Some(id.clone())),
                );
            },
        }
    }

    fn on_recovery(&mut self, event: &RuntimeEvent, fact: &ToolRecoveryFactEnvelope)
        requires
            old(self)@.wf(),
        ensures
            final(self)@ == old(self)@.on_recovery(event@, fact@),
    {
        let ghost before = self@;
        let id = fact.operation_id();
        match self.by_operation.get(id.as_str()) {
            Some(found) => {
                let idx = *found;
                assert(before.by_operation.contains_key(id@));
                let ghost op = self.operations@[idx as int]@;
                match fact {
                    ToolRecoveryFactEnvelope::ReconcileResult { .. } => {
                        self.operations[idx].reconcile_events.push(event.clone());
                        assert(self.operations@[idx as int]@.reconcile_events
                            =~= op.reconcile_events.push(event@));
                    },
                    ToolRecoveryFactEnvelope::RecoveryDecision { .. } => {
                        self.operations[idx].decision_events.push(event.clone());
                        assert(self.operations@[idx as int]@.decision_events
                            =~= op.decision_events.push(event@));
                    },
                }
                assert(self@.operations =~= before.on_recovery(event@, fact@).operations);
            },
            None => {
                self.push_issue(
                    None,
                    make_issue(ToolLedgerIssueCode::RecoveryFactWithoutOperation, event, Some(id)),
                );
            },
        }
    }

    fn on_response(&mut self, event: &RuntimeEvent, id: &String, name: &String)
        requires
            old(self)@.wf(),
        ensures
            final(self)@ == old(self)@.on_response(event@, id@, name@),
    {
        let ghost before = self@;
        let key = call_key(event.invocation_id.as_str(), id.as_str());
        match self.by_call.get(key.as_str()) {
            Some(found) => {
                let idx = *found;
                assert(before.by_call.contains_key(key@));
                if self.operations[idx].response_event.is_some() {
                    self.push_issue(
                        Some(idx),
                        make_issue(ToolLedgerIssueCode::DuplicateResponse, event, Some(id.clone())),
                    );
                    return ;
                }
                let same_name = match &self.operations[idx].tool_name {
                    Some(n) => str_eq(n.as_str(), name.as_str()),
                    None => false,
                };
                self.operations[idx].response_event = Some(event.clone());
                proof {
                    let op = OperationView {
                        response_event: Some(event@),
                        ..before.operations[idx as int]
                    };
                    assert(self@.operations =~= before.set(idx, op).operations);
                }
                if !same_name {
                    self.push_issue(
                        Some(idx),
                        make_issue(ToolLedgerIssueCode::IdentityConflict, event, Some(id.clone())),
                    );
                }
            },
            None => {
                let mut op = blank_operation(id, name);
                op.response_event = Some(event.clone());
                let idx = self.open(key, op);
                self.push_issue(
                    Some(idx),
                    make_issue(ToolLedgerIssueCode::OrphanResponse, event, Some(id.clone())),
                );
            },
        }
    }

    fn step(&mut self, event: &RuntimeEvent)
        requires
            old(self)@.wf(),
        ensures
            final(self)@ == old(self)@.step(event@),
    {
        if self.seen.contains(event.id.as_str()) {
            self.push_issue(None, make_issue(ToolLedgerIssueCode::DuplicateEventId, event, None));
            return ;
        }
        self.seen.insert(event.id.clone());
        match classify_lane(event) {
            ToolLedgerLane::FunctionCall => {
                if let Some(Content::FunctionCall { id, name, .. }) = &event.content {
                    self.on_call(event, id, name);
                }
            },
            ToolLedgerLane::FunctionResponse => {
                if let Some(Content::FunctionResponse { id, name, .. }) = &event.content {
                    self.on_response(event, id, name);
                }
            },
            ToolLedgerLane::ToolDispatch => {
                if let Some(actions) = &event.actions {
                    if let Some(dispatch) = &actions.tool_dispatch {
                        self.on_dispatch(event, dispatch);
                    }
                }
            },
            ToolLedgerLane::ReconcileResult | ToolLedgerLane::RecoveryDecision => {
                if let Some(actions) = &event.actions {
                    if let Some(fact) = &actions.tool_recovery {
                        self.on_recovery(event, fact);
                    }
                }
            },
            ToolLedgerLane::Ordinary => {},
        }
    }
}

fn blank_operation(tool_call_id: &String, tool_name: &String) -> (r: ToolLedgerScanOperation)
    ensures
        r@ == blank(tool_call_id@, tool_name@),
{
    let r = ToolLedgerScanOperation {
        tool_call_id: tool_call_id.clone(),
        tool_name: Some(tool_name.clone()),
        operation_id: None,
        call_event: None,
        dispatch_event: None,
        response_event: None,
        reconcile_events: Vec::new(),
        decision_events: Vec::new(),
        issues: Vec::new(),
    };
    assert(r@.reconcile_events =~= Seq::empty());
    assert(r@.decision_events =~= Seq::empty());
    assert(r@.issues =~= Seq::empty());
    r
}

/// Interprets a ledger: which operations its events make up, and what is wrong
/// with them.
pub fn scan_tool_ledger(events: &[RuntimeEvent]) -> (r: ToolLedgerScanResult)
    ensures
        operation_views(r.operations@) == scan(event_views(events@)).operations,
        issue_views(r.issues@) == scan(event_views(events@)).issues,
        r.has_corruption == (r.issues@.len() > 0),
{
    let ghost all = event_views(events@);
    let mut scanner = Scanner {
        operations: Vec::new(),
        issues: Vec::new(),
        seen: StringHashSet::new(),
        by_call: StringHashMap::new(),
        by_operation: StringHashMap::new(),
    };
    let mut i: usize = 0;
    proof {
        assert(scanner@.operations =~= Seq::empty());
        assert(scanner@.issues =~= Seq::empty());
        assert(all.take(0) =~= Seq::empty());
    }
    while i < events.len()
        invariant
            i <= events.len(),
            all == event_views(events@),
            scanner@ == scan(all.take(i as int)),
        decreases events.len() - i,
    {
        proof {
            lemma_scan_wf(all.take(i as int));
            assert(all.take(i + 1).drop_last() =~= all.take(i as int));
        }
        scanner.step(&events[i]);
        i = i + 1;
    }
    assert(all.take(i as int) =~= all);
    let has_corruption = scanner.issues.len() > 0;
    ToolLedgerScanResult { operations: scanner.operations, issues: scanner.issues, has_corruption }
}

// ---------------------------------------------------------------------------
// What holds of every scan
// ---------------------------------------------------------------------------

proof fn lemma_scan_wf(events: Seq<RuntimeEventView>)
    requires
        events.len() < usize::MAX,
    ensures
        scan(events).wf(),
        scan(events).operations.len() <= events.len(),
    decreases events.len(),
{
    if events.len() > 0 {
        lemma_scan_wf(events.drop_last());
        let st = scan(events.drop_last());
        assert(st.step(events.last()).wf());
    }
}

/// Everything bound to `op`, the operation found under `key`, is about it: its
/// call, dispatch and response carry the key in their own lane, and its recovery
/// facts its operation id.
pub open spec fn bound(key: Seq<char>, op: OperationView) -> bool {
    &&& op.call_event matches Some(e) ==> lane(e) == ToolLedgerLane::FunctionCall && (
    e.content matches Some(ContentView::FunctionCall { id, .. }) && key_of(e.invocation_id, id)
        == key)
    &&& op.response_event matches Some(e) ==> lane(e) == ToolLedgerLane::FunctionResponse && (
    e.content matches Some(ContentView::FunctionResponse { id, .. }) && key_of(e.invocation_id, id)
        == key)
    &&& op.dispatch_event matches Some(e) ==> lane(e) == ToolLedgerLane::ToolDispatch && (
    dispatch_of(e) matches Some(d) && key_of(e.invocation_id, d.provider_tool_call_id) == key
        && op.operation_id == Some(d.operation_id))
    &&& forall|k: int|
        0 <= k < op.reconcile_events.len() ==> adjudicates(
            #[trigger] op.reconcile_events[k],
            ToolLedgerLane::ReconcileResult,
            op.operation_id,
        )
    &&& forall|k: int|
        0 <= k < op.decision_events.len() ==> adjudicates(
            #[trigger] op.decision_events[k],
            ToolLedgerLane::RecoveryDecision,
            op.operation_id,
        )
    &&& op.operation_id is None ==> op.reconcile_events.len() == 0 && op.decision_events.len() == 0
}

/// `e` is a recovery fact of the given lane about the operation `operation_id`.
pub open spec fn adjudicates(
    e: RuntimeEventView,
    l: ToolLedgerLane,
    operation_id: Option<Seq<char>>,
) -> bool {
    &&& lane(e) == l
    &&& recovery_of(e) matches Some(fact) && operation_id == Some(fact.operation_id())
}

/// Every event that a scan binds to an operation is about that operation.
pub proof fn law_bound_events_match(events: Seq<RuntimeEventView>)
    requires
        events.len() < usize::MAX,
    ensures
        forall|k: Seq<char>| #[trigger]
            scan(events).by_call.contains_key(k) ==> bound(
                k,
                scan(events).operations[scan(events).by_call[k] as int],
            ),
    decreases events.len(),
{
    if events.len() > 0 {
        let init = events.drop_last();
        law_bound_events_match(init);
        law_one_operation_per_call(init);
        lemma_scan_wf(init);
        let st = scan(init);
        let e = events.last();
        let now = scan(events);
        assert(now == st.step(e));
        assert forall|k: Seq<char>| #[trigger] now.by_call.contains_key(k) implies bound(
            k,
            now.operations[now.by_call[k] as int],
        ) by {
            if st.by_call.contains_key(k) {
                let i = st.by_call[k] as int;
                assert(bound(k, st.operations[i]));
                assert(now.by_call[k] == i);
            }
        }
    }
}

/// Where call ids hold no separator, two calls share a key only if they are the
/// same call of the same invocation.
pub proof fn law_keys_tell_calls_apart(i: Seq<char>, a: Seq<char>, j: Seq<char>, b: Seq<char>)
    requires
        key_of(i, a) == key_of(j, b),
        !a.contains('\x1f'),
        !b.contains('\x1f'),
    ensures
        i == j,
        a == b,
{
    reveal_strlit("\x1f");
    let k = key_of(i, a);
    assert(k.len() == i.len() + 1 + a.len());
    assert(k.len() == j.len() + 1 + b.len());
    assert(k[i.len() as int] == '\x1f');
    assert(k[j.len() as int] == '\x1f');
    if i.len() < j.len() {
        assert(a[j.len() - i.len() - 1] == k[j.len() as int]);
    } else if j.len() < i.len() {
        assert(b[i.len() - j.len() - 1] == k[i.len() as int]);
    }
    assert(i =~= k.take(i.len() as int));
    assert(j =~= k.take(j.len() as int));
    assert(a =~= k.skip(i.len() as int + 1));
    assert(b =~= k.skip(j.len() as int + 1));
}

/// Every issue recorded on an operation is among the issues of the scan, so
/// `has_corruption` misses none of them.
pub proof fn law_operation_issues_are_reported(events: Seq<RuntimeEventView>)
    requires
        events.len() < usize::MAX,
    ensures
        forall|i: int, k: int|
            0 <= i < scan(events).operations.len() && 0 <= k < scan(
                events,
            ).operations[i].issues.len() ==> scan(events).issues.contains(
                #[trigger] scan(events).operations[i].issues[k],
            ),
    decreases events.len(),
{
    if events.len() > 0 {
        let init = events.drop_last();
        law_operation_issues_are_reported(init);
        lemma_scan_wf(init);
        let st = scan(init);
        let now = scan(events);
        assert forall|i: int, k: int|
            0 <= i < now.operations.len() && 0 <= k < now.operations[i].issues.len() implies now.issues.contains(
            #[trigger] now.operations[i].issues[k],
        ) by {
            let x = now.operations[i].issues[k];
            if i < st.operations.len() && k < st.operations[i].issues.len() {
                assert(st.issues.contains(st.operations[i].issues[k]));
                let j = choose|j: int| 0 <= j < st.issues.len() && st.issues[j] == x;
                assert(now.issues[j] == x);
            } else {
                assert(now.issues[now.issues.len() - 1] == x);
            }
        }
    }
}

/// Issues are never withdrawn: scanning further only adds to them.
pub proof fn law_issues_are_kept(events: Seq<RuntimeEventView>, e: RuntimeEventView)
    ensures
        scan(events).issues.is_prefix_of(scan(events.push(e)).issues),
{
    assert(events.push(e).drop_last() =~= events);
    let st = scan(events);
    let now = st.step(e);
    assert(now.issues =~= st.issues || (now.issues.len() == st.issues.len() + 1 && now.issues
        =~= st.issues.push(now.issues.last())));
}

/// The call and the response of `op` name its tool.
pub open spec fn named(op: OperationView) -> bool {
    &&& op.call_event matches Some(e) ==> (e.content matches Some(
        ContentView::FunctionCall { name, .. },
    ) && op.tool_name == Some(name))
    &&& op.response_event matches Some(e) ==> (e.content matches Some(
        ContentView::FunctionResponse { name, .. },
    ) && op.tool_name == Some(name))
}

/// In a ledger without issues event ids are unique, every operation has the
/// model's call, and its response, if any, is under the name that was called.
pub proof fn law_clean_ledger(events: Seq<RuntimeEventView>)
    requires
        events.len() < usize::MAX,
        scan(events).issues.len() == 0,
    ensures
        forall|i: int, j: int|
            0 <= i < j < events.len() ==> (#[trigger] events[i]).id != (#[trigger] events[j]).id,
        forall|i: int|
            0 <= i < scan(events).operations.len() ==> (#[trigger] scan(
                events,
            ).operations[i]).call_event is Some && named(scan(events).operations[i]),
        forall|i: int| 0 <= i < events.len() ==> scan(events).seen.contains((#[trigger] events[i]).id),
    decreases events.len(),
{
    if events.len() > 0 {
        let init = events.drop_last();
        let e = events.last();
        assert(init.push(e) =~= events);
        law_issues_are_kept(init, e);
        law_clean_ledger(init);
        lemma_scan_wf(init);
        let st = scan(init);
        let now = scan(events);
        assert(now == st.step(e));
        assert(!st.seen.contains(e.id));
        assert forall|i: int| 0 <= i < events.len() implies now.seen.contains(
            (#[trigger] events[i]).id,
        ) by {
            if i < init.len() {
                assert(st.seen.contains(init[i].id));
            }
        }
        assert forall|i: int, j: int| 0 <= i < j < events.len() implies (#[trigger] events[i]).id
            != (#[trigger] events[j]).id by {
            assert(st.seen.contains(init[i].id));
            if j < init.len() {
                assert(init[i].id != init[j].id);
            }
        }
        assert forall|i: int| 0 <= i < now.operations.len() implies (
        #[trigger] now.operations[i]).call_event is Some && named(now.operations[i]) by {
            if i < st.operations.len() {
                assert(st.operations[i].call_event is Some && named(st.operations[i]));
            }
        }
    }
}

/// Some call key leads to the operation `i`.
pub open spec fn keyed(st: ScanState, i: int) -> bool {
    exists|k: Seq<char>| #[trigger] st.by_call.contains_key(k) && st.by_call[k] == i
}

/// Each operation is found under exactly one call key, so no call is split over
/// two operations.
pub proof fn law_one_operation_per_call(events: Seq<RuntimeEventView>)
    requires
        events.len() < usize::MAX,
    ensures
        forall|i: int| 0 <= i < scan(events).operations.len() ==> #[trigger] keyed(scan(events), i),
        forall|k: Seq<char>, l: Seq<char>|
            #[trigger] scan(events).by_call.contains_key(k) && #[trigger] scan(
                events,
            ).by_call.contains_key(l) && scan(events).by_call[k] == scan(events).by_call[l] ==> k
                == l,
    decreases events.len(),
{
    if events.len() > 0 {
        let init = events.drop_last();
        law_one_operation_per_call(init);
        lemma_scan_wf(init);
        let st = scan(init);
        let now = scan(events);
        assert(now == st.step(events.last()));
        assert forall|i: int| 0 <= i < now.operations.len() implies #[trigger] keyed(now, i) by {
            if i < st.operations.len() {
                assert(keyed(st, i));
                let k = choose|k: Seq<char>| #[trigger]
                    st.by_call.contains_key(k) && st.by_call[k] == i;
                assert(now.by_call.contains_key(k) && now.by_call[k] == i);
            } else {
                let e = events.last();
                let id = match lane(e) {
                    ToolLedgerLane::FunctionCall => e.content->0->FunctionCall_id,
                    ToolLedgerLane::FunctionResponse => e.content->0->FunctionResponse_id,
                    _ => dispatch_of(e)->0.provider_tool_call_id,
                };
                assert(now.by_call.contains_key(key_of(e.invocation_id, id)));
            }
        }
    }
}

// ---------------------------------------------------------------------------
// Nothing is lost and nothing is made up
// ---------------------------------------------------------------------------

/// The call that the model makes with `e`: its key, and the name of its tool.
pub open spec fn call_in(e: RuntimeEventView) -> Option<(Seq<char>, Seq<char>)> {
    match (e.role, e.content) {
        (Role::Model, Some(ContentView::FunctionCall { id, name, .. })) => Some(
            (e.invocation_id + "\x1f"@ + id, name),
        ),
        _ => None,
    }
}

/// The call that the tool answers with `e`: its key, and the name of the tool.
pub open spec fn response_in(e: RuntimeEventView) -> Option<(Seq<char>, Seq<char>)> {
    match (e.role, e.content) {
        (Role::Tool, Some(ContentView::FunctionResponse { id, name, .. })) => Some(
            (e.invocation_id + "\x1f"@ + id, name),
        ),
        _ => None,
    }
}

/// The recovery fact that `e` is: a system event without content that carries one.
pub open spec fn recovery_in(e: RuntimeEventView) -> Option<ToolRecoveryFactEnvelopeView> {
    match (e.role, e.content, e.actions) {
        (Role::System, None, Some(actions)) => actions.tool_recovery,
        _ => None,
    }
}

/// The dispatch that `e` is: a system event without content that carries one and no
/// recovery fact. The key of its call, and the operation that it opens.
pub open spec fn dispatch_in(e: RuntimeEventView) -> Option<(Seq<char>, Seq<char>)> {
    match (e.role, e.content, e.actions) {
        (Role::System, None, Some(actions)) => match (actions.tool_recovery, actions.tool_dispatch) {
            (None, Some(d)) => Some(
                (e.invocation_id + "\x1f"@ + d.provider_tool_call_id, d.operation_id),
            ),
            _ => None,
        },
        _ => None,
    }
}

/// The operation `op` holds the event `e` where it belongs: as its call, as the response
/// or the dispatch of its call, or among the facts about the operation that its dispatch
/// opened.
pub open spec fn holds(op: OperationView, e: RuntimeEventView) -> bool {
    &&& call_in(e) is Some ==> op.call_event == Some(e)
    &&& response_in(e) matches Some(r) ==> {
        &&& op.response_event == Some(e)
        &&& op.call_event matches Some(c) && call_in(c) == Some(r)
    }
    &&& dispatch_in(e) matches Some(d) ==> {
        &&& op.dispatch_event == Some(e)
        &&& op.operation_id == Some(d.1)
        &&& op.call_event matches Some(c) && (call_in(c) matches Some(k) && k.0 == d.0)
    }
    &&& recovery_in(e) matches Some(fact) ==> {
        &&& fact is ReconcileResult ==> op.reconcile_events.contains(e)
        &&& fact is RecoveryDecision ==> op.decision_events.contains(e)
        &&& op.dispatch_event matches Some(o) && (dispatch_in(o) matches Some(d) && d.1
            == fact.operation_id())
    }
}

/// The event is about a tool call.
pub open spec fn bears_on_a_tool(e: RuntimeEventView) -> bool {
    call_in(e) is Some || response_in(e) is Some || dispatch_in(e) is Some || recovery_in(e) is Some
}

/// A step takes nothing away from an operation.
proof fn lemma_step_keeps(st: ScanState, e: RuntimeEventView, i: int)
    requires
        st.wf(),
        0 <= i < st.operations.len(),
    ensures
        i < st.step(e).operations.len(),
        st.operations[i].call_event is Some ==> st.step(e).operations[i].call_event
            == st.operations[i].call_event,
        st.operations[i].response_event is Some ==> st.step(e).operations[i].response_event
            == st.operations[i].response_event,
        st.operations[i].dispatch_event is Some ==> st.step(e).operations[i].dispatch_event
            == st.operations[i].dispatch_event && st.step(e).operations[i].operation_id
            == st.operations[i].operation_id,
        forall|x: RuntimeEventView|
            st.operations[i].reconcile_events.contains(x) ==> #[trigger] st.step(
                e,
            ).operations[i].reconcile_events.contains(x),
        forall|x: RuntimeEventView|
            st.operations[i].decision_events.contains(x) ==> #[trigger] st.step(
                e,
            ).operations[i].decision_events.contains(x),
{
    let a = st.operations[i].reconcile_events;
    let b = st.step(e).operations[i].reconcile_events;
    assert(b == a || b == a.push(e));
    assert forall|x: RuntimeEventView| a.contains(x) implies #[trigger] b.contains(x) by {
        let k = choose|k: int| 0 <= k < a.len() && a[k] == x;
        assert(b[k] == x);
    }
    let c = st.operations[i].decision_events;
    let d = st.step(e).operations[i].decision_events;
    assert(d == c || d == c.push(e));
    assert forall|x: RuntimeEventView| c.contains(x) implies #[trigger] d.contains(x) by {
        let k = choose|k: int| 0 <= k < c.len() && c[k] == x;
        assert(d[k] == x);
    }
}

/// Nothing is lost: in a ledger without issues every call, response, dispatch and
/// recovery fact is held by its operation.
pub proof fn law_every_tool_event_is_held(events: Seq<RuntimeEventView>, j: int) -> (i: int)
    requires
        events.len() < usize::MAX,
        scan(events).issues.len() == 0,
        0 <= j < events.len(),
        bears_on_a_tool(events[j]),
    ensures
        0 <= i < scan(events).operations.len(),
        holds(scan(events).operations[i], events[j]),
    decreases events.len(),
{
    let init = events.drop_last();
    let e = events.last();
    let st = scan(init);
    let now = scan(events);
    assert(init.push(e) =~= events);
    law_issues_are_kept(init, e);
    lemma_scan_wf(init);
    assert(now == st.step(e));
    if j < init.len() {
        assert(init[j] == events[j]);
        let i = law_every_tool_event_is_held(init, j);
        lemma_step_keeps(st, e, i);
        i
    } else {
        law_clean_ledger(events);
        law_bound_events_match(events);
        lemma_scan_wf(events);
        assert(!st.seen.contains(e.id));
        if call_in(e) is Some {
            st.operations.len() as int
        } else if response_in(e) is Some {
            let key = key_of(e.invocation_id, e.content->0->FunctionResponse_id);
            let i = now.by_call[key] as int;
            assert(now.by_call.contains_key(key));
            assert(named(now.operations[i]));
            assert(bound(key, now.operations[i]));
            i
        } else if recovery_in(e) is Some {
            let id = recovery_of(e)->0.operation_id();
            let i = st.by_operation[id] as int;
            assert(st.by_operation.contains_key(id));
            law_one_operation_per_call(events);
            assert(keyed(now, i));
            let k = choose|k: Seq<char>| #[trigger]
                now.by_call.contains_key(k) && now.by_call[k] == i;
            assert(bound(k, now.operations[i]));
            let old = st.operations[i];
            if recovery_of(e)->0 is ReconcileResult {
                assert(now.operations[i].reconcile_events[old.reconcile_events.len() as int] == e);
            } else {
                assert(now.operations[i].decision_events[old.decision_events.len() as int] == e);
            }
            i
        } else {
            let key = key_of(e.invocation_id, dispatch_of(e)->0.provider_tool_call_id);
            let i = now.by_call[key] as int;
            assert(now.by_call.contains_key(key));
            assert(bound(key, now.operations[i]));
            i
        }
    }
}

/// Nothing is made up: what an operation holds are events of the ledger, each of its own
/// kind.
pub proof fn law_operations_hold_ledger_events(events: Seq<RuntimeEventView>, i: int)
    requires
        events.len() < usize::MAX,
        0 <= i < scan(events).operations.len(),
    ensures
        scan(events).operations[i].call_event matches Some(e) ==> events.contains(e) && call_in(
            e,
        ) is Some,
        scan(events).operations[i].response_event matches Some(e) ==> events.contains(e)
            && response_in(e) is Some,
        scan(events).operations[i].dispatch_event matches Some(e) ==> events.contains(e)
            && dispatch_in(e) is Some,
        forall|x: RuntimeEventView|
            (scan(events).operations[i].reconcile_events.contains(x) || scan(
                events,
            ).operations[i].decision_events.contains(x)) ==> (#[trigger] events.contains(x)
                && recovery_in(x) is Some),
    decreases events.len(),
{
    let init = events.drop_last();
    let e = events.last();
    let st = scan(init);
    let now = scan(events);
    lemma_scan_wf(init);
    assert(now == st.step(e));
    assert(events[events.len() - 1] == e);
    assert(events.contains(e));
    assert forall|x: RuntimeEventView| init.contains(x) implies #[trigger] events.contains(x) by {
        let k = choose|k: int| 0 <= k < init.len() && init[k] == x;
        assert(events[k] == x);
    }
    let op = now.operations[i];
    if i < st.operations.len() {
        law_operations_hold_ledger_events(init, i);
        let old = st.operations[i];
        assert forall|x: RuntimeEventView|
            op.reconcile_events.contains(x) || op.decision_events.contains(
                x,
            ) implies #[trigger] events.contains(x) && recovery_in(x) is Some by {
            assert(op.reconcile_events == old.reconcile_events || op.reconcile_events
                == old.reconcile_events.push(e));
            assert(op.decision_events == old.decision_events || op.decision_events
                == old.decision_events.push(e));
            if !old.reconcile_events.contains(x) && !old.decision_events.contains(x) {
                lemma_pushed(old.reconcile_events, e, x);
                lemma_pushed(old.decision_events, e, x);
            } else {
                assert(init.contains(x));
            }
        }
        if let Some(c) = old.call_event {
            assert(init.contains(c));
        }
        if let Some(c) = old.response_event {
            assert(init.contains(c));
        }
        if let Some(c) = old.dispatch_event {
            assert(init.contains(c));
        }
    } else {
        assert(op.reconcile_events.len() == 0 && op.decision_events.len() == 0);
    }
    assert forall|x: RuntimeEventView|
        (now.operations[i].reconcile_events.contains(x) || now.operations[i].decision_events.contains(
            x,
        )) implies (#[trigger] events.contains(x) && recovery_in(x) is Some) by {}
}

proof fn lemma_pushed(v: Seq<RuntimeEventView>, e: RuntimeEventView, x: RuntimeEventView)
    ensures
        v.push(e).contains(x) ==> v.contains(x) || x == e,
{
    if v.push(e).contains(x) {
        let k = choose|k: int| 0 <= k < v.push(e).len() && v.push(e)[k] == x;
        if k < v.len() {
            assert(v[k] == x);
        }
    }
}

/// Every operation that was dispatched is found under its operation id.
proof fn lemma_dispatched_are_found(events: Seq<RuntimeEventView>, i: int)
    requires
        events.len() < usize::MAX,
        0 <= i < scan(events).operations.len(),
    ensures
        scan(events).operations[i].operation_id matches Some(id) ==> scan(
            events,
        ).by_operation.contains_key(id),
    decreases events.len(),
{
    let init = events.drop_last();
    let st = scan(init);
    lemma_scan_wf(init);
    assert(scan(events) == st.step(events.last()));
    if i < st.operations.len() {
        lemma_dispatched_are_found(init, i);
    }
}

/// The model made a call with this key.
pub open spec fn called(events: Seq<RuntimeEventView>, key: Seq<char>) -> bool {
    exists|j: int|
        0 <= j < events.len() && (call_in(#[trigger] events[j]) matches Some(c) && c.0 == key)
}

/// The model made a call with this key under this name.
pub open spec fn called_as(events: Seq<RuntimeEventView>, key: Seq<char>, name: Seq<char>) -> bool {
    exists|j: int| 0 <= j < events.len() && call_in(#[trigger] events[j]) == Some((key, name))
}

/// A tool has answered the call with this key.
pub open spec fn answered(events: Seq<RuntimeEventView>, key: Seq<char>) -> bool {
    exists|j: int|
        0 <= j < events.len() && (response_in(#[trigger] events[j]) matches Some(c) && c.0 == key)
}

/// The call with this key was dispatched.
pub open spec fn dispatched(events: Seq<RuntimeEventView>, key: Seq<char>) -> bool {
    exists|j: int|
        0 <= j < events.len() && (dispatch_in(#[trigger] events[j]) matches Some(c) && c.0 == key)
}

/// A dispatch opened this operation.
pub open spec fn opened(events: Seq<RuntimeEventView>, operation_id: Seq<char>) -> bool {
    exists|j: int|
        0 <= j < events.len() && (dispatch_in(#[trigger] events[j]) matches Some(c) && c.1
            == operation_id)
}

/// What the indexes of a clean scan say is what the ledger says.
proof fn lemma_clean_indexes(events: Seq<RuntimeEventView>, key: Seq<char>)
    requires
        events.len() < usize::MAX,
        scan(events).issues.len() == 0,
    ensures
        ({
            let st = scan(events);
            let op = st.operations[st.by_call[key] as int];
            &&& st.by_call.contains_key(key) == called(events, key)
            &&& st.by_call.contains_key(key) ==> {
                &&& 0 <= st.by_call[key] < st.operations.len()
                &&& op.response_event is Some == answered(events, key)
                &&& op.dispatch_event is Some == dispatched(events, key)
                &&& forall|name: Seq<char>|
                    op.tool_name == Some(name) <==> #[trigger] called_as(events, key, name)
            }
            &&& st.by_operation.contains_key(key) == opened(events, key)
        }),
{
    let st = scan(events);
    lemma_scan_wf(events);
    law_clean_ledger(events);
    law_bound_events_match(events);
    law_one_operation_per_call(events);
    if st.by_call.contains_key(key) {
        let i = st.by_call[key] as int;
        let op = st.operations[i];
        law_operations_hold_ledger_events(events, i);
        assert(bound(key, op) && named(op));
        let c = op.call_event->0;
        let j = choose|j: int| 0 <= j < events.len() && events[j] == c;
        assert(call_in(events[j]) is Some);
        if op.response_event is Some {
            let r = op.response_event->0;
            let j = choose|j: int| 0 <= j < events.len() && events[j] == r;
            assert(response_in(events[j]) is Some);
        }
        if op.dispatch_event is Some {
            let d = op.dispatch_event->0;
            let j = choose|j: int| 0 <= j < events.len() && events[j] == d;
            assert(dispatch_in(events[j]) is Some);
        }
        assert forall|name: Seq<char>| op.tool_name == Some(name) <==> #[trigger] called_as(
            events,
            key,
            name,
        ) by {
            if called_as(events, key, name) {
                let j = choose|j: int|
                    0 <= j < events.len() && call_in(#[trigger] events[j]) == Some((key, name));
                let at = law_every_tool_event_is_held(events, j);
                lemma_same_operation(events, at, key);
            }
            if op.tool_name == Some(name) {
                assert(call_in(events[j]) == Some((key, name)));
            }
        }
    }
    if called(events, key) {
        let j = choose|j: int|
            0 <= j < events.len() && (call_in(#[trigger] events[j]) matches Some(c) && c.0 == key);
        let at = law_every_tool_event_is_held(events, j);
        lemma_same_operation(events, at, key);
    }
    if answered(events, key) {
        let j = choose|j: int|
            0 <= j < events.len() && (response_in(#[trigger] events[j]) matches Some(c) && c.0
                == key);
        let at = law_every_tool_event_is_held(events, j);
        lemma_same_operation(events, at, key);
    }
    if dispatched(events, key) {
        let j = choose|j: int|
            0 <= j < events.len() && (dispatch_in(#[trigger] events[j]) matches Some(c) && c.0
                == key);
        let at = law_every_tool_event_is_held(events, j);
        lemma_same_operation(events, at, key);
    }
    if opened(events, key) {
        let j = choose|j: int|
            0 <= j < events.len() && (dispatch_in(#[trigger] events[j]) matches Some(c) && c.1
                == key);
        let at = law_every_tool_event_is_held(events, j);
        lemma_dispatched_are_found(events, at);
    }
    if st.by_operation.contains_key(key) {
        let i = st.by_operation[key] as int;
        law_operations_hold_ledger_events(events, i);
        assert(keyed(st, i));
        let k = choose|k: Seq<char>| #[trigger] st.by_call.contains_key(k) && st.by_call[k] == i;
        assert(bound(k, st.operations[i]));
        let d = st.operations[i].dispatch_event->0;
        let j = choose|j: int| 0 <= j < events.len() && events[j] == d;
        assert(dispatch_in(events[j]) is Some);
    }
}

/// The operation whose call has this key is the one found under it.
proof fn lemma_same_operation(events: Seq<RuntimeEventView>, i: int, key: Seq<char>)
    requires
        events.len() < usize::MAX,
        0 <= i < scan(events).operations.len(),
        scan(events).operations[i].call_event matches Some(c) && (call_in(c) matches Some(k)
            && k.0 == key),
    ensures
        scan(events).by_call.contains_key(key),
        scan(events).by_call[key] == i,
{
    let st = scan(events);
    law_one_operation_per_call(events);
    law_bound_events_match(events);
    assert(keyed(st, i));
    let k = choose|k: Seq<char>| #[trigger] st.by_call.contains_key(k) && st.by_call[k] == i;
    assert(bound(k, st.operations[i]));
}

/// What is wrong is reported, and nothing else: behind a ledger without issues, an event
/// with an id that was used is a duplicate; a second call, dispatch or response of one call
/// is a duplicate of its kind; a dispatch or response without a call is an orphan; a
/// response under another name than the call's is an identity conflict; a recovery fact
/// about an operation that no dispatch opened is reported as such; and any other event
/// leaves the ledger without issues.
pub proof fn law_anomalies_are_reported(events: Seq<RuntimeEventView>, e: RuntimeEventView)
    requires
        events.len() + 1 < usize::MAX,
        scan(events).issues.len() == 0,
    ensures
        ({
            let issues = scan(events.push(e)).issues;
            let one = |code: ToolLedgerIssueCode, call: Option<Seq<char>>|
                issues == seq![IssueView { code, event_id: e.id, tool_call_id: call }];
            let call_id = match e.content {
                Some(ContentView::FunctionCall { id, .. }) => id,
                Some(ContentView::FunctionResponse { id, .. }) => id,
                _ => e.actions->0.tool_dispatch->0.provider_tool_call_id,
            };
            if exists|j: int| 0 <= j < events.len() && (#[trigger] events[j]).id == e.id {
                one(ToolLedgerIssueCode::DuplicateEventId, None)
            } else if call_in(e) is Some {
                if called(events, (call_in(e)->0).0) {
                    one(ToolLedgerIssueCode::DuplicateCall, Some(call_id))
                } else {
                    issues.len() == 0
                }
            } else if response_in(e) is Some {
                if !called(events, (response_in(e)->0).0) {
                    one(ToolLedgerIssueCode::OrphanResponse, Some(call_id))
                } else if answered(events, (response_in(e)->0).0) {
                    one(ToolLedgerIssueCode::DuplicateResponse, Some(call_id))
                } else if !called_as(events, (response_in(e)->0).0, (response_in(e)->0).1) {
                    one(ToolLedgerIssueCode::IdentityConflict, Some(call_id))
                } else {
                    issues.len() == 0
                }
            } else if dispatch_in(e) is Some {
                if !called(events, (dispatch_in(e)->0).0) {
                    one(ToolLedgerIssueCode::OrphanDispatch, Some(call_id))
                } else if dispatched(events, (dispatch_in(e)->0).0) {
                    one(ToolLedgerIssueCode::DuplicateDispatch, Some(call_id))
                } else {
                    issues.len() == 0
                }
            } else if recovery_in(e) is Some {
                if !opened(events, recovery_in(e)->0.operation_id()) {
                    one(
                        ToolLedgerIssueCode::RecoveryFactWithoutOperation,
                        Some(recovery_in(e)->0.operation_id()),
                    )
                } else {
                    issues.len() == 0
                }
            } else {
                issues.len() == 0
            }
        }),
{
    let st = scan(events);
    let all = events.push(e);
    lemma_scan_wf(events);
    assert(all.drop_last() =~= events);
    assert(scan(all) == st.step(e));
    law_clean_ledger(events);
    lemma_seen_are_ledger_ids(events, e.id);
    assert(st.issues =~= Seq::empty());
    if call_in(e) is Some {
        lemma_clean_indexes(events, (call_in(e)->0).0);
    } else if response_in(e) is Some {
        lemma_clean_indexes(events, (response_in(e)->0).0);
        assert(called_as(events, (response_in(e)->0).0, (response_in(e)->0).1) == called_as(
            events,
            (response_in(e)->0).0,
            (response_in(e)->0).1,
        ));
    } else if dispatch_in(e) is Some {
        lemma_clean_indexes(events, (dispatch_in(e)->0).0);
    } else if recovery_in(e) is Some {
        lemma_clean_indexes(events, recovery_in(e)->0.operation_id());
    }
    let issues = scan(all).issues;
    assert(issues.len() <= 1);
    if issues.len() == 1 {
        assert(issues =~= seq![issues[0]]);
    }
}

proof fn lemma_seen_are_ledger_ids(events: Seq<RuntimeEventView>, id: Seq<char>)
    ensures
        scan(events).seen.contains(id) <==> exists|j: int|
            0 <= j < events.len() && (#[trigger] events[j]).id == id,
    decreases events.len(),
{
    if events.len() > 0 {
        let init = events.drop_last();
        lemma_seen_are_ledger_ids(init, id);
        assert(scan(events) == scan(init).step(events.last()));
        if exists|j: int| 0 <= j < init.len() && (#[trigger] init[j]).id == id {
            let j = choose|j: int| 0 <= j < init.len() && (#[trigger] init[j]).id == id;
            assert(events[j].id == id);
        }
        if exists|j: int| 0 <= j < events.len() && (#[trigger] events[j]).id == id {
            let j = choose|j: int| 0 <= j < events.len() && (#[trigger] events[j]).id == id;
            if j < init.len() {
                assert(init[j].id == id);
            } else {
                assert(events.last().id == id);
            }
        }
        if events.last().id == id {
            assert(events[events.len() - 1].id == id);
        }
    }
}

/// What the scan of a ledger returns: one operation for each call of a ledger without
/// issues, holding all that is about it, and corruption exactly where there are issues.
pub proof fn law_scan_result(events: &[RuntimeEvent], r: ToolLedgerScanResult, j: int)
    requires
        events@.len() < usize::MAX,
        call_ensures(scan_tool_ledger, (events,), r),
    ensures
        r.has_corruption <==> r.issues@.len() > 0,
        r.issues@.len() == 0 && 0 <= j < events@.len() && bears_on_a_tool(events@[j]@) ==> exists|
            i: int,
        |
            0 <= i < r.operations@.len() && holds((#[trigger] r.operations@[i])@, events@[j]@),
{
    let all = event_views(events@);
    assert(issue_views(r.issues@).len() == r.issues@.len());
    assert(operation_views(r.operations@).len() == r.operations@.len());
    if r.issues@.len() == 0 && 0 <= j < events@.len() && bears_on_a_tool(events@[j]@) {
        assert(all[j] == events@[j]@);
        let i = law_every_tool_event_is_held(all, j);
        assert(operation_views(r.operations@)[i] == r.operations@[i]@);
    }
}

} // verus!
