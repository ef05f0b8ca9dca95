//! Operation registry: operation names, their specs, and the closed error-code
//! list each declares. Every operation must be able to return
//! [`OpErrorCode::InternalFailure`]; the dispatcher rejects any code an operation
//! did not declare.

use super::errors::OpErrorCode;
use crate::text::str_eq;
use vstd::prelude::*;

verus! {

/// A wire operation key, e.g. `host.status`, `turn.start`.
#[derive(Debug, Clone, Copy, PartialEq, Eq, Hash)]
pub struct OpName(pub &'static str);

pub const HOST_STATUS: &'static str = "host.status";

pub const HOST_DIAGNOSTICS_QUERY: &'static str = "host.diagnostics.query";

pub const TURN_START: &'static str = "turn.start";

pub const TURN_QUERY: &'static str = "turn.query";

pub const TURN_STOP: &'static str = "turn.stop";

pub const TURN_REGENERATE: &'static str = "turn.regenerate";

pub const TURN_RESUME_QUERY: &'static str = "turn.resume.query";

pub const TURN_RESUME_START: &'static str = "turn.resume.start";

pub const SUBSCRIPTION_OPEN: &'static str = "subscription.open";

pub const SUBSCRIPTION_CLOSE: &'static str = "subscription.close";

pub const TURN_MESSAGE_SUBMIT: &'static str = "turn.message.submit";

pub const QUEUE_RETRACT: &'static str = "queue.retract";

pub const TURN_INTERRUPT: &'static str = "turn.interrupt";

pub const SESSION_CREATE: &'static str = "session.create";

pub const SESSION_CATALOG_QUERY: &'static str = "session.catalog.query";

pub const SESSION_METADATA_UPDATE: &'static str = "session.metadata.update";

pub const SESSION_CONFIGURATION_UPDATE: &'static str = "session.configuration.update";

pub const SESSION_CWD_RELOCATE: &'static str = "session.cwd.relocate";

pub const SESSION_READ_MARKER_SET: &'static str = "session.read_marker.set";

pub const SESSION_LIFECYCLE_SET: &'static str = "session.lifecycle.set";

pub const SESSION_REMOVE: &'static str = "session.remove";

pub const INTERACTION_QUERY: &'static str = "interaction.query";

pub const INTERACTION_ANSWER: &'static str = "interaction.answer";

/// One operation's declared shape.
#[derive(Debug)]
pub struct OperationSpec {
    pub name: OpName,
    pub allowed_error_codes: Vec<OpErrorCode>,
}

/// What an [`OperationSpec`] declares: the operation and its error codes.
pub type Declared = (Seq<char>, Seq<OpErrorCode>);

impl View for OperationSpec {
    type V = Declared;

    open spec fn view(&self) -> Declared {
        (self.name.0@, self.allowed_error_codes@)
    }
}

pub open spec fn spec_views(v: Seq<OperationSpec>) -> Seq<Declared> {
    Seq::new(v.len(), |i: int| v[i]@)
}

/// The operations with the error codes each declares.
pub open spec fn spine() -> Seq<Declared> {
    Seq::empty()
        .push(("host.status"@, seq![OpErrorCode::InternalFailure]))
        .push(("host.diagnostics.query"@, seq![OpErrorCode::InternalFailure]))
        .push(("turn.start"@, seq![OpErrorCode::HostNotReady, OpErrorCode::NotFound, OpErrorCode::SessionArchived, OpErrorCode::SessionBusy, OpErrorCode::OperationConflict, OpErrorCode::InvalidRequest, OpErrorCode::PersistenceFailed, OpErrorCode::InternalFailure]))
        .push(("turn.query"@, seq![OpErrorCode::NotFound, OpErrorCode::InternalFailure]))
        .push(("turn.stop"@, seq![OpErrorCode::NotFound, OpErrorCode::SessionBusy, OpErrorCode::OperationConflict, OpErrorCode::InternalFailure]))
        .push(("turn.regenerate"@, seq![OpErrorCode::NotFound, OpErrorCode::SessionBusy, OpErrorCode::OperationConflict, OpErrorCode::InternalFailure]))
        .push(("turn.resume.query"@, seq![OpErrorCode::NotFound, OpErrorCode::InternalFailure]))
        .push(("turn.resume.start"@, seq![OpErrorCode::NotFound, OpErrorCode::SessionBusy, OpErrorCode::OperationConflict, OpErrorCode::InvalidRequest, OpErrorCode::InternalFailure]))
        .push(("subscription.open"@, seq![OpErrorCode::NotFound, OpErrorCode::InternalFailure]))
        .push(("subscription.close"@, seq![OpErrorCode::NotFound, OpErrorCode::InternalFailure]))
        .push(("turn.message.submit"@, seq![OpErrorCode::HostNotReady, OpErrorCode::NotFound, OpErrorCode::SessionBusy, OpErrorCode::OperationConflict, OpErrorCode::InvalidRequest, OpErrorCode::InternalFailure]))
        .push(("queue.retract"@, seq![OpErrorCode::NotFound, OpErrorCode::OperationConflict, OpErrorCode::InternalFailure]))
        .push(("turn.interrupt"@, seq![OpErrorCode::NotFound, OpErrorCode::SessionBusy, OpErrorCode::OperationConflict, OpErrorCode::InternalFailure]))
        .push(("session.create"@, seq![OpErrorCode::InvalidRequest, OpErrorCode::PersistenceFailed, OpErrorCode::InternalFailure]))
        .push(("session.catalog.query"@, seq![OpErrorCode::InvalidRequest, OpErrorCode::InternalFailure]))
        .push(("session.metadata.update"@, seq![OpErrorCode::NotFound, OpErrorCode::RevisionConflict, OpErrorCode::InternalFailure]))
        .push(("session.configuration.update"@, seq![OpErrorCode::NotFound, OpErrorCode::RevisionConflict, OpErrorCode::InternalFailure]))
        .push(("session.cwd.relocate"@, seq![OpErrorCode::NotFound, OpErrorCode::RevisionConflict, OpErrorCode::InternalFailure]))
        .push(("session.read_marker.set"@, seq![OpErrorCode::NotFound, OpErrorCode::InternalFailure]))
        .push(("session.lifecycle.set"@, seq![OpErrorCode::NotFound, OpErrorCode::OperationConflict, OpErrorCode::InternalFailure]))
        .push(("session.remove"@, seq![OpErrorCode::NotFound, OpErrorCode::OperationConflict, OpErrorCode::InternalFailure]))
        .push(("interaction.query"@, seq![OpErrorCode::NotFound, OpErrorCode::InternalFailure]))
        .push(("interaction.answer"@, seq![OpErrorCode::NotFound, OpErrorCode::AlreadyResolved, OpErrorCode::InternalFailure]))
}

fn declare(specs: &mut Vec<OperationSpec>, name: &'static str, codes: Vec<OpErrorCode>)
    ensures
        spec_views(final(specs)@) == spec_views(old(specs)@).push((name@, codes@)),
{
    let ghost before = spec_views(specs@);
    specs.push(OperationSpec { name: OpName(name), allowed_error_codes: codes });
    assert(spec_views(specs@) =~= before.push((name@, codes@)));
}

/// The full operation set with the error codes each operation declares.
pub fn spine_specs() -> (r: Vec<OperationSpec>)
    ensures
        spec_views(r@) == spine(),
{
    let mut specs: Vec<OperationSpec> = Vec::new();
    assert(spec_views(specs@) =~= Seq::empty());
    let codes = vec![OpErrorCode::InternalFailure];
    assert(codes@ =~= seq![OpErrorCode::InternalFailure]);
    declare(&mut specs, HOST_STATUS, codes);
    let codes = vec![OpErrorCode::InternalFailure];
    assert(codes@ =~= seq![OpErrorCode::InternalFailure]);
    declare(&mut specs, HOST_DIAGNOSTICS_QUERY, codes);
    let codes = vec![OpErrorCode::HostNotReady, OpErrorCode::NotFound, OpErrorCode::SessionArchived, OpErrorCode::SessionBusy, OpErrorCode::OperationConflict, OpErrorCode::InvalidRequest, OpErrorCode::PersistenceFailed, OpErrorCode::InternalFailure];
    assert(codes@ =~= seq![OpErrorCode::HostNotReady, OpErrorCode::NotFound, OpErrorCode::SessionArchived, OpErrorCode::SessionBusy, OpErrorCode::OperationConflict, OpErrorCode::InvalidRequest, OpErrorCode::PersistenceFailed, OpErrorCode::InternalFailure]);
    declare(&mut specs, TURN_START, codes);
    let codes = vec![OpErrorCode::NotFound, OpErrorCode::InternalFailure];
    assert(codes@ =~= seq![OpErrorCode::NotFound, OpErrorCode::InternalFailure]);
    declare(&mut specs, TURN_QUERY, codes);
    let codes = vec![OpErrorCode::NotFound, OpErrorCode::SessionBusy, OpErrorCode::OperationConflict, OpErrorCode::InternalFailure];
    assert(codes@ =~= seq![OpErrorCode::NotFound, OpErrorCode::SessionBusy, OpErrorCode::OperationConflict, OpErrorCode::InternalFailure]);
    declare(&mut specs, TURN_STOP, codes);
    let codes = vec![OpErrorCode::NotFound, OpErrorCode::SessionBusy, OpErrorCode::OperationConflict, OpErrorCode::InternalFailure];
    assert(codes@ =~= seq![OpErrorCode::NotFound, OpErrorCode::SessionBusy, OpErrorCode::OperationConflict, OpErrorCode::InternalFailure]);
    declare(&mut specs, TURN_REGENERATE, codes);
    let codes = vec![OpErrorCode::NotFound, OpErrorCode::InternalFailure];
    assert(codes@ =~= seq![OpErrorCode::NotFound, OpErrorCode::InternalFailure]);
    declare(&mut specs, TURN_RESUME_QUERY, codes);
    let codes = vec![OpErrorCode::NotFound, OpErrorCode::SessionBusy, OpErrorCode::OperationConflict, OpErrorCode::InvalidRequest, OpErrorCode::InternalFailure];
    assert(codes@ =~= seq![OpErrorCode::NotFound, OpErrorCode::SessionBusy, OpErrorCode::OperationConflict, OpErrorCode::InvalidRequest, OpErrorCode::InternalFailure]);
    declare(&mut specs, TURN_RESUME_START, codes);
    let codes = vec![OpErrorCode::NotFound, OpErrorCode::InternalFailure];
    assert(codes@ =~= seq![OpErrorCode::NotFound, OpErrorCode::InternalFailure]);
    declare(&mut specs, SUBSCRIPTION_OPEN, codes);
    let codes = vec![OpErrorCode::NotFound, OpErrorCode::InternalFailure];
    assert(codes@ =~= seq![OpErrorCode::NotFound, OpErrorCode::InternalFailure]);
    declare(&mut specs, SUBSCRIPTION_CLOSE, codes);
    let codes = vec![OpErrorCode::HostNotReady, OpErrorCode::NotFound, OpErrorCode::SessionBusy, OpErrorCode::OperationConflict, OpErrorCode::InvalidRequest, OpErrorCode::InternalFailure];
    assert(codes@ =~= seq![OpErrorCode::HostNotReady, OpErrorCode::NotFound, OpErrorCode::SessionBusy, OpErrorCode::OperationConflict, OpErrorCode::InvalidRequest, OpErrorCode::InternalFailure]);
    declare(&mut specs, TURN_MESSAGE_SUBMIT, codes);
    let codes = vec![OpErrorCode::NotFound, OpErrorCode::OperationConflict, OpErrorCode::InternalFailure];
    assert(codes@ =~= seq![OpErrorCode::NotFound, OpErrorCode::OperationConflict, OpErrorCode::InternalFailure]);
    declare(&mut specs, QUEUE_RETRACT, codes);
    let codes = vec![OpErrorCode::NotFound, OpErrorCode::SessionBusy, OpErrorCode::OperationConflict, OpErrorCode::InternalFailure];
    assert(codes@ =~= seq![OpErrorCode::NotFound, OpErrorCode::SessionBusy, OpErrorCode::OperationConflict, OpErrorCode::InternalFailure]);
    declare(&mut specs, TURN_INTERRUPT, codes);
    let codes = vec![OpErrorCode::InvalidRequest, OpErrorCode::PersistenceFailed, OpErrorCode::InternalFailure];
    assert(codes@ =~= seq![OpErrorCode::InvalidRequest, OpErrorCode::PersistenceFailed, OpErrorCode::InternalFailure]);
    declare(&mut specs, SESSION_CREATE, codes);
    let codes = vec![OpErrorCode::InvalidRequest, OpErrorCode::InternalFailure];
    assert(codes@ =~= seq![OpErrorCode::InvalidRequest, OpErrorCode::InternalFailure]);
    declare(&mut specs, SESSION_CATALOG_QUERY, codes);
    let codes = vec![OpErrorCode::NotFound, OpErrorCode::RevisionConflict, OpErrorCode::InternalFailure];
    assert(codes@ =~= seq![OpErrorCode::NotFound, OpErrorCode::RevisionConflict, OpErrorCode::InternalFailure]);
    declare(&mut specs, SESSION_METADATA_UPDATE, codes);
    let codes = vec![OpErrorCode::NotFound, OpErrorCode::RevisionConflict, OpErrorCode::InternalFailure];
    assert(codes@ =~= seq![OpErrorCode::NotFound, OpErrorCode::RevisionConflict, OpErrorCode::InternalFailure]);
    declare(&mut specs, SESSION_CONFIGURATION_UPDATE, codes);
    let codes = vec![OpErrorCode::NotFound, OpErrorCode::RevisionConflict, OpErrorCode::InternalFailure];
    assert(codes@ =~= seq![OpErrorCode::NotFound, OpErrorCode::RevisionConflict, OpErrorCode::InternalFailure]);
    declare(&mut specs, SESSION_CWD_RELOCATE, codes);
    let codes = vec![OpErrorCode::NotFound, OpErrorCode::InternalFailure];
    assert(codes@ =~= seq![OpErrorCode::NotFound, OpErrorCode::InternalFailure]);
    declare(&mut specs, SESSION_READ_MARKER_SET, codes);
    let codes = vec![OpErrorCode::NotFound, OpErrorCode::OperationConflict, OpErrorCode::InternalFailure];
    assert(codes@ =~= seq![OpErrorCode::NotFound, OpErrorCode::OperationConflict, OpErrorCode::InternalFailure]);
    declare(&mut specs, SESSION_LIFECYCLE_SET, codes);
    let codes = vec![OpErrorCode::NotFound, OpErrorCode::OperationConflict, OpErrorCode::InternalFailure];
    assert(codes@ =~= seq![OpErrorCode::NotFound, OpErrorCode::OperationConflict, OpErrorCode::InternalFailure]);
    declare(&mut specs, SESSION_REMOVE, codes);
    let codes = vec![OpErrorCode::NotFound, OpErrorCode::InternalFailure];
    assert(codes@ =~= seq![OpErrorCode::NotFound, OpErrorCode::InternalFailure]);
    declare(&mut specs, INTERACTION_QUERY, codes);
    let codes = vec![OpErrorCode::NotFound, OpErrorCode::AlreadyResolved, OpErrorCode::InternalFailure];
    assert(codes@ =~= seq![OpErrorCode::NotFound, OpErrorCode::AlreadyResolved, OpErrorCode::InternalFailure]);
    declare(&mut specs, INTERACTION_ANSWER, codes);
    specs
}

/// The operation is declared.
pub open spec fn is_declared(name: Seq<char>) -> bool {
    exists|i: int| 0 <= i < spine().len() && (#[trigger] spine()[i]).0 == name
}

/// Whether `name` is part of the operation set.
pub fn is_spine_op(name: &str) -> (r: bool)
    ensures
        r == is_declared(name@),
{
    spec_for(name).is_some()
}

/// The declared error codes of an operation, if it is part of the set.
pub fn spec_for(name: &str) -> (r: Option<OperationSpec>)
    ensures
        match r {
            Some(spec) => spec@.0 == name@ && exists|i: int|
                0 <= i < spine().len() && #[trigger] spine()[i] == spec@,
            None => !is_declared(name@),
        },
{
    let specs = spine_specs();
    let ghost all = spine();
    let mut i: usize = 0;
    while i < specs.len()
        invariant
            i <= specs.len(),
            spec_views(specs@) == all,
            all == spine(),
            forall|k: int| 0 <= k < i ==> (#[trigger] all[k]).0 != name@,
        decreases specs.len() - i,
    {
        let spec = &specs[i];
        assert(all[i as int] == spec@);
        if str_eq(spec.name.0, name) {
            let codes = copy_codes(&spec.allowed_error_codes);
            let r = OperationSpec { name: OpName(spec.name.0), allowed_error_codes: codes };
            assert(r@ == all[i as int]);
            return Some(r);
        }
        i = i + 1;
    }
    None
}

fn copy_codes(codes: &Vec<OpErrorCode>) -> (r: Vec<OpErrorCode>)
    ensures
        r@ == codes@,
{
    let mut out: Vec<OpErrorCode> = Vec::new();
    let mut i: usize = 0;
    while i < codes.len()
        invariant
            i <= codes.len(),
            out@ =~= codes@.take(i as int),
        decreases codes.len() - i,
    {
        out.push(codes[i]);
        i = i + 1;
    }
    assert(codes@.take(i as int) =~= codes@);
    out
}

/// Every operation can report an internal failure.
pub proof fn law_every_operation_can_fail_internally(i: int)
    requires
        0 <= i < spine().len(),
    ensures
        spine()[i].1.contains(OpErrorCode::InternalFailure),
{
    assert(spine()[0].1[0] == OpErrorCode::InternalFailure);
    assert(spine()[1].1[0] == OpErrorCode::InternalFailure);
    assert(spine()[2].1[7] == OpErrorCode::InternalFailure);
    assert(spine()[3].1[1] == OpErrorCode::InternalFailure);
    assert(spine()[4].1[3] == OpErrorCode::InternalFailure);
    assert(spine()[5].1[3] == OpErrorCode::InternalFailure);
    assert(spine()[6].1[1] == OpErrorCode::InternalFailure);
    assert(spine()[7].1[4] == OpErrorCode::InternalFailure);
    assert(spine()[8].1[1] == OpErrorCode::InternalFailure);
    assert(spine()[9].1[1] == OpErrorCode::InternalFailure);
    assert(spine()[10].1[5] == OpErrorCode::InternalFailure);
    assert(spine()[11].1[2] == OpErrorCode::InternalFailure);
    assert(spine()[12].1[3] == OpErrorCode::InternalFailure);
    assert(spine()[13].1[2] == OpErrorCode::InternalFailure);
    assert(spine()[14].1[1] == OpErrorCode::InternalFailure);
    assert(spine()[15].1[2] == OpErrorCode::InternalFailure);
    assert(spine()[16].1[2] == OpErrorCode::InternalFailure);
    assert(spine()[17].1[2] == OpErrorCode::InternalFailure);
    assert(spine()[18].1[1] == OpErrorCode::InternalFailure);
    assert(spine()[19].1[2] == OpErrorCode::InternalFailure);
    assert(spine()[20].1[2] == OpErrorCode::InternalFailure);
    assert(spine()[21].1[1] == OpErrorCode::InternalFailure);
    assert(spine()[22].1[2] == OpErrorCode::InternalFailure);
}

/// No operation is declared twice.
#[verifier::rlimit(60)]
pub proof fn law_operations_are_unique(i: int, j: int)
    requires
        0 <= i < j < spine().len(),
    ensures
        spine()[i].0 != spine()[j].0,
{
    reveal_strlit("host.status");
    reveal_strlit("host.diagnostics.query");
    reveal_strlit("turn.start");
    reveal_strlit("turn.query");
    reveal_strlit("turn.stop");
    reveal_strlit("turn.regenerate");
    reveal_strlit("turn.resume.query");
    reveal_strlit("turn.resume.start");
    reveal_strlit("subscription.open");
    reveal_strlit("subscription.close");
    reveal_strlit("turn.message.submit");
    reveal_strlit("queue.retract");
    reveal_strlit("turn.interrupt");
    reveal_strlit("session.create");
    reveal_strlit("session.catalog.query");
    reveal_strlit("session.metadata.update");
    reveal_strlit("session.configuration.update");
    reveal_strlit("session.cwd.relocate");
    reveal_strlit("session.read_marker.set");
    reveal_strlit("session.lifecycle.set");
    reveal_strlit("session.remove");
    reveal_strlit("interaction.query");
    reveal_strlit("interaction.answer");
    assert("host.status"@.len() == 11);
    assert("host.diagnostics.query"@.len() == 22);
    assert("turn.start"@.len() == 10);
    assert("turn.query"@.len() == 10);
    assert("turn.stop"@.len() == 9);
    assert("turn.regenerate"@.len() == 15);
    assert("turn.resume.query"@.len() == 17);
    assert("turn.resume.start"@.len() == 17);
    assert("subscription.open"@.len() == 17);
    assert("subscription.close"@.len() == 18);
    assert("turn.message.submit"@.len() == 19);
    assert("queue.retract"@.len() == 13);
    assert("turn.interrupt"@.len() == 14);
    assert("session.create"@.len() == 14);
    assert("session.catalog.query"@.len() == 21);
    assert("session.metadata.update"@.len() == 23);
    assert("session.configuration.update"@.len() == 28);
    assert("session.cwd.relocate"@.len() == 20);
    assert("session.read_marker.set"@.len() == 23);
    assert("session.lifecycle.set"@.len() == 21);
    assert("session.remove"@.len() == 14);
    assert("interaction.query"@.len() == 17);
    assert("interaction.answer"@.len() == 18);
    assert("turn.start"@[5] != "turn.query"@[5]);
    assert("turn.resume.query"@[12] != "turn.resume.start"@[12]);
    assert("turn.resume.query"@[0] != "subscription.open"@[0]);
    assert("turn.resume.start"@[0] != "subscription.open"@[0]);
    assert("turn.interrupt"@[0] != "session.create"@[0]);
    assert("session.metadata.update"@[8] != "session.read_marker.set"@[8]);
    assert("session.catalog.query"@[8] != "session.lifecycle.set"@[8]);
    assert("turn.interrupt"@[0] != "session.remove"@[0]);
    assert("session.create"@[8] != "session.remove"@[8]);
    assert("turn.resume.query"@[0] != "interaction.query"@[0]);
    assert("turn.resume.start"@[0] != "interaction.query"@[0]);
    assert("subscription.open"@[0] != "interaction.query"@[0]);
    assert("subscription.close"@[0] != "interaction.answer"@[0]);
    assert(spine()[0].0 == "host.status"@);
    assert(spine()[1].0 == "host.diagnostics.query"@);
    assert(spine()[2].0 == "turn.start"@);
    assert(spine()[3].0 == "turn.query"@);
    assert(spine()[4].0 == "turn.stop"@);
    assert(spine()[5].0 == "turn.regenerate"@);
    assert(spine()[6].0 == "turn.resume.query"@);
    assert(spine()[7].0 == "turn.resume.start"@);
    assert(spine()[8].0 == "subscription.open"@);
    assert(spine()[9].0 == "subscription.close"@);
    assert(spine()[10].0 == "turn.message.submit"@);
    assert(spine()[11].0 == "queue.retract"@);
    assert(spine()[12].0 == "turn.interrupt"@);
    assert(spine()[13].0 == "session.create"@);
    assert(spine()[14].0 == "session.catalog.query"@);
    assert(spine()[15].0 == "session.metadata.update"@);
    assert(spine()[16].0 == "session.configuration.update"@);
    assert(spine()[17].0 == "session.cwd.relocate"@);
    assert(spine()[18].0 == "session.read_marker.set"@);
    assert(spine()[19].0 == "session.lifecycle.set"@);
    assert(spine()[20].0 == "session.remove"@);
    assert(spine()[21].0 == "interaction.query"@);
    assert(spine()[22].0 == "interaction.answer"@);
}

/// The operations, and which error codes each may report: these and no others.
#[verifier::rlimit(60)]
pub proof fn law_operations_declare_their_errors(code: OpErrorCode)
    ensures
        spine().len() == 23,
        spine()[0].0 == "host.status"@,
        spine()[0].1.contains(code) <==> code is InternalFailure,
        spine()[1].0 == "host.diagnostics.query"@,
        spine()[1].1.contains(code) <==> code is InternalFailure,
        spine()[2].0 == "turn.start"@,
        spine()[2].1.contains(code) <==> code is HostNotReady || code is NotFound || code is SessionArchived || code is SessionBusy || code is OperationConflict || code is InvalidRequest || code is PersistenceFailed || code is InternalFailure,
        spine()[3].0 == "turn.query"@,
        spine()[3].1.contains(code) <==> code is NotFound || code is InternalFailure,
        spine()[4].0 == "turn.stop"@,
        spine()[4].1.contains(code) <==> code is NotFound || code is SessionBusy || code is OperationConflict || code is InternalFailure,
        spine()[5].0 == "turn.regenerate"@,
        spine()[5].1.contains(code) <==> code is NotFound || code is SessionBusy || code is OperationConflict || code is InternalFailure,
        spine()[6].0 == "turn.resume.query"@,
        spine()[6].1.contains(code) <==> code is NotFound || code is InternalFailure,
        spine()[7].0 == "turn.resume.start"@,
        spine()[7].1.contains(code) <==> code is NotFound || code is SessionBusy || code is OperationConflict || code is InvalidRequest || code is InternalFailure,
        spine()[8].0 == "subscription.open"@,
        spine()[8].1.contains(code) <==> code is NotFound || code is InternalFailure,
        spine()[9].0 == "subscription.close"@,
        spine()[9].1.contains(code) <==> code is NotFound || code is InternalFailure,
        spine()[10].0 == "turn.message.submit"@,
        spine()[10].1.contains(code) <==> code is HostNotReady || code is NotFound || code is SessionBusy || code is OperationConflict || code is InvalidRequest || code is InternalFailure,
        spine()[11].0 == "queue.retract"@,
        spine()[11].1.contains(code) <==> code is NotFound || code is OperationConflict || code is InternalFailure,
        spine()[12].0 == "turn.interrupt"@,
        spine()[12].1.contains(code) <==> code is NotFound || code is SessionBusy || code is OperationConflict || code is InternalFailure,
        spine()[13].0 == "session.create"@,
        spine()[13].1.contains(code) <==> code is InvalidRequest || code is PersistenceFailed || code is InternalFailure,
        spine()[14].0 == "session.catalog.query"@,
        spine()[14].1.contains(code) <==> code is InvalidRequest || code is InternalFailure,
        spine()[15].0 == "session.metadata.update"@,
        spine()[15].1.contains(code) <==> code is NotFound || code is RevisionConflict || code is InternalFailure,
        spine()[16].0 == "session.configuration.update"@,
        spine()[16].1.contains(code) <==> code is NotFound || code is RevisionConflict || code is InternalFailure,
        spine()[17].0 == "session.cwd.relocate"@,
        spine()[17].1.contains(code) <==> code is NotFound || code is RevisionConflict || code is InternalFailure,
        spine()[18].0 == "session.read_marker.set"@,
        spine()[18].1.contains(code) <==> code is NotFound || code is InternalFailure,
        spine()[19].0 == "session.lifecycle.set"@,
        spine()[19].1.contains(code) <==> code is NotFound || code is OperationConflict || code is InternalFailure,
        spine()[20].0 == "session.remove"@,
        spine()[20].1.contains(code) <==> code is NotFound || code is OperationConflict || code is InternalFailure,
        spine()[21].0 == "interaction.query"@,
        spine()[21].1.contains(code) <==> code is NotFound || code is InternalFailure,
        spine()[22].0 == "interaction.answer"@,
        spine()[22].1.contains(code) <==> code is NotFound || code is AlreadyResolved || code is InternalFailure,
{
    assert(spine()[0].1.contains(code) <==> code is InternalFailure) by {
        let t = spine()[0].1;
        assert(t.len() == 1);
        assert(t[0] is InternalFailure);
    };
    assert(spine()[1].1.contains(code) <==> code is InternalFailure) by {
        let t = spine()[1].1;
        assert(t.len() == 1);
        assert(t[0] is InternalFailure);
    };
    assert(spine()[2].1.contains(code) <==> code is HostNotReady || code is NotFound || code is SessionArchived || code is SessionBusy || code is OperationConflict || code is InvalidRequest || code is PersistenceFailed || code is InternalFailure) by {
        let t = spine()[2].1;
        assert(t.len() == 8);
        assert(t[0] is HostNotReady);
        assert(t[1] is NotFound);
        assert(t[2] is SessionArchived);
        assert(t[3] is SessionBusy);
        assert(t[4] is OperationConflict);
        assert(t[5] is InvalidRequest);
        assert(t[6] is PersistenceFailed);
        assert(t[7] is InternalFailure);
    };
    assert(spine()[3].1.contains(code) <==> code is NotFound || code is InternalFailure) by {
        let t = spine()[3].1;
        assert(t.len() == 2);
        assert(t[0] is NotFound);
        assert(t[1] is InternalFailure);
    };
    assert(spine()[4].1.contains(code) <==> code is NotFound || code is SessionBusy || code is OperationConflict || code is InternalFailure) by {
        let t = spine()[4].1;
        assert(t.len() == 4);
        assert(t[0] is NotFound);
        assert(t[1] is SessionBusy);
        assert(t[2] is OperationConflict);
        assert(t[3] is InternalFailure);
    };
    assert(spine()[5].1.contains(code) <==> code is NotFound || code is SessionBusy || code is OperationConflict || code is InternalFailure) by {
        let t = spine()[5].1;
        assert(t.len() == 4);
        assert(t[0] is NotFound);
        assert(t[1] is SessionBusy);
        assert(t[2] is OperationConflict);
        assert(t[3] is InternalFailure);
    };
    assert(spine()[6].1.contains(code) <==> code is NotFound || code is InternalFailure) by {
        let t = spine()[6].1;
        assert(t.len() == 2);
        assert(t[0] is NotFound);
        assert(t[1] is InternalFailure);
    };
    assert(spine()[7].1.contains(code) <==> code is NotFound || code is SessionBusy || code is OperationConflict || code is InvalidRequest || code is InternalFailure) by {
        let t = spine()[7].1;
        assert(t.len() == 5);
        assert(t[0] is NotFound);
        assert(t[1] is SessionBusy);
        assert(t[2] is OperationConflict);
        assert(t[3] is InvalidRequest);
        assert(t[4] is InternalFailure);
    };
    assert(spine()[8].1.contains(code) <==> code is NotFound || code is InternalFailure) by {
        let t = spine()[8].1;
        assert(t.len() == 2);
        assert(t[0] is NotFound);
        assert(t[1] is InternalFailure);
    };
    assert(spine()[9].1.contains(code) <==> code is NotFound || code is InternalFailure) by {
        let t = spine()[9].1;
        assert(t.len() == 2);
        assert(t[0] is NotFound);
        assert(t[1] is InternalFailure);
    };
    assert(spine()[10].1.contains(code) <==> code is HostNotReady || code is NotFound || code is SessionBusy || code is OperationConflict || code is InvalidRequest || code is InternalFailure) by {
        let t = spine()[10].1;
        assert(t.len() == 6);
        assert(t[0] is HostNotReady);
        assert(t[1] is NotFound);
        assert(t[2] is SessionBusy);
        assert(t[3] is OperationConflict);
        assert(t[4] is InvalidRequest);
        assert(t[5] is InternalFailure);
    };
    assert(spine()[11].1.contains(code) <==> code is NotFound || code is OperationConflict || code is InternalFailure) by {
        let t = spine()[11].1;
        assert(t.len() == 3);
        assert(t[0] is NotFound);
        assert(t[1] is OperationConflict);
        assert(t[2] is InternalFailure);
    };
    assert(spine()[12].1.contains(code) <==> code is NotFound || code is SessionBusy || code is OperationConflict || code is InternalFailure) by {
        let t = spine()[12].1;
        assert(t.len() == 4);
        assert(t[0] is NotFound);
        assert(t[1] is SessionBusy);
        assert(t[2] is OperationConflict);
        assert(t[3] is InternalFailure);
    };
    assert(spine()[13].1.contains(code) <==> code is InvalidRequest || code is PersistenceFailed || code is InternalFailure) by {
        let t = spine()[13].1;
        assert(t.len() == 3);
        assert(t[0] is InvalidRequest);
        assert(t[1] is PersistenceFailed);
        assert(t[2] is InternalFailure);
    };
    assert(spine()[14].1.contains(code) <==> code is InvalidRequest || code is InternalFailure) by {
        let t = spine()[14].1;
        assert(t.len() == 2);
        assert(t[0] is InvalidRequest);
        assert(t[1] is InternalFailure);
    };
    assert(spine()[15].1.contains(code) <==> code is NotFound || code is RevisionConflict || code is InternalFailure) by {
        let t = spine()[15].1;
        assert(t.len() == 3);
        assert(t[0] is NotFound);
        assert(t[1] is RevisionConflict);
        assert(t[2] is InternalFailure);
    };
    assert(spine()[16].1.contains(code) <==> code is NotFound || code is RevisionConflict || code is InternalFailure) by {
        let t = spine()[16].1;
        assert(t.len() == 3);
        assert(t[0] is NotFound);
        assert(t[1] is RevisionConflict);
        assert(t[2] is InternalFailure);
    };
    assert(spine()[17].1.contains(code) <==> code is NotFound || code is RevisionConflict || code is InternalFailure) by {
        let t = spine()[17].1;
        assert(t.len() == 3);
        assert(t[0] is NotFound);
        assert(t[1] is RevisionConflict);
        assert(t[2] is InternalFailure);
    };
    assert(spine()[18].1.contains(code) <==> code is NotFound || code is InternalFailure) by {
        let t = spine()[18].1;
        assert(t.len() == 2);
        assert(t[0] is NotFound);
        assert(t[1] is InternalFailure);
    };
    assert(spine()[19].1.contains(code) <==> code is NotFound || code is OperationConflict || code is InternalFailure) by {
        let t = spine()[19].1;
        assert(t.len() == 3);
        assert(t[0] is NotFound);
        assert(t[1] is OperationConflict);
        assert(t[2] is InternalFailure);
    };
    assert(spine()[20].1.contains(code) <==> code is NotFound || code is OperationConflict || code is InternalFailure) by {
        let t = spine()[20].1;
        assert(t.len() == 3);
        assert(t[0] is NotFound);
        assert(t[1] is OperationConflict);
        assert(t[2] is InternalFailure);
    };
    assert(spine()[21].1.contains(code) <==> code is NotFound || code is InternalFailure) by {
        let t = spine()[21].1;
        assert(t.len() == 2);
        assert(t[0] is NotFound);
        assert(t[1] is InternalFailure);
    };
    assert(spine()[22].1.contains(code) <==> code is NotFound || code is AlreadyResolved || code is InternalFailure) by {
        let t = spine()[22].1;
        assert(t.len() == 3);
        assert(t[0] is NotFound);
        assert(t[1] is AlreadyResolved);
        assert(t[2] is InternalFailure);
    };
}

/// The names of the operations.
pub proof fn law_operation_names()
    ensures
        HOST_STATUS@ == "host.status"@,
        HOST_DIAGNOSTICS_QUERY@ == "host.diagnostics.query"@,
        TURN_START@ == "turn.start"@,
        TURN_QUERY@ == "turn.query"@,
        TURN_STOP@ == "turn.stop"@,
        TURN_REGENERATE@ == "turn.regenerate"@,
        TURN_RESUME_QUERY@ == "turn.resume.query"@,
        TURN_RESUME_START@ == "turn.resume.start"@,
        SUBSCRIPTION_OPEN@ == "subscription.open"@,
        SUBSCRIPTION_CLOSE@ == "subscription.close"@,
        TURN_MESSAGE_SUBMIT@ == "turn.message.submit"@,
        QUEUE_RETRACT@ == "queue.retract"@,
        TURN_INTERRUPT@ == "turn.interrupt"@,
        SESSION_CREATE@ == "session.create"@,
        SESSION_CATALOG_QUERY@ == "session.catalog.query"@,
        SESSION_METADATA_UPDATE@ == "session.metadata.update"@,
        SESSION_CONFIGURATION_UPDATE@ == "session.configuration.update"@,
        SESSION_CWD_RELOCATE@ == "session.cwd.relocate"@,
        SESSION_READ_MARKER_SET@ == "session.read_marker.set"@,
        SESSION_LIFECYCLE_SET@ == "session.lifecycle.set"@,
        SESSION_REMOVE@ == "session.remove"@,
        INTERACTION_QUERY@ == "interaction.query"@,
        INTERACTION_ANSWER@ == "interaction.answer"@,
{
}

/// The operations are these and no others.
pub proof fn law_operation_set(name: &str, r: bool)
    requires
        call_ensures(is_spine_op, (name,), r),
    ensures
        r ==> name@ == "host.status"@ || name@ == "host.diagnostics.query"@ || name@
            == "turn.start"@ || name@ == "turn.query"@ || name@ == "turn.stop"@ || name@
            == "turn.regenerate"@ || name@ == "turn.resume.query"@ || name@ == "turn.resume.start"@
            || name@ == "subscription.open"@ || name@ == "subscription.close"@ || name@
            == "turn.message.submit"@ || name@ == "queue.retract"@ || name@ == "turn.interrupt"@
            || name@ == "session.create"@ || name@ == "session.catalog.query"@ || name@
            == "session.metadata.update"@ || name@ == "session.configuration.update"@ || name@
            == "session.cwd.relocate"@ || name@ == "session.read_marker.set"@ || name@
            == "session.lifecycle.set"@ || name@ == "session.remove"@ || name@
            == "interaction.query"@ || name@ == "interaction.answer"@,
{
}

} // verus!
