//! The append-only ledger persistence seam.
//!
//! The runner appends canonical facts here and reads them back for replay and
//! recovery. Two durability tiers: best-effort (may drop on crash) and canonical
//! (the authority; a durable-write failure fails the run closed).

use crate::runtime_event::RuntimeEvent;
use crate::runtime_event::RuntimeEventView;
use crate::text::lemma_lt_asymmetric;
use crate::text::lemma_lt_total;
use crate::text::lemma_lt_transitive;
use crate::text::str_eq;
use crate::text::str_lt;
use crate::text::text_lt;
use crate::tool_ledger_scanner::clone_events;
use crate::tool_ledger_scanner::event_views;
use vstd::prelude::*;

verus! {

/// Persistence tier. Canonical stores are the authority; a durable-write failure
/// there fails the active run closed.
#[derive(Debug, Clone, Copy, PartialEq, Eq, Structural)]
pub enum Durability {
    BestEffort,
    Canonical,
}

impl Default for Durability {
    fn default() -> (r: Self)
        ensures
            r == Durability::BestEffort,
    {
        Durability::BestEffort
    }
}

/// What a store operation gives; the error is a message.
pub type StoreResult<T> = Result<T, String>;

/// Append-only ledger port.
///
/// **Terminal-event invariant:** each run has at most one accepted terminal
/// event, and it must be durable before the run header closes. Recovery relies
/// on this.
pub trait RuntimeEventStore {
    fn durability(&self) -> Durability {
        Durability::BestEffort
    }

    /// Append one fact. `durable` requests a stable-storage barrier. A terminal event
    /// for a run that has one is not accepted: nothing happens.
    fn append_runtime_event(
        &mut self,
        session_id: &str,
        run_id: &str,
        event: RuntimeEvent,
        durable: bool,
    ) -> StoreResult<()>;

    /// Ensure the terminal event is present and its barrier established.
    /// Idempotent: nothing happens if a terminal event exists for this run.
    fn ensure_terminal_runtime_event_durable(
        &mut self,
        session_id: &str,
        run_id: &str,
        event: RuntimeEvent,
    ) -> StoreResult<()>;

    /// Read one run's events in commit order.
    fn read_runtime_events(&self, session_id: &str, run_id: &str) -> StoreResult<Vec<RuntimeEvent>>;

    /// Read every event for a session, across all runs.
    fn read_session_runtime_events(&self, session_id: &str) -> StoreResult<Vec<RuntimeEvent>>;
}

// ---------------------------------------------------------------------------
// The model of a ledger
// ---------------------------------------------------------------------------

/// One run of the ledger.
pub struct RunView {
    pub session_id: Seq<char>,
    pub run_id: Seq<char>,
    pub events: Seq<RuntimeEventView>,
}

impl RunView {
    pub open spec fn is(self, session_id: Seq<char>, run_id: Seq<char>) -> bool {
        self.session_id == session_id && self.run_id == run_id
    }
}

/// Where a run stands in the ledger.
pub open spec fn find_run(
    runs: Seq<RunView>,
    session_id: Seq<char>,
    run_id: Seq<char>,
) -> Option<int>
    decreases runs.len(),
{
    if runs.len() == 0 {
        None
    } else if runs.last().is(session_id, run_id) {
        Some(runs.len() - 1)
    } else {
        find_run(runs.drop_last(), session_id, run_id)
    }
}

/// The events of one run in commit order; none when nothing was committed.
pub open spec fn run_events(
    runs: Seq<RunView>,
    session_id: Seq<char>,
    run_id: Seq<char>,
) -> Seq<RuntimeEventView> {
    match find_run(runs, session_id, run_id) {
        Some(i) => runs[i].events,
        None => Seq::empty(),
    }
}

/// The ledger with `e` committed behind the other events of its run.
pub open spec fn committed(
    runs: Seq<RunView>,
    session_id: Seq<char>,
    run_id: Seq<char>,
    e: RuntimeEventView,
) -> Seq<RunView> {
    match find_run(runs, session_id, run_id) {
        Some(i) => runs.update(i, RunView { events: runs[i].events.push(e), ..runs[i] }),
        None => runs.push(RunView { session_id, run_id, events: seq![e] }),
    }
}

/// The event asserts that its run has ended.
pub open spec fn is_terminal_event(e: RuntimeEventView) -> bool {
    e.status matches Some(s) && s.terminal()
}

/// Some event of the run asserts that it has ended.
pub open spec fn has_terminal(events: Seq<RuntimeEventView>) -> bool {
    exists|i: int| 0 <= i < events.len() && is_terminal_event(#[trigger] events[i])
}

/// The ledger with the terminal event `e`, unless the run has one already.
pub open spec fn closed_with(
    runs: Seq<RunView>,
    session_id: Seq<char>,
    run_id: Seq<char>,
    e: RuntimeEventView,
) -> Seq<RunView> {
    if has_terminal(run_events(runs, session_id, run_id)) {
        runs
    } else {
        committed(runs, session_id, run_id, e)
    }
}

/// The ledger with `e` appended to its run: a run that has ended accepts no second
/// terminal event.
pub open spec fn appended(
    runs: Seq<RunView>,
    session_id: Seq<char>,
    run_id: Seq<char>,
    e: RuntimeEventView,
) -> Seq<RunView> {
    if is_terminal_event(e) && has_terminal(run_events(runs, session_id, run_id)) {
        runs
    } else {
        committed(runs, session_id, run_id, e)
    }
}

/// All events of a session, run after run.
pub open spec fn session_events(runs: Seq<RunView>, session_id: Seq<char>) -> Seq<RuntimeEventView>
    decreases runs.len(),
{
    if runs.len() == 0 {
        Seq::empty()
    } else {
        let before = session_events(runs.drop_last(), session_id);
        if runs.last().session_id == session_id {
            before + runs.last().events
        } else {
            before
        }
    }
}

/// `events` with `e` put behind every event whose id is not greater.
pub open spec fn insert_by_id(
    events: Seq<RuntimeEventView>,
    e: RuntimeEventView,
) -> Seq<RuntimeEventView>
    decreases events.len(),
{
    if events.len() == 0 || !text_lt(e.id, events.last().id) {
        events.push(e)
    } else {
        insert_by_id(events.drop_last(), e).push(events.last())
    }
}

/// `events` in ascending id order, equal ids in the order they came.
pub open spec fn by_id(events: Seq<RuntimeEventView>) -> Seq<RuntimeEventView>
    decreases events.len(),
{
    if events.len() == 0 {
        events
    } else {
        insert_by_id(by_id(events.drop_last()), events.last())
    }
}

/// No id comes after a greater one.
pub open spec fn ids_in_order(events: Seq<RuntimeEventView>) -> bool {
    forall|i: int, j: int|
        0 <= i < j < events.len() ==> !text_lt(
            (#[trigger] events[j]).id,
            (#[trigger] events[i]).id,
        )
}

// ---------------------------------------------------------------------------
// The in-memory store
// ---------------------------------------------------------------------------

/// One run's log.
struct RunLog {
    session_id: String,
    run_id: String,
    events: Vec<RuntimeEvent>,
}

impl View for RunLog {
    type V = RunView;

    closed spec fn view(&self) -> RunView {
        RunView {
            session_id: self.session_id@,
            run_id: self.run_id@,
            events: event_views(self.events@),
        }
    }
}

/// In-memory store. Not durable across restarts; `durable` is accepted and
/// ignored.
pub struct InMemoryRuntimeEventStore {
    durability: Durability,
    runs: Vec<RunLog>,
}

impl View for InMemoryRuntimeEventStore {
    type V = Seq<RunView>;

    closed spec fn view(&self) -> Seq<RunView> {
        Seq::new(self.runs@.len(), |i: int| self.runs@[i]@)
    }
}

impl Default for InMemoryRuntimeEventStore {
    fn default() -> (r: Self)
        ensures
            r@ == Seq::<RunView>::empty(),
            r.tier() == Durability::BestEffort,
    {
        InMemoryRuntimeEventStore::with_durability(Durability::BestEffort)
    }
}

impl InMemoryRuntimeEventStore {
    pub closed spec fn tier(&self) -> Durability {
        self.durability
    }

    pub fn new() -> (r: Self)
        ensures
            r@ == Seq::<RunView>::empty(),
            r.tier() == Durability::BestEffort,
    {
        InMemoryRuntimeEventStore::default()
    }

    pub fn with_durability(durability: Durability) -> (r: Self)
        ensures
            r@ == Seq::<RunView>::empty(),
            r.tier() == durability,
    {
        let r = InMemoryRuntimeEventStore { durability, runs: Vec::new() };
        assert(r@ =~= Seq::<RunView>::empty());
        r
    }

    fn find(&self, session_id: &str, run_id: &str) -> (r: Option<usize>)
        ensures
            match r {
                Some(i) => i < self.runs@.len() && find_run(self@, session_id@, run_id@) == Some(
                    i as int,
                ),
                None => find_run(self@, session_id@, run_id@) is None,
            },
    {
        let mut i: usize = self.runs.len();
        assert(self@.take(i as int) =~= self@);
        while i > 0
            invariant
                i <= self.runs@.len(),
                find_run(self@, session_id@, run_id@) == find_run(
                    self@.take(i as int),
                    session_id@,
                    run_id@,
                ),
            decreases i,
        {
            assert(self@.take(i as int).drop_last() =~= self@.take(i - 1));
            assert(self@.take(i as int).last() == self.runs@[i - 1]@);
            let run = &self.runs[i - 1];
            if str_eq(run.session_id.as_str(), session_id) && str_eq(run.run_id.as_str(), run_id) {
                return Some(i - 1);
            }
            i = i - 1;
        }
        None
    }

    /// Whether the run has a terminal event.
    fn has_ended(&self, session_id: &str, run_id: &str) -> (r: bool)
        ensures
            r == has_terminal(run_events(self@, session_id@, run_id@)),
    {
        match self.find(session_id, run_id) {
            Some(i) => contains_terminal(&self.runs[i].events),
            None => false,
        }
    }

    fn commit(&mut self, session_id: &str, run_id: &str, event: RuntimeEvent)
        ensures
            final(self)@ == committed(old(self)@, session_id@, run_id@, event@),
            final(self).tier() == old(self).tier(),
    {
        let ghost before = self@;
        let ghost e = event@;
        match self.find(session_id, run_id) {
            Some(i) => {
                let ghost run = self.runs@[i as int];
                self.runs[i].events.push(event);
                assert(self.runs@[i as int]@.events =~= run@.events.push(e));
                assert(self@ =~= committed(before, session_id@, run_id@, e));
            },
            None => {
                let mut events: Vec<RuntimeEvent> = Vec::new();
                events.push(event);
                assert(event_views(events@) =~= seq![e]);
                self.runs.push(
                    RunLog { session_id: session_id.to_owned(), run_id: run_id.to_owned(), events },
                );
                assert(self@ =~= committed(before, session_id@, run_id@, e));
            },
        }
    }
}

fn contains_terminal(events: &Vec<RuntimeEvent>) -> (r: bool)
    ensures
        r == has_terminal(event_views(events@)),
{
    let ghost all = event_views(events@);
    let mut i: usize = 0;
    while i < events.len()
        invariant
            i <= events.len(),
            all == event_views(events@),
            forall|k: int| 0 <= k < i ==> !is_terminal_event(#[trigger] all[k]),
        decreases events.len() - i,
    {
        let terminal = match events[i].status {
            Some(s) => s.is_terminal(),
            None => false,
        };
        assert(terminal == is_terminal_event(all[i as int]));
        if terminal {
            return true;
        }
        i = i + 1;
    }
    false
}

/// Puts `e` behind every event whose id is not greater.
fn insert_event(events: &mut Vec<RuntimeEvent>, e: RuntimeEvent)
    ensures
        event_views(final(events)@) == insert_by_id(event_views(old(events)@), e@),
{
    let ghost before = event_views(events@);
    let ghost ev = e@;
    let mut i: usize = events.len();
    assert(before.take(i as int) =~= before);
    assert(insert_by_id(before, ev) =~= insert_by_id(before.take(i as int), ev) + before.skip(
        i as int,
    ));
    while i > 0 && str_lt(e.id.as_str(), events[i - 1].id.as_str())
        invariant
            i <= events.len(),
            before == event_views(events@),
            ev == e@,
            insert_by_id(before, ev) == insert_by_id(before.take(i as int), ev) + before.skip(
                i as int,
            ),
        decreases i,
    {
        proof {
            let t = before.take(i as int);
            assert(t.drop_last() =~= before.take(i - 1));
            assert(insert_by_id(t, ev) == insert_by_id(t.drop_last(), ev).push(t.last()));
            assert(insert_by_id(t.drop_last(), ev).push(t.last()) + before.skip(i as int)
                =~= insert_by_id(t.drop_last(), ev) + before.skip(i - 1));
        }
        i = i - 1;
    }
    proof {
        let t = before.take(i as int);
        assert(insert_by_id(t, ev) == t.push(ev));
        assert(t.push(ev) + before.skip(i as int) =~= before.insert(i as int, ev));
    }
    events.insert(i, e);
    assert(event_views(events@) =~= before.insert(i as int, ev));
}

impl RuntimeEventStore for InMemoryRuntimeEventStore {
    fn durability(&self) -> (r: Durability)
        ensures
            r == self.tier(),
    {
        self.durability
    }

    fn append_runtime_event(
        &mut self,
        session_id: &str,
        run_id: &str,
        event: RuntimeEvent,
        durable: bool,
    ) -> (r: StoreResult<()>)
        ensures
            r is Ok,
            final(self)@ == appended(old(self)@, session_id@, run_id@, event@),
            final(self).tier() == old(self).tier(),
    {
        let terminal = match event.status {
            Some(s) => s.is_terminal(),
            None => false,
        };
        if !terminal || !self.has_ended(session_id, run_id) {
            self.commit(session_id, run_id, event);
        }
        Ok(())
    }

    fn ensure_terminal_runtime_event_durable(
        &mut self,
        session_id: &str,
        run_id: &str,
        event: RuntimeEvent,
    ) -> (r: StoreResult<()>)
        ensures
            r is Ok,
            final(self)@ == closed_with(old(self)@, session_id@, run_id@, event@),
            final(self).tier() == old(self).tier(),
    {
        if !self.has_ended(session_id, run_id) {
            self.commit(session_id, run_id, event);
        }
        Ok(())
    }

    fn read_runtime_events(&self, session_id: &str, run_id: &str) -> (r: StoreResult<
        Vec<RuntimeEvent>,
    >)
        ensures
            r matches Ok(events) && event_views(events@) == run_events(
                self@,
                session_id@,
                run_id@,
            ),
    {
        match self.find(session_id, run_id) {
            Some(i) => Ok(clone_events(&self.runs[i].events)),
            None => {
                let none: Vec<RuntimeEvent> = Vec::new();
                assert(event_views(none@) =~= Seq::empty());
                Ok(none)
            },
        }
    }

    fn read_session_runtime_events(&self, session_id: &str) -> (r: StoreResult<Vec<RuntimeEvent>>)
        ensures
            r matches Ok(events) && event_views(events@) == by_id(
                session_events(self@, session_id@),
            ),
    {
        let mut out: Vec<RuntimeEvent> = Vec::new();
        let mut i: usize = 0;
        let ghost mut listed: Seq<RuntimeEventView> = Seq::empty();
        assert(event_views(out@) =~= by_id(listed));
        assert(listed =~= session_events(self@.take(0), session_id@));
        while i < self.runs.len()
            invariant
                i <= self.runs@.len(),
                listed == session_events(self@.take(i as int), session_id@),
                event_views(out@) == by_id(listed),
            decreases self.runs@.len() - i,
        {
            assert(self@.take(i + 1).drop_last() =~= self@.take(i as int));
            assert(self@.take(i + 1).last() == self.runs@[i as int]@);
            if str_eq(self.runs[i].session_id.as_str(), session_id) {
                let events = &self.runs[i].events;
                let ghost all = event_views(events@);
                let ghost before = listed;
                let mut j: usize = 0;
                assert(before + all.take(0) =~= before);
                while j < events.len()
                    invariant
                        j <= events.len(),
                        all == event_views(events@),
                        event_views(out@) == by_id(before + all.take(j as int)),
                    decreases events.len() - j,
                {
                    proof {
                        let next = before + all.take(j + 1);
                        assert(next.drop_last() =~= before + all.take(j as int));
                        assert(next.last() == all[j as int]);
                    }
                    insert_event(&mut out, events[j].clone());
                    j = j + 1;
                }
                proof {
                    assert(all.take(j as int) =~= all);
                    listed = before + all;
                }
            }
            i = i + 1;
        }
        assert(self@.take(i as int) =~= self@);
        Ok(out)
    }
}

// ---------------------------------------------------------------------------
// What holds of the ledger
// ---------------------------------------------------------------------------

proof fn lemma_find_run(runs: Seq<RunView>, session_id: Seq<char>, run_id: Seq<char>)
    ensures
        match find_run(runs, session_id, run_id) {
            Some(i) => 0 <= i < runs.len() && runs[i].is(session_id, run_id) && forall|j: int|
                i < j < runs.len() ==> !(#[trigger] runs[j]).is(session_id, run_id),
            None => forall|j: int|
                0 <= j < runs.len() ==> !(#[trigger] runs[j]).is(session_id, run_id),
        },
    decreases runs.len(),
{
    if runs.len() > 0 && !runs.last().is(session_id, run_id) {
        let init = runs.drop_last();
        lemma_find_run(init, session_id, run_id);
        assert forall|j: int| 0 <= j < runs.len() && (match find_run(runs, session_id, run_id) {
            Some(i) => i < j,
            None => true,
        }) implies !(#[trigger] runs[j]).is(session_id, run_id) by {
            if j < init.len() {
                assert(runs[j] == init[j]);
            }
        }
    }
}

proof fn lemma_find_unique(runs: Seq<RunView>, session_id: Seq<char>, run_id: Seq<char>, i: int)
    requires
        0 <= i < runs.len(),
        runs[i].is(session_id, run_id),
        forall|j: int| i < j < runs.len() ==> !(#[trigger] runs[j]).is(session_id, run_id),
    ensures
        find_run(runs, session_id, run_id) == Some(i),
{
    lemma_find_run(runs, session_id, run_id);
}

/// A committed event is read back behind everything its run held before, and
/// no other run changes.
pub proof fn law_commit_reads_back(
    runs: Seq<RunView>,
    session_id: Seq<char>,
    run_id: Seq<char>,
    e: RuntimeEventView,
)
    ensures
        run_events(committed(runs, session_id, run_id, e), session_id, run_id) == run_events(
            runs,
            session_id,
            run_id,
        ).push(e),
        forall|s: Seq<char>, r: Seq<char>|
            s != session_id || r != run_id ==> #[trigger] run_events(
                committed(runs, session_id, run_id, e),
                s,
                r,
            ) == run_events(runs, s, r),
{
    let now = committed(runs, session_id, run_id, e);
    lemma_find_run(runs, session_id, run_id);
    lemma_find_run(now, session_id, run_id);
    match find_run(runs, session_id, run_id) {
        Some(i) => {
            assert forall|j: int| i < j < now.len() implies !(#[trigger] now[j]).is(
                session_id,
                run_id,
            ) by {
                assert(now[j] == runs[j]);
            }
            lemma_find_unique(now, session_id, run_id, i);
        },
        None => {
            lemma_find_unique(now, session_id, run_id, now.len() - 1);
            assert(seq![e] =~= Seq::<RuntimeEventView>::empty().push(e));
        },
    }
    assert forall|s: Seq<char>, r: Seq<char>|
        s != session_id || r != run_id implies #[trigger] run_events(now, s, r) == run_events(
        runs,
        s,
        r,
    ) by {
        lemma_find_run(runs, s, r);
        lemma_find_run(now, s, r);
        match find_run(runs, s, r) {
            Some(i) => {
                assert(now[i].is(s, r));
                assert forall|j: int| i < j < now.len() implies !(#[trigger] now[j]).is(s, r) by {
                    if j < runs.len() {
                        assert(!runs[j].is(s, r));
                    }
                }
                lemma_find_unique(now, s, r, i);
            },
            None => {
                if let Some(i) = find_run(now, s, r) {
                    if i < runs.len() {
                        assert(!runs[i].is(s, r));
                    }
                }
            },
        }
    }
}

/// Closing a run with a terminal event leaves it with one, and closing it again
/// changes nothing.
pub proof fn law_closing_is_idempotent(
    runs: Seq<RunView>,
    session_id: Seq<char>,
    run_id: Seq<char>,
    first: RuntimeEventView,
    second: RuntimeEventView,
)
    requires
        is_terminal_event(first),
    ensures
        has_terminal(
            run_events(closed_with(runs, session_id, run_id, first), session_id, run_id),
        ),
        closed_with(closed_with(runs, session_id, run_id, first), session_id, run_id, second)
            == closed_with(runs, session_id, run_id, first),
{
    law_commit_reads_back(runs, session_id, run_id, first);
    let before = run_events(runs, session_id, run_id);
    assert(before.push(first)[before.len() as int] == first);
}

/// One write to a store.
pub enum Write {
    Append { session_id: Seq<char>, run_id: Seq<char>, event: RuntimeEventView },
    Close { session_id: Seq<char>, run_id: Seq<char>, event: RuntimeEventView },
}

/// The ledger that some writes leave in a store that was empty.
pub open spec fn ledger_after(writes: Seq<Write>) -> Seq<RunView>
    decreases writes.len(),
{
    if writes.len() == 0 {
        Seq::empty()
    } else {
        let before = ledger_after(writes.drop_last());
        match writes.last() {
            Write::Append { session_id, run_id, event } => appended(
                before,
                session_id,
                run_id,
                event,
            ),
            Write::Close { session_id, run_id, event } => closed_with(
                before,
                session_id,
                run_id,
                event,
            ),
        }
    }
}

/// No two events of the run assert that it has ended.
pub open spec fn at_most_one_terminal(events: Seq<RuntimeEventView>) -> bool {
    forall|i: int, j: int|
        0 <= i < j < events.len() ==> !(is_terminal_event(#[trigger] events[i])
            && is_terminal_event(#[trigger] events[j]))
}

/// A write keeps every run at no more than one terminal event.
pub proof fn law_write_keeps_one_terminal(
    runs: Seq<RunView>,
    session_id: Seq<char>,
    run_id: Seq<char>,
    e: RuntimeEventView,
    s: Seq<char>,
    r: Seq<char>,
)
    requires
        at_most_one_terminal(run_events(runs, s, r)),
    ensures
        at_most_one_terminal(run_events(appended(runs, session_id, run_id, e), s, r)),
        at_most_one_terminal(run_events(closed_with(runs, session_id, run_id, e), s, r)),
{
    law_commit_reads_back(runs, session_id, run_id, e);
    let before = run_events(runs, s, r);
    let after = run_events(committed(runs, session_id, run_id, e), s, r);
    if s == session_id && r == run_id && !(is_terminal_event(e) && has_terminal(before)) {
        assert forall|i: int, j: int| 0 <= i < j < after.len() implies !(is_terminal_event(
            #[trigger] after[i],
        ) && is_terminal_event(#[trigger] after[j])) by {
            assert(after[i] == before[i]);
            if j < before.len() {
                assert(!(is_terminal_event(before[i]) && is_terminal_event(before[j])));
            }
        }
    }
}

/// Each run of a store has at most one terminal event, whatever was written to it.
pub proof fn law_one_terminal_per_run(writes: Seq<Write>, session_id: Seq<char>, run_id: Seq<char>)
    ensures
        at_most_one_terminal(run_events(ledger_after(writes), session_id, run_id)),
    decreases writes.len(),
{
    if writes.len() > 0 {
        law_one_terminal_per_run(writes.drop_last(), session_id, run_id);
        let before = ledger_after(writes.drop_last());
        match writes.last() {
            Write::Append { session_id: s, run_id: r, event } => {
                law_write_keeps_one_terminal(before, s, r, event, session_id, run_id);
            },
            Write::Close { session_id: s, run_id: r, event } => {
                law_write_keeps_one_terminal(before, s, r, event, session_id, run_id);
            },
        }
    }
}

proof fn lemma_insert_by_id(events: Seq<RuntimeEventView>, e: RuntimeEventView)
    ensures
        ids_in_order(events) ==> ids_in_order(insert_by_id(events, e)),
        insert_by_id(events, e).to_multiset() == events.to_multiset().insert(e),
    decreases events.len(),
{
    broadcast use vstd::seq_lib::group_to_multiset_ensures;

    let out = insert_by_id(events, e);
    if events.len() == 0 || !text_lt(e.id, events.last().id) {
        if ids_in_order(events) {
            assert forall|i: int, j: int| 0 <= i < j < out.len() implies !text_lt(
                (#[trigger] out[j]).id,
                (#[trigger] out[i]).id,
            ) by {
                if j == events.len() && text_lt(e.id, events[i].id) {
                    let last = events.last();
                    if i < events.len() - 1 {
                        assert(!text_lt(events[events.len() - 1].id, events[i].id));
                        lemma_lt_total(last.id, events[i].id);
                        if text_lt(events[i].id, last.id) {
                            lemma_lt_transitive(e.id, events[i].id, last.id);
                        }
                    }
                }
            }
        }
    } else {
        let init = events.drop_last();
        let last = events.last();
        let inner = insert_by_id(init, e);
        lemma_insert_by_id(init, e);
        assert(out =~= inner.push(last));
        assert(events =~= init.push(last));
        if ids_in_order(events) {
            assert forall|i: int, j: int| 0 <= i < j < init.len() implies !text_lt(
                (#[trigger] init[j]).id,
                (#[trigger] init[i]).id,
            ) by {
                assert(!text_lt(events[j].id, events[i].id));
            }
            assert forall|i: int, j: int| 0 <= i < j < out.len() implies !text_lt(
                (#[trigger] out[j]).id,
                (#[trigger] out[i]).id,
            ) by {
                if j == inner.len() {
                    assert(inner.to_multiset().count(inner[i]) > 0);
                    assert(init.push(e).to_multiset() == inner.to_multiset());
                    assert(init.push(e).contains(inner[i]));
                    if inner[i] == e {
                        lemma_lt_asymmetric(last.id, e.id);
                    } else {
                        let k = choose|k: int|
                            0 <= k < init.push(e).len() && init.push(e)[k] == inner[i];
                        assert(init[k] == inner[i]);
                        assert(!text_lt(events[events.len() - 1].id, events[k].id));
                    }
                } else {
                    assert(out[i] == inner[i] && out[j] == inner[j]);
                }
            }
        }
    }
}

/// Reading a session gives every event of its runs exactly once, in ascending
/// id order.
pub proof fn law_session_read_is_ordered(events: Seq<RuntimeEventView>)
    ensures
        ids_in_order(by_id(events)),
        by_id(events).to_multiset() == events.to_multiset(),
    decreases events.len(),
{
    broadcast use vstd::seq_lib::group_to_multiset_ensures;

    if events.len() > 0 {
        let init = events.drop_last();
        law_session_read_is_ordered(init);
        lemma_insert_by_id(by_id(init), events.last());
        assert(events =~= init.push(events.last()));
    }
}

proof fn lemma_session_events_add(runs: Seq<RunView>, more: Seq<RunView>, session_id: Seq<char>)
    ensures
        session_events(runs + more, session_id) == session_events(runs, session_id)
            + session_events(more, session_id),
    decreases more.len(),
{
    let all = runs + more;
    if more.len() == 0 {
        assert(all =~= runs);
        assert(session_events(runs, session_id) + session_events(more, session_id)
            =~= session_events(runs, session_id));
    } else {
        lemma_session_events_add(runs, more.drop_last(), session_id);
        assert(all.drop_last() =~= runs + more.drop_last());
        assert(all.last() == more.last());
        assert(session_events(all, session_id) =~= session_events(runs, session_id)
            + session_events(more, session_id));
    }
}

proof fn lemma_session_of_one(run: RunView, session_id: Seq<char>)
    ensures
        session_events(seq![run], session_id) == (if run.session_id == session_id {
            run.events
        } else {
            Seq::empty()
        }),
{
    assert(seq![run].drop_last() =~= Seq::empty());
    assert(session_events(Seq::<RunView>::empty(), session_id) =~= Seq::empty());
    assert(Seq::<RuntimeEventView>::empty() + run.events =~= run.events);
}

/// What a session holds once an event is committed to one of its runs: that event more.
proof fn lemma_commit_joins_session(
    runs: Seq<RunView>,
    session_id: Seq<char>,
    run_id: Seq<char>,
    e: RuntimeEventView,
)
    ensures
        session_events(committed(runs, session_id, run_id, e), session_id).to_multiset()
            == session_events(runs, session_id).to_multiset().insert(e),
        forall|s: Seq<char>|
            s != session_id ==> #[trigger] session_events(
                committed(runs, session_id, run_id, e),
                s,
            ) == session_events(runs, s),
{
    broadcast use vstd::seq_lib::group_to_multiset_ensures;

    let now = committed(runs, session_id, run_id, e);
    lemma_find_run(runs, session_id, run_id);
    let (before, was, is, behind) = match find_run(runs, session_id, run_id) {
        Some(i) => (runs.take(i), seq![runs[i]], seq![now[i]], runs.skip(i + 1)),
        None => (
            runs,
            Seq::empty(),
            seq![RunView { session_id, run_id, events: seq![e] }],
            Seq::empty(),
        ),
    };
    assert(runs =~= before + was + behind);
    assert(now =~= before + is + behind);
    assert forall|s: Seq<char>| s != session_id implies #[trigger] session_events(now, s)
        == session_events(runs, s) by {
        lemma_session_events_add(before + was, behind, s);
        lemma_session_events_add(before + is, behind, s);
        lemma_session_events_add(before, was, s);
        lemma_session_events_add(before, is, s);
        lemma_session_of_one(is[0], s);
        if was.len() > 0 {
            lemma_session_of_one(was[0], s);
        }
    }
    let s = session_id;
    lemma_session_events_add(before + was, behind, s);
    lemma_session_events_add(before + is, behind, s);
    lemma_session_events_add(before, was, s);
    lemma_session_events_add(before, is, s);
    lemma_session_of_one(is[0], s);
    if was.len() > 0 {
        lemma_session_of_one(was[0], s);
    }
    let a = session_events(before, s);
    let w = session_events(was, s);
    let c = session_events(behind, s);
    let x = session_events(is, s);
    assert(x =~= w.push(e));
    vstd::seq_lib::lemma_multiset_commutative(a + x, c);
    vstd::seq_lib::lemma_multiset_commutative(a + w, c);
    vstd::seq_lib::lemma_multiset_commutative(a, x);
    vstd::seq_lib::lemma_multiset_commutative(a, w);
    assert(session_events(now, s).to_multiset() =~= session_events(runs, s).to_multiset().insert(e));
}

/// An event that is appended to any run of a session is in what is read of the session,
/// with everything that was there; a terminal event for a run that has one changes
/// nothing; and no other session changes.
pub proof fn law_append_joins_the_session(
    runs: Seq<RunView>,
    session_id: Seq<char>,
    run_id: Seq<char>,
    e: RuntimeEventView,
)
    ensures
        ({
            let before = by_id(session_events(runs, session_id));
            let after = by_id(
                session_events(appended(runs, session_id, run_id, e), session_id),
            );
            if is_terminal_event(e) && has_terminal(run_events(runs, session_id, run_id)) {
                after == before
            } else {
                after.to_multiset() == before.to_multiset().insert(e) && after.contains(e)
            }
        }),
        forall|s: Seq<char>|
            s != session_id ==> by_id(
                #[trigger] session_events(appended(runs, session_id, run_id, e), s),
            ) == by_id(session_events(runs, s)),
{
    broadcast use vstd::seq_lib::group_to_multiset_ensures;

    lemma_commit_joins_session(runs, session_id, run_id, e);
    law_session_read_is_ordered(session_events(runs, session_id));
    let now = session_events(appended(runs, session_id, run_id, e), session_id);
    law_session_read_is_ordered(now);
    if !(is_terminal_event(e) && has_terminal(run_events(runs, session_id, run_id))) {
        assert(by_id(now).to_multiset().count(e) > 0);
        assert(by_id(now).contains(e));
    }
}

} // verus!
