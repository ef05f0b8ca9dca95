//! Recovery-bundle fact contracts: the durable `actions.toolRecovery` payloads
//! a recovery continuation appends to adjudicate an indeterminate tool
//! operation after a crash.
//!
//! A bundle is one `reconcile_result` fact (what a re-execution observed)
//! followed by one terminal `recovery_decision` fact (completed, or parked for
//! human action).

use crate::json::Field;
use crate::json::Json;
use crate::json::JsonView;
use crate::json::ObjectBuilder;
use crate::json::opt;
use crate::json::present;
use crate::json::sound;
use crate::schema::all_texts;
use crate::schema::clone_opt_text;
use crate::schema::clone_texts;
use crate::schema::from_opt_text;
use crate::schema::from_texts;
use crate::schema::keys_ascend;
use crate::schema::lemma_lookup;
use crate::schema::lemma_sound_object;
use crate::schema::lemma_step_ascends;
use crate::schema::lemma_texts_sound;
use crate::schema::member_at;
use crate::schema::opt_text_at;
use crate::schema::opt_text_json;
use crate::schema::read_opt_text;
use crate::schema::read_texts;
use crate::schema::read_u32;
use crate::schema::texts;
use crate::schema::texts_at;
use crate::schema::texts_json;
use crate::schema::u32_at;
use crate::text::lt_at;
use crate::text::str_eq;
use crate::text::text_lt;
use crate::schema::key_views;
use crate::schema::leading_text;
use crate::schema::listed_members;
use crate::schema::read_leading_text;
use crate::schema::read_tagged_variant;
use crate::schema::read_variant;
use crate::schema::struct_form;
use crate::schema::tagged_variant_name;
use crate::schema::variant_name;
use vstd::prelude::*;

verus! {

/// `reconcile_result` fact kind.
pub const TOOL_RECONCILE_RESULT_FACT_KIND: &'static str = "maka.tool.reconcile_result";

/// `recovery_decision` fact kind.
pub const TOOL_RECOVERY_DECISION_FACT_KIND: &'static str = "maka.tool.recovery_decision";

/// Envelope version.
pub const TOOL_RECOVERY_FACT_VERSION: u32 = 1;

/// What a re-execution of a tool operation observed about external state.
#[derive(Debug, Clone, Copy, PartialEq, Eq, Structural)]
pub enum ToolReconcileObservation {
    /// External state matches what the dispatch would have produced.
    MatchesExpectedState,
    /// External state matches a prior known state.
    MatchesPriorState,
    /// External state diverged from any known state.
    Diverged,
    /// External state could not be read.
    Unreadable,
}

impl ToolReconcileObservation {
    /// The name of the variant on the wire.
    pub open spec fn wire(self) -> Seq<char> {
        match self {
            ToolReconcileObservation::MatchesExpectedState => "matches_expected_state"@,
            ToolReconcileObservation::MatchesPriorState => "matches_prior_state"@,
            ToolReconcileObservation::Diverged => "diverged"@,
            ToolReconcileObservation::Unreadable => "unreadable"@,
        }
    }

    /// The names on the wire: each variant is written, and read back, as its own.
    pub proof fn law_wire_names()
        ensures
            ToolReconcileObservation::MatchesExpectedState.wire() == "matches_expected_state"@,
            ToolReconcileObservation::of_wire("matches_expected_state"@) == Some(ToolReconcileObservation::MatchesExpectedState),
            ToolReconcileObservation::MatchesPriorState.wire() == "matches_prior_state"@,
            ToolReconcileObservation::of_wire("matches_prior_state"@) == Some(ToolReconcileObservation::MatchesPriorState),
            ToolReconcileObservation::Diverged.wire() == "diverged"@,
            ToolReconcileObservation::of_wire("diverged"@) == Some(ToolReconcileObservation::Diverged),
            ToolReconcileObservation::Unreadable.wire() == "unreadable"@,
            ToolReconcileObservation::of_wire("unreadable"@) == Some(ToolReconcileObservation::Unreadable),
    {
        ToolReconcileObservation::MatchesExpectedState.lemma_wire();
        ToolReconcileObservation::MatchesPriorState.lemma_wire();
        ToolReconcileObservation::Diverged.lemma_wire();
        ToolReconcileObservation::Unreadable.lemma_wire();
    }

    pub open spec fn json(self) -> JsonView {
        JsonView::Text(self.wire())
    }

    /// The variant that `s` names on the wire.
    pub open spec fn of_wire(s: Seq<char>) -> Option<ToolReconcileObservation> {
        if s == "matches_expected_state"@ {
            Some(ToolReconcileObservation::MatchesExpectedState)
        } else if s == "matches_prior_state"@ {
            Some(ToolReconcileObservation::MatchesPriorState)
        } else if s == "diverged"@ {
            Some(ToolReconcileObservation::Diverged)
        } else if s == "unreadable"@ {
            Some(ToolReconcileObservation::Unreadable)
        } else {
            None
        }
    }

    pub open spec fn of_json(v: JsonView) -> Option<ToolReconcileObservation> {
        match variant_name(v) {
            Some(s) => ToolReconcileObservation::of_wire(s),
            None => None,
        }
    }

    /// As [`ToolReconcileObservation::of_json`], for a member of a tagged value.
    pub open spec fn of_tagged_json(v: JsonView) -> Option<ToolReconcileObservation> {
        match tagged_variant_name(v) {
            Some(s) => ToolReconcileObservation::of_wire(s),
            None => None,
        }
    }

    /// The name of the variant on the wire.
    pub fn as_str(self) -> (r: &'static str)
        ensures
            r@ == self.wire(),
    {
        match self {
            ToolReconcileObservation::MatchesExpectedState => "matches_expected_state",
            ToolReconcileObservation::MatchesPriorState => "matches_prior_state",
            ToolReconcileObservation::Diverged => "diverged",
            ToolReconcileObservation::Unreadable => "unreadable",
        }
    }

    pub fn to_json(self) -> (r: Json)
        ensures
            r@ == self.json(),
    {
        Json::Text(self.as_str().to_owned())
    }

    /// The variant that `s` names on the wire.
    pub fn parse(s: &str) -> (r: Option<ToolReconcileObservation>)
        ensures
            r == ToolReconcileObservation::of_wire(s@),
    {
        if str_eq(s, "matches_expected_state") {
            Some(ToolReconcileObservation::MatchesExpectedState)
        } else if str_eq(s, "matches_prior_state") {
            Some(ToolReconcileObservation::MatchesPriorState)
        } else if str_eq(s, "diverged") {
            Some(ToolReconcileObservation::Diverged)
        } else if str_eq(s, "unreadable") {
            Some(ToolReconcileObservation::Unreadable)
        } else {
            None
        }
    }

    pub fn from_json(v: &Json) -> (r: Option<ToolReconcileObservation>)
        ensures
            r == ToolReconcileObservation::of_json(v@),
    {
        match read_variant(v) {
            Some(s) => ToolReconcileObservation::parse(s.as_str()),
            None => None,
        }
    }

    /// As [`ToolReconcileObservation::from_json`], for a member of a tagged value.
    pub fn from_tagged_json(v: &Json) -> (r: Option<ToolReconcileObservation>)
        ensures
            r == ToolReconcileObservation::of_tagged_json(v@),
    {
        match read_tagged_variant(v) {
            Some(s) => ToolReconcileObservation::parse(s.as_str()),
            None => None,
        }
    }

    /// Every variant is read back from its wire name.
    pub proof fn lemma_wire(self)
        ensures
            ToolReconcileObservation::of_wire(self.wire()) == Some(self),
            ToolReconcileObservation::of_json(self.json()) == Some(self),
            ToolReconcileObservation::of_tagged_json(self.json()) == Some(self),
    {
        reveal_strlit("matches_expected_state");
        reveal_strlit("matches_prior_state");
        reveal_strlit("diverged");
        reveal_strlit("unreadable");
        assert("matches_expected_state"@.len() == 22);
        assert("matches_prior_state"@.len() == 19);
        assert("diverged"@.len() == 8);
        assert("unreadable"@.len() == 10);
    }
}

/// The `reconcile_result` payload.
#[derive(Debug, PartialEq)]
pub struct ToolReconcileResultFact {
    pub protocol: String,
    pub operation_id: String,
    pub observation: ToolReconcileObservation,
    pub observation_schema: String,
    pub observation_digest: String,
}

/// What a [`ToolReconcileResultFact`] says.
pub struct ToolReconcileResultFactView {
    pub protocol: Seq<char>,
    pub operation_id: Seq<char>,
    pub observation: ToolReconcileObservation,
    pub observation_schema: Seq<char>,
    pub observation_digest: Seq<char>,
}

impl View for ToolReconcileResultFact {
    type V = ToolReconcileResultFactView;

    open spec fn view(&self) -> ToolReconcileResultFactView {
        ToolReconcileResultFactView {
            protocol: self.protocol@,
            operation_id: self.operation_id@,
            observation: self.observation,
            observation_schema: self.observation_schema@,
            observation_digest: self.observation_digest@,
        }
    }
}

impl Clone for ToolReconcileResultFact {
    fn clone(&self) -> (r: Self)
        ensures
            r@ == self@,
    {
        ToolReconcileResultFact {
            protocol: self.protocol.clone(),
            operation_id: self.operation_id.clone(),
            observation: self.observation,
            observation_schema: self.observation_schema.clone(),
            observation_digest: self.observation_digest.clone(),
        }
    }
}

impl ToolReconcileResultFactView {
    /// The members of the JSON object, in key order.
    pub open spec fn fields(self) -> Seq<Field> {
        Seq::empty()
            .push(("observation"@, Some(self.observation.json())))
            .push(("observationDigest"@, Some(JsonView::Text(self.observation_digest))))
            .push(("observationSchema"@, Some(JsonView::Text(self.observation_schema))))
            .push(("operationId"@, Some(JsonView::Text(self.operation_id))))
            .push(("protocol"@, Some(JsonView::Text(self.protocol))))
    }

    pub open spec fn json(self) -> JsonView {
        JsonView::Object(present(self.fields()))
    }

    /// The members in the order of declaration.
    pub open spec fn order() -> Seq<Seq<char>> {
        seq!["protocol"@, "operationId"@, "observation"@, "observationSchema"@, "observationDigest"@]
    }

    /// What the JSON value `v` says; `None` when it is neither such an object nor a list
    /// of its members.
    pub open spec fn of_json(v: JsonView) -> Option<ToolReconcileResultFactView> {
        ToolReconcileResultFactView::of_object(struct_form(v, ToolReconcileResultFactView::order(), 5), false)
    }

    /// As [`ToolReconcileResultFactView::of_json`], for a member of a tagged value.
    pub open spec fn of_tagged_json(v: JsonView) -> Option<ToolReconcileResultFactView> {
        ToolReconcileResultFactView::of_object(struct_form(v, ToolReconcileResultFactView::order(), 5), true)
    }

    /// What the JSON object `v` says; `None` when it is no such object.
    pub open spec fn of_object(v: JsonView, tagged: bool) -> Option<ToolReconcileResultFactView> {
        let protocol = v.text_at("protocol"@);
        let operation_id = v.text_at("operationId"@);
        let observation = member_at(v, "observation"@, |j: JsonView| if tagged { ToolReconcileObservation::of_tagged_json(j) } else { ToolReconcileObservation::of_json(j) });
        let observation_schema = v.text_at("observationSchema"@);
        let observation_digest = v.text_at("observationDigest"@);
        if v is Object && protocol is Some && operation_id is Some && observation is Some && observation_schema is Some && observation_digest is Some {
            Some(
                ToolReconcileResultFactView {
                    protocol: protocol->0,
                    operation_id: operation_id->0,
                    observation: observation->0,
                    observation_schema: observation_schema->0,
                    observation_digest: observation_digest->0,
                },
            )
        } else {
            None
        }
    }

    proof fn lemma_keys(self)
        ensures
            keys_ascend(self.fields()),
    {
        assert(text_lt("observation"@, "observationDigest"@)) by {
            reveal_strlit("observation");
            reveal_strlit("observationDigest");
            assert(lt_at("observation"@, "observationDigest"@, 11));
        };
        assert(text_lt("observationDigest"@, "observationSchema"@)) by {
            reveal_strlit("observationDigest");
            reveal_strlit("observationSchema");
            assert(lt_at("observationDigest"@, "observationSchema"@, 11));
        };
        assert(text_lt("observationSchema"@, "operationId"@)) by {
            reveal_strlit("observationSchema");
            reveal_strlit("operationId");
            assert(lt_at("observationSchema"@, "operationId"@, 1));
        };
        assert(text_lt("operationId"@, "protocol"@)) by {
            reveal_strlit("operationId");
            reveal_strlit("protocol");
            assert(lt_at("operationId"@, "protocol"@, 0));
        };
        lemma_step_ascends(self.fields());
    }

    /// Reading what was written gives the same value back.
    pub proof fn lemma_round_trip(self)
        ensures
            ToolReconcileResultFactView::of_json(self.json()) == Some(self),
            ToolReconcileResultFactView::of_tagged_json(self.json()) == Some(self),
            self.json().get("observation"@) == (Some(self.observation.json())),
            self.json().get("observationDigest"@) == (Some(JsonView::Text(self.observation_digest))),
            self.json().get("observationSchema"@) == (Some(JsonView::Text(self.observation_schema))),
            self.json().get("operationId"@) == (Some(JsonView::Text(self.operation_id))),
            self.json().get("protocol"@) == (Some(JsonView::Text(self.protocol))),
    {
        let f = self.fields();
        self.lemma_keys();
        assert(self.json().get("observation"@) == Some(self.observation.json())) by {
            lemma_lookup(f, 0);
        };
        assert(self.json().get("observationDigest"@) == Some(JsonView::Text(self.observation_digest))) by {
            lemma_lookup(f, 1);
        };
        assert(self.json().get("observationSchema"@) == Some(JsonView::Text(self.observation_schema))) by {
            lemma_lookup(f, 2);
        };
        assert(self.json().get("operationId"@) == Some(JsonView::Text(self.operation_id))) by {
            lemma_lookup(f, 3);
        };
        assert(self.json().get("protocol"@) == Some(JsonView::Text(self.protocol))) by {
            lemma_lookup(f, 4);
        };
        self.observation.lemma_wire();
    }

    /// The JSON object reads back from its text.
    pub proof fn lemma_sound(self, n: int)
        requires
            n >= 1,
        ensures
            sound(self.json(), n),
    {
        self.lemma_keys();
        lemma_sound_object(self.fields(), n);
    }
}

impl ToolReconcileResultFact {
    /// The JSON object for this value.
    pub fn to_json(&self) -> (r: Json)
        ensures
            r@ == self@.json(),
    {
        let mut b = ObjectBuilder::new();
        b.put("observation", self.observation.to_json());
        b.put_text("observationDigest", self.observation_digest.as_str());
        b.put_text("observationSchema", self.observation_schema.as_str());
        b.put_text("operationId", self.operation_id.as_str());
        b.put_text("protocol", self.protocol.as_str());
        assert(b.fields() == self@.fields());
        b.build()
    }

    /// Reads the value back from its JSON object, or from a list of its members in the
    /// order of declaration; unknown members are ignored.
    pub fn from_json(v: &Json) -> (r: Option<ToolReconcileResultFact>)
        ensures
            match r {
                Some(x) => ToolReconcileResultFactView::of_json(v@) == Some(x@),
                None => ToolReconcileResultFactView::of_json(v@) is None,
            },
    {
        let names: [&str; 5] = ["protocol", "operationId", "observation", "observationSchema", "observationDigest"];
        assert(key_views(names@) =~= ToolReconcileResultFactView::order());
        match listed_members(v, &names, 5) {
            Some(o) => ToolReconcileResultFact::from_object(&o, false),
            None => ToolReconcileResultFact::from_object(v, false),
        }
    }

    /// As [`ToolReconcileResultFact::from_json`], for a member of a tagged value.
    pub fn from_tagged_json(v: &Json) -> (r: Option<ToolReconcileResultFact>)
        ensures
            match r {
                Some(x) => ToolReconcileResultFactView::of_tagged_json(v@) == Some(x@),
                None => ToolReconcileResultFactView::of_tagged_json(v@) is None,
            },
    {
        let names: [&str; 5] = ["protocol", "operationId", "observation", "observationSchema", "observationDigest"];
        assert(key_views(names@) =~= ToolReconcileResultFactView::order());
        match listed_members(v, &names, 5) {
            Some(o) => ToolReconcileResultFact::from_object(&o, true),
            None => ToolReconcileResultFact::from_object(v, true),
        }
    }

    fn from_object(v: &Json, tagged: bool) -> (r: Option<ToolReconcileResultFact>)
        ensures
            match r {
                Some(x) => ToolReconcileResultFactView::of_object(v@, tagged) == Some(x@),
                None => ToolReconcileResultFactView::of_object(v@, tagged) is None,
            },
    {
        match v {
            Json::Object(_) => {},
            _ => return None,
        }
        let protocol = match v.text_at("protocol") {
            Some(x) => x,
            None => return None,
        };
        let operation_id = match v.text_at("operationId") {
            Some(x) => x,
            None => return None,
        };
        let observation = match v.get("observation") {
            Some(j) => match (if tagged {
                ToolReconcileObservation::from_tagged_json(j)
            } else {
                ToolReconcileObservation::from_json(j)
            }) {
                Some(x) => x,
                None => return None,
            },
            None => return None,
        };
        let observation_schema = match v.text_at("observationSchema") {
            Some(x) => x,
            None => return None,
        };
        let observation_digest = match v.text_at("observationDigest") {
            Some(x) => x,
            None => return None,
        };
        Some(ToolReconcileResultFact { protocol, operation_id, observation, observation_schema, observation_digest })
    }
}

impl ToolReconcileResultFactView {
    /// The members of the JSON object in the order of declaration.
    pub open spec fn declared_fields(self) -> Seq<Field> {
        Seq::empty()
            .push(("protocol"@, Some(JsonView::Text(self.protocol))))
            .push(("operationId"@, Some(JsonView::Text(self.operation_id))))
            .push(("observation"@, Some(self.observation.json())))
            .push(("observationSchema"@, Some(JsonView::Text(self.observation_schema))))
            .push(("observationDigest"@, Some(JsonView::Text(self.observation_digest))))
    }

    pub open spec fn declared_json(self) -> JsonView {
        JsonView::Object(present(self.declared_fields()))
    }
}

impl ToolReconcileResultFact {
    /// The JSON object with its members in the order of declaration.
    pub fn to_declared_json(&self) -> (r: Json)
        ensures
            r@ == self@.declared_json(),
    {
        let mut b = ObjectBuilder::new();
        b.put_text("protocol", self.protocol.as_str());
        b.put_text("operationId", self.operation_id.as_str());
        b.put("observation", self.observation.to_json());
        b.put_text("observationSchema", self.observation_schema.as_str());
        b.put_text("observationDigest", self.observation_digest.as_str());
        assert(b.fields() == self@.declared_fields());
        b.build()
    }
}

/// Terminal disposition a `recovery_decision` asserts about the operation.
#[derive(Debug, Clone, Copy, PartialEq, Eq, Structural)]
pub enum ToolRecoveryDisposition {
    /// The operation is settled as complete: a successful outcome was synthesized.
    Completed,
    /// The operation is parked for human action.
    Parked,
}

impl ToolRecoveryDisposition {
    /// The name of the variant on the wire.
    pub open spec fn wire(self) -> Seq<char> {
        match self {
            ToolRecoveryDisposition::Completed => "completed"@,
            ToolRecoveryDisposition::Parked => "parked"@,
        }
    }

    /// The names on the wire: each variant is written, and read back, as its own.
    pub proof fn law_wire_names()
        ensures
            ToolRecoveryDisposition::Completed.wire() == "completed"@,
            ToolRecoveryDisposition::of_wire("completed"@) == Some(ToolRecoveryDisposition::Completed),
            ToolRecoveryDisposition::Parked.wire() == "parked"@,
            ToolRecoveryDisposition::of_wire("parked"@) == Some(ToolRecoveryDisposition::Parked),
    {
        ToolRecoveryDisposition::Completed.lemma_wire();
        ToolRecoveryDisposition::Parked.lemma_wire();
    }

    pub open spec fn json(self) -> JsonView {
        JsonView::Text(self.wire())
    }

    /// The variant that `s` names on the wire.
    pub open spec fn of_wire(s: Seq<char>) -> Option<ToolRecoveryDisposition> {
        if s == "completed"@ {
            Some(ToolRecoveryDisposition::Completed)
        } else if s == "parked"@ {
            Some(ToolRecoveryDisposition::Parked)
        } else {
            None
        }
    }

    pub open spec fn of_json(v: JsonView) -> Option<ToolRecoveryDisposition> {
        match variant_name(v) {
            Some(s) => ToolRecoveryDisposition::of_wire(s),
            None => None,
        }
    }

    /// As [`ToolRecoveryDisposition::of_json`], for a member of a tagged value.
    pub open spec fn of_tagged_json(v: JsonView) -> Option<ToolRecoveryDisposition> {
        match tagged_variant_name(v) {
            Some(s) => ToolRecoveryDisposition::of_wire(s),
            None => None,
        }
    }

    /// The name of the variant on the wire.
    pub fn as_str(self) -> (r: &'static str)
        ensures
            r@ == self.wire(),
    {
        match self {
            ToolRecoveryDisposition::Completed => "completed",
            ToolRecoveryDisposition::Parked => "parked",
        }
    }

    pub fn to_json(self) -> (r: Json)
        ensures
            r@ == self.json(),
    {
        Json::Text(self.as_str().to_owned())
    }

    /// The variant that `s` names on the wire.
    pub fn parse(s: &str) -> (r: Option<ToolRecoveryDisposition>)
        ensures
            r == ToolRecoveryDisposition::of_wire(s@),
    {
        if str_eq(s, "completed") {
            Some(ToolRecoveryDisposition::Completed)
        } else if str_eq(s, "parked") {
            Some(ToolRecoveryDisposition::Parked)
        } else {
            None
        }
    }

    pub fn from_json(v: &Json) -> (r: Option<ToolRecoveryDisposition>)
        ensures
            r == ToolRecoveryDisposition::of_json(v@),
    {
        match read_variant(v) {
            Some(s) => ToolRecoveryDisposition::parse(s.as_str()),
            None => None,
        }
    }

    /// As [`ToolRecoveryDisposition::from_json`], for a member of a tagged value.
    pub fn from_tagged_json(v: &Json) -> (r: Option<ToolRecoveryDisposition>)
        ensures
            r == ToolRecoveryDisposition::of_tagged_json(v@),
    {
        match read_tagged_variant(v) {
            Some(s) => ToolRecoveryDisposition::parse(s.as_str()),
            None => None,
        }
    }

    /// Every variant is read back from its wire name.
    pub proof fn lemma_wire(self)
        ensures
            ToolRecoveryDisposition::of_wire(self.wire()) == Some(self),
            ToolRecoveryDisposition::of_json(self.json()) == Some(self),
            ToolRecoveryDisposition::of_tagged_json(self.json()) == Some(self),
    {
        reveal_strlit("completed");
        reveal_strlit("parked");
        assert("completed"@.len() == 9);
        assert("parked"@.len() == 6);
    }
}

/// The `recovery_decision` payload.
#[derive(Debug, PartialEq)]
pub struct ToolRecoveryDecisionFact {
    pub protocol: String,
    pub operation_id: String,
    pub disposition: ToolRecoveryDisposition,
    pub reason_code: String,
    pub evidence_event_ids: Vec<String>,
    /// The synthesized outcome event of a completed operation.
    pub outcome_event_id: Option<String>,
}

/// What a [`ToolRecoveryDecisionFact`] says.
pub struct ToolRecoveryDecisionFactView {
    pub protocol: Seq<char>,
    pub operation_id: Seq<char>,
    pub disposition: ToolRecoveryDisposition,
    pub reason_code: Seq<char>,
    pub evidence_event_ids: Seq<Seq<char>>,
    pub outcome_event_id: Option<Seq<char>>,
}

impl View for ToolRecoveryDecisionFact {
    type V = ToolRecoveryDecisionFactView;

    open spec fn view(&self) -> ToolRecoveryDecisionFactView {
        ToolRecoveryDecisionFactView {
            protocol: self.protocol@,
            operation_id: self.operation_id@,
            disposition: self.disposition,
            reason_code: self.reason_code@,
            evidence_event_ids: texts(self.evidence_event_ids@),
            outcome_event_id: opt(self.outcome_event_id),
        }
    }
}

impl Clone for ToolRecoveryDecisionFact {
    fn clone(&self) -> (r: Self)
        ensures
            r@ == self@,
    {
        ToolRecoveryDecisionFact {
            protocol: self.protocol.clone(),
            operation_id: self.operation_id.clone(),
            disposition: self.disposition,
            reason_code: self.reason_code.clone(),
            evidence_event_ids: clone_texts(&self.evidence_event_ids),
            outcome_event_id: clone_opt_text(&self.outcome_event_id),
        }
    }
}

impl ToolRecoveryDecisionFactView {
    /// The members of the JSON object, in key order.
    pub open spec fn fields(self) -> Seq<Field> {
        Seq::empty()
            .push(("disposition"@, Some(self.disposition.json())))
            .push(("evidenceEventIds"@, Some(texts_json(self.evidence_event_ids))))
            .push(("operationId"@, Some(JsonView::Text(self.operation_id))))
            .push(("outcomeEventId"@, opt_text_json(self.outcome_event_id)))
            .push(("protocol"@, Some(JsonView::Text(self.protocol))))
            .push(("reasonCode"@, Some(JsonView::Text(self.reason_code))))
    }

    pub open spec fn json(self) -> JsonView {
        JsonView::Object(present(self.fields()))
    }

    /// The members in the order of declaration.
    pub open spec fn order() -> Seq<Seq<char>> {
        seq!["protocol"@, "operationId"@, "disposition"@, "reasonCode"@, "evidenceEventIds"@, "outcomeEventId"@]
    }

    /// What the JSON value `v` says; `None` when it is neither such an object nor a list
    /// of its members.
    pub open spec fn of_json(v: JsonView) -> Option<ToolRecoveryDecisionFactView> {
        ToolRecoveryDecisionFactView::of_object(struct_form(v, ToolRecoveryDecisionFactView::order(), 5), false)
    }

    /// As [`ToolRecoveryDecisionFactView::of_json`], for a member of a tagged value.
    pub open spec fn of_tagged_json(v: JsonView) -> Option<ToolRecoveryDecisionFactView> {
        ToolRecoveryDecisionFactView::of_object(struct_form(v, ToolRecoveryDecisionFactView::order(), 5), true)
    }

    /// What the JSON object `v` says; `None` when it is no such object.
    pub open spec fn of_object(v: JsonView, tagged: bool) -> Option<ToolRecoveryDecisionFactView> {
        let protocol = v.text_at("protocol"@);
        let operation_id = v.text_at("operationId"@);
        let disposition = member_at(v, "disposition"@, |j: JsonView| if tagged { ToolRecoveryDisposition::of_tagged_json(j) } else { ToolRecoveryDisposition::of_json(j) });
        let reason_code = v.text_at("reasonCode"@);
        let evidence_event_ids = texts_at(v, "evidenceEventIds"@);
        let outcome_event_id = opt_text_at(v, "outcomeEventId"@);
        if v is Object && protocol is Some && operation_id is Some && disposition is Some && reason_code is Some && evidence_event_ids is Some && outcome_event_id is Some {
            Some(
                ToolRecoveryDecisionFactView {
                    protocol: protocol->0,
                    operation_id: operation_id->0,
                    disposition: disposition->0,
                    reason_code: reason_code->0,
                    evidence_event_ids: evidence_event_ids->0,
                    outcome_event_id: outcome_event_id->0,
                },
            )
        } else {
            None
        }
    }

    proof fn lemma_keys(self)
        ensures
            keys_ascend(self.fields()),
    {
        assert(text_lt("disposition"@, "evidenceEventIds"@)) by {
            reveal_strlit("disposition");
            reveal_strlit("evidenceEventIds");
            assert(lt_at("disposition"@, "evidenceEventIds"@, 0));
        };
        assert(text_lt("evidenceEventIds"@, "operationId"@)) by {
            reveal_strlit("evidenceEventIds");
            reveal_strlit("operationId");
            assert(lt_at("evidenceEventIds"@, "operationId"@, 0));
        };
        assert(text_lt("operationId"@, "outcomeEventId"@)) by {
            reveal_strlit("operationId");
            reveal_strlit("outcomeEventId");
            assert(lt_at("operationId"@, "outcomeEventId"@, 1));
        };
        assert(text_lt("outcomeEventId"@, "protocol"@)) by {
            reveal_strlit("outcomeEventId");
            reveal_strlit("protocol");
            assert(lt_at("outcomeEventId"@, "protocol"@, 0));
        };
        assert(text_lt("protocol"@, "reasonCode"@)) by {
            reveal_strlit("protocol");
            reveal_strlit("reasonCode");
            assert(lt_at("protocol"@, "reasonCode"@, 0));
        };
        lemma_step_ascends(self.fields());
    }

    /// Reading what was written gives the same value back.
    pub proof fn lemma_round_trip(self)
        ensures
            ToolRecoveryDecisionFactView::of_json(self.json()) == Some(self),
            ToolRecoveryDecisionFactView::of_tagged_json(self.json()) == Some(self),
            self.json().get("disposition"@) == (Some(self.disposition.json())),
            self.json().get("evidenceEventIds"@) == (Some(texts_json(self.evidence_event_ids))),
            self.json().get("operationId"@) == (Some(JsonView::Text(self.operation_id))),
            self.json().get("outcomeEventId"@) == (opt_text_json(self.outcome_event_id)),
            self.json().get("protocol"@) == (Some(JsonView::Text(self.protocol))),
            self.json().get("reasonCode"@) == (Some(JsonView::Text(self.reason_code))),
    {
        let f = self.fields();
        self.lemma_keys();
        assert(self.json().get("disposition"@) == Some(self.disposition.json())) by {
            lemma_lookup(f, 0);
        };
        assert(self.json().get("evidenceEventIds"@) == Some(texts_json(self.evidence_event_ids))) by {
            lemma_lookup(f, 1);
        };
        assert(self.json().get("operationId"@) == Some(JsonView::Text(self.operation_id))) by {
            lemma_lookup(f, 2);
        };
        assert(self.json().get("outcomeEventId"@) == opt_text_json(self.outcome_event_id)) by {
            lemma_lookup(f, 3);
        };
        assert(self.json().get("protocol"@) == Some(JsonView::Text(self.protocol))) by {
            lemma_lookup(f, 4);
        };
        assert(self.json().get("reasonCode"@) == Some(JsonView::Text(self.reason_code))) by {
            lemma_lookup(f, 5);
        };
        self.disposition.lemma_wire();
        assert(all_texts(texts_json(self.evidence_event_ids)->Array_0)->0 =~= self.evidence_event_ids);
    }

    /// The JSON object reads back from its text.
    pub proof fn lemma_sound(self, n: int)
        requires
            n >= 2,
        ensures
            sound(self.json(), n),
    {
        self.lemma_keys();
        lemma_texts_sound(self.evidence_event_ids, n - 1);
        lemma_sound_object(self.fields(), n);
    }
}

impl ToolRecoveryDecisionFact {
    /// The JSON object for this value.
    pub fn to_json(&self) -> (r: Json)
        ensures
            r@ == self@.json(),
    {
        let mut b = ObjectBuilder::new();
        b.put("disposition", self.disposition.to_json());
        b.put("evidenceEventIds", from_texts(&self.evidence_event_ids));
        b.put_text("operationId", self.operation_id.as_str());
        b.put_opt("outcomeEventId", from_opt_text(&self.outcome_event_id));
        b.put_text("protocol", self.protocol.as_str());
        b.put_text("reasonCode", self.reason_code.as_str());
        assert(b.fields() == self@.fields());
        b.build()
    }

    /// Reads the value back from its JSON object, or from a list of its members in the
    /// order of declaration; unknown members are ignored.
    pub fn from_json(v: &Json) -> (r: Option<ToolRecoveryDecisionFact>)
        ensures
            match r {
                Some(x) => ToolRecoveryDecisionFactView::of_json(v@) == Some(x@),
                None => ToolRecoveryDecisionFactView::of_json(v@) is None,
            },
    {
        let names: [&str; 6] = ["protocol", "operationId", "disposition", "reasonCode", "evidenceEventIds", "outcomeEventId"];
        assert(key_views(names@) =~= ToolRecoveryDecisionFactView::order());
        match listed_members(v, &names, 5) {
            Some(o) => ToolRecoveryDecisionFact::from_object(&o, false),
            None => ToolRecoveryDecisionFact::from_object(v, false),
        }
    }

    /// As [`ToolRecoveryDecisionFact::from_json`], for a member of a tagged value.
    pub fn from_tagged_json(v: &Json) -> (r: Option<ToolRecoveryDecisionFact>)
        ensures
            match r {
                Some(x) => ToolRecoveryDecisionFactView::of_tagged_json(v@) == Some(x@),
                None => ToolRecoveryDecisionFactView::of_tagged_json(v@) is None,
            },
    {
        let names: [&str; 6] = ["protocol", "operationId", "disposition", "reasonCode", "evidenceEventIds", "outcomeEventId"];
        assert(key_views(names@) =~= ToolRecoveryDecisionFactView::order());
        match listed_members(v, &names, 5) {
            Some(o) => ToolRecoveryDecisionFact::from_object(&o, true),
            None => ToolRecoveryDecisionFact::from_object(v, true),
        }
    }

    fn from_object(v: &Json, tagged: bool) -> (r: Option<ToolRecoveryDecisionFact>)
        ensures
            match r {
                Some(x) => ToolRecoveryDecisionFactView::of_object(v@, tagged) == Some(x@),
                None => ToolRecoveryDecisionFactView::of_object(v@, tagged) is None,
            },
    {
        match v {
            Json::Object(_) => {},
            _ => return None,
        }
        let protocol = match v.text_at("protocol") {
            Some(x) => x,
            None => return None,
        };
        let operation_id = match v.text_at("operationId") {
            Some(x) => x,
            None => return None,
        };
        let disposition = match v.get("disposition") {
            Some(j) => match (if tagged {
                ToolRecoveryDisposition::from_tagged_json(j)
            } else {
                ToolRecoveryDisposition::from_json(j)
            }) {
                Some(x) => x,
                None => return None,
            },
            None => return None,
        };
        let reason_code = match v.text_at("reasonCode") {
            Some(x) => x,
            None => return None,
        };
        let evidence_event_ids = match read_texts(v, "evidenceEventIds") {
            Some(x) => x,
            None => return None,
        };
        let outcome_event_id = match read_opt_text(v, "outcomeEventId") {
            Some(x) => x,
            None => return None,
        };
        Some(ToolRecoveryDecisionFact { protocol, operation_id, disposition, reason_code, evidence_event_ids, outcome_event_id })
    }
}

impl ToolRecoveryDecisionFactView {
    /// The members of the JSON object in the order of declaration.
    pub open spec fn declared_fields(self) -> Seq<Field> {
        Seq::empty()
            .push(("protocol"@, Some(JsonView::Text(self.protocol))))
            .push(("operationId"@, Some(JsonView::Text(self.operation_id))))
            .push(("disposition"@, Some(self.disposition.json())))
            .push(("reasonCode"@, Some(JsonView::Text(self.reason_code))))
            .push(("evidenceEventIds"@, Some(texts_json(self.evidence_event_ids))))
            .push(("outcomeEventId"@, opt_text_json(self.outcome_event_id)))
    }

    pub open spec fn declared_json(self) -> JsonView {
        JsonView::Object(present(self.declared_fields()))
    }
}

impl ToolRecoveryDecisionFact {
    /// The JSON object with its members in the order of declaration.
    pub fn to_declared_json(&self) -> (r: Json)
        ensures
            r@ == self@.declared_json(),
    {
        let mut b = ObjectBuilder::new();
        b.put_text("protocol", self.protocol.as_str());
        b.put_text("operationId", self.operation_id.as_str());
        b.put("disposition", self.disposition.to_json());
        b.put_text("reasonCode", self.reason_code.as_str());
        b.put("evidenceEventIds", from_texts(&self.evidence_event_ids));
        b.put_opt("outcomeEventId", from_opt_text(&self.outcome_event_id));
        assert(b.fields() == self@.declared_fields());
        b.build()
    }
}

/// The `actions.toolRecovery` envelope, discriminated by `kind`.
#[allow(inconsistent_fields)]
#[derive(Debug, PartialEq)]
pub enum ToolRecoveryFactEnvelope {
    ReconcileResult {
        version: u32,
        payload: ToolReconcileResultFact,
    },
    RecoveryDecision {
        version: u32,
        payload: ToolRecoveryDecisionFact,
    },
}

/// What a [`ToolRecoveryFactEnvelope`] says.
#[allow(inconsistent_fields)]
pub enum ToolRecoveryFactEnvelopeView {
    ReconcileResult {
        version: u32,
        payload: ToolReconcileResultFactView,
    },
    RecoveryDecision {
        version: u32,
        payload: ToolRecoveryDecisionFactView,
    },
}

impl View for ToolRecoveryFactEnvelope {
    type V = ToolRecoveryFactEnvelopeView;

    open spec fn view(&self) -> ToolRecoveryFactEnvelopeView {
        match *self {
            ToolRecoveryFactEnvelope::ReconcileResult { version, payload } => ToolRecoveryFactEnvelopeView::ReconcileResult {
                version: version,
                payload: payload@,
            },
            ToolRecoveryFactEnvelope::RecoveryDecision { version, payload } => ToolRecoveryFactEnvelopeView::RecoveryDecision {
                version: version,
                payload: payload@,
            },
        }
    }
}

impl Clone for ToolRecoveryFactEnvelope {
    fn clone(&self) -> (r: Self)
        ensures
            r@ == self@,
    {
        match self {
            ToolRecoveryFactEnvelope::ReconcileResult { version, payload } => ToolRecoveryFactEnvelope::ReconcileResult {
                version: *version,
                payload: payload.clone(),
            },
            ToolRecoveryFactEnvelope::RecoveryDecision { version, payload } => ToolRecoveryFactEnvelope::RecoveryDecision {
                version: *version,
                payload: payload.clone(),
            },
        }
    }
}

impl ToolRecoveryFactEnvelopeView {
    /// The members of the JSON object, in key order.
    pub open spec fn fields(self) -> Seq<Field> {
        match self {
            ToolRecoveryFactEnvelopeView::ReconcileResult { version, payload } => Seq::empty()
                .push(("kind"@, Some(JsonView::Text("maka.tool.reconcile_result"@))))
                .push(("payload"@, Some(payload.json())))
                .push(("version"@, Some(JsonView::Number(version as int)))),
            ToolRecoveryFactEnvelopeView::RecoveryDecision { version, payload } => Seq::empty()
                .push(("kind"@, Some(JsonView::Text("maka.tool.recovery_decision"@))))
                .push(("payload"@, Some(payload.json())))
                .push(("version"@, Some(JsonView::Number(version as int)))),
        }
    }

    pub open spec fn json(self) -> JsonView {
        JsonView::Object(present(self.fields()))
    }

    /// The tags differ.
    proof fn lemma_tags()
        ensures
            ToolRecoveryFactEnvelopeView::order("maka.tool.reconcile_result"@).0 == seq!["kind"@, "version"@, "payload"@],
            ToolRecoveryFactEnvelopeView::order("maka.tool.reconcile_result"@).1 == 3,
            ToolRecoveryFactEnvelopeView::order("maka.tool.recovery_decision"@).0 == seq!["kind"@, "version"@, "payload"@],
            ToolRecoveryFactEnvelopeView::order("maka.tool.recovery_decision"@).1 == 3,
    {
        reveal_strlit("maka.tool.reconcile_result");
        reveal_strlit("maka.tool.recovery_decision");
        assert("maka.tool.reconcile_result"@.len() == 26);
        assert("maka.tool.recovery_decision"@.len() == 27);
    }

    /// The members of the variant `tag` in the order of declaration, the tag first, and
    /// how many of them a list must give.
    pub open spec fn order(tag: Seq<char>) -> (Seq<Seq<char>>, int) {
        if tag == "maka.tool.reconcile_result"@ {
            (seq!["kind"@, "version"@, "payload"@], 3)
        } else if tag == "maka.tool.recovery_decision"@ {
            (seq!["kind"@, "version"@, "payload"@], 3)
        } else {
            (Seq::empty(), 1)
        }
    }

    /// What the JSON value `v` says; `None` when it is neither such an object nor a list
    /// of its members.
    pub open spec fn of_json(v: JsonView) -> Option<ToolRecoveryFactEnvelopeView> {
        let order = ToolRecoveryFactEnvelopeView::order(leading_text(v));
        ToolRecoveryFactEnvelopeView::of_object(struct_form(v, order.0, order.1))
    }

    /// What the JSON object `v` says; `None` when it is no such object.
    pub open spec fn of_object(v: JsonView) -> Option<ToolRecoveryFactEnvelopeView> {
        let tag = v.text_at("kind"@);
        if tag == Some("maka.tool.reconcile_result"@) {
            let version = u32_at(v, "version"@);
            let payload = member_at(v, "payload"@, |j: JsonView| ToolReconcileResultFactView::of_tagged_json(j));
            if version is Some && payload is Some {
                Some(
                    ToolRecoveryFactEnvelopeView::ReconcileResult {
                        version: version->0,
                        payload: payload->0,
                    },
                )
            } else {
                None
            }
        } else if tag == Some("maka.tool.recovery_decision"@) {
            let version = u32_at(v, "version"@);
            let payload = member_at(v, "payload"@, |j: JsonView| ToolRecoveryDecisionFactView::of_tagged_json(j));
            if version is Some && payload is Some {
                Some(
                    ToolRecoveryFactEnvelopeView::RecoveryDecision {
                        version: version->0,
                        payload: payload->0,
                    },
                )
            } else {
                None
            }
        } else {
            None
        }
    }

    proof fn lemma_keys(self)
        ensures
            keys_ascend(self.fields()),
    {
        match self {
            ToolRecoveryFactEnvelopeView::ReconcileResult { .. } => {
                assert(text_lt("kind"@, "payload"@)) by {
                    reveal_strlit("kind");
                    reveal_strlit("payload");
                    assert(lt_at("kind"@, "payload"@, 0));
                };
                assert(text_lt("payload"@, "version"@)) by {
                    reveal_strlit("payload");
                    reveal_strlit("version");
                    assert(lt_at("payload"@, "version"@, 0));
                };
            },
            ToolRecoveryFactEnvelopeView::RecoveryDecision { .. } => {
                assert(text_lt("kind"@, "payload"@)) by {
                    reveal_strlit("kind");
                    reveal_strlit("payload");
                    assert(lt_at("kind"@, "payload"@, 0));
                };
                assert(text_lt("payload"@, "version"@)) by {
                    reveal_strlit("payload");
                    reveal_strlit("version");
                    assert(lt_at("payload"@, "version"@, 0));
                };
            },
        }
        lemma_step_ascends(self.fields());
    }

    /// Reading what was written gives the same value back.
    pub proof fn lemma_round_trip(self)
        ensures
            ToolRecoveryFactEnvelopeView::of_json(self.json()) == Some(self),
    {
        let f = self.fields();
        self.lemma_keys();
        reveal_strlit("maka.tool.reconcile_result");
        reveal_strlit("maka.tool.recovery_decision");
        assert("maka.tool.reconcile_result"@.len() == 26);
        assert("maka.tool.recovery_decision"@.len() == 27);
        match self {
            ToolRecoveryFactEnvelopeView::ReconcileResult { payload, .. } => {
                assert(self.json().get("kind"@) == f[0].1) by {
                    lemma_lookup(f, 0);
                };
                assert(self.json().get("payload"@) == f[1].1) by {
                    lemma_lookup(f, 1);
                };
                assert(self.json().get("version"@) == f[2].1) by {
                    lemma_lookup(f, 2);
                };
                payload.lemma_round_trip();
            },
            ToolRecoveryFactEnvelopeView::RecoveryDecision { payload, .. } => {
                assert(self.json().get("kind"@) == f[0].1) by {
                    lemma_lookup(f, 0);
                };
                assert(self.json().get("payload"@) == f[1].1) by {
                    lemma_lookup(f, 1);
                };
                assert(self.json().get("version"@) == f[2].1) by {
                    lemma_lookup(f, 2);
                };
                payload.lemma_round_trip();
            },
        }
    }

    /// The JSON object reads back from its text.
    pub proof fn lemma_sound(self, n: int)
        requires
            n >= 3,
        ensures
            sound(self.json(), n),
    {
        self.lemma_keys();
        match self {
            ToolRecoveryFactEnvelopeView::ReconcileResult { payload, .. } => {
                payload.lemma_sound(n - 1);
            },
            ToolRecoveryFactEnvelopeView::RecoveryDecision { payload, .. } => {
                payload.lemma_sound(n - 1);
            },
        }
        lemma_sound_object(self.fields(), n);
    }
}

impl ToolRecoveryFactEnvelope {
    /// The JSON object for this value.
    pub fn to_json(&self) -> (r: Json)
        ensures
            r@ == self@.json(),
    {
        let mut b = ObjectBuilder::new();
        match self {
            ToolRecoveryFactEnvelope::ReconcileResult { version, payload } => {
                b.put_text("kind", "maka.tool.reconcile_result");
                b.put("payload", payload.to_json());
                b.put("version", Json::Uint(*version as u64));
            },
            ToolRecoveryFactEnvelope::RecoveryDecision { version, payload } => {
                b.put_text("kind", "maka.tool.recovery_decision");
                b.put("payload", payload.to_json());
                b.put("version", Json::Uint(*version as u64));
            },
        }
        assert(b.fields() == self@.fields());
        b.build()
    }

    /// Reads the value back from its JSON object, or from a list of its members in the
    /// order of declaration; unknown members are ignored.
    pub fn from_json(v: &Json) -> (r: Option<ToolRecoveryFactEnvelope>)
        ensures
            match r {
                Some(x) => ToolRecoveryFactEnvelopeView::of_json(v@) == Some(x@),
                None => ToolRecoveryFactEnvelopeView::of_json(v@) is None,
            },
    {
        proof {
            ToolRecoveryFactEnvelopeView::lemma_tags();
        }
        let tag = read_leading_text(v);
        if str_eq(tag.as_str(), "maka.tool.reconcile_result") {
            let names: [&str; 3] = ["kind", "version", "payload"];
            assert(key_views(names@) =~= ToolRecoveryFactEnvelopeView::order("maka.tool.reconcile_result"@).0);
            return match listed_members(v, &names, 3) {
                Some(o) => ToolRecoveryFactEnvelope::from_object(&o),
                None => ToolRecoveryFactEnvelope::from_object(v),
            };
        }
        if str_eq(tag.as_str(), "maka.tool.recovery_decision") {
            let names: [&str; 3] = ["kind", "version", "payload"];
            assert(key_views(names@) =~= ToolRecoveryFactEnvelopeView::order("maka.tool.recovery_decision"@).0);
            return match listed_members(v, &names, 3) {
                Some(o) => ToolRecoveryFactEnvelope::from_object(&o),
                None => ToolRecoveryFactEnvelope::from_object(v),
            };
        }
        ToolRecoveryFactEnvelope::from_object(v)
    }

    fn from_object(v: &Json) -> (r: Option<ToolRecoveryFactEnvelope>)
        ensures
            match r {
                Some(x) => ToolRecoveryFactEnvelopeView::of_object(v@) == Some(x@),
                None => ToolRecoveryFactEnvelopeView::of_object(v@) is None,
            },
    {
        let tag = match v.text_at("kind") {
            Some(s) => s,
            None => return None,
        };
        if str_eq(tag.as_str(), "maka.tool.reconcile_result") {
            let version = match read_u32(v, "version") {
                Some(x) => x,
                None => return None,
            };
            let payload = match v.get("payload") {
                Some(j) => match ToolReconcileResultFact::from_tagged_json(j) {
                    Some(x) => x,
                    None => return None,
                },
                None => return None,
            };
            Some(ToolRecoveryFactEnvelope::ReconcileResult { version, payload })
        } else if str_eq(tag.as_str(), "maka.tool.recovery_decision") {
            let version = match read_u32(v, "version") {
                Some(x) => x,
                None => return None,
            };
            let payload = match v.get("payload") {
                Some(j) => match ToolRecoveryDecisionFact::from_tagged_json(j) {
                    Some(x) => x,
                    None => return None,
                },
                None => return None,
            };
            Some(ToolRecoveryFactEnvelope::RecoveryDecision { version, payload })
        } else {
            None
        }
    }
}

impl ToolRecoveryFactEnvelopeView {
    /// The members of the JSON object, the tag first, then in the order of declaration.
    pub open spec fn declared_fields(self) -> Seq<Field> {
        match self {
            ToolRecoveryFactEnvelopeView::ReconcileResult { version, payload } => Seq::empty()
                .push(("kind"@, Some(JsonView::Text("maka.tool.reconcile_result"@))))
                .push(("version"@, Some(JsonView::Number(version as int))))
                .push(("payload"@, Some(payload.declared_json()))),
            ToolRecoveryFactEnvelopeView::RecoveryDecision { version, payload } => Seq::empty()
                .push(("kind"@, Some(JsonView::Text("maka.tool.recovery_decision"@))))
                .push(("version"@, Some(JsonView::Number(version as int))))
                .push(("payload"@, Some(payload.declared_json()))),
        }
    }

    pub open spec fn declared_json(self) -> JsonView {
        JsonView::Object(present(self.declared_fields()))
    }
}

impl ToolRecoveryFactEnvelope {
    /// The JSON object, the tag first, then in the order of declaration.
    pub fn to_declared_json(&self) -> (r: Json)
        ensures
            r@ == self@.declared_json(),
    {
        let mut b = ObjectBuilder::new();
        match self {
            ToolRecoveryFactEnvelope::ReconcileResult { version, payload } => {
                b.put_text("kind", "maka.tool.reconcile_result");
                b.put("version", Json::Uint(*version as u64));
                b.put("payload", payload.to_declared_json());
            },
            ToolRecoveryFactEnvelope::RecoveryDecision { version, payload } => {
                b.put_text("kind", "maka.tool.recovery_decision");
                b.put("version", Json::Uint(*version as u64));
                b.put("payload", payload.to_declared_json());
            },
        }
        assert(b.fields() == self@.declared_fields());
        b.build()
    }
}

impl ToolRecoveryFactEnvelopeView {
    /// The fact kind.
    pub open spec fn kind(self) -> Seq<char> {
        match self {
            ToolRecoveryFactEnvelopeView::ReconcileResult { .. } => TOOL_RECONCILE_RESULT_FACT_KIND@,
            ToolRecoveryFactEnvelopeView::RecoveryDecision { .. } => TOOL_RECOVERY_DECISION_FACT_KIND@,
        }
    }

    /// The operation the fact is about.
    pub open spec fn operation_id(self) -> Seq<char> {
        match self {
            ToolRecoveryFactEnvelopeView::ReconcileResult { payload, .. } => payload.operation_id,
            ToolRecoveryFactEnvelopeView::RecoveryDecision { payload, .. } => payload.operation_id,
        }
    }
}

impl ToolRecoveryFactEnvelope {
    /// The fact kind.
    pub fn kind_str(&self) -> (r: &'static str)
        ensures
            r@ == self@.kind(),
    {
        match self {
            ToolRecoveryFactEnvelope::ReconcileResult { .. } => TOOL_RECONCILE_RESULT_FACT_KIND,
            ToolRecoveryFactEnvelope::RecoveryDecision { .. } => TOOL_RECOVERY_DECISION_FACT_KIND,
        }
    }

    /// The operation the fact is about.
    pub fn operation_id(&self) -> (r: String)
        ensures
            r@ == self@.operation_id(),
    {
        match self {
            ToolRecoveryFactEnvelope::ReconcileResult { payload, .. } => payload.operation_id.clone(),
            ToolRecoveryFactEnvelope::RecoveryDecision { payload, .. } => payload.operation_id.clone(),
        }
    }
}

impl ToolRecoveryFactEnvelopeView {
    /// The members of the JSON object, each under its own name.
    pub proof fn law_members(self)
        ensures
            match self {
                ToolRecoveryFactEnvelopeView::ReconcileResult { version, payload } => {
                    &&& self.json().get("kind"@) == (Some(JsonView::Text("maka.tool.reconcile_result"@)))
                    &&& self.json().get("payload"@) == (Some(payload.json()))
                    &&& self.json().get("version"@) == (Some(JsonView::Number(version as int)))
                },
                ToolRecoveryFactEnvelopeView::RecoveryDecision { version, payload } => {
                    &&& self.json().get("kind"@) == (Some(JsonView::Text("maka.tool.recovery_decision"@)))
                    &&& self.json().get("payload"@) == (Some(payload.json()))
                    &&& self.json().get("version"@) == (Some(JsonView::Number(version as int)))
                },
            },
    {
        let f = self.fields();
        self.lemma_keys();
        match self {
            ToolRecoveryFactEnvelopeView::ReconcileResult { .. } => {
                lemma_lookup(f, 0);
                lemma_lookup(f, 1);
                lemma_lookup(f, 2);
            },
            ToolRecoveryFactEnvelopeView::RecoveryDecision { .. } => {
                lemma_lookup(f, 0);
                lemma_lookup(f, 1);
                lemma_lookup(f, 2);
            },
        }
    }
}

/// A fact is of its own kind, and about the operation that its payload names.
pub proof fn law_facts_are_about_their_operation(fact: ToolRecoveryFactEnvelopeView)
    ensures
        match fact {
            ToolRecoveryFactEnvelopeView::ReconcileResult { payload, .. } => fact.operation_id()
                == payload.operation_id && fact.kind() == "maka.tool.reconcile_result"@,
            ToolRecoveryFactEnvelopeView::RecoveryDecision { payload, .. } => fact.operation_id()
                == payload.operation_id && fact.kind() == "maka.tool.recovery_decision"@,
        },
        TOOL_RECOVERY_FACT_VERSION == 1,
{
}

impl ToolReconcileResultFactView {
    /// The members that are written, each in its place in the order of declaration.
    pub proof fn law_declared_members(self)
        ensures
            self.declared_fields().len() == 5,
            self.declared_fields()[0] == ("protocol"@, Some(JsonView::Text(self.protocol))),
            self.declared_fields()[1] == ("operationId"@, Some(JsonView::Text(self.operation_id))),
            self.declared_fields()[2] == ("observation"@, Some(self.observation.json())),
            self.declared_fields()[3] == ("observationSchema"@, Some(JsonView::Text(self.observation_schema))),
            self.declared_fields()[4] == ("observationDigest"@, Some(JsonView::Text(self.observation_digest))),
    {
    }
}

impl ToolRecoveryDecisionFactView {
    /// The members that are written, each in its place in the order of declaration.
    pub proof fn law_declared_members(self)
        ensures
            self.declared_fields().len() == 6,
            self.declared_fields()[0] == ("protocol"@, Some(JsonView::Text(self.protocol))),
            self.declared_fields()[1] == ("operationId"@, Some(JsonView::Text(self.operation_id))),
            self.declared_fields()[2] == ("disposition"@, Some(self.disposition.json())),
            self.declared_fields()[3] == ("reasonCode"@, Some(JsonView::Text(self.reason_code))),
            self.declared_fields()[4] == ("evidenceEventIds"@, Some(texts_json(self.evidence_event_ids))),
            self.declared_fields()[5] == ("outcomeEventId"@, opt_text_json(self.outcome_event_id)),
    {
    }
}

impl ToolRecoveryFactEnvelopeView {
    /// The members that are written, the tag first, each in its place.
    pub proof fn law_declared_members(self)
        ensures
            match self {
                ToolRecoveryFactEnvelopeView::ReconcileResult { version, payload } => {
                    &&& self.declared_fields().len() == 3
                    &&& self.declared_fields()[0] == ("kind"@, Some(JsonView::Text("maka.tool.reconcile_result"@)))
                    &&& self.declared_fields()[1] == ("version"@, Some(JsonView::Number(version as int)))
                    &&& self.declared_fields()[2] == ("payload"@, Some(payload.declared_json()))
                },
                ToolRecoveryFactEnvelopeView::RecoveryDecision { version, payload } => {
                    &&& self.declared_fields().len() == 3
                    &&& self.declared_fields()[0] == ("kind"@, Some(JsonView::Text("maka.tool.recovery_decision"@)))
                    &&& self.declared_fields()[1] == ("version"@, Some(JsonView::Number(version as int)))
                    &&& self.declared_fields()[2] == ("payload"@, Some(payload.declared_json()))
                },
            },
    {
    }
}

} // verus!
