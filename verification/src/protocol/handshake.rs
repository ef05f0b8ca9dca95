//! Connection handshake: hello and handshake-result frames, and protocol-range
//! negotiation.
//!
//! One round trip: the client sends a [`HelloFrame`], the host replies with
//! exactly one [`HandshakeResult`]. The selected protocol is the lower of the two
//! maxima, valid only if it is no lower than the higher of the two minima. The
//! compatibility epoch is an independent axis; a missing epoch decodes as `0`.

use crate::json::Field;
use crate::json::Json;
use crate::json::JsonView;
use crate::json::ObjectBuilder;
use crate::json::present;
use crate::json::sound;
use crate::schema::default_u32_at;
use crate::schema::has_only_keys;
use crate::schema::key_views;
use crate::schema::keys_ascend;
use crate::schema::lemma_lookup;
use crate::schema::lemma_only_keys;
use crate::schema::lemma_sound_object;
use crate::schema::lemma_step_ascends;
use crate::schema::member_at;
use crate::schema::only_keys;
use crate::schema::read_default_u32;
use crate::schema::read_u32;
use crate::schema::u32_at;
use crate::text::concat;
use crate::text::concat3;
use crate::text::decimal;
use crate::text::decimal_text;
use crate::text::lt_at;
use crate::text::str_eq;
use crate::text::text_lt;
use crate::schema::listed_members;
use crate::schema::read_variant;
use crate::schema::struct_form;
use crate::schema::variant_name;
use vstd::prelude::*;

verus! {

/// The client surface identifying itself in `hello`.
#[derive(Debug, Clone, Copy, PartialEq, Eq, Structural)]
pub enum HandshakeSurface {
    Desktop,
    Tui,
    Run,
    Activation,
    Bot,
    Inspect,
}

impl HandshakeSurface {
    /// The name of the variant on the wire.
    pub open spec fn wire(self) -> Seq<char> {
        match self {
            HandshakeSurface::Desktop => "desktop"@,
            HandshakeSurface::Tui => "tui"@,
            HandshakeSurface::Run => "run"@,
            HandshakeSurface::Activation => "activation"@,
            HandshakeSurface::Bot => "bot"@,
            HandshakeSurface::Inspect => "inspect"@,
        }
    }

    /// The names on the wire: each variant is written, and read back, as its own.
    pub proof fn law_wire_names()
        ensures
            HandshakeSurface::Desktop.wire() == "desktop"@,
            HandshakeSurface::of_wire("desktop"@) == Some(HandshakeSurface::Desktop),
            HandshakeSurface::Tui.wire() == "tui"@,
            HandshakeSurface::of_wire("tui"@) == Some(HandshakeSurface::Tui),
            HandshakeSurface::Run.wire() == "run"@,
            HandshakeSurface::of_wire("run"@) == Some(HandshakeSurface::Run),
            HandshakeSurface::Activation.wire() == "activation"@,
            HandshakeSurface::of_wire("activation"@) == Some(HandshakeSurface::Activation),
            HandshakeSurface::Bot.wire() == "bot"@,
            HandshakeSurface::of_wire("bot"@) == Some(HandshakeSurface::Bot),
            HandshakeSurface::Inspect.wire() == "inspect"@,
            HandshakeSurface::of_wire("inspect"@) == Some(HandshakeSurface::Inspect),
    {
        HandshakeSurface::Desktop.lemma_wire();
        HandshakeSurface::Tui.lemma_wire();
        HandshakeSurface::Run.lemma_wire();
        HandshakeSurface::Activation.lemma_wire();
        HandshakeSurface::Bot.lemma_wire();
        HandshakeSurface::Inspect.lemma_wire();
    }

    pub open spec fn json(self) -> JsonView {
        JsonView::Text(self.wire())
    }

    /// The variant that `s` names on the wire.
    pub open spec fn of_wire(s: Seq<char>) -> Option<HandshakeSurface> {
        if s == "desktop"@ {
            Some(HandshakeSurface::Desktop)
        } else if s == "tui"@ {
            Some(HandshakeSurface::Tui)
        } else if s == "run"@ {
            Some(HandshakeSurface::Run)
        } else if s == "activation"@ {
            Some(HandshakeSurface::Activation)
        } else if s == "bot"@ {
            Some(HandshakeSurface::Bot)
        } else if s == "inspect"@ {
            Some(HandshakeSurface::Inspect)
        } else {
            None
        }
    }

    pub open spec fn of_json(v: JsonView) -> Option<HandshakeSurface> {
        match variant_name(v) {
            Some(s) => HandshakeSurface::of_wire(s),
            None => None,
        }
    }

    /// The name of the variant on the wire.
    pub fn as_str(self) -> (r: &'static str)
        ensures
            r@ == self.wire(),
    {
        match self {
            HandshakeSurface::Desktop => "desktop",
            HandshakeSurface::Tui => "tui",
            HandshakeSurface::Run => "run",
            HandshakeSurface::Activation => "activation",
            HandshakeSurface::Bot => "bot",
            HandshakeSurface::Inspect => "inspect",
        }
    }

    pub fn to_json(self) -> (r: Json)
        ensures
            r@ == self.json(),
    {
        Json::Text(self.as_str().to_owned())
    }

    /// The variant that `s` names on the wire.
    pub fn parse(s: &str) -> (r: Option<HandshakeSurface>)
        ensures
            r == HandshakeSurface::of_wire(s@),
    {
        if str_eq(s, "desktop") {
            Some(HandshakeSurface::Desktop)
        } else if str_eq(s, "tui") {
            Some(HandshakeSurface::Tui)
        } else if str_eq(s, "run") {
            Some(HandshakeSurface::Run)
        } else if str_eq(s, "activation") {
            Some(HandshakeSurface::Activation)
        } else if str_eq(s, "bot") {
            Some(HandshakeSurface::Bot)
        } else if str_eq(s, "inspect") {
            Some(HandshakeSurface::Inspect)
        } else {
            None
        }
    }

    pub fn from_json(v: &Json) -> (r: Option<HandshakeSurface>)
        ensures
            r == HandshakeSurface::of_json(v@),
    {
        match read_variant(v) {
            Some(s) => HandshakeSurface::parse(s.as_str()),
            None => None,
        }
    }

    /// Every variant is read back from its wire name.
    pub proof fn lemma_wire(self)
        ensures
            HandshakeSurface::of_wire(self.wire()) == Some(self),
            HandshakeSurface::of_json(self.json()) == Some(self),
    {
        reveal_strlit("desktop");
        reveal_strlit("tui");
        reveal_strlit("run");
        reveal_strlit("activation");
        reveal_strlit("bot");
        reveal_strlit("inspect");
        assert("desktop"@.len() == 7);
        assert("tui"@.len() == 3);
        assert("run"@.len() == 3);
        assert("activation"@.len() == 10);
        assert("bot"@.len() == 3);
        assert("inspect"@.len() == 7);
        assert("tui"@[0] != "run"@[0]);
        assert("tui"@[0] != "bot"@[0]);
        assert("run"@[0] != "bot"@[0]);
        assert("desktop"@[0] != "inspect"@[0]);
    }
}

/// Tag for a handshake-direction frame: `hello` from the client, the others from
/// the host.
#[derive(Debug, Clone, Copy, PartialEq, Eq, Structural)]
pub enum HandshakeKind {
    Hello,
    Accepted,
    Incompatible,
    Draining,
}

impl HandshakeKind {
    /// The name of the variant on the wire.
    pub open spec fn wire(self) -> Seq<char> {
        match self {
            HandshakeKind::Hello => "hello"@,
            HandshakeKind::Accepted => "accepted"@,
            HandshakeKind::Incompatible => "incompatible"@,
            HandshakeKind::Draining => "draining"@,
        }
    }

    /// The names on the wire: each variant is written, and read back, as its own.
    pub proof fn law_wire_names()
        ensures
            HandshakeKind::Hello.wire() == "hello"@,
            HandshakeKind::of_wire("hello"@) == Some(HandshakeKind::Hello),
            HandshakeKind::Accepted.wire() == "accepted"@,
            HandshakeKind::of_wire("accepted"@) == Some(HandshakeKind::Accepted),
            HandshakeKind::Incompatible.wire() == "incompatible"@,
            HandshakeKind::of_wire("incompatible"@) == Some(HandshakeKind::Incompatible),
            HandshakeKind::Draining.wire() == "draining"@,
            HandshakeKind::of_wire("draining"@) == Some(HandshakeKind::Draining),
    {
        HandshakeKind::Hello.lemma_wire();
        HandshakeKind::Accepted.lemma_wire();
        HandshakeKind::Incompatible.lemma_wire();
        HandshakeKind::Draining.lemma_wire();
    }

    pub open spec fn json(self) -> JsonView {
        JsonView::Text(self.wire())
    }

    /// The variant that `s` names on the wire.
    pub open spec fn of_wire(s: Seq<char>) -> Option<HandshakeKind> {
        if s == "hello"@ {
            Some(HandshakeKind::Hello)
        } else if s == "accepted"@ {
            Some(HandshakeKind::Accepted)
        } else if s == "incompatible"@ {
            Some(HandshakeKind::Incompatible)
        } else if s == "draining"@ {
            Some(HandshakeKind::Draining)
        } else {
            None
        }
    }

    pub open spec fn of_json(v: JsonView) -> Option<HandshakeKind> {
        match variant_name(v) {
            Some(s) => HandshakeKind::of_wire(s),
            None => None,
        }
    }

    /// The name of the variant on the wire.
    pub fn as_str(self) -> (r: &'static str)
        ensures
            r@ == self.wire(),
    {
        match self {
            HandshakeKind::Hello => "hello",
            HandshakeKind::Accepted => "accepted",
            HandshakeKind::Incompatible => "incompatible",
            HandshakeKind::Draining => "draining",
        }
    }

    pub fn to_json(self) -> (r: Json)
        ensures
            r@ == self.json(),
    {
        Json::Text(self.as_str().to_owned())
    }

    /// The variant that `s` names on the wire.
    pub fn parse(s: &str) -> (r: Option<HandshakeKind>)
        ensures
            r == HandshakeKind::of_wire(s@),
    {
        if str_eq(s, "hello") {
            Some(HandshakeKind::Hello)
        } else if str_eq(s, "accepted") {
            Some(HandshakeKind::Accepted)
        } else if str_eq(s, "incompatible") {
            Some(HandshakeKind::Incompatible)
        } else if str_eq(s, "draining") {
            Some(HandshakeKind::Draining)
        } else {
            None
        }
    }

    pub fn from_json(v: &Json) -> (r: Option<HandshakeKind>)
        ensures
            r == HandshakeKind::of_json(v@),
    {
        match read_variant(v) {
            Some(s) => HandshakeKind::parse(s.as_str()),
            None => None,
        }
    }

    /// Every variant is read back from its wire name.
    pub proof fn lemma_wire(self)
        ensures
            HandshakeKind::of_wire(self.wire()) == Some(self),
            HandshakeKind::of_json(self.json()) == Some(self),
    {
        reveal_strlit("hello");
        reveal_strlit("accepted");
        reveal_strlit("incompatible");
        reveal_strlit("draining");
        assert("hello"@.len() == 5);
        assert("accepted"@.len() == 8);
        assert("incompatible"@.len() == 12);
        assert("draining"@.len() == 8);
        assert("accepted"@[0] != "draining"@[0]);
    }
}

/// Host lifecycle state, carried in `accepted.state` and `registration.state`.
#[derive(Debug, Clone, Copy, PartialEq, Eq, Structural)]
pub enum LifecycleState {
    Starting,
    Recovering,
    Ready,
    Draining,
}

impl LifecycleState {
    /// The name of the variant on the wire.
    pub open spec fn wire(self) -> Seq<char> {
        match self {
            LifecycleState::Starting => "starting"@,
            LifecycleState::Recovering => "recovering"@,
            LifecycleState::Ready => "ready"@,
            LifecycleState::Draining => "draining"@,
        }
    }

    /// The names on the wire: each variant is written, and read back, as its own.
    pub proof fn law_wire_names()
        ensures
            LifecycleState::Starting.wire() == "starting"@,
            LifecycleState::of_wire("starting"@) == Some(LifecycleState::Starting),
            LifecycleState::Recovering.wire() == "recovering"@,
            LifecycleState::of_wire("recovering"@) == Some(LifecycleState::Recovering),
            LifecycleState::Ready.wire() == "ready"@,
            LifecycleState::of_wire("ready"@) == Some(LifecycleState::Ready),
            LifecycleState::Draining.wire() == "draining"@,
            LifecycleState::of_wire("draining"@) == Some(LifecycleState::Draining),
    {
        LifecycleState::Starting.lemma_wire();
        LifecycleState::Recovering.lemma_wire();
        LifecycleState::Ready.lemma_wire();
        LifecycleState::Draining.lemma_wire();
    }

    pub open spec fn json(self) -> JsonView {
        JsonView::Text(self.wire())
    }

    /// The variant that `s` names on the wire.
    pub open spec fn of_wire(s: Seq<char>) -> Option<LifecycleState> {
        if s == "starting"@ {
            Some(LifecycleState::Starting)
        } else if s == "recovering"@ {
            Some(LifecycleState::Recovering)
        } else if s == "ready"@ {
            Some(LifecycleState::Ready)
        } else if s == "draining"@ {
            Some(LifecycleState::Draining)
        } else {
            None
        }
    }

    pub open spec fn of_json(v: JsonView) -> Option<LifecycleState> {
        match variant_name(v) {
            Some(s) => LifecycleState::of_wire(s),
            None => None,
        }
    }

    /// The name of the variant on the wire.
    pub fn as_str(self) -> (r: &'static str)
        ensures
            r@ == self.wire(),
    {
        match self {
            LifecycleState::Starting => "starting",
            LifecycleState::Recovering => "recovering",
            LifecycleState::Ready => "ready",
            LifecycleState::Draining => "draining",
        }
    }

    pub fn to_json(self) -> (r: Json)
        ensures
            r@ == self.json(),
    {
        Json::Text(self.as_str().to_owned())
    }

    /// The variant that `s` names on the wire.
    pub fn parse(s: &str) -> (r: Option<LifecycleState>)
        ensures
            r == LifecycleState::of_wire(s@),
    {
        if str_eq(s, "starting") {
            Some(LifecycleState::Starting)
        } else if str_eq(s, "recovering") {
            Some(LifecycleState::Recovering)
        } else if str_eq(s, "ready") {
            Some(LifecycleState::Ready)
        } else if str_eq(s, "draining") {
            Some(LifecycleState::Draining)
        } else {
            None
        }
    }

    pub fn from_json(v: &Json) -> (r: Option<LifecycleState>)
        ensures
            r == LifecycleState::of_json(v@),
    {
        match read_variant(v) {
            Some(s) => LifecycleState::parse(s.as_str()),
            None => None,
        }
    }

    /// Every variant is read back from its wire name.
    pub proof fn lemma_wire(self)
        ensures
            LifecycleState::of_wire(self.wire()) == Some(self),
            LifecycleState::of_json(self.json()) == Some(self),
    {
        reveal_strlit("starting");
        reveal_strlit("recovering");
        reveal_strlit("ready");
        reveal_strlit("draining");
        assert("starting"@.len() == 8);
        assert("recovering"@.len() == 10);
        assert("ready"@.len() == 5);
        assert("draining"@.len() == 8);
        assert("starting"@[0] != "draining"@[0]);
    }
}

/// Why a client could not be accepted onto this host.
#[derive(Debug, Clone, Copy, PartialEq, Eq, Structural)]
pub enum ReplacementPolicy {
    BlockedByResidency,
    WaitForIdleExit,
}

impl ReplacementPolicy {
    /// The name of the variant on the wire.
    pub open spec fn wire(self) -> Seq<char> {
        match self {
            ReplacementPolicy::BlockedByResidency => "blocked_by_residency"@,
            ReplacementPolicy::WaitForIdleExit => "wait_for_idle_exit"@,
        }
    }

    /// The names on the wire: each variant is written, and read back, as its own.
    pub proof fn law_wire_names()
        ensures
            ReplacementPolicy::BlockedByResidency.wire() == "blocked_by_residency"@,
            ReplacementPolicy::of_wire("blocked_by_residency"@) == Some(ReplacementPolicy::BlockedByResidency),
            ReplacementPolicy::WaitForIdleExit.wire() == "wait_for_idle_exit"@,
            ReplacementPolicy::of_wire("wait_for_idle_exit"@) == Some(ReplacementPolicy::WaitForIdleExit),
    {
        ReplacementPolicy::BlockedByResidency.lemma_wire();
        ReplacementPolicy::WaitForIdleExit.lemma_wire();
    }

    pub open spec fn json(self) -> JsonView {
        JsonView::Text(self.wire())
    }

    /// The variant that `s` names on the wire.
    pub open spec fn of_wire(s: Seq<char>) -> Option<ReplacementPolicy> {
        if s == "blocked_by_residency"@ {
            Some(ReplacementPolicy::BlockedByResidency)
        } else if s == "wait_for_idle_exit"@ {
            Some(ReplacementPolicy::WaitForIdleExit)
        } else {
            None
        }
    }

    pub open spec fn of_json(v: JsonView) -> Option<ReplacementPolicy> {
        match variant_name(v) {
            Some(s) => ReplacementPolicy::of_wire(s),
            None => None,
        }
    }

    /// The name of the variant on the wire.
    pub fn as_str(self) -> (r: &'static str)
        ensures
            r@ == self.wire(),
    {
        match self {
            ReplacementPolicy::BlockedByResidency => "blocked_by_residency",
            ReplacementPolicy::WaitForIdleExit => "wait_for_idle_exit",
        }
    }

    pub fn to_json(self) -> (r: Json)
        ensures
            r@ == self.json(),
    {
        Json::Text(self.as_str().to_owned())
    }

    /// The variant that `s` names on the wire.
    pub fn parse(s: &str) -> (r: Option<ReplacementPolicy>)
        ensures
            r == ReplacementPolicy::of_wire(s@),
    {
        if str_eq(s, "blocked_by_residency") {
            Some(ReplacementPolicy::BlockedByResidency)
        } else if str_eq(s, "wait_for_idle_exit") {
            Some(ReplacementPolicy::WaitForIdleExit)
        } else {
            None
        }
    }

    pub fn from_json(v: &Json) -> (r: Option<ReplacementPolicy>)
        ensures
            r == ReplacementPolicy::of_json(v@),
    {
        match read_variant(v) {
            Some(s) => ReplacementPolicy::parse(s.as_str()),
            None => None,
        }
    }

    /// Every variant is read back from its wire name.
    pub proof fn lemma_wire(self)
        ensures
            ReplacementPolicy::of_wire(self.wire()) == Some(self),
            ReplacementPolicy::of_json(self.json()) == Some(self),
    {
        reveal_strlit("blocked_by_residency");
        reveal_strlit("wait_for_idle_exit");
        assert("blocked_by_residency"@.len() == 20);
        assert("wait_for_idle_exit"@.len() == 18);
    }
}

#[derive(Debug, Clone, Copy, PartialEq, Eq, Structural)]
pub enum HandshakeError {
    InvalidRange { min: u32, max: u32 },
    NoOverlap,
}

impl HandshakeError {
    /// The message of the failure.
    pub open spec fn text(self) -> Seq<char> {
        match self {
            HandshakeError::InvalidRange { min, max } => "invalid protocol range: min "@ + decimal(
                min as nat,
            ) + " > max "@ + decimal(max as nat),
            HandshakeError::NoOverlap => "no protocol overlap"@,
        }
    }

    /// The message of the failure.
    pub fn message(&self) -> (r: String)
        ensures
            r@ == self.text(),
    {
        match self {
            HandshakeError::InvalidRange { min, max } => {
                let head = concat("invalid protocol range: min ", decimal_text(*min as u64).as_str());
                concat3(head.as_str(), " > max ", decimal_text(*max as u64).as_str())
            },
            HandshakeError::NoOverlap => "no protocol overlap".to_owned(),
        }
    }
}

/// Client-to-host opening frame.
#[derive(Debug, PartialEq, Eq)]
pub struct HelloFrame {
    pub kind: HandshakeKind,
    pub client_instance_id: String,
    pub surface: HandshakeSurface,
    pub protocol_min: u32,
    pub protocol_max: u32,
    pub compatibility_epoch: u32,
}

/// What a [`HelloFrame`] says.
pub struct HelloFrameView {
    pub kind: HandshakeKind,
    pub client_instance_id: Seq<char>,
    pub surface: HandshakeSurface,
    pub protocol_min: u32,
    pub protocol_max: u32,
    pub compatibility_epoch: u32,
}

impl View for HelloFrame {
    type V = HelloFrameView;

    open spec fn view(&self) -> HelloFrameView {
        HelloFrameView {
            kind: self.kind,
            client_instance_id: self.client_instance_id@,
            surface: self.surface,
            protocol_min: self.protocol_min,
            protocol_max: self.protocol_max,
            compatibility_epoch: self.compatibility_epoch,
        }
    }
}

impl Clone for HelloFrame {
    fn clone(&self) -> (r: Self)
        ensures
            r@ == self@,
    {
        HelloFrame {
            kind: self.kind,
            client_instance_id: self.client_instance_id.clone(),
            surface: self.surface,
            protocol_min: self.protocol_min,
            protocol_max: self.protocol_max,
            compatibility_epoch: self.compatibility_epoch,
        }
    }
}

impl HelloFrameView {
    /// The members of the JSON object, in key order.
    pub open spec fn fields(self) -> Seq<Field> {
        Seq::empty()
            .push(("clientInstanceId"@, Some(JsonView::Text(self.client_instance_id))))
            .push(("compatibilityEpoch"@, Some(JsonView::Number(self.compatibility_epoch as int))))
            .push(("kind"@, Some(self.kind.json())))
            .push(("protocolMax"@, Some(JsonView::Number(self.protocol_max as int))))
            .push(("protocolMin"@, Some(JsonView::Number(self.protocol_min as int))))
            .push(("surface"@, Some(self.surface.json())))
    }

    pub open spec fn json(self) -> JsonView {
        JsonView::Object(present(self.fields()))
    }

    /// The only keys the object may have.
    pub open spec fn keys() -> Seq<Seq<char>> {
        seq!["clientInstanceId"@, "compatibilityEpoch"@, "kind"@, "protocolMax"@, "protocolMin"@, "surface"@]
    }

    /// The members in the order of declaration.
    pub open spec fn order() -> Seq<Seq<char>> {
        seq!["kind"@, "clientInstanceId"@, "surface"@, "protocolMin"@, "protocolMax"@, "compatibilityEpoch"@]
    }

    /// What the JSON value `v` says; `None` when it is neither such an object nor a list
    /// of its members.
    pub open spec fn of_json(v: JsonView) -> Option<HelloFrameView> {
        HelloFrameView::of_object(struct_form(v, HelloFrameView::order(), 5))
    }

    /// What the JSON object `v` says; `None` when it is no such object.
    pub open spec fn of_object(v: JsonView) -> Option<HelloFrameView> {
        let kind = member_at(v, "kind"@, |j: JsonView| HandshakeKind::of_json(j));
        let client_instance_id = v.text_at("clientInstanceId"@);
        let surface = member_at(v, "surface"@, |j: JsonView| HandshakeSurface::of_json(j));
        let protocol_min = u32_at(v, "protocolMin"@);
        let protocol_max = u32_at(v, "protocolMax"@);
        let compatibility_epoch = default_u32_at(v, "compatibilityEpoch"@);
        if only_keys(v, HelloFrameView::keys()) && kind is Some && client_instance_id is Some && surface is Some && protocol_min is Some && protocol_max is Some && compatibility_epoch is Some {
            Some(
                HelloFrameView {
                    kind: kind->0,
                    client_instance_id: client_instance_id->0,
                    surface: surface->0,
                    protocol_min: protocol_min->0,
                    protocol_max: protocol_max->0,
                    compatibility_epoch: compatibility_epoch->0,
                },
            )
        } else {
            None
        }
    }

    proof fn lemma_keys(self)
        ensures
            keys_ascend(self.fields()),
    {
        assert(text_lt("clientInstanceId"@, "compatibilityEpoch"@)) by {
            reveal_strlit("clientInstanceId");
            reveal_strlit("compatibilityEpoch");
            assert(lt_at("clientInstanceId"@, "compatibilityEpoch"@, 1));
        };
        assert(text_lt("compatibilityEpoch"@, "kind"@)) by {
            reveal_strlit("compatibilityEpoch");
            reveal_strlit("kind");
            assert(lt_at("compatibilityEpoch"@, "kind"@, 0));
        };
        assert(text_lt("kind"@, "protocolMax"@)) by {
            reveal_strlit("kind");
            reveal_strlit("protocolMax");
            assert(lt_at("kind"@, "protocolMax"@, 0));
        };
        assert(text_lt("protocolMax"@, "protocolMin"@)) by {
            reveal_strlit("protocolMax");
            reveal_strlit("protocolMin");
            assert(lt_at("protocolMax"@, "protocolMin"@, 9));
        };
        assert(text_lt("protocolMin"@, "surface"@)) by {
            reveal_strlit("protocolMin");
            reveal_strlit("surface");
            assert(lt_at("protocolMin"@, "surface"@, 0));
        };
        lemma_step_ascends(self.fields());
    }

    /// Reading what was written gives the same value back.
    pub proof fn lemma_round_trip(self)
        ensures
            HelloFrameView::of_json(self.json()) == Some(self),
            self.json().get("kind"@) == Some(self.kind.json()),
            self.json().get("clientInstanceId"@) == (Some(JsonView::Text(self.client_instance_id))),
            self.json().get("compatibilityEpoch"@) == (Some(JsonView::Number(self.compatibility_epoch as int))),
            self.json().get("protocolMax"@) == (Some(JsonView::Number(self.protocol_max as int))),
            self.json().get("protocolMin"@) == (Some(JsonView::Number(self.protocol_min as int))),
            self.json().get("surface"@) == (Some(self.surface.json())),
    {
        let f = self.fields();
        self.lemma_keys();
        assert(self.json().get("clientInstanceId"@) == Some(JsonView::Text(self.client_instance_id))) by {
            lemma_lookup(f, 0);
        };
        assert(self.json().get("compatibilityEpoch"@) == Some(JsonView::Number(self.compatibility_epoch as int))) by {
            lemma_lookup(f, 1);
        };
        assert(self.json().get("kind"@) == Some(self.kind.json())) by {
            lemma_lookup(f, 2);
        };
        assert(self.json().get("protocolMax"@) == Some(JsonView::Number(self.protocol_max as int))) by {
            lemma_lookup(f, 3);
        };
        assert(self.json().get("protocolMin"@) == Some(JsonView::Number(self.protocol_min as int))) by {
            lemma_lookup(f, 4);
        };
        assert(self.json().get("surface"@) == Some(self.surface.json())) by {
            lemma_lookup(f, 5);
        };
        assert(HelloFrameView::keys()[0] == "clientInstanceId"@);
        assert(HelloFrameView::keys()[1] == "compatibilityEpoch"@);
        assert(HelloFrameView::keys()[2] == "kind"@);
        assert(HelloFrameView::keys()[3] == "protocolMax"@);
        assert(HelloFrameView::keys()[4] == "protocolMin"@);
        assert(HelloFrameView::keys()[5] == "surface"@);
        lemma_only_keys(f, HelloFrameView::keys());
        self.kind.lemma_wire();
        self.surface.lemma_wire();
    }

    /// The JSON object reads back from its text.
    pub proof fn lemma_sound(self, n: int)
        requires
            n >= 1,
        ensures
            sound(self.json(), n),
    {
        self.lemma_keys();
        lemma_sound_object(self.fields(), n);
    }
}

impl HelloFrame {
    /// The JSON object for this value.
    pub fn to_json(&self) -> (r: Json)
        ensures
            r@ == self@.json(),
    {
        let mut b = ObjectBuilder::new();
        b.put_text("clientInstanceId", self.client_instance_id.as_str());
        b.put("compatibilityEpoch", Json::Uint(self.compatibility_epoch as u64));
        b.put("kind", self.kind.to_json());
        b.put("protocolMax", Json::Uint(self.protocol_max as u64));
        b.put("protocolMin", Json::Uint(self.protocol_min as u64));
        b.put("surface", self.surface.to_json());
        assert(b.fields() == self@.fields());
        b.build()
    }

    /// Reads the value back from its JSON object, or from a list of its members in the
    /// order of declaration; unknown members are refused.
    pub fn from_json(v: &Json) -> (r: Option<HelloFrame>)
        ensures
            match r {
                Some(x) => HelloFrameView::of_json(v@) == Some(x@),
                None => HelloFrameView::of_json(v@) is None,
            },
    {
        let names: [&str; 6] = ["kind", "clientInstanceId", "surface", "protocolMin", "protocolMax", "compatibilityEpoch"];
        assert(key_views(names@) =~= HelloFrameView::order());
        match listed_members(v, &names, 5) {
            Some(o) => HelloFrame::from_object(&o),
            None => HelloFrame::from_object(v),
        }
    }

    fn from_object(v: &Json) -> (r: Option<HelloFrame>)
        ensures
            match r {
                Some(x) => HelloFrameView::of_object(v@) == Some(x@),
                None => HelloFrameView::of_object(v@) is None,
            },
    {
        let keys: [&str; 6] = ["clientInstanceId", "compatibilityEpoch", "kind", "protocolMax", "protocolMin", "surface"];
        assert(key_views(keys@) =~= HelloFrameView::keys());
        if !has_only_keys(v, &keys) {
            return None;
        }
        let kind = match v.get("kind") {
            Some(j) => match HandshakeKind::from_json(j) {
                Some(x) => x,
                None => return None,
            },
            None => return None,
        };
        let client_instance_id = match v.text_at("clientInstanceId") {
            Some(x) => x,
            None => return None,
        };
        let surface = match v.get("surface") {
            Some(j) => match HandshakeSurface::from_json(j) {
                Some(x) => x,
                None => return None,
            },
            None => return None,
        };
        let protocol_min = match read_u32(v, "protocolMin") {
            Some(x) => x,
            None => return None,
        };
        let protocol_max = match read_u32(v, "protocolMax") {
            Some(x) => x,
            None => return None,
        };
        let compatibility_epoch = match read_default_u32(v, "compatibilityEpoch") {
            Some(x) => x,
            None => return None,
        };
        Some(HelloFrame { kind, client_instance_id, surface, protocol_min, protocol_max, compatibility_epoch })
    }
}

impl HelloFrame {
    pub fn new(
        client_instance_id: &str,
        surface: HandshakeSurface,
        protocol_min: u32,
        protocol_max: u32,
        compatibility_epoch: u32,
    ) -> (r: Self)
        ensures
            r@ == (HelloFrameView {
                kind: HandshakeKind::Hello,
                client_instance_id: client_instance_id@,
                surface,
                protocol_min,
                protocol_max,
                compatibility_epoch,
            }),
    {
        HelloFrame {
            kind: HandshakeKind::Hello,
            client_instance_id: client_instance_id.to_owned(),
            surface,
            protocol_min,
            protocol_max,
            compatibility_epoch,
        }
    }
}

/// Host-to-client acceptance frame. `state` must not be `Draining`.
#[derive(Debug, PartialEq, Eq)]
pub struct AcceptedFrame {
    pub kind: HandshakeKind,
    pub host_epoch: String,
    pub connection_id: String,
    pub selected_protocol: u32,
    pub compatibility_epoch: u32,
    pub state: LifecycleState,
}

/// What a [`AcceptedFrame`] says.
pub struct AcceptedFrameView {
    pub kind: HandshakeKind,
    pub host_epoch: Seq<char>,
    pub connection_id: Seq<char>,
    pub selected_protocol: u32,
    pub compatibility_epoch: u32,
    pub state: LifecycleState,
}

impl View for AcceptedFrame {
    type V = AcceptedFrameView;

    open spec fn view(&self) -> AcceptedFrameView {
        AcceptedFrameView {
            kind: self.kind,
            host_epoch: self.host_epoch@,
            connection_id: self.connection_id@,
            selected_protocol: self.selected_protocol,
            compatibility_epoch: self.compatibility_epoch,
            state: self.state,
        }
    }
}

impl Clone for AcceptedFrame {
    fn clone(&self) -> (r: Self)
        ensures
            r@ == self@,
    {
        AcceptedFrame {
            kind: self.kind,
            host_epoch: self.host_epoch.clone(),
            connection_id: self.connection_id.clone(),
            selected_protocol: self.selected_protocol,
            compatibility_epoch: self.compatibility_epoch,
            state: self.state,
        }
    }
}

impl AcceptedFrameView {
    /// The members of the JSON object, in key order.
    pub open spec fn fields(self) -> Seq<Field> {
        Seq::empty()
            .push(("compatibilityEpoch"@, Some(JsonView::Number(self.compatibility_epoch as int))))
            .push(("connectionId"@, Some(JsonView::Text(self.connection_id))))
            .push(("hostEpoch"@, Some(JsonView::Text(self.host_epoch))))
            .push(("kind"@, Some(self.kind.json())))
            .push(("selectedProtocol"@, Some(JsonView::Number(self.selected_protocol as int))))
            .push(("state"@, Some(self.state.json())))
    }

    pub open spec fn json(self) -> JsonView {
        JsonView::Object(present(self.fields()))
    }

    /// The only keys the object may have.
    pub open spec fn keys() -> Seq<Seq<char>> {
        seq!["compatibilityEpoch"@, "connectionId"@, "hostEpoch"@, "kind"@, "selectedProtocol"@, "state"@]
    }

    /// The members in the order of declaration.
    pub open spec fn order() -> Seq<Seq<char>> {
        seq!["kind"@, "hostEpoch"@, "connectionId"@, "selectedProtocol"@, "compatibilityEpoch"@, "state"@]
    }

    /// What the JSON value `v` says; `None` when it is neither such an object nor a list
    /// of its members.
    pub open spec fn of_json(v: JsonView) -> Option<AcceptedFrameView> {
        AcceptedFrameView::of_object(struct_form(v, AcceptedFrameView::order(), 6))
    }

    /// What the JSON object `v` says; `None` when it is no such object.
    pub open spec fn of_object(v: JsonView) -> Option<AcceptedFrameView> {
        let kind = member_at(v, "kind"@, |j: JsonView| HandshakeKind::of_json(j));
        let host_epoch = v.text_at("hostEpoch"@);
        let connection_id = v.text_at("connectionId"@);
        let selected_protocol = u32_at(v, "selectedProtocol"@);
        let compatibility_epoch = default_u32_at(v, "compatibilityEpoch"@);
        let state = member_at(v, "state"@, |j: JsonView| LifecycleState::of_json(j));
        if only_keys(v, AcceptedFrameView::keys()) && kind is Some && host_epoch is Some && connection_id is Some && selected_protocol is Some && compatibility_epoch is Some && state is Some {
            Some(
                AcceptedFrameView {
                    kind: kind->0,
                    host_epoch: host_epoch->0,
                    connection_id: connection_id->0,
                    selected_protocol: selected_protocol->0,
                    compatibility_epoch: compatibility_epoch->0,
                    state: state->0,
                },
            )
        } else {
            None
        }
    }

    proof fn lemma_keys(self)
        ensures
            keys_ascend(self.fields()),
    {
        assert(text_lt("compatibilityEpoch"@, "connectionId"@)) by {
            reveal_strlit("compatibilityEpoch");
            reveal_strlit("connectionId");
            assert(lt_at("compatibilityEpoch"@, "connectionId"@, 2));
        };
        assert(text_lt("connectionId"@, "hostEpoch"@)) by {
            reveal_strlit("connectionId");
            reveal_strlit("hostEpoch");
            assert(lt_at("connectionId"@, "hostEpoch"@, 0));
        };
        assert(text_lt("hostEpoch"@, "kind"@)) by {
            reveal_strlit("hostEpoch");
            reveal_strlit("kind");
            assert(lt_at("hostEpoch"@, "kind"@, 0));
        };
        assert(text_lt("kind"@, "selectedProtocol"@)) by {
            reveal_strlit("kind");
            reveal_strlit("selectedProtocol");
            assert(lt_at("kind"@, "selectedProtocol"@, 0));
        };
        assert(text_lt("selectedProtocol"@, "state"@)) by {
            reveal_strlit("selectedProtocol");
            reveal_strlit("state");
            assert(lt_at("selectedProtocol"@, "state"@, 1));
        };
        lemma_step_ascends(self.fields());
    }

    /// Reading what was written gives the same value back.
    pub proof fn lemma_round_trip(self)
        ensures
            AcceptedFrameView::of_json(self.json()) == Some(self),
            self.json().get("kind"@) == Some(self.kind.json()),
            self.json().get("compatibilityEpoch"@) == (Some(JsonView::Number(self.compatibility_epoch as int))),
            self.json().get("connectionId"@) == (Some(JsonView::Text(self.connection_id))),
            self.json().get("hostEpoch"@) == (Some(JsonView::Text(self.host_epoch))),
            self.json().get("selectedProtocol"@) == (Some(JsonView::Number(self.selected_protocol as int))),
            self.json().get("state"@) == (Some(self.state.json())),
    {
        let f = self.fields();
        self.lemma_keys();
        assert(self.json().get("compatibilityEpoch"@) == Some(JsonView::Number(self.compatibility_epoch as int))) by {
            lemma_lookup(f, 0);
        };
        assert(self.json().get("connectionId"@) == Some(JsonView::Text(self.connection_id))) by {
            lemma_lookup(f, 1);
        };
        assert(self.json().get("hostEpoch"@) == Some(JsonView::Text(self.host_epoch))) by {
            lemma_lookup(f, 2);
        };
        assert(self.json().get("kind"@) == Some(self.kind.json())) by {
            lemma_lookup(f, 3);
        };
        assert(self.json().get("selectedProtocol"@) == Some(JsonView::Number(self.selected_protocol as int))) by {
            lemma_lookup(f, 4);
        };
        assert(self.json().get("state"@) == Some(self.state.json())) by {
            lemma_lookup(f, 5);
        };
        assert(AcceptedFrameView::keys()[0] == "compatibilityEpoch"@);
        assert(AcceptedFrameView::keys()[1] == "connectionId"@);
        assert(AcceptedFrameView::keys()[2] == "hostEpoch"@);
        assert(AcceptedFrameView::keys()[3] == "kind"@);
        assert(AcceptedFrameView::keys()[4] == "selectedProtocol"@);
        assert(AcceptedFrameView::keys()[5] == "state"@);
        lemma_only_keys(f, AcceptedFrameView::keys());
        self.kind.lemma_wire();
        self.state.lemma_wire();
    }

    /// The JSON object reads back from its text.
    pub proof fn lemma_sound(self, n: int)
        requires
            n >= 1,
        ensures
            sound(self.json(), n),
    {
        self.lemma_keys();
        lemma_sound_object(self.fields(), n);
    }
}

impl AcceptedFrame {
    /// The JSON object for this value.
    pub fn to_json(&self) -> (r: Json)
        ensures
            r@ == self@.json(),
    {
        let mut b = ObjectBuilder::new();
        b.put("compatibilityEpoch", Json::Uint(self.compatibility_epoch as u64));
        b.put_text("connectionId", self.connection_id.as_str());
        b.put_text("hostEpoch", self.host_epoch.as_str());
        b.put("kind", self.kind.to_json());
        b.put("selectedProtocol", Json::Uint(self.selected_protocol as u64));
        b.put("state", self.state.to_json());
        assert(b.fields() == self@.fields());
        b.build()
    }

    /// Reads the value back from its JSON object, or from a list of its members in the
    /// order of declaration; unknown members are refused.
    pub fn from_json(v: &Json) -> (r: Option<AcceptedFrame>)
        ensures
            match r {
                Some(x) => AcceptedFrameView::of_json(v@) == Some(x@),
                None => AcceptedFrameView::of_json(v@) is None,
            },
    {
        let names: [&str; 6] = ["kind", "hostEpoch", "connectionId", "selectedProtocol", "compatibilityEpoch", "state"];
        assert(key_views(names@) =~= AcceptedFrameView::order());
        match listed_members(v, &names, 6) {
            Some(o) => AcceptedFrame::from_object(&o),
            None => AcceptedFrame::from_object(v),
        }
    }

    fn from_object(v: &Json) -> (r: Option<AcceptedFrame>)
        ensures
            match r {
                Some(x) => AcceptedFrameView::of_object(v@) == Some(x@),
                None => AcceptedFrameView::of_object(v@) is None,
            },
    {
        let keys: [&str; 6] = ["compatibilityEpoch", "connectionId", "hostEpoch", "kind", "selectedProtocol", "state"];
        assert(key_views(keys@) =~= AcceptedFrameView::keys());
        if !has_only_keys(v, &keys) {
            return None;
        }
        let kind = match v.get("kind") {
            Some(j) => match HandshakeKind::from_json(j) {
                Some(x) => x,
                None => return None,
            },
            None => return None,
        };
        let host_epoch = match v.text_at("hostEpoch") {
            Some(x) => x,
            None => return None,
        };
        let connection_id = match v.text_at("connectionId") {
            Some(x) => x,
            None => return None,
        };
        let selected_protocol = match read_u32(v, "selectedProtocol") {
            Some(x) => x,
            None => return None,
        };
        let compatibility_epoch = match read_default_u32(v, "compatibilityEpoch") {
            Some(x) => x,
            None => return None,
        };
        let state = match v.get("state") {
            Some(j) => match LifecycleState::from_json(j) {
                Some(x) => x,
                None => return None,
            },
            None => return None,
        };
        Some(AcceptedFrame { kind, host_epoch, connection_id, selected_protocol, compatibility_epoch, state })
    }
}

impl AcceptedFrame {
    pub fn new(
        host_epoch: &str,
        connection_id: &str,
        selected_protocol: u32,
        compatibility_epoch: u32,
        state: LifecycleState,
    ) -> (r: Self)
        ensures
            r@ == (AcceptedFrameView {
                kind: HandshakeKind::Accepted,
                host_epoch: host_epoch@,
                connection_id: connection_id@,
                selected_protocol,
                compatibility_epoch,
                state,
            }),
    {
        AcceptedFrame {
            kind: HandshakeKind::Accepted,
            host_epoch: host_epoch.to_owned(),
            connection_id: connection_id.to_owned(),
            selected_protocol,
            compatibility_epoch,
            state,
        }
    }
}

/// Host-to-client incompatibility frame.
#[derive(Debug, PartialEq, Eq)]
pub struct IncompatibleFrame {
    pub kind: HandshakeKind,
    pub host_epoch: String,
    pub protocol_min: u32,
    pub protocol_max: u32,
    pub compatibility_epoch: u32,
    pub state: LifecycleState,
    pub replacement: ReplacementPolicy,
}

/// What a [`IncompatibleFrame`] says.
pub struct IncompatibleFrameView {
    pub kind: HandshakeKind,
    pub host_epoch: Seq<char>,
    pub protocol_min: u32,
    pub protocol_max: u32,
    pub compatibility_epoch: u32,
    pub state: LifecycleState,
    pub replacement: ReplacementPolicy,
}

impl View for IncompatibleFrame {
    type V = IncompatibleFrameView;

    open spec fn view(&self) -> IncompatibleFrameView {
        IncompatibleFrameView {
            kind: self.kind,
            host_epoch: self.host_epoch@,
            protocol_min: self.protocol_min,
            protocol_max: self.protocol_max,
            compatibility_epoch: self.compatibility_epoch,
            state: self.state,
            replacement: self.replacement,
        }
    }
}

impl Clone for IncompatibleFrame {
    fn clone(&self) -> (r: Self)
        ensures
            r@ == self@,
    {
        IncompatibleFrame {
            kind: self.kind,
            host_epoch: self.host_epoch.clone(),
            protocol_min: self.protocol_min,
            protocol_max: self.protocol_max,
            compatibility_epoch: self.compatibility_epoch,
            state: self.state,
            replacement: self.replacement,
        }
    }
}

impl IncompatibleFrameView {
    /// The members of the JSON object, in key order.
    pub open spec fn fields(self) -> Seq<Field> {
        Seq::empty()
            .push(("compatibilityEpoch"@, Some(JsonView::Number(self.compatibility_epoch as int))))
            .push(("hostEpoch"@, Some(JsonView::Text(self.host_epoch))))
            .push(("kind"@, Some(self.kind.json())))
            .push(("protocolMax"@, Some(JsonView::Number(self.protocol_max as int))))
            .push(("protocolMin"@, Some(JsonView::Number(self.protocol_min as int))))
            .push(("replacement"@, Some(self.replacement.json())))
            .push(("state"@, Some(self.state.json())))
    }

    pub open spec fn json(self) -> JsonView {
        JsonView::Object(present(self.fields()))
    }

    /// The only keys the object may have.
    pub open spec fn keys() -> Seq<Seq<char>> {
        seq!["compatibilityEpoch"@, "hostEpoch"@, "kind"@, "protocolMax"@, "protocolMin"@, "replacement"@, "state"@]
    }

    /// The members in the order of declaration.
    pub open spec fn order() -> Seq<Seq<char>> {
        seq!["kind"@, "hostEpoch"@, "protocolMin"@, "protocolMax"@, "compatibilityEpoch"@, "state"@, "replacement"@]
    }

    /// What the JSON value `v` says; `None` when it is neither such an object nor a list
    /// of its members.
    pub open spec fn of_json(v: JsonView) -> Option<IncompatibleFrameView> {
        IncompatibleFrameView::of_object(struct_form(v, IncompatibleFrameView::order(), 7))
    }

    /// What the JSON object `v` says; `None` when it is no such object.
    pub open spec fn of_object(v: JsonView) -> Option<IncompatibleFrameView> {
        let kind = member_at(v, "kind"@, |j: JsonView| HandshakeKind::of_json(j));
        let host_epoch = v.text_at("hostEpoch"@);
        let protocol_min = u32_at(v, "protocolMin"@);
        let protocol_max = u32_at(v, "protocolMax"@);
        let compatibility_epoch = default_u32_at(v, "compatibilityEpoch"@);
        let state = member_at(v, "state"@, |j: JsonView| LifecycleState::of_json(j));
        let replacement = member_at(v, "replacement"@, |j: JsonView| ReplacementPolicy::of_json(j));
        if only_keys(v, IncompatibleFrameView::keys()) && kind is Some && host_epoch is Some && protocol_min is Some && protocol_max is Some && compatibility_epoch is Some && state is Some && replacement is Some {
            Some(
                IncompatibleFrameView {
                    kind: kind->0,
                    host_epoch: host_epoch->0,
                    protocol_min: protocol_min->0,
                    protocol_max: protocol_max->0,
                    compatibility_epoch: compatibility_epoch->0,
                    state: state->0,
                    replacement: replacement->0,
                },
            )
        } else {
            None
        }
    }

    proof fn lemma_keys(self)
        ensures
            keys_ascend(self.fields()),
    {
        assert(text_lt("compatibilityEpoch"@, "hostEpoch"@)) by {
            reveal_strlit("compatibilityEpoch");
            reveal_strlit("hostEpoch");
            assert(lt_at("compatibilityEpoch"@, "hostEpoch"@, 0));
        };
        assert(text_lt("hostEpoch"@, "kind"@)) by {
            reveal_strlit("hostEpoch");
            reveal_strlit("kind");
            assert(lt_at("hostEpoch"@, "kind"@, 0));
        };
        assert(text_lt("kind"@, "protocolMax"@)) by {
            reveal_strlit("kind");
            reveal_strlit("protocolMax");
            assert(lt_at("kind"@, "protocolMax"@, 0));
        };
        assert(text_lt("protocolMax"@, "protocolMin"@)) by {
            reveal_strlit("protocolMax");
            reveal_strlit("protocolMin");
            assert(lt_at("protocolMax"@, "protocolMin"@, 9));
        };
        assert(text_lt("protocolMin"@, "replacement"@)) by {
            reveal_strlit("protocolMin");
            reveal_strlit("replacement");
            assert(lt_at("protocolMin"@, "replacement"@, 0));
        };
        assert(text_lt("replacement"@, "state"@)) by {
            reveal_strlit("replacement");
            reveal_strlit("state");
            assert(lt_at("replacement"@, "state"@, 0));
        };
        lemma_step_ascends(self.fields());
    }

    /// Reading what was written gives the same value back.
    pub proof fn lemma_round_trip(self)
        ensures
            IncompatibleFrameView::of_json(self.json()) == Some(self),
            self.json().get("kind"@) == Some(self.kind.json()),
            self.json().get("compatibilityEpoch"@) == (Some(JsonView::Number(self.compatibility_epoch as int))),
            self.json().get("hostEpoch"@) == (Some(JsonView::Text(self.host_epoch))),
            self.json().get("protocolMax"@) == (Some(JsonView::Number(self.protocol_max as int))),
            self.json().get("protocolMin"@) == (Some(JsonView::Number(self.protocol_min as int))),
            self.json().get("replacement"@) == (Some(self.replacement.json())),
            self.json().get("state"@) == (Some(self.state.json())),
    {
        let f = self.fields();
        self.lemma_keys();
        assert(self.json().get("compatibilityEpoch"@) == Some(JsonView::Number(self.compatibility_epoch as int))) by {
            lemma_lookup(f, 0);
        };
        assert(self.json().get("hostEpoch"@) == Some(JsonView::Text(self.host_epoch))) by {
            lemma_lookup(f, 1);
        };
        assert(self.json().get("kind"@) == Some(self.kind.json())) by {
            lemma_lookup(f, 2);
        };
        assert(self.json().get("protocolMax"@) == Some(JsonView::Number(self.protocol_max as int))) by {
            lemma_lookup(f, 3);
        };
        assert(self.json().get("protocolMin"@) == Some(JsonView::Number(self.protocol_min as int))) by {
            lemma_lookup(f, 4);
        };
        assert(self.json().get("replacement"@) == Some(self.replacement.json())) by {
            lemma_lookup(f, 5);
        };
        assert(self.json().get("state"@) == Some(self.state.json())) by {
            lemma_lookup(f, 6);
        };
        assert(IncompatibleFrameView::keys()[0] == "compatibilityEpoch"@);
        assert(IncompatibleFrameView::keys()[1] == "hostEpoch"@);
        assert(IncompatibleFrameView::keys()[2] == "kind"@);
        assert(IncompatibleFrameView::keys()[3] == "protocolMax"@);
        assert(IncompatibleFrameView::keys()[4] == "protocolMin"@);
        assert(IncompatibleFrameView::keys()[5] == "replacement"@);
        assert(IncompatibleFrameView::keys()[6] == "state"@);
        lemma_only_keys(f, IncompatibleFrameView::keys());
        self.kind.lemma_wire();
        self.state.lemma_wire();
        self.replacement.lemma_wire();
    }

    /// The JSON object reads back from its text.
    pub proof fn lemma_sound(self, n: int)
        requires
            n >= 1,
        ensures
            sound(self.json(), n),
    {
        self.lemma_keys();
        lemma_sound_object(self.fields(), n);
    }
}

impl IncompatibleFrame {
    /// The JSON object for this value.
    pub fn to_json(&self) -> (r: Json)
        ensures
            r@ == self@.json(),
    {
        let mut b = ObjectBuilder::new();
        b.put("compatibilityEpoch", Json::Uint(self.compatibility_epoch as u64));
        b.put_text("hostEpoch", self.host_epoch.as_str());
        b.put("kind", self.kind.to_json());
        b.put("protocolMax", Json::Uint(self.protocol_max as u64));
        b.put("protocolMin", Json::Uint(self.protocol_min as u64));
        b.put("replacement", self.replacement.to_json());
        b.put("state", self.state.to_json());
        assert(b.fields() == self@.fields());
        b.build()
    }

    /// Reads the value back from its JSON object, or from a list of its members in the
    /// order of declaration; unknown members are refused.
    pub fn from_json(v: &Json) -> (r: Option<IncompatibleFrame>)
        ensures
            match r {
                Some(x) => IncompatibleFrameView::of_json(v@) == Some(x@),
                None => IncompatibleFrameView::of_json(v@) is None,
            },
    {
        let names: [&str; 7] = ["kind", "hostEpoch", "protocolMin", "protocolMax", "compatibilityEpoch", "state", "replacement"];
        assert(key_views(names@) =~= IncompatibleFrameView::order());
        match listed_members(v, &names, 7) {
            Some(o) => IncompatibleFrame::from_object(&o),
            None => IncompatibleFrame::from_object(v),
        }
    }

    fn from_object(v: &Json) -> (r: Option<IncompatibleFrame>)
        ensures
            match r {
                Some(x) => IncompatibleFrameView::of_object(v@) == Some(x@),
                None => IncompatibleFrameView::of_object(v@) is None,
            },
    {
        let keys: [&str; 7] = ["compatibilityEpoch", "hostEpoch", "kind", "protocolMax", "protocolMin", "replacement", "state"];
        assert(key_views(keys@) =~= IncompatibleFrameView::keys());
        if !has_only_keys(v, &keys) {
            return None;
        }
        let kind = match v.get("kind") {
            Some(j) => match HandshakeKind::from_json(j) {
                Some(x) => x,
                None => return None,
            },
            None => return None,
        };
        let host_epoch = match v.text_at("hostEpoch") {
            Some(x) => x,
            None => return None,
        };
        let protocol_min = match read_u32(v, "protocolMin") {
            Some(x) => x,
            None => return None,
        };
        let protocol_max = match read_u32(v, "protocolMax") {
            Some(x) => x,
            None => return None,
        };
        let compatibility_epoch = match read_default_u32(v, "compatibilityEpoch") {
            Some(x) => x,
            None => return None,
        };
        let state = match v.get("state") {
            Some(j) => match LifecycleState::from_json(j) {
                Some(x) => x,
                None => return None,
            },
            None => return None,
        };
        let replacement = match v.get("replacement") {
            Some(j) => match ReplacementPolicy::from_json(j) {
                Some(x) => x,
                None => return None,
            },
            None => return None,
        };
        Some(IncompatibleFrame { kind, host_epoch, protocol_min, protocol_max, compatibility_epoch, state, replacement })
    }
}

/// Host-to-client draining frame.
#[derive(Debug, PartialEq, Eq)]
pub struct DrainingFrame {
    pub kind: HandshakeKind,
    pub host_epoch: String,
}

/// What a [`DrainingFrame`] says.
pub struct DrainingFrameView {
    pub kind: HandshakeKind,
    pub host_epoch: Seq<char>,
}

impl View for DrainingFrame {
    type V = DrainingFrameView;

    open spec fn view(&self) -> DrainingFrameView {
        DrainingFrameView {
            kind: self.kind,
            host_epoch: self.host_epoch@,
        }
    }
}

impl Clone for DrainingFrame {
    fn clone(&self) -> (r: Self)
        ensures
            r@ == self@,
    {
        DrainingFrame {
            kind: self.kind,
            host_epoch: self.host_epoch.clone(),
        }
    }
}

impl DrainingFrameView {
    /// The members of the JSON object, in key order.
    pub open spec fn fields(self) -> Seq<Field> {
        Seq::empty()
            .push(("hostEpoch"@, Some(JsonView::Text(self.host_epoch))))
            .push(("kind"@, Some(self.kind.json())))
    }

    pub open spec fn json(self) -> JsonView {
        JsonView::Object(present(self.fields()))
    }

    /// The only keys the object may have.
    pub open spec fn keys() -> Seq<Seq<char>> {
        seq!["hostEpoch"@, "kind"@]
    }

    /// The members in the order of declaration.
    pub open spec fn order() -> Seq<Seq<char>> {
        seq!["kind"@, "hostEpoch"@]
    }

    /// What the JSON value `v` says; `None` when it is neither such an object nor a list
    /// of its members.
    pub open spec fn of_json(v: JsonView) -> Option<DrainingFrameView> {
        DrainingFrameView::of_object(struct_form(v, DrainingFrameView::order(), 2))
    }

    /// What the JSON object `v` says; `None` when it is no such object.
    pub open spec fn of_object(v: JsonView) -> Option<DrainingFrameView> {
        let kind = member_at(v, "kind"@, |j: JsonView| HandshakeKind::of_json(j));
        let host_epoch = v.text_at("hostEpoch"@);
        if only_keys(v, DrainingFrameView::keys()) && kind is Some && host_epoch is Some {
            Some(
                DrainingFrameView {
                    kind: kind->0,
                    host_epoch: host_epoch->0,
                },
            )
        } else {
            None
        }
    }

    proof fn lemma_keys(self)
        ensures
            keys_ascend(self.fields()),
    {
        assert(text_lt("hostEpoch"@, "kind"@)) by {
            reveal_strlit("hostEpoch");
            reveal_strlit("kind");
            assert(lt_at("hostEpoch"@, "kind"@, 0));
        };
        lemma_step_ascends(self.fields());
    }

    /// Reading what was written gives the same value back.
    pub proof fn lemma_round_trip(self)
        ensures
            DrainingFrameView::of_json(self.json()) == Some(self),
            self.json().get("kind"@) == Some(self.kind.json()),
            self.json().get("hostEpoch"@) == (Some(JsonView::Text(self.host_epoch))),
    {
        let f = self.fields();
        self.lemma_keys();
        assert(self.json().get("hostEpoch"@) == Some(JsonView::Text(self.host_epoch))) by {
            lemma_lookup(f, 0);
        };
        assert(self.json().get("kind"@) == Some(self.kind.json())) by {
            lemma_lookup(f, 1);
        };
        assert(DrainingFrameView::keys()[0] == "hostEpoch"@);
        assert(DrainingFrameView::keys()[1] == "kind"@);
        lemma_only_keys(f, DrainingFrameView::keys());
        self.kind.lemma_wire();
    }

    /// The JSON object reads back from its text.
    pub proof fn lemma_sound(self, n: int)
        requires
            n >= 1,
        ensures
            sound(self.json(), n),
    {
        self.lemma_keys();
        lemma_sound_object(self.fields(), n);
    }
}

impl DrainingFrame {
    /// The JSON object for this value.
    pub fn to_json(&self) -> (r: Json)
        ensures
            r@ == self@.json(),
    {
        let mut b = ObjectBuilder::new();
        b.put_text("hostEpoch", self.host_epoch.as_str());
        b.put("kind", self.kind.to_json());
        assert(b.fields() == self@.fields());
        b.build()
    }

    /// Reads the value back from its JSON object, or from a list of its members in the
    /// order of declaration; unknown members are refused.
    pub fn from_json(v: &Json) -> (r: Option<DrainingFrame>)
        ensures
            match r {
                Some(x) => DrainingFrameView::of_json(v@) == Some(x@),
                None => DrainingFrameView::of_json(v@) is None,
            },
    {
        let names: [&str; 2] = ["kind", "hostEpoch"];
        assert(key_views(names@) =~= DrainingFrameView::order());
        match listed_members(v, &names, 2) {
            Some(o) => DrainingFrame::from_object(&o),
            None => DrainingFrame::from_object(v),
        }
    }

    fn from_object(v: &Json) -> (r: Option<DrainingFrame>)
        ensures
            match r {
                Some(x) => DrainingFrameView::of_object(v@) == Some(x@),
                None => DrainingFrameView::of_object(v@) is None,
            },
    {
        let keys: [&str; 2] = ["hostEpoch", "kind"];
        assert(key_views(keys@) =~= DrainingFrameView::keys());
        if !has_only_keys(v, &keys) {
            return None;
        }
        let kind = match v.get("kind") {
            Some(j) => match HandshakeKind::from_json(j) {
                Some(x) => x,
                None => return None,
            },
            None => return None,
        };
        let host_epoch = match v.text_at("hostEpoch") {
            Some(x) => x,
            None => return None,
        };
        Some(DrainingFrame { kind, host_epoch })
    }
}

impl DrainingFrame {
    pub fn new(host_epoch: &str) -> (r: Self)
        ensures
            r@ == (DrainingFrameView { kind: HandshakeKind::Draining, host_epoch: host_epoch@ }),
    {
        DrainingFrame { kind: HandshakeKind::Draining, host_epoch: host_epoch.to_owned() }
    }
}

/// The host's single handshake reply.
#[derive(Debug, PartialEq, Eq)]
pub enum HandshakeResult {
    Accepted(AcceptedFrame),
    Incompatible(IncompatibleFrame),
    Draining(DrainingFrame),
}

impl Clone for HandshakeResult {
    fn clone(&self) -> (r: Self)
        ensures
            r@ == self@,
    {
        match self {
            HandshakeResult::Accepted(f) => HandshakeResult::Accepted(f.clone()),
            HandshakeResult::Incompatible(f) => HandshakeResult::Incompatible(f.clone()),
            HandshakeResult::Draining(f) => HandshakeResult::Draining(f.clone()),
        }
    }
}

/// What a [`HandshakeResult`] says.
pub enum HandshakeResultView {
    Accepted(AcceptedFrameView),
    Incompatible(IncompatibleFrameView),
    Draining(DrainingFrameView),
}

impl View for HandshakeResult {
    type V = HandshakeResultView;

    open spec fn view(&self) -> HandshakeResultView {
        match *self {
            HandshakeResult::Accepted(f) => HandshakeResultView::Accepted(f@),
            HandshakeResult::Incompatible(f) => HandshakeResultView::Incompatible(f@),
            HandshakeResult::Draining(f) => HandshakeResultView::Draining(f@),
        }
    }
}

impl HandshakeResultView {
    /// The JSON object of the reply.
    pub open spec fn json(self) -> JsonView {
        match self {
            HandshakeResultView::Accepted(f) => f.json(),
            HandshakeResultView::Incompatible(f) => f.json(),
            HandshakeResultView::Draining(f) => f.json(),
        }
    }
}

impl HandshakeResult {
    /// The JSON object of the reply.
    pub fn to_json(&self) -> (r: Json)
        ensures
            r@ == self@.json(),
    {
        match self {
            HandshakeResult::Accepted(f) => f.to_json(),
            HandshakeResult::Incompatible(f) => f.to_json(),
            HandshakeResult::Draining(f) => f.to_json(),
        }
    }
}

// ---------------------------------------------------------------------------
// Negotiation
// ---------------------------------------------------------------------------

/// Validate a `[min, max]` protocol range (non-negative by construction).
pub fn validate_protocol_range(min: u32, max: u32) -> (r: Result<(), HandshakeError>)
    ensures
        r == (if min > max {
            Err(HandshakeError::InvalidRange { min, max })
        } else {
            Ok(())
        }),
{
    if min > max {
        Err(HandshakeError::InvalidRange { min, max })
    } else {
        Ok(())
    }
}

/// `v` lies in both ranges.
pub open spec fn common(
    v: u32,
    client_min: u32,
    client_max: u32,
    host_min: u32,
    host_max: u32,
) -> bool {
    client_min <= v <= client_max && host_min <= v <= host_max
}

/// What two peers agree on: the highest version both speak. An inverted range is
/// refused, the client's first.
pub open spec fn negotiated(
    client_min: u32,
    client_max: u32,
    host_min: u32,
    host_max: u32,
) -> Result<u32, HandshakeError> {
    if client_min > client_max {
        Err(HandshakeError::InvalidRange { min: client_min, max: client_max })
    } else if host_min > host_max {
        Err(HandshakeError::InvalidRange { min: host_min, max: host_max })
    } else {
        let selected = if client_max <= host_max {
            client_max
        } else {
            host_max
        };
        if common(selected, client_min, client_max, host_min, host_max) {
            Ok(selected)
        } else {
            Err(HandshakeError::NoOverlap)
        }
    }
}

/// Pick the selected protocol version, or fail if the ranges do not overlap.
pub fn negotiate_protocol(client_min: u32, client_max: u32, host_min: u32, host_max: u32) -> (r:
    Result<u32, HandshakeError>)
    ensures
        r == negotiated(client_min, client_max, host_min, host_max),
{
    match validate_protocol_range(client_min, client_max) {
        Err(e) => return Err(e),
        Ok(_) => {},
    }
    match validate_protocol_range(host_min, host_max) {
        Err(e) => return Err(e),
        Ok(_) => {},
    }
    let selected: u32 = if client_max <= host_max {
        client_max
    } else {
        host_max
    };
    let floor: u32 = if client_min >= host_min {
        client_min
    } else {
        host_min
    };
    if selected >= floor {
        Ok(selected)
    } else {
        Err(HandshakeError::NoOverlap)
    }
}

/// The selected version is the highest that both sides speak, and negotiation
/// fails on valid ranges only if there is none.
pub proof fn law_negotiation_picks_the_highest_common(
    client_min: u32,
    client_max: u32,
    host_min: u32,
    host_max: u32,
    v: u32,
)
    requires
        client_min <= client_max,
        host_min <= host_max,
    ensures
        match negotiated(client_min, client_max, host_min, host_max) {
            Ok(selected) => common(selected, client_min, client_max, host_min, host_max) && (common(
                v,
                client_min,
                client_max,
                host_min,
                host_max,
            ) ==> v <= selected),
            Err(e) => e == HandshakeError::NoOverlap && !common(
                v,
                client_min,
                client_max,
                host_min,
                host_max,
            ),
        },
{
}

/// Both peers compute the same version.
pub proof fn law_negotiation_is_symmetric(a_min: u32, a_max: u32, b_min: u32, b_max: u32)
    requires
        a_min <= a_max,
        b_min <= b_max,
    ensures
        negotiated(a_min, a_max, b_min, b_max) == negotiated(b_min, b_max, a_min, a_max),
{
}

/// Which version two ranges settle on: none where one of them is upside down, and it is
/// named; none where they do not meet; else the lower of the two upper ends.
pub proof fn law_negotiation_by_ranges(a_min: u32, a_max: u32, b_min: u32, b_max: u32, r: Result<
    u32,
    HandshakeError,
>)
    requires
        call_ensures(negotiate_protocol, (a_min, a_max, b_min, b_max), r),
    ensures
        a_min > a_max ==> r == Err::<u32, HandshakeError>(
            HandshakeError::InvalidRange { min: a_min, max: a_max },
        ),
        a_min <= a_max && b_min > b_max ==> r == Err::<u32, HandshakeError>(
            HandshakeError::InvalidRange { min: b_min, max: b_max },
        ),
        a_min <= a_max && b_min <= b_max ==> (if a_min <= b_max && b_min <= a_max {
            r == Ok::<u32, HandshakeError>(
                if a_max < b_max {
                    a_max
                } else {
                    b_max
                },
            )
        } else {
            r == Err::<u32, HandshakeError>(HandshakeError::NoOverlap)
        }),
{
}

impl HelloFrameView {
    /// Only these members are known: an object with any other is refused.
    pub proof fn law_schema_is_closed(members: Seq<crate::json::Member>, i: int)
        requires
            HelloFrameView::of_json(JsonView::Object(members)) is Some,
            0 <= i < members.len(),
        ensures
            members[i].0 == "clientInstanceId"@
                || members[i].0 == "compatibilityEpoch"@
                || members[i].0 == "kind"@
                || members[i].0 == "protocolMax"@
                || members[i].0 == "protocolMin"@
                || members[i].0 == "surface"@,
    {
        let keys = HelloFrameView::keys();
        let key = members[i].0;
        assert(keys.contains(key));
        let k = choose|k: int| 0 <= k < keys.len() && keys[k] == key;
        assert(keys.len() == 6);
    }
}

impl AcceptedFrameView {
    /// Only these members are known: an object with any other is refused.
    pub proof fn law_schema_is_closed(members: Seq<crate::json::Member>, i: int)
        requires
            AcceptedFrameView::of_json(JsonView::Object(members)) is Some,
            0 <= i < members.len(),
        ensures
            members[i].0 == "compatibilityEpoch"@
                || members[i].0 == "connectionId"@
                || members[i].0 == "hostEpoch"@
                || members[i].0 == "kind"@
                || members[i].0 == "selectedProtocol"@
                || members[i].0 == "state"@,
    {
        let keys = AcceptedFrameView::keys();
        let key = members[i].0;
        assert(keys.contains(key));
        let k = choose|k: int| 0 <= k < keys.len() && keys[k] == key;
        assert(keys.len() == 6);
    }
}

impl IncompatibleFrameView {
    /// Only these members are known: an object with any other is refused.
    pub proof fn law_schema_is_closed(members: Seq<crate::json::Member>, i: int)
        requires
            IncompatibleFrameView::of_json(JsonView::Object(members)) is Some,
            0 <= i < members.len(),
        ensures
            members[i].0 == "compatibilityEpoch"@
                || members[i].0 == "hostEpoch"@
                || members[i].0 == "kind"@
                || members[i].0 == "protocolMax"@
                || members[i].0 == "protocolMin"@
                || members[i].0 == "replacement"@
                || members[i].0 == "state"@,
    {
        let keys = IncompatibleFrameView::keys();
        let key = members[i].0;
        assert(keys.contains(key));
        let k = choose|k: int| 0 <= k < keys.len() && keys[k] == key;
        assert(keys.len() == 7);
    }
}

impl DrainingFrameView {
    /// Only these members are known: an object with any other is refused.
    pub proof fn law_schema_is_closed(members: Seq<crate::json::Member>, i: int)
        requires
            DrainingFrameView::of_json(JsonView::Object(members)) is Some,
            0 <= i < members.len(),
        ensures
            members[i].0 == "hostEpoch"@
                || members[i].0 == "kind"@,
    {
        let keys = DrainingFrameView::keys();
        let key = members[i].0;
        assert(keys.contains(key));
        let k = choose|k: int| 0 <= k < keys.len() && keys[k] == key;
        assert(keys.len() == 2);
    }
}

/// A range is refused exactly where it ends before it begins, and the refusal shows it.
pub proof fn law_ranges_run_upward(min: u32, max: u32, r: Result<(), HandshakeError>)
    requires
        call_ensures(validate_protocol_range, (min, max), r),
    ensures
        r is Ok <==> min <= max,
        r matches Err(e) ==> e == (HandshakeError::InvalidRange { min, max }),
{
}

/// The messages of the ways in which no version is agreed on.
pub proof fn law_handshake_errors_have_messages(e: &HandshakeError, r: String)
    requires
        call_ensures(HandshakeError::message, (e,), r),
    ensures
        e is NoOverlap ==> r@ == "no protocol overlap"@,
        *e matches HandshakeError::InvalidRange { min, max } ==> r@ == "invalid protocol range: min "@
            + decimal(min as nat) + " > max "@ + decimal(max as nat),
{
}

} // verus!
