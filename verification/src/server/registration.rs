//! Discovery of the host that owns a root.
//!
//! Exactly one host process owns each storage root, by an exclusive lock on a
//! file in the control directory. The registration record in the same directory
//! advertises the socket endpoint and host epoch so a client can find and connect
//! to the owner. The lock is the ownership invariant; the record is discovery.

use crate::json::Field;
use crate::json::Json;
use crate::json::JsonView;
use crate::json::MAX_NESTING;
use crate::json::ObjectBuilder;
use crate::json::canonical;
use crate::json::opt;
use crate::json::present;
use crate::protocol::handshake::LifecycleState;
use crate::protocol::versions::COMPATIBILITY_EPOCH;
use crate::protocol::versions::PROTOCOL_MAX;
use crate::protocol::versions::PROTOCOL_MIN;
use crate::protocol::versions::REGISTRATION_SCHEMA_VERSION;
use crate::schema::has_only_keys;
use crate::schema::i64_at;
use crate::schema::key_views;
use crate::schema::keys_ascend;
use crate::schema::lemma_lookup;
use crate::schema::lemma_only_keys;
use crate::schema::lemma_step_ascends;
use crate::schema::member_at;
use crate::schema::only_keys;
use crate::schema::read_i64;
use crate::schema::read_u32;
use crate::schema::u32_at;
use crate::text::chars_of;
use crate::text::concat;
use crate::text::concat3;
use crate::text::decimal;
use crate::text::decimal_text;
use crate::text::lt_at;
use crate::text::str_eq;
use crate::text::text_lt;
use crate::schema::listed_members;
use crate::schema::struct_form;
use crate::json::integral;
use crate::json::nested_within;
use crate::json::ordered_text;
use crate::json::tree;
use crate::json::tree_members;
use crate::json::lemma_tree_lookup;
use crate::json::lemma_tree_keys;
use crate::schema::lemma_present_all;
use crate::text::lemma_lt_irreflexive;
use vstd::prelude::*;

verus! {

/// The `kind` of a registration record.
pub const REGISTRATION_KIND: &'static str = "meepo-runtime-host";

pub const REGISTRATION_FILE: &'static str = "registration.json";

pub const OWNER_LOCK_FILE: &'static str = "owner.lock";

pub const CONTROL_DIR: &'static str = "control";

/// The discovery record, written atomically into the control directory.
#[derive(Debug, PartialEq)]
pub struct HostRegistration {
    pub kind: String,
    pub schema_version: u32,
    pub root_id: String,
    pub host_epoch: String,
    pub endpoint: String,
    pub protocol_min: u32,
    pub protocol_max: u32,
    pub compatibility_epoch: u32,
    pub state: LifecycleState,
    pub pid: u32,
    pub created_at: i64,
}

/// What a [`HostRegistration`] says.
pub struct HostRegistrationView {
    pub kind: Seq<char>,
    pub schema_version: u32,
    pub root_id: Seq<char>,
    pub host_epoch: Seq<char>,
    pub endpoint: Seq<char>,
    pub protocol_min: u32,
    pub protocol_max: u32,
    pub compatibility_epoch: u32,
    pub state: LifecycleState,
    pub pid: u32,
    pub created_at: i64,
}

impl View for HostRegistration {
    type V = HostRegistrationView;

    open spec fn view(&self) -> HostRegistrationView {
        HostRegistrationView {
            kind: self.kind@,
            schema_version: self.schema_version,
            root_id: self.root_id@,
            host_epoch: self.host_epoch@,
            endpoint: self.endpoint@,
            protocol_min: self.protocol_min,
            protocol_max: self.protocol_max,
            compatibility_epoch: self.compatibility_epoch,
            state: self.state,
            pid: self.pid,
            created_at: self.created_at,
        }
    }
}

impl Clone for HostRegistration {
    fn clone(&self) -> (r: Self)
        ensures
            r@ == self@,
    {
        HostRegistration {
            kind: self.kind.clone(),
            schema_version: self.schema_version,
            root_id: self.root_id.clone(),
            host_epoch: self.host_epoch.clone(),
            endpoint: self.endpoint.clone(),
            protocol_min: self.protocol_min,
            protocol_max: self.protocol_max,
            compatibility_epoch: self.compatibility_epoch,
            state: self.state,
            pid: self.pid,
            created_at: self.created_at,
        }
    }
}

impl HostRegistrationView {
    /// The members of the JSON object, in key order.
    #[verifier::opaque]
    pub open spec fn fields(self) -> Seq<Field> {
        Seq::empty()
            .push(("compatibilityEpoch"@, Some(JsonView::Number(self.compatibility_epoch as int))))
            .push(("createdAt"@, Some(JsonView::Number(self.created_at as int))))
            .push(("endpoint"@, Some(JsonView::Text(self.endpoint))))
            .push(("hostEpoch"@, Some(JsonView::Text(self.host_epoch))))
            .push(("kind"@, Some(JsonView::Text(self.kind))))
            .push(("pid"@, Some(JsonView::Number(self.pid as int))))
            .push(("protocolMax"@, Some(JsonView::Number(self.protocol_max as int))))
            .push(("protocolMin"@, Some(JsonView::Number(self.protocol_min as int))))
            .push(("rootId"@, Some(JsonView::Text(self.root_id))))
            .push(("schemaVersion"@, Some(JsonView::Number(self.schema_version as int))))
            .push(("state"@, Some(self.state.json())))
    }

    pub open spec fn json(self) -> JsonView {
        JsonView::Object(present(self.fields()))
    }

    /// The only keys the object may have.
    pub open spec fn keys() -> Seq<Seq<char>> {
        seq!["compatibilityEpoch"@, "createdAt"@, "endpoint"@, "hostEpoch"@, "kind"@, "pid"@, "protocolMax"@, "protocolMin"@, "rootId"@, "schemaVersion"@, "state"@]
    }

    /// The members in the order of declaration.
    pub open spec fn order() -> Seq<Seq<char>> {
        seq!["kind"@, "schemaVersion"@, "rootId"@, "hostEpoch"@, "endpoint"@, "protocolMin"@, "protocolMax"@, "compatibilityEpoch"@, "state"@, "pid"@, "createdAt"@]
    }

    /// What the JSON value `v` says; `None` when it is neither such an object nor a list
    /// of its members.
    pub open spec fn of_json(v: JsonView) -> Option<HostRegistrationView> {
        HostRegistrationView::of_object(struct_form(v, HostRegistrationView::order(), 11))
    }

    /// What the JSON object `v` says; `None` when it is no such object.
    pub open spec fn of_object(v: JsonView) -> Option<HostRegistrationView> {
        let kind = v.text_at("kind"@);
        let schema_version = u32_at(v, "schemaVersion"@);
        let root_id = v.text_at("rootId"@);
        let host_epoch = v.text_at("hostEpoch"@);
        let endpoint = v.text_at("endpoint"@);
        let protocol_min = u32_at(v, "protocolMin"@);
        let protocol_max = u32_at(v, "protocolMax"@);
        let compatibility_epoch = u32_at(v, "compatibilityEpoch"@);
        let state = member_at(v, "state"@, |j: JsonView| LifecycleState::of_json(j));
        let pid = u32_at(v, "pid"@);
        let created_at = i64_at(v, "createdAt"@);
        if only_keys(v, HostRegistrationView::keys()) && kind is Some && schema_version is Some && root_id is Some && host_epoch is Some && endpoint is Some && protocol_min is Some && protocol_max is Some && compatibility_epoch is Some && state is Some && pid is Some && created_at is Some {
            Some(
                HostRegistrationView {
                    kind: kind->0,
                    schema_version: schema_version->0,
                    root_id: root_id->0,
                    host_epoch: host_epoch->0,
                    endpoint: endpoint->0,
                    protocol_min: protocol_min->0,
                    protocol_max: protocol_max->0,
                    compatibility_epoch: compatibility_epoch->0,
                    state: state->0,
                    pid: pid->0,
                    created_at: created_at->0,
                },
            )
        } else {
            None
        }
    }

    proof fn lemma_keys(self)
        ensures
            keys_ascend(self.fields()),
    {
        reveal(HostRegistrationView::fields);
        assert(text_lt("compatibilityEpoch"@, "createdAt"@)) by {
            reveal_strlit("compatibilityEpoch");
            reveal_strlit("createdAt");
            assert(lt_at("compatibilityEpoch"@, "createdAt"@, 1));
        };
        assert(text_lt("createdAt"@, "endpoint"@)) by {
            reveal_strlit("createdAt");
            reveal_strlit("endpoint");
            assert(lt_at("createdAt"@, "endpoint"@, 0));
        };
        assert(text_lt("endpoint"@, "hostEpoch"@)) by {
            reveal_strlit("endpoint");
            reveal_strlit("hostEpoch");
            assert(lt_at("endpoint"@, "hostEpoch"@, 0));
        };
        assert(text_lt("hostEpoch"@, "kind"@)) by {
            reveal_strlit("hostEpoch");
            reveal_strlit("kind");
            assert(lt_at("hostEpoch"@, "kind"@, 0));
        };
        assert(text_lt("kind"@, "pid"@)) by {
            reveal_strlit("kind");
            reveal_strlit("pid");
            assert(lt_at("kind"@, "pid"@, 0));
        };
        assert(text_lt("pid"@, "protocolMax"@)) by {
            reveal_strlit("pid");
            reveal_strlit("protocolMax");
            assert(lt_at("pid"@, "protocolMax"@, 1));
        };
        assert(text_lt("protocolMax"@, "protocolMin"@)) by {
            reveal_strlit("protocolMax");
            reveal_strlit("protocolMin");
            assert(lt_at("protocolMax"@, "protocolMin"@, 9));
        };
        assert(text_lt("protocolMin"@, "rootId"@)) by {
            reveal_strlit("protocolMin");
            reveal_strlit("rootId");
            assert(lt_at("protocolMin"@, "rootId"@, 0));
        };
        assert(text_lt("rootId"@, "schemaVersion"@)) by {
            reveal_strlit("rootId");
            reveal_strlit("schemaVersion");
            assert(lt_at("rootId"@, "schemaVersion"@, 0));
        };
        assert(text_lt("schemaVersion"@, "state"@)) by {
            reveal_strlit("schemaVersion");
            reveal_strlit("state");
            assert(lt_at("schemaVersion"@, "state"@, 1));
        };
        lemma_step_ascends(self.fields());
    }

    proof fn lemma_members(self)
        ensures
            self.json().get("compatibilityEpoch"@) == Some(JsonView::Number(self.compatibility_epoch as int)),
            self.json().get("createdAt"@) == Some(JsonView::Number(self.created_at as int)),
            self.json().get("endpoint"@) == Some(JsonView::Text(self.endpoint)),
            self.json().get("hostEpoch"@) == Some(JsonView::Text(self.host_epoch)),
            self.json().get("kind"@) == Some(JsonView::Text(self.kind)),
            self.json().get("pid"@) == Some(JsonView::Number(self.pid as int)),
            self.json().get("protocolMax"@) == Some(JsonView::Number(self.protocol_max as int)),
            self.json().get("protocolMin"@) == Some(JsonView::Number(self.protocol_min as int)),
            self.json().get("rootId"@) == Some(JsonView::Text(self.root_id)),
            self.json().get("schemaVersion"@) == Some(JsonView::Number(self.schema_version as int)),
            self.json().get("state"@) == Some(self.state.json()),
            self.json() is Object,
    {
        reveal(HostRegistrationView::fields);
        let f = self.fields();
        self.lemma_keys();
        assert(self.json().get("compatibilityEpoch"@) == Some(JsonView::Number(self.compatibility_epoch as int))) by {
            lemma_lookup(f, 0);
        };
        assert(self.json().get("createdAt"@) == Some(JsonView::Number(self.created_at as int))) by {
            lemma_lookup(f, 1);
        };
        assert(self.json().get("endpoint"@) == Some(JsonView::Text(self.endpoint))) by {
            lemma_lookup(f, 2);
        };
        assert(self.json().get("hostEpoch"@) == Some(JsonView::Text(self.host_epoch))) by {
            lemma_lookup(f, 3);
        };
        assert(self.json().get("kind"@) == Some(JsonView::Text(self.kind))) by {
            lemma_lookup(f, 4);
        };
        assert(self.json().get("pid"@) == Some(JsonView::Number(self.pid as int))) by {
            lemma_lookup(f, 5);
        };
        assert(self.json().get("protocolMax"@) == Some(JsonView::Number(self.protocol_max as int))) by {
            lemma_lookup(f, 6);
        };
        assert(self.json().get("protocolMin"@) == Some(JsonView::Number(self.protocol_min as int))) by {
            lemma_lookup(f, 7);
        };
        assert(self.json().get("rootId"@) == Some(JsonView::Text(self.root_id))) by {
            lemma_lookup(f, 8);
        };
        assert(self.json().get("schemaVersion"@) == Some(JsonView::Number(self.schema_version as int))) by {
            lemma_lookup(f, 9);
        };
        assert(self.json().get("state"@) == Some(self.state.json())) by {
            lemma_lookup(f, 10);
        };
    }

    /// Reading what was written gives the same value back.
    pub proof fn lemma_round_trip(self)
        ensures
            HostRegistrationView::of_json(self.json()) == Some(self),
    {
        self.lemma_members();
        assert(HostRegistrationView::keys()[0] == "compatibilityEpoch"@);
        assert(HostRegistrationView::keys()[1] == "createdAt"@);
        assert(HostRegistrationView::keys()[2] == "endpoint"@);
        assert(HostRegistrationView::keys()[3] == "hostEpoch"@);
        assert(HostRegistrationView::keys()[4] == "kind"@);
        assert(HostRegistrationView::keys()[5] == "pid"@);
        assert(HostRegistrationView::keys()[6] == "protocolMax"@);
        assert(HostRegistrationView::keys()[7] == "protocolMin"@);
        assert(HostRegistrationView::keys()[8] == "rootId"@);
        assert(HostRegistrationView::keys()[9] == "schemaVersion"@);
        assert(HostRegistrationView::keys()[10] == "state"@);
        assert(only_keys(self.json(), HostRegistrationView::keys())) by {
            reveal(HostRegistrationView::fields);
            lemma_only_keys(self.fields(), HostRegistrationView::keys());
        };
        self.state.lemma_wire();
    }
}

impl HostRegistration {
    /// The JSON object for this value.
    pub fn to_json(&self) -> (r: Json)
        ensures
            r@ == self@.json(),
    {
        let mut b = ObjectBuilder::new();
        b.put("compatibilityEpoch", Json::Uint(self.compatibility_epoch as u64));
        b.put("createdAt", Json::Int(self.created_at));
        b.put_text("endpoint", self.endpoint.as_str());
        b.put_text("hostEpoch", self.host_epoch.as_str());
        b.put_text("kind", self.kind.as_str());
        b.put("pid", Json::Uint(self.pid as u64));
        b.put("protocolMax", Json::Uint(self.protocol_max as u64));
        b.put("protocolMin", Json::Uint(self.protocol_min as u64));
        b.put_text("rootId", self.root_id.as_str());
        b.put("schemaVersion", Json::Uint(self.schema_version as u64));
        b.put("state", self.state.to_json());
        reveal(HostRegistrationView::fields);
        assert(b.fields() == self@.fields());
        b.build()
    }

    /// Reads the value back from its JSON object, or from a list of its members in the
    /// order of declaration; unknown members are refused.
    pub fn from_json(v: &Json) -> (r: Option<HostRegistration>)
        ensures
            match r {
                Some(x) => HostRegistrationView::of_json(v@) == Some(x@),
                None => HostRegistrationView::of_json(v@) is None,
            },
    {
        let names: [&str; 11] = ["kind", "schemaVersion", "rootId", "hostEpoch", "endpoint", "protocolMin", "protocolMax", "compatibilityEpoch", "state", "pid", "createdAt"];
        assert(key_views(names@) =~= HostRegistrationView::order());
        match listed_members(v, &names, 11) {
            Some(o) => HostRegistration::from_object(&o),
            None => HostRegistration::from_object(v),
        }
    }

    fn from_object(v: &Json) -> (r: Option<HostRegistration>)
        ensures
            match r {
                Some(x) => HostRegistrationView::of_object(v@) == Some(x@),
                None => HostRegistrationView::of_object(v@) is None,
            },
    {
        let keys: [&str; 11] = ["compatibilityEpoch", "createdAt", "endpoint", "hostEpoch", "kind", "pid", "protocolMax", "protocolMin", "rootId", "schemaVersion", "state"];
        assert(key_views(keys@) =~= HostRegistrationView::keys());
        if !has_only_keys(v, &keys) {
            return None;
        }
        let kind = match v.text_at("kind") {
            Some(x) => x,
            None => return None,
        };
        let schema_version = match read_u32(v, "schemaVersion") {
            Some(x) => x,
            None => return None,
        };
        let root_id = match v.text_at("rootId") {
            Some(x) => x,
            None => return None,
        };
        let host_epoch = match v.text_at("hostEpoch") {
            Some(x) => x,
            None => return None,
        };
        let endpoint = match v.text_at("endpoint") {
            Some(x) => x,
            None => return None,
        };
        let protocol_min = match read_u32(v, "protocolMin") {
            Some(x) => x,
            None => return None,
        };
        let protocol_max = match read_u32(v, "protocolMax") {
            Some(x) => x,
            None => return None,
        };
        let compatibility_epoch = match read_u32(v, "compatibilityEpoch") {
            Some(x) => x,
            None => return None,
        };
        let state = match v.get("state") {
            Some(j) => match LifecycleState::from_json(j) {
                Some(x) => x,
                None => return None,
            },
            None => return None,
        };
        let pid = match read_u32(v, "pid") {
            Some(x) => x,
            None => return None,
        };
        let created_at = match read_i64(v, "createdAt") {
            Some(x) => x,
            None => return None,
        };
        Some(HostRegistration { kind, schema_version, root_id, host_epoch, endpoint, protocol_min, protocol_max, compatibility_epoch, state, pid, created_at })
    }
}

/// The record of a host in the given state.
pub open spec fn registration_for(
    root_id: Seq<char>,
    host_epoch: Seq<char>,
    endpoint: Seq<char>,
    state: LifecycleState,
    pid: u32,
    now: i64,
) -> HostRegistrationView {
    HostRegistrationView {
        kind: REGISTRATION_KIND@,
        schema_version: REGISTRATION_SCHEMA_VERSION,
        root_id,
        host_epoch,
        endpoint,
        protocol_min: PROTOCOL_MIN,
        protocol_max: PROTOCOL_MAX,
        compatibility_epoch: COMPATIBILITY_EPOCH,
        state,
        pid,
        created_at: now,
    }
}

impl HostRegistrationView {
    /// The members of the JSON object in the order of declaration.
    #[verifier::opaque]
    pub open spec fn declared_fields(self) -> Seq<Field> {
        Seq::empty()
            .push(("kind"@, Some(JsonView::Text(self.kind))))
            .push(("schemaVersion"@, Some(JsonView::Number(self.schema_version as int))))
            .push(("rootId"@, Some(JsonView::Text(self.root_id))))
            .push(("hostEpoch"@, Some(JsonView::Text(self.host_epoch))))
            .push(("endpoint"@, Some(JsonView::Text(self.endpoint))))
            .push(("protocolMin"@, Some(JsonView::Number(self.protocol_min as int))))
            .push(("protocolMax"@, Some(JsonView::Number(self.protocol_max as int))))
            .push(("compatibilityEpoch"@, Some(JsonView::Number(self.compatibility_epoch as int))))
            .push(("state"@, Some(self.state.json())))
            .push(("pid"@, Some(JsonView::Number(self.pid as int))))
            .push(("createdAt"@, Some(JsonView::Number(self.created_at as int))))
    }

    /// The JSON object in the order of declaration, as it is written to the file.
    pub open spec fn declared_json(self) -> JsonView {
        JsonView::Object(present(self.declared_fields()))
    }

    /// Which of the ascending keys each declared member has.
    spec fn places() -> Seq<int> {
        seq![4, 9, 8, 3, 2, 7, 6, 0, 10, 5, 1]
    }

    /// The declared members are the fields in another order, each with its own key.
    proof fn lemma_declared(self)
        ensures
            self.declared_fields().len() == 11,
            present(self.declared_fields()).len() == 11,
            forall|i: int|
                0 <= i < 11 ==> (#[trigger] self.declared_fields()[i])
                    == self.fields()[HostRegistrationView::places()[i]],
            forall|i: int|
                0 <= i < 11 ==> #[trigger] present(self.declared_fields())[i] == (
                    self.declared_fields()[i].0,
                    self.declared_fields()[i].1->0,
                ),
            forall|i: int, j: int|
                0 <= i < j < 11 ==> (#[trigger] present(self.declared_fields())[i]).0 != (
                #[trigger] present(self.declared_fields())[j]).0,
    {
        reveal(HostRegistrationView::fields);
        reveal(HostRegistrationView::declared_fields);
        self.lemma_keys();
        let d = self.declared_fields();
        let f = self.fields();
        let p = HostRegistrationView::places();
        lemma_present_all(d);
        assert forall|i: int, j: int| 0 <= i < j < 11 implies (#[trigger] present(d)[i]).0 != (
        #[trigger] present(d)[j]).0 by {
            assert(d[i] == f[p[i]] && d[j] == f[p[j]]);
            assert(p[i] != p[j]);
            lemma_lt_irreflexive(d[i].0);
            if p[i] < p[j] {
                assert(text_lt(f[p[i]].0, f[p[j]].0));
            } else {
                assert(text_lt(f[p[j]].0, f[p[i]].0));
            }
        }
    }
}

/// What is written to a registration file reads back: the text is within what the JSON
/// reader takes, and the value that it reads, whatever the order of its members, is the
/// record.
pub proof fn law_registration_reads_back(r: HostRegistrationView)
    ensures
        integral(r.declared_json()),
        nested_within(r.declared_json(), MAX_NESTING as int),
        HostRegistrationView::of_json(tree(r.declared_json())) == Some(r),
{
    r.lemma_declared();
    let d = r.declared_fields();
    let members = present(d);
    let v = tree(r.declared_json());
    reveal(HostRegistrationView::declared_fields);
    r.state.lemma_wire();
    assert forall|i: int| 0 <= i < 11 implies integral((#[trigger] members[i]).1) && nested_within(
        members[i].1,
        MAX_NESTING - 1,
    ) && tree(members[i].1) == members[i].1 by {
        assert(members[i] == (d[i].0, d[i].1->0));
    }
    assert(v.get("kind"@) == Some(JsonView::Text(r.kind))) by {
        assert(members[0] == (d[0].0, d[0].1->0));
        lemma_tree_lookup(members, 0);
    };
    assert(v.get("schemaVersion"@) == Some(JsonView::Number(r.schema_version as int))) by {
        assert(members[1] == (d[1].0, d[1].1->0));
        lemma_tree_lookup(members, 1);
    };
    assert(v.get("rootId"@) == Some(JsonView::Text(r.root_id))) by {
        assert(members[2] == (d[2].0, d[2].1->0));
        lemma_tree_lookup(members, 2);
    };
    assert(v.get("hostEpoch"@) == Some(JsonView::Text(r.host_epoch))) by {
        assert(members[3] == (d[3].0, d[3].1->0));
        lemma_tree_lookup(members, 3);
    };
    assert(v.get("endpoint"@) == Some(JsonView::Text(r.endpoint))) by {
        assert(members[4] == (d[4].0, d[4].1->0));
        lemma_tree_lookup(members, 4);
    };
    assert(v.get("protocolMin"@) == Some(JsonView::Number(r.protocol_min as int))) by {
        assert(members[5] == (d[5].0, d[5].1->0));
        lemma_tree_lookup(members, 5);
    };
    assert(v.get("protocolMax"@) == Some(JsonView::Number(r.protocol_max as int))) by {
        assert(members[6] == (d[6].0, d[6].1->0));
        lemma_tree_lookup(members, 6);
    };
    assert(v.get("compatibilityEpoch"@) == Some(JsonView::Number(r.compatibility_epoch as int))) by {
        assert(members[7] == (d[7].0, d[7].1->0));
        lemma_tree_lookup(members, 7);
    };
    assert(v.get("state"@) == Some(r.state.json())) by {
        assert(members[8] == (d[8].0, d[8].1->0));
        lemma_tree_lookup(members, 8);
    };
    assert(v.get("pid"@) == Some(JsonView::Number(r.pid as int))) by {
        assert(members[9] == (d[9].0, d[9].1->0));
        lemma_tree_lookup(members, 9);
    };
    assert(v.get("createdAt"@) == Some(JsonView::Number(r.created_at as int))) by {
        assert(members[10] == (d[10].0, d[10].1->0));
        lemma_tree_lookup(members, 10);
    };
    let all = tree_members(members);
    let keys = HostRegistrationView::keys();
    assert forall|i: int| 0 <= i < all.len() implies keys.contains((#[trigger] all[i]).0) by {
        let k = lemma_tree_keys(members, i);
        assert(members[k] == (d[k].0, d[k].1->0));
        assert(keys[HostRegistrationView::places()[k]] == d[k].0);
    }
    assert(only_keys(v, keys));
}

impl HostRegistration {
    pub fn new(
        root_id: &str,
        host_epoch: &str,
        endpoint: &str,
        state: LifecycleState,
        pid: u32,
        now: i64,
    ) -> (r: Self)
        ensures
            r@ == registration_for(root_id@, host_epoch@, endpoint@, state, pid, now),
    {
        HostRegistration {
            kind: REGISTRATION_KIND.to_owned(),
            schema_version: REGISTRATION_SCHEMA_VERSION,
            root_id: root_id.to_owned(),
            host_epoch: host_epoch.to_owned(),
            endpoint: endpoint.to_owned(),
            protocol_min: PROTOCOL_MIN,
            protocol_max: PROTOCOL_MAX,
            compatibility_epoch: COMPATIBILITY_EPOCH,
            state,
            pid,
            created_at: now,
        }
    }

    /// The JSON object in the order of declaration, as it is written to the file.
    pub fn to_declared_json(&self) -> (r: Json)
        ensures
            r@ == self@.declared_json(),
    {
        let mut b = ObjectBuilder::new();
        b.put_text("kind", self.kind.as_str());
        b.put("schemaVersion", Json::Uint(self.schema_version as u64));
        b.put_text("rootId", self.root_id.as_str());
        b.put_text("hostEpoch", self.host_epoch.as_str());
        b.put_text("endpoint", self.endpoint.as_str());
        b.put("protocolMin", Json::Uint(self.protocol_min as u64));
        b.put("protocolMax", Json::Uint(self.protocol_max as u64));
        b.put("compatibilityEpoch", Json::Uint(self.compatibility_epoch as u64));
        b.put("state", self.state.to_json());
        b.put("pid", Json::Uint(self.pid as u64));
        b.put("createdAt", Json::Int(self.created_at));
        reveal(HostRegistrationView::declared_fields);
        assert(b.fields() == self@.declared_fields());
        b.build()
    }

    /// The text of the registration file.
    pub fn to_text(&self) -> (r: String)
        ensures
            r@ == ordered_text(self@.declared_json()),
    {
        self.to_declared_json().to_ordered_text()
    }
}

// ---------------------------------------------------------------------------
// Paths
// ---------------------------------------------------------------------------

/// `name` under the directory `dir`: a separator goes between them unless `dir`
/// is empty or ends in one.
pub open spec fn joined(dir: Seq<char>, name: Seq<char>) -> Seq<char> {
    if dir.len() == 0 || dir.last() == '/' {
        dir + name
    } else {
        dir + "/"@ + name
    }
}

fn join(dir: &str, name: &str) -> (r: String)
    ensures
        r@ == joined(dir@, name@),
{
    let chars = chars_of(dir);
    if chars.len() == 0 || chars[chars.len() - 1] == '/' {
        concat(dir, name)
    } else {
        concat3(dir, "/", name)
    }
}

/// A stable root id from a root path: the canonical path where there is one.
pub fn root_id_of(root: &str, canonical: Option<String>) -> (r: String)
    ensures
        r@ == match canonical {
            Some(path) => path@,
            None => root@,
        },
{
    match canonical {
        Some(path) => path,
        None => root.to_owned(),
    }
}

/// The control directory of a root.
pub fn control_dir(root: &str) -> (r: String)
    ensures
        r@ == joined(root@, CONTROL_DIR@),
{
    join(root, CONTROL_DIR)
}

/// The registration file of a root.
pub fn registration_path(root: &str) -> (r: String)
    ensures
        r@ == joined(joined(root@, CONTROL_DIR@), REGISTRATION_FILE@),
{
    join(control_dir(root).as_str(), REGISTRATION_FILE)
}

/// The ownership lock file of a root.
pub fn owner_lock_path(root: &str) -> (r: String)
    ensures
        r@ == joined(joined(root@, CONTROL_DIR@), OWNER_LOCK_FILE@),
{
    join(control_dir(root).as_str(), OWNER_LOCK_FILE)
}

/// The file a process writes its registration to before it takes the place of
/// the published one.
pub fn registration_temp_path(root: &str, pid: u32) -> (r: String)
    ensures
        r@ == joined(
            joined(root@, CONTROL_DIR@),
            REGISTRATION_FILE@ + ".tmp."@ + decimal(pid as nat),
        ),
{
    let name = concat3(REGISTRATION_FILE, ".tmp.", decimal_text(pid as u64).as_str());
    join(control_dir(root).as_str(), name.as_str())
}

// ---------------------------------------------------------------------------
// Decisions
// ---------------------------------------------------------------------------

/// Whether the host with the given epoch may remove the record that was read: a
/// restarted host must not delete a newer owner's record.
pub fn may_remove(found: &Option<HostRegistration>, host_epoch: &str) -> (r: bool)
    ensures
        r == (found matches Some(reg) && reg@.host_epoch == host_epoch@),
{
    match found {
        Some(reg) => str_eq(reg.host_epoch.as_str(), host_epoch),
        None => false,
    }
}

/// The endpoint that a record offers: a draining host takes no more clients.
pub open spec fn offered(found: Option<HostRegistrationView>) -> Option<Seq<char>> {
    match found {
        Some(reg) => if reg.state is Draining {
            None
        } else {
            Some(reg.endpoint)
        },
        None => None,
    }
}

/// The endpoint that a record offers, if the host is not draining.
pub fn offered_endpoint(found: &Option<HostRegistration>) -> (r: Option<String>)
    ensures
        opt(r) == offered(opt(*found)),
{
    match found {
        Some(reg) => match reg.state {
            LifecycleState::Draining => None,
            _ => Some(reg.endpoint.clone()),
        },
        None => None,
    }
}

/// What a host publishes of itself, and when: its kind, schema and protocol range are the
/// program's, all else is what it was started with.
pub proof fn law_registrations_describe_the_host(
    root_id: &str,
    host_epoch: &str,
    endpoint: &str,
    state: LifecycleState,
    pid: u32,
    now: i64,
    r: HostRegistration,
)
    requires
        call_ensures(HostRegistration::new, (root_id, host_epoch, endpoint, state, pid, now), r),
    ensures
        r@.kind == "meepo-runtime-host"@,
        r@.schema_version == 1,
        r@.root_id == root_id@,
        r@.host_epoch == host_epoch@,
        r@.endpoint == endpoint@,
        r@.protocol_min == 0,
        r@.protocol_max == 0,
        r@.compatibility_epoch == 10,
        r@.state == state,
        r@.pid == pid,
        r@.created_at == now,
{
}

/// A record is removed only by the host that wrote it, and offers its endpoint unless it
/// drains.
pub proof fn law_records_belong_to_their_epoch(
    found: &Option<HostRegistration>,
    host_epoch: &str,
    removes: bool,
)
    requires
        call_ensures(may_remove, (found, host_epoch), removes),
    ensures
        found is None ==> !removes,
        *found matches Some(reg) ==> (removes <==> reg.host_epoch@ == host_epoch@),
        *found matches Some(reg) ==> offered(Some(reg@)) == (if reg.state is Draining {
            None
        } else {
            Some(reg.endpoint@)
        }),
        offered(None) is None,
{
}

impl HostRegistrationView {
    /// Only these members are known: an object with any other is refused.
    pub proof fn law_schema_is_closed(members: Seq<crate::json::Member>, i: int)
        requires
            HostRegistrationView::of_json(JsonView::Object(members)) is Some,
            0 <= i < members.len(),
        ensures
            members[i].0 == "compatibilityEpoch"@
                || members[i].0 == "createdAt"@
                || members[i].0 == "endpoint"@
                || members[i].0 == "hostEpoch"@
                || members[i].0 == "kind"@
                || members[i].0 == "pid"@
                || members[i].0 == "protocolMax"@
                || members[i].0 == "protocolMin"@
                || members[i].0 == "rootId"@
                || members[i].0 == "schemaVersion"@
                || members[i].0 == "state"@,
    {
        let keys = HostRegistrationView::keys();
        let key = members[i].0;
        assert(keys.contains(key));
        let k = choose|k: int| 0 <= k < keys.len() && keys[k] == key;
        assert(keys.len() == 11);
    }
}

impl HostRegistrationView {
    /// The members that are written, each in its place in the order of declaration.
    pub proof fn law_declared_members(self)
        ensures
            self.declared_fields().len() == 11,
            self.declared_fields()[0] == ("kind"@, Some(JsonView::Text(self.kind))),
            self.declared_fields()[1] == ("schemaVersion"@, Some(JsonView::Number(self.schema_version as int))),
            self.declared_fields()[2] == ("rootId"@, Some(JsonView::Text(self.root_id))),
            self.declared_fields()[3] == ("hostEpoch"@, Some(JsonView::Text(self.host_epoch))),
            self.declared_fields()[4] == ("endpoint"@, Some(JsonView::Text(self.endpoint))),
            self.declared_fields()[5] == ("protocolMin"@, Some(JsonView::Number(self.protocol_min as int))),
            self.declared_fields()[6] == ("protocolMax"@, Some(JsonView::Number(self.protocol_max as int))),
            self.declared_fields()[7] == ("compatibilityEpoch"@, Some(JsonView::Number(self.compatibility_epoch as int))),
            self.declared_fields()[8] == ("state"@, Some(self.state.json())),
            self.declared_fields()[9] == ("pid"@, Some(JsonView::Number(self.pid as int))),
            self.declared_fields()[10] == ("createdAt"@, Some(JsonView::Number(self.created_at as int))),
    {
        reveal(HostRegistrationView::declared_fields);
    }
}

/// What a host keeps about itself stands in the control directory of its root: one file for
/// its record, one for its lock, and one for each process that writes the record.
pub proof fn law_files_stand_in_the_control_directory(
    root: &str,
    dir: String,
    registration: String,
    lock: String,
    pid: u32,
    temp: String,
)
    requires
        root@.len() > 0,
        call_ensures(control_dir, (root,), dir),
        call_ensures(registration_path, (root,), registration),
        call_ensures(owner_lock_path, (root,), lock),
        call_ensures(registration_temp_path, (root, pid), temp),
    ensures
        root@.last() != '/' ==> dir@ == root@ + "/control"@,
        root@.last() == '/' ==> dir@ == root@ + "control"@,
        registration@ == dir@ + "/registration.json"@,
        lock@ == dir@ + "/owner.lock"@,
        temp@ == dir@ + "/registration.json.tmp."@ + decimal(pid as nat),
{
    reveal_strlit("control");
    reveal_strlit("/control");
    reveal_strlit("/");
    reveal_strlit("registration.json");
    reveal_strlit("/registration.json");
    reveal_strlit("owner.lock");
    reveal_strlit("/owner.lock");
    reveal_strlit(".tmp.");
    reveal_strlit("/registration.json.tmp.");
    assert("/control"@ =~= "/"@ + "control"@);
    assert("/registration.json"@ =~= "/"@ + "registration.json"@);
    assert("/owner.lock"@ =~= "/"@ + "owner.lock"@);
    assert("/registration.json.tmp."@ =~= "/"@ + "registration.json"@ + ".tmp."@);
    assert(dir@.last() == 'l');
    if root@.last() != '/' {
        assert(dir@ =~= root@ + "/control"@);
    }
    assert(registration@ =~= dir@ + "/registration.json"@);
    assert(lock@ =~= dir@ + "/owner.lock"@);
    assert(temp@ =~= dir@ + "/registration.json.tmp."@ + decimal(pid as nat));
}

/// A root is known by its canonical path, and by the path as given where there is none.
pub proof fn law_roots_are_known_by_their_paths(root: &str, canonical: Option<String>, r: String)
    requires
        call_ensures(root_id_of, (root, canonical), r),
    ensures
        canonical matches Some(path) ==> r@ == path@,
        canonical is None ==> r@ == root@,
{
}

} // verus!
