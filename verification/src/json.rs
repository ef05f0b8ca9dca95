//! The JSON value model: plain data that the library reads and builds, and the
//! two conversions between it and JSON text.

use crate::text::concat3;
use crate::text::decimal_text;
use crate::text::lemma_lt_asymmetric;
use crate::text::lemma_lt_irreflexive;
use crate::text::lemma_lt_total;
use crate::text::lemma_lt_transitive;
use crate::text::signed_decimal;
use crate::text::signed_decimal_text;
use crate::text::str_eq;
use crate::text::str_lt;
use crate::text::text_lt;
use vstd::prelude::*;
use vstd::string::StringExecFns;

verus! {

/// `serde_json::Number`, carried through for numbers that are no integers.
#[verifier::external_type_specification]
#[verifier::external_body]
pub struct ExNumber(serde_json::Number);

/// A number that is neither an unsigned nor a signed 64-bit integer. Only the JSON
/// reader makes one.
#[derive(Debug, PartialEq)]
pub struct Decimal {
    number: serde_json::Number,
}

/// One JSON value. An object keeps its members in order.
#[derive(Debug, PartialEq)]
pub enum Json {
    Null,
    Bool(bool),
    Uint(u64),
    Int(i64),
    Decimal(Decimal),
    Text(String),
    Array(Vec<Json>),
    Object(Vec<(String, Json)>),
}

/// What a [`Json`] value means, without regard to how it is stored.
pub enum JsonView {
    Null,
    Bool(bool),
    Number(int),
    Decimal(serde_json::Number),
    Text(Seq<char>),
    Array(Seq<JsonView>),
    Object(Seq<(Seq<char>, JsonView)>),
}

pub type Member = (Seq<char>, JsonView);

impl Decimal {
    pub closed spec fn number(&self) -> serde_json::Number {
        self.number
    }
}

impl View for Json {
    type V = JsonView;

    open spec fn view(&self) -> JsonView {
        json_view(*self)
    }
}

pub open spec fn json_view(v: Json) -> JsonView
    decreases v,
{
    match v {
        Json::Null => JsonView::Null,
        Json::Bool(b) => JsonView::Bool(b),
        Json::Uint(n) => JsonView::Number(n as int),
        Json::Int(n) => JsonView::Number(n as int),
        Json::Decimal(d) => JsonView::Decimal(d.number()),
        Json::Text(s) => JsonView::Text(s@),
        Json::Array(items) => JsonView::Array(
            Seq::new(
                items@.len(),
                |i: int| if 0 <= i < items@.len() { json_view(items@[i]) } else { JsonView::Null },
            ),
        ),
        Json::Object(members) => JsonView::Object(
            Seq::new(
                members@.len(),
                |i: int|
                    if 0 <= i < members@.len() {
                        (members@[i].0@, json_view(members@[i].1))
                    } else {
                        (Seq::empty(), JsonView::Null)
                    },
            ),
        ),
    }
}

/// The members an object holds, as model values.
pub open spec fn members_view(members: Seq<(String, Json)>) -> Seq<Member> {
    Seq::new(members.len(), |i: int| (members[i].0@, members[i].1@))
}

/// The items an array holds, as model values.
pub open spec fn items_view(items: Seq<Json>) -> Seq<JsonView> {
    Seq::new(items.len(), |i: int| items[i]@)
}

pub broadcast proof fn lemma_object_view(members: Vec<(String, Json)>)
    ensures
        #[trigger] Json::Object(members)@ == JsonView::Object(members_view(members@)),
{
    let a = Json::Object(members)@->Object_0;
    assert(a =~= members_view(members@));
}

pub broadcast proof fn lemma_array_view(items: Vec<Json>)
    ensures
        #[trigger] Json::Array(items)@ == JsonView::Array(items_view(items@)),
{
    let a = Json::Array(items)@->Array_0;
    assert(a =~= items_view(items@));
}

pub broadcast group group_json_view {
    lemma_object_view,
    lemma_array_view,
}

/// `<serde_json::Number as Clone>::clone`: the same number.
#[verifier::external_body]
fn copy_number(n: &serde_json::Number) -> (r: serde_json::Number)
    ensures
        r == *n,
{
    n.clone()
}

impl Clone for Decimal {
    fn clone(&self) -> (r: Self)
        ensures
            r == *self,
    {
        Decimal { number: copy_number(&self.number) }
    }
}

impl Clone for Json {
    fn clone(&self) -> (r: Self)
        ensures
            r@ == self@,
        decreases *self,
    {
        broadcast use group_json_view;

        match self {
            Json::Null => Json::Null,
            Json::Bool(b) => Json::Bool(*b),
            Json::Uint(n) => Json::Uint(*n),
            Json::Int(n) => Json::Int(*n),
            Json::Decimal(d) => Json::Decimal(d.clone()),
            Json::Text(s) => Json::Text(s.clone()),
            Json::Array(items) => {
                let mut out: Vec<Json> = Vec::new();
                let mut i: usize = 0;
                while i < items.len()
                    invariant
                        *self == Json::Array(*items),
                        i == out.len(),
                        i <= items.len(),
                        forall|k: int| 0 <= k < i ==> (#[trigger] out@[k])@ == items@[k]@,
                    decreases items.len() - i,
                {
                    assert(decreases_to!(*items => items[i as int]));
                    assert(decreases_to!(*self => self->Array_0));
                    out.push(items[i].clone());
                    i = i + 1;
                }
                assert(items_view(out@) =~= items_view(items@));
                Json::Array(out)
            },
            Json::Object(members) => {
                let mut out: Vec<(String, Json)> = Vec::new();
                let mut i: usize = 0;
                while i < members.len()
                    invariant
                        *self == Json::Object(*members),
                        i == out.len(),
                        i <= members.len(),
                        forall|k: int|
                            0 <= k < i ==> (#[trigger] out@[k]).0@ == members@[k].0@ && out@[k].1@
                                == members@[k].1@,
                    decreases members.len() - i,
                {
                    assert(decreases_to!(*members => members[i as int]));
                    assert(decreases_to!(*self => self->Object_0));
                    out.push((members[i].0.clone(), members[i].1.clone()));
                    i = i + 1;
                }
                assert(members_view(out@) =~= members_view(members@));
                Json::Object(out)
            },
        }
    }
}

/// The value of the first member named `key`.
pub open spec fn member(members: Seq<Member>, key: Seq<char>) -> Option<JsonView>
    decreases members.len(),
{
    if members.len() == 0 {
        None
    } else if members[0].0 == key {
        Some(members[0].1)
    } else {
        member(members.skip(1), key)
    }
}

impl JsonView {
    /// The member `key` of an object; `None` when there is none, or when the
    /// value is no object.
    pub open spec fn get(self, key: Seq<char>) -> Option<JsonView> {
        match self {
            JsonView::Object(members) => member(members, key),
            _ => None,
        }
    }

    /// The text a string value holds.
    pub open spec fn text(self) -> Option<Seq<char>> {
        match self {
            JsonView::Text(s) => Some(s),
            _ => None,
        }
    }

    /// The text of the member `key`, when there is one and it is a string.
    pub open spec fn text_at(self, key: Seq<char>) -> Option<Seq<char>> {
        match self.get(key) {
            Some(v) => v.text(),
            None => None,
        }
    }
}

/// The position of the first member named `key`.
pub fn find_member(members: &Vec<(String, Json)>, key: &str) -> (r: Option<usize>)
    ensures
        match r {
            Some(i) => i < members.len() && members@[i as int].0@ == key@ && member(
                members_view(members@),
                key@,
            ) == Some(members@[i as int].1@),
            None => member(members_view(members@), key@) is None,
        },
{
    let mut i: usize = 0;
    assert(members_view(members@).skip(0) =~= members_view(members@));
    while i < members.len()
        invariant
            i <= members.len(),
            member(members_view(members@).skip(i as int), key@) == member(
                members_view(members@),
                key@,
            ),
        decreases members.len() - i,
    {
        if str_eq(members[i].0.as_str(), key) {
            return Some(i);
        }
        assert(members_view(members@).skip(i as int).skip(1) =~= members_view(members@).skip(
            i + 1,
        ));
        i = i + 1;
    }
    None
}

impl Json {
    /// The member `key` of an object.
    pub fn get(&self, key: &str) -> (r: Option<&Json>)
        ensures
            match r {
                Some(v) => self@.get(key@) == Some(v@),
                None => self@.get(key@) is None,
            },
    {
        broadcast use group_json_view;

        match self {
            Json::Object(members) => match find_member(members, key) {
                Some(i) => Some(&members[i].1),
                None => None,
            },
            _ => None,
        }
    }

    /// The text of a string value.
    pub fn as_text(&self) -> (r: Option<&String>)
        ensures
            match r {
                Some(s) => self@.text() == Some(s@),
                None => self@.text() is None,
            },
    {
        match self {
            Json::Text(s) => Some(s),
            _ => None,
        }
    }

    /// The text of the member `key`, when it is a string.
    pub fn text_at(&self, key: &str) -> (r: Option<String>)
        ensures
            match r {
                Some(s) => self@.text_at(key@) == Some(s@),
                None => self@.text_at(key@) is None,
            },
    {
        match self.get(key) {
            Some(v) => match v.as_text() {
                Some(s) => Some(s.clone()),
                None => None,
            },
            None => None,
        }
    }
}

// ---------------------------------------------------------------------------
// Building objects
// ---------------------------------------------------------------------------

/// One member that may be left out.
pub type Field = (Seq<char>, Option<JsonView>);

/// The members of the fields that are present, in order.
pub open spec fn present(fields: Seq<Field>) -> Seq<Member>
    decreases fields.len(),
{
    if fields.len() == 0 {
        Seq::empty()
    } else {
        let last = fields.last();
        match last.1 {
            Some(v) => present(fields.drop_last()).push((last.0, v)),
            None => present(fields.drop_last()),
        }
    }
}

/// The view of an optional value.
pub open spec fn opt<T: View>(v: Option<T>) -> Option<T::V> {
    match v {
        Some(x) => Some(x@),
        None => None,
    }
}

/// Collects the members of one object, leaving absent ones out.
pub struct ObjectBuilder {
    members: Vec<(String, Json)>,
    fields: Ghost<Seq<Field>>,
}

impl ObjectBuilder {
    pub closed spec fn wf(&self) -> bool {
        members_view(self.members@) == present(self.fields@)
    }

    pub closed spec fn fields(&self) -> Seq<Field> {
        self.fields@
    }

    pub fn new() -> (r: Self)
        ensures
            r.wf(),
            r.fields() == Seq::<Field>::empty(),
    {
        let r = ObjectBuilder { members: Vec::new(), fields: Ghost(Seq::empty()) };
        assert(members_view(r.members@) =~= present(r.fields@));
        r
    }

    pub fn put_opt(&mut self, key: &str, value: Option<Json>)
        requires
            old(self).wf(),
        ensures
            final(self).wf(),
            final(self).fields() == old(self).fields().push((key@, opt(value))),
    {
        let ghost before = self.fields@;
        let ghost field: Field = (key@, opt(value));
        proof {
            assert(before.push(field).drop_last() =~= before);
        }
        self.fields = Ghost(before.push(field));
        match value {
            Some(v) => {
                self.members.push((key.to_owned(), v));
                assert(members_view(self.members@) =~= present(self.fields@));
            },
            None => {},
        }
    }

    pub fn put(&mut self, key: &str, value: Json)
        requires
            old(self).wf(),
        ensures
            final(self).wf(),
            final(self).fields() == old(self).fields().push((key@, Some(value@))),
    {
        self.put_opt(key, Some(value));
    }

    pub fn put_text(&mut self, key: &str, value: &str)
        requires
            old(self).wf(),
        ensures
            final(self).wf(),
            final(self).fields() == old(self).fields().push(
                (key@, Some(JsonView::Text(value@))),
            ),
    {
        self.put_opt(key, Some(Json::Text(value.to_owned())));
    }

    pub fn build(self) -> (r: Json)
        requires
            self.wf(),
        ensures
            r@ == JsonView::Object(present(self.fields())),
    {
        broadcast use group_json_view;

        Json::Object(self.members)
    }
}

// ---------------------------------------------------------------------------
// Canonical member order
// ---------------------------------------------------------------------------

/// `members` with `m` put behind every member whose key is not greater.
pub open spec fn insert_member(members: Seq<Member>, m: Member) -> Seq<Member>
    decreases members.len(),
{
    if members.len() == 0 || !text_lt(m.0, members.last().0) {
        members.push(m)
    } else {
        insert_member(members.drop_last(), m).push(members.last())
    }
}

/// `members` in ascending key order, equal keys in the order they came, each
/// value sorted too.
pub open spec fn sorted_members(members: Seq<Member>) -> Seq<Member>
    decreases members,
{
    if members.len() == 0 {
        members
    } else {
        insert_member(
            sorted_members(members.subrange(0, members.len() - 1)),
            (members.last().0, sorted(members.last().1)),
        )
    }
}

/// `v` with the members of every object inside it in ascending key order.
pub open spec fn sorted(v: JsonView) -> JsonView
    decreases v,
{
    match v {
        JsonView::Array(items) => JsonView::Array(
            Seq::new(
                items.len(),
                |i: int| if 0 <= i < items.len() { sorted(items[i]) } else { JsonView::Null },
            ),
        ),
        JsonView::Object(members) => JsonView::Object(sorted_members(members)),
        _ => v,
    }
}

/// Every object inside `v` lists its members under strictly ascending keys.
pub open spec fn canonical(v: JsonView) -> bool
    decreases v,
{
    match v {
        JsonView::Array(items) => forall|i: int| 0 <= i < items.len() ==> canonical(#[trigger] items[i]),
        JsonView::Object(members) => {
            &&& ascending(members)
            &&& forall|i: int| 0 <= i < members.len() ==> canonical((#[trigger] members[i]).1)
        },
        _ => true,
    }
}

pub open spec fn ascending(members: Seq<Member>) -> bool {
    forall|i: int, j: int|
        0 <= i < j < members.len() ==> text_lt((#[trigger] members[i]).0, (#[trigger] members[j]).0)
}

/// Puts `m` behind every member whose key is not greater.
fn insert_ordered(members: &mut Vec<(String, Json)>, m: (String, Json))
    ensures
        members_view(final(members)@) == insert_member(members_view(old(members)@), (m.0@, m.1@)),
{
    let ghost before = members_view(members@);
    let ghost mv: Member = (m.0@, m.1@);
    let mut i: usize = members.len();
    assert(before.take(i as int) =~= before);
    assert(insert_member(before, mv) =~= insert_member(before.take(i as int), mv) + before.skip(
        i as int,
    ));
    while i > 0 && str_lt(m.0.as_str(), members[i - 1].0.as_str())
        invariant
            i <= members.len(),
            before == members_view(members@),
            mv == (m.0@, m.1@),
            insert_member(before, mv) == insert_member(before.take(i as int), mv) + before.skip(
                i as int,
            ),
        decreases i,
    {
        proof {
            let t = before.take(i as int);
            assert(t.drop_last() =~= before.take(i - 1));
            assert(insert_member(t, mv) == insert_member(t.drop_last(), mv).push(t.last()));
            assert(insert_member(t.drop_last(), mv).push(t.last()) + before.skip(i as int)
                =~= insert_member(t.drop_last(), mv) + before.skip(i - 1));
        }
        i = i - 1;
    }
    proof {
        let t = before.take(i as int);
        assert(insert_member(t, mv) == t.push(mv));
        assert(t.push(mv) + before.skip(i as int) =~= before.insert(i as int, mv));
    }
    members.insert(i, m);
    assert(members_view(members@) =~= before.insert(i as int, mv));
}

/// `value` with the members of every object inside it in ascending key order.
pub fn sort_value_keys(value: &Json) -> (r: Json)
    ensures
        r@ == sorted(value@),
    decreases *value,
{
    broadcast use group_json_view;

    match value {
        Json::Array(items) => {
            let mut out: Vec<Json> = Vec::new();
            let mut i: usize = 0;
            while i < items.len()
                invariant
                    *value == Json::Array(*items),
                    i == out.len(),
                    i <= items.len(),
                    forall|k: int| 0 <= k < i ==> (#[trigger] out@[k])@ == sorted(items@[k]@),
                decreases items.len() - i,
            {
                assert(decreases_to!(*items => items[i as int]));
                assert(decreases_to!(*value => value->Array_0));
                out.push(sort_value_keys(&items[i]));
                i = i + 1;
            }
            assert(value@ == JsonView::Array(items_view(items@)));
            assert(items_view(out@) =~= sorted(value@)->Array_0);
            Json::Array(out)
        },
        Json::Object(members) => {
            let ghost all = members_view(members@);
            let mut out: Vec<(String, Json)> = Vec::new();
            let mut i: usize = 0;
            assert(members_view(out@) =~= sorted_members(all.take(0)));
            while i < members.len()
                invariant
                    *value == Json::Object(*members),
                    i <= members.len(),
                    all == members_view(members@),
                    members_view(out@) == sorted_members(all.take(i as int)),
                decreases members.len() - i,
            {
                assert(decreases_to!(*members => members[i as int]));
                assert(decreases_to!(*value => value->Object_0));
                let v = sort_value_keys(&members[i].1);
                assert(all.take(i + 1).subrange(0, i as int) =~= all.take(i as int));
                insert_ordered(&mut out, (members[i].0.clone(), v));
                i = i + 1;
            }
            assert(all.take(i as int) =~= all);
            Json::Object(out)
        },
        _ => value.clone(),
    }
}

// ---------------------------------------------------------------------------
// What sorting keeps
// ---------------------------------------------------------------------------

/// No key comes after a greater one.
pub open spec fn nondescending(members: Seq<Member>) -> bool {
    forall|i: int, j: int|
        0 <= i < j < members.len() ==> !text_lt(
            (#[trigger] members[j]).0,
            (#[trigger] members[i]).0,
        )
}

/// No two members have the same key.
pub open spec fn unique_keys(members: Seq<Member>) -> bool {
    forall|i: int, j: int|
        0 <= i < j < members.len() ==> (#[trigger] members[i]).0 != (#[trigger] members[j]).0
}

proof fn lemma_insert(members: Seq<Member>, m: Member)
    ensures
        insert_member(members, m).len() == members.len() + 1,
        nondescending(members) ==> nondescending(insert_member(members, m)),
        insert_member(members, m).to_multiset() == members.to_multiset().insert(m),
    decreases members.len(),
{
    broadcast use vstd::seq_lib::group_to_multiset_ensures;

    let out = insert_member(members, m);
    if members.len() == 0 || !text_lt(m.0, members.last().0) {
        if nondescending(members) {
            assert forall|i: int, j: int| 0 <= i < j < out.len() implies !text_lt(
                (#[trigger] out[j]).0,
                (#[trigger] out[i]).0,
            ) by {
                if j == members.len() && text_lt(m.0, members[i].0) {
                    let last = members.last();
                    if i < members.len() - 1 {
                        assert(!text_lt(members[members.len() - 1].0, members[i].0));
                        lemma_lt_total(last.0, members[i].0);
                        if text_lt(members[i].0, last.0) {
                            lemma_lt_transitive(m.0, members[i].0, last.0);
                        }
                    }
                }
            }
        }
    } else {
        let init = members.drop_last();
        let last = members.last();
        let inner = insert_member(init, m);
        lemma_insert(init, m);
        assert(out =~= inner.push(last));
        assert(members =~= init.push(last));
        if nondescending(members) {
            assert forall|i: int, j: int| 0 <= i < j < init.len() implies !text_lt(
                (#[trigger] init[j]).0,
                (#[trigger] init[i]).0,
            ) by {
                assert(!text_lt(members[j].0, members[i].0));
            }
            assert forall|i: int, j: int| 0 <= i < j < out.len() implies !text_lt(
                (#[trigger] out[j]).0,
                (#[trigger] out[i]).0,
            ) by {
                if j == inner.len() {
                    assert(inner.to_multiset().count(inner[i]) > 0);
                    assert(init.push(m).to_multiset() == inner.to_multiset());
                    assert(init.push(m).contains(inner[i]));
                    if inner[i] == m {
                        if text_lt(last.0, m.0) {
                            lemma_lt_transitive(last.0, m.0, last.0);
                            lemma_lt_irreflexive(last.0);
                        }
                    } else {
                        let k = choose|k: int| 0 <= k < init.push(m).len() && init.push(m)[k] == inner[i];
                        assert(init[k] == inner[i]);
                        assert(!text_lt(members[members.len() - 1].0, members[k].0));
                    }
                } else {
                    assert(out[i] == inner[i] && out[j] == inner[j]);
                }
            }
        }
    }
}

/// Sorting keeps the members: each one's value is sorted, none is lost or
/// added, and the keys no longer descend.
pub proof fn law_sorting_keeps_members(members: Seq<Member>)
    ensures
        nondescending(sorted_members(members)),
        sorted_members(members).to_multiset() == members.map_values(
            |m: Member| (m.0, sorted(m.1)),
        ).to_multiset(),
        sorted_members(members).len() == members.len(),
    decreases members.len(),
{
    broadcast use vstd::seq_lib::group_to_multiset_ensures;

    let each = |m: Member| (m.0, sorted(m.1));
    if members.len() == 0 {
        assert(members.map_values(each) =~= Seq::<Member>::empty());
        assert(sorted_members(members) =~= Seq::<Member>::empty());
    } else {
        let init = members.subrange(0, members.len() - 1);
        law_sorting_keeps_members(init);
        lemma_insert(sorted_members(init), each(members.last()));
        assert(members.map_values(each) =~= init.map_values(each).push(each(members.last())));
    }
}

/// Sorting changes nothing where keys ascend strictly already.
pub proof fn lemma_sorted_canonical(v: JsonView)
    requires
        canonical(v),
    ensures
        sorted(v) == v,
    decreases v,
{
    match v {
        JsonView::Array(items) => {
            assert forall|i: int| 0 <= i < items.len() implies sorted(#[trigger] items[i])
                == items[i] by {
                lemma_sorted_canonical(items[i]);
            }
            assert(sorted(v)->Array_0 =~= items);
        },
        JsonView::Object(members) => {
            assert forall|i: int| 0 <= i < members.len() implies sorted((#[trigger] members[i]).1)
                == members[i].1 by {
                lemma_sorted_canonical(members[i].1);
            }
            lemma_sorted_ascending(members);
        },
        _ => {},
    }
}

proof fn lemma_sorted_ascending(members: Seq<Member>)
    requires
        nondescending(members) || ascending(members),
        forall|i: int| 0 <= i < members.len() ==> sorted((#[trigger] members[i]).1) == members[i].1,
    ensures
        sorted_members(members) == members,
    decreases members.len(),
{
    if members.len() > 0 {
        let init = members.subrange(0, members.len() - 1);
        assert forall|i: int, j: int| 0 <= i < j < init.len() implies !text_lt(
            (#[trigger] init[j]).0,
            (#[trigger] init[i]).0,
        ) by {
            assert(members[i] == init[i] && members[j] == init[j]);
            lemma_lt_asymmetric(init[i].0, init[j].0);
        }
        assert forall|i: int| 0 <= i < init.len() implies sorted((#[trigger] init[i]).1)
            == init[i].1 by {
            assert(members[i] == init[i]);
        }
        lemma_sorted_ascending(init);
        assert(sorted(members[members.len() - 1].1) == members.last().1);
        if init.len() > 0 {
            assert(members[members.len() - 2] == init.last());
            lemma_lt_asymmetric(init.last().0, members.last().0);
        }
        assert(init.push(members.last()) =~= members);
    }
}

/// Sorting twice is sorting once.
pub proof fn law_sorting_is_idempotent(v: JsonView)
    ensures
        sorted(sorted(v)) == sorted(v),
    decreases v,
{
    match v {
        JsonView::Array(items) => {
            let once = sorted(v)->Array_0;
            assert forall|i: int| 0 <= i < items.len() implies sorted(#[trigger] once[i])
                == once[i] by {
                law_sorting_is_idempotent(items[i]);
            }
            assert(sorted(sorted(v))->Array_0 =~= once);
        },
        JsonView::Object(members) => {
            let once = sorted_members(members);
            law_sorting_keeps_members(members);
            assert forall|i: int| 0 <= i < once.len() implies sorted((#[trigger] once[i]).1)
                == once[i].1 by {
                let k = lemma_sorted_member_origin(members, i);
                law_sorting_is_idempotent(members[k].1);
            }
            lemma_sorted_ascending(once);
        },
        _ => {},
    }
}

/// Where the member at place `i` of the sorted members came from.
proof fn lemma_sorted_member_origin(members: Seq<Member>, i: int) -> (k: int)
    requires
        0 <= i < sorted_members(members).len(),
    ensures
        0 <= k < members.len(),
        sorted_members(members)[i] == (members[k].0, sorted(members[k].1)),
{
    broadcast use vstd::seq_lib::group_to_multiset_ensures;

    law_sorting_keeps_members(members);
    let each = members.map_values(|m: Member| (m.0, sorted(m.1)));
    let out = sorted_members(members);
    assert(out.to_multiset().count(out[i]) > 0);
    assert(each.contains(out[i]));
    choose|k: int| 0 <= k < each.len() && each[k] == out[i]
}

/// `a` and `b` differ at most in the order in which objects list their members.
pub open spec fn same_value(a: JsonView, b: JsonView) -> bool
    decreases a,
{
    match (a, b) {
        (JsonView::Array(x), JsonView::Array(y)) => {
            &&& x.len() == y.len()
            &&& forall|i: int| 0 <= i < x.len() ==> same_value(#[trigger] x[i], y[i])
        },
        (JsonView::Object(x), JsonView::Object(y)) => {
            &&& unique_keys(x)
            &&& unique_keys(y)
            &&& x.len() == y.len()
            &&& forall|i: int| 0 <= i < x.len() ==> matched(#[trigger] x[i].0, y)
            &&& forall|i: int, j: int|
                0 <= i < x.len() && 0 <= j < y.len() && x[i].0 == y[j].0 ==> same_value(
                    (#[trigger] x[i]).1,
                    (#[trigger] y[j]).1,
                )
        },
        _ => a == b,
    }
}

/// Some member of `members` has this key.
pub open spec fn matched(key: Seq<char>, members: Seq<Member>) -> bool {
    exists|j: int| 0 <= j < members.len() && (#[trigger] members[j]).0 == key
}

proof fn lemma_insert_at(members: Seq<Member>, m: Member) -> (p: int)
    ensures
        0 <= p <= members.len(),
        insert_member(members, m) == members.insert(p, m),
    decreases members.len(),
{
    if members.len() == 0 || !text_lt(m.0, members.last().0) {
        assert(members.push(m) =~= members.insert(members.len() as int, m));
        members.len() as int
    } else {
        let p = lemma_insert_at(members.drop_last(), m);
        assert(members.drop_last().insert(p, m).push(members.last()) =~= members.insert(p, m));
        p
    }
}

proof fn lemma_sorted_unique(members: Seq<Member>)
    requires
        unique_keys(members),
    ensures
        unique_keys(sorted_members(members)),
        ascending(sorted_members(members)),
    decreases members.len(),
{
    let out = sorted_members(members);
    if members.len() > 0 {
        let init = members.subrange(0, members.len() - 1);
        assert forall|i: int, j: int| 0 <= i < j < init.len() implies (#[trigger] init[i]).0 != (
        #[trigger] init[j]).0 by {
            assert(members[i].0 != members[j].0);
        }
        lemma_sorted_unique(init);
        let rest = sorted_members(init);
        let m: Member = (members.last().0, sorted(members.last().1));
        let p = lemma_insert_at(rest, m);
        assert forall|i: int| 0 <= i < rest.len() implies (#[trigger] rest[i]).0 != m.0 by {
            let k = lemma_sorted_member_origin(init, i);
            assert(members[k].0 != members[members.len() - 1].0);
        }
        assert forall|i: int, j: int| 0 <= i < j < out.len() implies (#[trigger] out[i]).0 != (
        #[trigger] out[j]).0 by {
            assert(out[i] == rest.insert(p, m)[i]);
            assert(out[j] == rest.insert(p, m)[j]);
        }
    }
    law_sorting_keeps_members(members);
    assert forall|i: int, j: int| 0 <= i < j < out.len() implies text_lt(
        (#[trigger] out[i]).0,
        (#[trigger] out[j]).0,
    ) by {
        lemma_lt_total(out[i].0, out[j].0);
    }
}

/// Where `m` stands among `members`.
spec fn place(members: Seq<Member>, m: Member) -> int {
    choose|j: int| 0 <= j < members.len() && members[j] == m
}

proof fn lemma_places_ascend(x: Seq<Member>, y: Seq<Member>, i: int)
    requires
        ascending(x),
        ascending(y),
        x.len() == y.len(),
        forall|i: int| 0 <= i < x.len() ==> y.contains(#[trigger] x[i]),
        0 <= i < x.len(),
    ensures
        i <= place(y, x[i]) < y.len(),
        y[place(y, x[i])] == x[i],
    decreases i,
{
    assert(y.contains(x[i]));
    if i > 0 {
        lemma_places_ascend(x, y, i - 1);
        let p = place(y, x[i - 1]);
        let q = place(y, x[i]);
        assert(text_lt(x[i - 1].0, x[i].0));
        if q < p {
            assert(text_lt(y[q].0, y[p].0));
            lemma_lt_asymmetric(y[q].0, y[p].0);
        }
        lemma_lt_irreflexive(x[i].0);
    }
}

proof fn lemma_places_bounded(x: Seq<Member>, y: Seq<Member>, i: int)
    requires
        ascending(x),
        ascending(y),
        x.len() == y.len(),
        forall|i: int| 0 <= i < x.len() ==> y.contains(#[trigger] x[i]),
        0 <= i < x.len(),
    ensures
        x[i] == y[i],
        place(y, x[i]) <= i,
    decreases x.len() - i,
{
    lemma_places_ascend(x, y, i);
    if i + 1 < x.len() {
        lemma_places_ascend(x, y, i + 1);
        lemma_places_bounded(x, y, i + 1);
        let p = place(y, x[i]);
        let q = place(y, x[i + 1]);
        assert(text_lt(x[i].0, x[i + 1].0));
        if q < p {
            assert(text_lt(y[q].0, y[p].0));
            lemma_lt_asymmetric(y[q].0, y[p].0);
        }
        lemma_lt_irreflexive(x[i].0);
    }
}

/// Values that differ only in the order of members are the same once sorted.
pub proof fn lemma_same_value_sorts_alike(a: JsonView, b: JsonView)
    requires
        same_value(a, b),
    ensures
        sorted(a) == sorted(b),
    decreases a,
{
    broadcast use vstd::seq_lib::group_to_multiset_ensures;

    match (a, b) {
        (JsonView::Array(x), JsonView::Array(y)) => {
            assert forall|i: int| 0 <= i < x.len() implies sorted(#[trigger] x[i]) == sorted(y[i]) by {
                lemma_same_value_sorts_alike(x[i], y[i]);
            }
            assert(sorted(a)->Array_0 =~= sorted(b)->Array_0);
        },
        (JsonView::Object(x), JsonView::Object(y)) => {
            let sx = sorted_members(x);
            let sy = sorted_members(y);
            lemma_sorted_unique(x);
            lemma_sorted_unique(y);
            law_sorting_keeps_members(x);
            law_sorting_keeps_members(y);
            let ey = y.map_values(|m: Member| (m.0, sorted(m.1)));
            assert forall|i: int| 0 <= i < sx.len() implies sy.contains(#[trigger] sx[i]) by {
                let k = lemma_sorted_member_origin(x, i);
                assert(matched(x[k].0, y));
                let j = choose|j: int| 0 <= j < y.len() && (#[trigger] y[j]).0 == x[k].0;
                assert(same_value(x[k].1, y[j].1));
                lemma_same_value_sorts_alike(x[k].1, y[j].1);
                assert(ey[j] == sx[i]);
                assert(ey.contains(sx[i]));
                assert(ey.to_multiset().count(sx[i]) > 0);
                assert(sy.to_multiset().count(sx[i]) > 0);
            }
            assert forall|i: int| 0 <= i < sx.len() implies sx[i] == sy[i] by {
                lemma_places_bounded(sx, sy, i);
            }
            assert(sx =~= sy);
        },
        _ => {},
    }
}

// ---------------------------------------------------------------------------
// Values as trees
// ---------------------------------------------------------------------------

/// `members`, whose keys ascend, with `m` in its place; it takes the place of a
/// member with the same key.
pub open spec fn put_member(members: Seq<Member>, m: Member) -> Seq<Member>
    decreases members.len(),
{
    if members.len() == 0 {
        members.push(m)
    } else if members.last().0 == m.0 {
        members.drop_last().push(m)
    } else if text_lt(members.last().0, m.0) {
        members.push(m)
    } else {
        put_member(members.drop_last(), m).push(members.last())
    }
}

/// `members` in ascending key order, the last of several with one key, each value
/// a tree too.
pub open spec fn tree_members(members: Seq<Member>) -> Seq<Member>
    decreases members,
{
    if members.len() == 0 {
        members
    } else {
        put_member(
            tree_members(members.subrange(0, members.len() - 1)),
            (members.last().0, tree(members.last().1)),
        )
    }
}

/// `v` with every object a map: each key once, in ascending order, with the last
/// value it was given.
pub open spec fn tree(v: JsonView) -> JsonView
    decreases v,
{
    match v {
        JsonView::Array(items) => JsonView::Array(
            Seq::new(
                items.len(),
                |i: int| if 0 <= i < items.len() { tree(items[i]) } else { JsonView::Null },
            ),
        ),
        JsonView::Object(members) => JsonView::Object(tree_members(members)),
        _ => v,
    }
}

proof fn lemma_put(members: Seq<Member>, m: Member)
    requires
        ascending(members),
    ensures
        ascending(put_member(members, m)),
        forall|i: int|
            0 <= i < put_member(members, m).len() ==> (#[trigger] put_member(members, m)[i]) == m
                || members.contains(put_member(members, m)[i]),
    decreases members.len(),
{
    let out = put_member(members, m);
    if members.len() > 0 {
        let init = members.drop_last();
        let last = members.last();
        assert forall|i: int, j: int| 0 <= i < j < init.len() implies text_lt(
            (#[trigger] init[i]).0,
            (#[trigger] init[j]).0,
        ) by {
            assert(text_lt(members[i].0, members[j].0));
        }
        if last.0 == m.0 || text_lt(last.0, m.0) {
            let kept = if last.0 == m.0 {
                init
            } else {
                members
            };
            assert(out == kept.push(m));
            assert forall|i: int, j: int| 0 <= i < j < out.len() implies text_lt(
                (#[trigger] out[i]).0,
                (#[trigger] out[j]).0,
            ) by {
                if j < kept.len() {
                    assert(text_lt(members[i].0, members[j].0));
                } else if i < members.len() - 1 {
                    assert(text_lt(members[i].0, members[members.len() - 1].0));
                    if last.0 != m.0 {
                        lemma_lt_transitive(members[i].0, last.0, m.0);
                    }
                }
            }
            assert forall|i: int| 0 <= i < out.len() implies (#[trigger] out[i]) == m
                || members.contains(out[i]) by {
                if i < kept.len() {
                    assert(out[i] == members[i]);
                }
            }
        } else {
            lemma_put(init, m);
            lemma_lt_total(last.0, m.0);
            let inner = put_member(init, m);
            assert forall|i: int| 0 <= i < inner.len() implies text_lt(
                (#[trigger] inner[i]).0,
                last.0,
            ) && (inner[i] == m || members.contains(inner[i])) by {
                if inner[i] != m {
                    let k = choose|k: int| 0 <= k < init.len() && init[k] == inner[i];
                    assert(text_lt(members[k].0, members[members.len() - 1].0));
                    assert(members[k] == inner[i]);
                }
            }
            assert(members[members.len() - 1] == last);
            assert forall|i: int| 0 <= i < out.len() implies (#[trigger] out[i]) == m
                || members.contains(out[i]) by {
                if i < inner.len() {
                    assert(out[i] == inner[i]);
                } else {
                    assert(out[i] == last);
                }
            }
        }
    } else {
        assert(out =~= seq![m]);
    }
}

/// Each member of a tree comes from a member of the object.
proof fn lemma_tree_members(members: Seq<Member>)
    ensures
        ascending(tree_members(members)),
        forall|i: int|
            0 <= i < tree_members(members).len() ==> comes_from(
                #[trigger] tree_members(members)[i],
                members,
            ),
    decreases members.len(),
{
    if members.len() > 0 {
        let init = members.subrange(0, members.len() - 1);
        lemma_tree_members(init);
        let rest = tree_members(init);
        let m: Member = (members.last().0, tree(members.last().1));
        lemma_put(rest, m);
        let out = tree_members(members);
        assert forall|i: int| 0 <= i < out.len() implies comes_from(#[trigger] out[i], members) by {
            if out[i] == m {
                assert(members[members.len() - 1] == members.last());
            } else {
                let j = choose|j: int| 0 <= j < rest.len() && rest[j] == out[i];
                assert(comes_from(rest[j], init));
                let k = choose|k: int|
                    0 <= k < init.len() && out[i] == (
                        (#[trigger] init[k]).0,
                        tree(init[k].1),
                    );
                assert(members[k] == init[k]);
            }
        }
    }
}

/// `m` is the tree of one of `members`.
pub open spec fn comes_from(m: Member, members: Seq<Member>) -> bool {
    exists|k: int| 0 <= k < members.len() && m == ((#[trigger] members[k]).0, tree(members[k].1))
}

/// A tree has ascending keys; it keeps whole numbers and the depth of nesting.
proof fn lemma_put_contains(members: Seq<Member>, m: Member, x: Member)
    requires
        members.contains(x) && x.0 != m.0 || x == m,
    ensures
        put_member(members, m).contains(x),
    decreases members.len(),
{
    let out = put_member(members, m);
    if members.len() == 0 || members.last().0 == m.0 || text_lt(members.last().0, m.0) {
        if x == m {
            assert(out[out.len() - 1] == m);
        } else {
            let i = choose|i: int| 0 <= i < members.len() && members[i] == x;
            assert(out[i] == x);
        }
    } else if x != m && x == members.last() {
        assert(out[out.len() - 1] == x);
    } else {
        let init = members.drop_last();
        if x != m {
            let i = choose|i: int| 0 <= i < members.len() && members[i] == x;
            assert(init[i] == x);
        }
        lemma_put_contains(init, m, x);
        let inner = put_member(init, m);
        let k = choose|k: int| 0 <= k < inner.len() && inner[k] == x;
        assert(out[k] == x);
    }
}

proof fn lemma_tree_contains(members: Seq<Member>, k: int)
    requires
        0 <= k < members.len(),
        forall|j: int| k < j < members.len() ==> (#[trigger] members[j]).0 != members[k].0,
    ensures
        tree_members(members).contains((members[k].0, tree(members[k].1))),
    decreases members.len(),
{
    let init = members.subrange(0, members.len() - 1);
    let last: Member = (members.last().0, tree(members.last().1));
    let x: Member = (members[k].0, tree(members[k].1));
    if k < init.len() {
        assert(init[k] == members[k]);
        assert forall|j: int| k < j < init.len() implies (#[trigger] init[j]).0 != init[k].0 by {
            assert(members[j].0 != members[k].0);
        }
        lemma_tree_contains(init, k);
        assert(members[members.len() - 1].0 != members[k].0);
    }
    lemma_put_contains(tree_members(init), last, x);
}

proof fn lemma_member_of_ascending(members: Seq<Member>, i: int)
    requires
        ascending(members),
        0 <= i < members.len(),
    ensures
        member(members, members[i].0) == Some(members[i].1),
    decreases members.len(),
{
    if i > 0 {
        let rest = members.skip(1);
        assert(text_lt(members[0].0, members[i].0));
        lemma_lt_irreflexive(members[0].0);
        assert forall|a: int, b: int| 0 <= a < b < rest.len() implies text_lt(
            (#[trigger] rest[a]).0,
            (#[trigger] rest[b]).0,
        ) by {
            assert(text_lt(members[a + 1].0, members[b + 1].0));
        }
        lemma_member_of_ascending(rest, i - 1);
    }
}

/// The tree of an object gives each key the last value that it was listed with, and
/// has no other keys.
pub proof fn lemma_tree_lookup(members: Seq<Member>, k: int)
    requires
        0 <= k < members.len(),
        forall|j: int| k < j < members.len() ==> (#[trigger] members[j]).0 != members[k].0,
    ensures
        tree(JsonView::Object(members)).get(members[k].0) == Some(tree(members[k].1)),
{
    lemma_tree_members(members);
    lemma_tree_contains(members, k);
    let all = tree_members(members);
    let i = choose|i: int|
        0 <= i < all.len() && all[i] == (members[k].0, tree(members[k].1));
    lemma_member_of_ascending(all, i);
}

/// Every key of the tree of an object was listed.
pub proof fn lemma_tree_keys(members: Seq<Member>, i: int) -> (k: int)
    requires
        0 <= i < tree_members(members).len(),
    ensures
        0 <= k < members.len(),
        members[k].0 == tree_members(members)[i].0,
{
    lemma_tree_members(members);
    assert(comes_from(tree_members(members)[i], members));
    choose|k: int| 0 <= k < members.len() && (#[trigger] members[k]).0 == tree_members(members)[i].0
}

pub proof fn lemma_tree_sound(v: JsonView, n: int)
    requires
        integral(v),
        nested_within(v, n),
    ensures
        sound(tree(v), n),
    decreases v,
{
    match v {
        JsonView::Array(items) => {
            let out = tree(v)->Array_0;
            assert forall|i: int| 0 <= i < out.len() implies canonical(#[trigger] out[i]) && integral(
                out[i],
            ) && nested_within(out[i], n - 1) by {
                assert(integral(items[i]) && nested_within(items[i], n - 1));
                lemma_tree_sound(items[i], n - 1);
            }
        },
        JsonView::Object(members) => {
            lemma_tree_members(members);
            let out = tree_members(members);
            assert forall|i: int| 0 <= i < out.len() implies canonical((#[trigger] out[i]).1)
                && integral(out[i].1) && nested_within(out[i].1, n - 1) by {
                assert(comes_from(out[i], members));
                let k = choose|k: int|
                    0 <= k < members.len() && out[i] == (
                        (#[trigger] members[k]).0,
                        tree(members[k].1),
                    );
                assert(integral(members[k].1) && nested_within(members[k].1, n - 1));
                lemma_tree_sound(members[k].1, n - 1);
            }
        },
        _ => {},
    }
}

/// Where keys ascend strictly already, the tree is the value itself.
pub proof fn lemma_tree_of_canonical(v: JsonView)
    requires
        canonical(v),
    ensures
        tree(v) == v,
    decreases v,
{
    match v {
        JsonView::Array(items) => {
            assert forall|i: int| 0 <= i < items.len() implies tree(#[trigger] items[i])
                == items[i] by {
                lemma_tree_of_canonical(items[i]);
            }
            assert(tree(v)->Array_0 =~= items);
        },
        JsonView::Object(members) => {
            assert forall|i: int| 0 <= i < members.len() implies tree((#[trigger] members[i]).1)
                == members[i].1 by {
                lemma_tree_of_canonical(members[i].1);
            }
            lemma_tree_of_ascending(members);
        },
        _ => {},
    }
}

proof fn lemma_tree_of_ascending(members: Seq<Member>)
    requires
        ascending(members),
        forall|i: int| 0 <= i < members.len() ==> tree((#[trigger] members[i]).1) == members[i].1,
    ensures
        tree_members(members) == members,
    decreases members.len(),
{
    if members.len() > 0 {
        let init = members.subrange(0, members.len() - 1);
        assert forall|i: int, j: int| 0 <= i < j < init.len() implies text_lt(
            (#[trigger] init[i]).0,
            (#[trigger] init[j]).0,
        ) by {
            assert(text_lt(members[i].0, members[j].0));
        }
        assert forall|i: int| 0 <= i < init.len() implies tree((#[trigger] init[i]).1)
            == init[i].1 by {
            assert(members[i] == init[i]);
        }
        lemma_tree_of_ascending(init);
        assert(tree(members[members.len() - 1].1) == members.last().1);
        if init.len() > 0 {
            assert(text_lt(members[members.len() - 2].0, members[members.len() - 1].0));
            assert(init.last() == members[members.len() - 2]);
            lemma_lt_irreflexive(init.last().0);
        }
        assert(init.push(members.last()) =~= members);
    }
}

// ---------------------------------------------------------------------------
// JSON text
// ---------------------------------------------------------------------------

/// No number inside `v` is a [`Decimal`], and every integer fits 64 bits.
pub open spec fn integral(v: JsonView) -> bool
    decreases v,
{
    match v {
        JsonView::Decimal(_) => false,
        JsonView::Number(n) => -0x8000_0000_0000_0000 <= n <= 0xffff_ffff_ffff_ffff,
        JsonView::Array(items) => forall|i: int| 0 <= i < items.len() ==> integral(#[trigger] items[i]),
        JsonView::Object(members) => forall|i: int|
            0 <= i < members.len() ==> integral((#[trigger] members[i]).1),
        _ => true,
    }
}

/// No more than `n` arrays and objects are nested inside one another in `v`.
pub open spec fn nested_within(v: JsonView, n: int) -> bool
    decreases v,
{
    match v {
        JsonView::Array(items) => n > 0 && forall|i: int|
            0 <= i < items.len() ==> nested_within(#[trigger] items[i], n - 1),
        JsonView::Object(members) => n > 0 && forall|i: int|
            0 <= i < members.len() ==> nested_within((#[trigger] members[i]).1, n - 1),
        _ => true,
    }
}

/// `v` has unique keys in order, whole numbers and at most `n` levels.
pub open spec fn sound(v: JsonView, n: int) -> bool {
    canonical(v) && integral(v) && nested_within(v, n)
}

/// How many levels of arrays and objects the reader accepts.
pub const MAX_NESTING: u64 = 127;

/// The text of `v` reads back as `v` itself.
pub open spec fn readable(v: JsonView) -> bool {
    sound(v, MAX_NESTING as int)
}

/// `serde_json::Value`, the tree that the JSON reader and printer work on.
#[verifier::external_type_specification]
#[verifier::external_body]
pub struct ExValue(serde_json::Value);

/// What a `serde_json::Value` holds: its scalars, the items of its arrays and
/// the members of its objects in the order in which they are iterated.
pub uninterp spec fn value_view(v: serde_json::Value) -> JsonView;

/// What `serde_json::Value::to_string` returns for a value that holds `v`.
pub uninterp spec fn value_text(v: JsonView) -> Seq<char>;

/// What reading JSON text gives: the value, or the message of the error.
pub type Parsed = Result<JsonView, Seq<char>>;

/// What `serde_json::from_str` reads from `text`: the value, or the message of
/// the error.
pub uninterp spec fn value_parsed(text: Seq<char>) -> Parsed;

/// Converts to `serde_json::Value`, variant by variant. An object becomes a
/// `serde_json::Map`, which keeps its members in ascending key order, the last of
/// several values for one key.
#[verifier::external_body]
fn value_of(v: &Json) -> (r: serde_json::Value)
    ensures
        value_view(r) == tree(v@),
{
    match v {
        Json::Null => serde_json::Value::Null,
        Json::Bool(b) => serde_json::Value::Bool(*b),
        Json::Uint(n) => serde_json::Value::from(*n),
        Json::Int(n) => serde_json::Value::from(*n),
        Json::Decimal(d) => serde_json::Value::Number(d.number.clone()),
        Json::Text(s) => serde_json::Value::String(s.clone()),
        Json::Array(items) => serde_json::Value::Array(items.iter().map(value_of).collect()),
        Json::Object(members) => serde_json::Value::Object(
            members.iter().map(|m| (m.0.clone(), value_of(&m.1))).collect(),
        ),
    }
}

/// Converts from `serde_json::Value`, variant by variant; the kinds of number
/// are told apart by `as_u64` and `as_i64`.
#[verifier::external_body]
fn json_of(v: serde_json::Value) -> (r: Json)
    ensures
        r@ == value_view(v),
{
    match v {
        serde_json::Value::Null => Json::Null,
        serde_json::Value::Bool(b) => Json::Bool(b),
        serde_json::Value::Number(n) => match (n.as_u64(), n.as_i64()) {
            (Some(u), _) => Json::Uint(u),
            (None, Some(i)) => Json::Int(i),
            (None, None) => Json::Decimal(Decimal { number: n }),
        },
        serde_json::Value::String(s) => Json::Text(s),
        serde_json::Value::Array(items) => Json::Array(items.into_iter().map(json_of).collect()),
        serde_json::Value::Object(members) => Json::Object(
            members.into_iter().map(|m| (m.0, json_of(m.1))).collect(),
        ),
    }
}

/// `serde_json::Value::to_string`: the compact JSON text of the value. It is
/// never empty, control characters in it are escaped, and `serde_json::from_str`
/// reads it back to the same value as long as keys are unique and in order,
/// numbers are integers and the nesting is within what the reader accepts.
#[verifier::external_body]
fn value_to_text(v: &serde_json::Value) -> (r: String)
    ensures
        r@ == value_text(value_view(*v)),
        r@.len() > 0,
        forall|i: int| 0 <= i < r@.len() ==> ' ' <= #[trigger] r@[i],
        readable(value_view(*v)) ==> value_parsed(r@) == Parsed::Ok(value_view(*v)),
{
    v.to_string()
}

/// `serde_json::from_str`: reads one JSON value from the whole text; the error
/// is given as its message. It reads the JSON text of a value whatever the order in
/// which the members of its objects are listed: an object becomes a map, which keeps
/// the last of several values for one key.
#[verifier::external_body]
fn value_from_text(text: &str) -> (r: Result<serde_json::Value, String>)
    ensures
        match r {
            Ok(v) => value_parsed(text@) == Parsed::Ok(value_view(v)),
            Err(e) => value_parsed(text@) == Parsed::Err(e@),
        },
        forall|v: JsonView|
            text@ == #[trigger] ordered_text(v) && integral(v) && nested_within(
                v,
                MAX_NESTING as int,
            ) ==> r is Ok && value_view(r->Ok_0) == tree(v),
{
    serde_json::from_str(text).map_err(|e| e.to_string())
}

/// The compact JSON text of `v`.
pub open spec fn json_text(v: JsonView) -> Seq<char> {
    value_text(tree(v))
}

impl Json {
    /// The value with every object a map.
    pub fn to_tree(&self) -> (r: Json)
        ensures
            r@ == tree(self@),
    {
        json_of(value_of(self))
    }

    /// The compact JSON text of the value.
    pub fn to_text(&self) -> (r: String)
        ensures
            r@ == json_text(self@),
            r@.len() > 0,
            forall|i: int| 0 <= i < r@.len() ==> ' ' <= #[trigger] r@[i],
            integral(self@) && nested_within(self@, MAX_NESTING as int) ==> value_parsed(r@)
                == Parsed::Ok(tree(self@)),
            readable(self@) ==> value_parsed(r@) == Parsed::Ok(self@),
    {
        proof {
            if integral(self@) && nested_within(self@, MAX_NESTING as int) {
                lemma_tree_sound(self@, MAX_NESTING as int);
            }
            if canonical(self@) {
                lemma_tree_of_canonical(self@);
            }
        }
        let v = value_of(self);
        value_to_text(&v)
    }

    /// Reads one JSON value from `text`; the error says what is wrong with it.
    pub fn parse(text: &str) -> (r: Result<Json, String>)
        ensures
            match r {
                Ok(v) => value_parsed(text@) == Parsed::Ok(v@),
                Err(e) => value_parsed(text@) == Parsed::Err(e@),
            },
            forall|v: JsonView|
                text@ == #[trigger] ordered_text(v) && integral(v) && nested_within(
                    v,
                    MAX_NESTING as int,
                ) ==> (r matches Ok(x) && x@ == tree(v)),
    {
        match value_from_text(text) {
            Ok(v) => Ok(json_of(v)),
            Err(e) => Err(e),
        }
    }
}

// ---------------------------------------------------------------------------
// Text in member order
// ---------------------------------------------------------------------------

/// The JSON text of `v` with the members of every object in the order in which
/// they are listed.
pub open spec fn ordered_text(v: JsonView) -> Seq<char>
    decreases v,
{
    match v {
        JsonView::Null => "null"@,
        JsonView::Bool(b) => if b {
            "true"@
        } else {
            "false"@
        },
        JsonView::Number(n) => signed_decimal(n),
        JsonView::Decimal(_) => json_text(v),
        JsonView::Text(_) => json_text(v),
        JsonView::Array(items) => "["@ + items_text(items) + "]"@,
        JsonView::Object(members) => "{"@ + members_text(members) + "}"@,
    }
}

/// The texts of `items` with commas between them.
pub open spec fn items_text(items: Seq<JsonView>) -> Seq<char>
    decreases items,
{
    if items.len() == 0 {
        Seq::empty()
    } else if items.len() == 1 {
        ordered_text(items[0])
    } else {
        items_text(items.subrange(0, items.len() - 1)) + ","@ + ordered_text(items.last())
    }
}

/// The texts of `members` with commas between them.
pub open spec fn members_text(members: Seq<Member>) -> Seq<char>
    decreases members,
{
    if members.len() == 0 {
        Seq::empty()
    } else {
        let last = json_text(JsonView::Text(members.last().0)) + ":"@ + ordered_text(
            members.last().1,
        );
        if members.len() == 1 {
            last
        } else {
            members_text(members.subrange(0, members.len() - 1)) + ","@ + last
        }
    }
}

impl Json {
    /// The JSON text with the members of every object in the order in which they
    /// are listed.
    pub fn to_ordered_text(&self) -> (r: String)
        ensures
            r@ == ordered_text(self@),
        decreases *self,
    {
        broadcast use group_json_view;

        match self {
            Json::Null => "null".to_owned(),
            Json::Bool(b) => if *b {
                "true".to_owned()
            } else {
                "false".to_owned()
            },
            Json::Uint(n) => decimal_text(*n),
            Json::Int(n) => signed_decimal_text(*n),
            Json::Decimal(_) => self.to_text(),
            Json::Text(_) => self.to_text(),
            Json::Array(items) => {
                let ghost all = items_view(items@);
                let mut out = String::new();
                let mut i: usize = 0;
                assert(items_text(all.take(0)) =~= Seq::empty());
                while i < items.len()
                    invariant
                        *self == Json::Array(*items),
                        i <= items.len(),
                        all == items_view(items@),
                        out@ == items_text(all.take(i as int)),
                    decreases items.len() - i,
                {
                    assert(decreases_to!(*items => items[i as int]));
                    assert(decreases_to!(*self => self->Array_0));
                    assert(all.take(i + 1).subrange(0, i as int) =~= all.take(i as int));
                    let text = items[i].to_ordered_text();
                    if i > 0 {
                        out.append(",");
                    }
                    out.append(text.as_str());
                    assert(out@ =~= items_text(all.take(i + 1)));
                    i = i + 1;
                }
                assert(all.take(i as int) =~= all);
                concat3("[", out.as_str(), "]")
            },
            Json::Object(members) => {
                let ghost all = members_view(members@);
                let mut out = String::new();
                let mut i: usize = 0;
                assert(members_text(all.take(0)) =~= Seq::empty());
                while i < members.len()
                    invariant
                        *self == Json::Object(*members),
                        i <= members.len(),
                        all == members_view(members@),
                        out@ == members_text(all.take(i as int)),
                    decreases members.len() - i,
                {
                    assert(decreases_to!(*members => members[i as int]));
                    assert(decreases_to!(*self => self->Object_0));
                    assert(all.take(i + 1).subrange(0, i as int) =~= all.take(i as int));
                    let key = Json::Text(members[i].0.clone()).to_text();
                    let text = members[i].1.to_ordered_text();
                    let member = concat3(key.as_str(), ":", text.as_str());
                    if i > 0 {
                        out.append(",");
                    }
                    out.append(member.as_str());
                    assert(out@ =~= members_text(all.take(i + 1)));
                    i = i + 1;
                }
                assert(all.take(i as int) =~= all);
                concat3("{", out.as_str(), "}")
            },
        }
    }
}

/// The text of a list or an object in the order of its members: brackets around the texts,
/// one more behind a comma for each item, and each member's value behind its name.
pub proof fn law_texts_follow_the_order(
    items: Seq<JsonView>,
    v: JsonView,
    members: Seq<Member>,
    name: Seq<char>,
)
    ensures
        ordered_text(JsonView::Null) == "null"@,
        ordered_text(JsonView::Bool(true)) == "true"@,
        ordered_text(JsonView::Bool(false)) == "false"@,
        ordered_text(JsonView::Text(name)) == json_text(JsonView::Text(name)),
        ordered_text(JsonView::Array(items)) == "["@ + items_text(items) + "]"@,
        ordered_text(JsonView::Object(members)) == "{"@ + members_text(members) + "}"@,
        items_text(Seq::empty()) == Seq::<char>::empty(),
        items_text(items.push(v)) == (if items.len() == 0 {
            ordered_text(v)
        } else {
            items_text(items) + ","@ + ordered_text(v)
        }),
        members_text(Seq::empty()) == Seq::<char>::empty(),
        members_text(members.push((name, v))) == (if members.len() == 0 {
            json_text(JsonView::Text(name)) + ":"@ + ordered_text(v)
        } else {
            members_text(members) + ","@ + (json_text(JsonView::Text(name)) + ":"@ + ordered_text(v))
        }),
{
    let more = items.push(v);
    assert(more.subrange(0, more.len() - 1) =~= items);
    let all = members.push((name, v));
    assert(all.subrange(0, all.len() - 1) =~= members);
}

} // verus!
