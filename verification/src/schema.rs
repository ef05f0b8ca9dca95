//! Reading and writing the members of a JSON object by their type: the shared
//! vocabulary of every wire and ledger schema in the crate.

use crate::json::ascending;
use crate::json::canonical;
use crate::json::integral;
use crate::json::items_view;
use crate::json::member;
use crate::json::nested_within;
use crate::json::opt;
use crate::json::present;
use crate::json::sound;
use crate::json::Field;
use crate::json::Json;
use crate::json::JsonView;
use crate::json::Member;
use crate::text::lemma_lt_irreflexive;
use crate::text::lemma_lt_transitive;
use crate::text::str_eq;
use crate::text::text_lt;
use crate::json::tree;
use vstd::prelude::*;

verus! {

// ---------------------------------------------------------------------------
// Views of optional values
// ---------------------------------------------------------------------------

/// The texts a list of strings holds.
pub open spec fn texts(v: Seq<String>) -> Seq<Seq<char>> {
    Seq::new(v.len(), |i: int| v[i]@)
}

/// A copy of a list of strings.
pub fn clone_texts(v: &Vec<String>) -> (r: Vec<String>)
    ensures
        r@ == v@,
{
    let mut out: Vec<String> = Vec::new();
    let mut i: usize = 0;
    while i < v.len()
        invariant
            i <= v.len(),
            out@ == v@.take(i as int),
        decreases v.len() - i,
    {
        out.push(v[i].clone());
        assert(v@.take(i + 1) =~= v@.take(i as int).push(v@[i as int]));
        i = i + 1;
    }
    assert(v@.take(i as int) =~= v@);
    out
}

/// The texts an optional list of strings holds.
pub open spec fn opt_texts(v: Option<Vec<String>>) -> Option<Seq<Seq<char>>> {
    match v {
        Some(x) => Some(texts(x@)),
        None => None,
    }
}

/// A copy of an optional list of strings.
pub fn clone_opt_texts(v: &Option<Vec<String>>) -> (r: Option<Vec<String>>)
    ensures
        opt_texts(r) == opt_texts(*v),
{
    match v {
        Some(x) => Some(clone_texts(x)),
        None => None,
    }
}

/// A copy of an optional string.
pub fn clone_opt_text(v: &Option<String>) -> (r: Option<String>)
    ensures
        r == *v,
{
    match v {
        Some(x) => Some(x.clone()),
        None => None,
    }
}

/// The value with every object a map, if there is one.
pub open spec fn opt_tree(v: Option<JsonView>) -> Option<JsonView> {
    match v {
        Some(x) => Some(tree(x)),
        None => None,
    }
}

/// The value with every object a map, if there is one.
pub fn opt_to_tree(v: &Option<Json>) -> (r: Option<Json>)
    ensures
        opt(r) == opt_tree(opt(*v)),
{
    match v {
        Some(x) => Some(x.to_tree()),
        None => None,
    }
}

/// A copy of an optional JSON value.
pub fn clone_opt_json(v: &Option<Json>) -> (r: Option<Json>)
    ensures
        opt(r) == opt(*v),
{
    match v {
        Some(x) => Some(x.clone()),
        None => None,
    }
}

/// A copy of a list of JSON values.
pub fn clone_jsons(v: &Vec<Json>) -> (r: Vec<Json>)
    ensures
        items_view(r@) == items_view(v@),
{
    let mut out: Vec<Json> = Vec::new();
    let mut i: usize = 0;
    while i < v.len()
        invariant
            i <= v.len(),
            i == out.len(),
            forall|k: int| 0 <= k < i ==> (#[trigger] out@[k])@ == v@[k]@,
        decreases v.len() - i,
    {
        out.push(v[i].clone());
        i = i + 1;
    }
    assert(items_view(out@) =~= items_view(v@));
    out
}

// ---------------------------------------------------------------------------
// Values to JSON
// ---------------------------------------------------------------------------

pub open spec fn opt_text_json(v: Option<Seq<char>>) -> Option<JsonView> {
    match v {
        Some(s) => Some(JsonView::Text(s)),
        None => None,
    }
}

pub open spec fn opt_bool_json(v: Option<bool>) -> Option<JsonView> {
    match v {
        Some(b) => Some(JsonView::Bool(b)),
        None => None,
    }
}

pub open spec fn opt_i64_json(v: Option<i64>) -> Option<JsonView> {
    match v {
        Some(n) => Some(JsonView::Number(n as int)),
        None => None,
    }
}

pub open spec fn opt_u32_json(v: Option<u32>) -> Option<JsonView> {
    match v {
        Some(n) => Some(JsonView::Number(n as int)),
        None => None,
    }
}

pub open spec fn texts_json(v: Seq<Seq<char>>) -> JsonView {
    JsonView::Array(Seq::new(v.len(), |i: int| JsonView::Text(v[i])))
}

/// The value, or `null` where there is none.
pub open spec fn null_or(v: Option<JsonView>) -> JsonView {
    match v {
        Some(j) => j,
        None => JsonView::Null,
    }
}

/// The value, or `null` where there is none.
pub fn from_nullable(v: &Option<Json>) -> (r: Json)
    ensures
        r@ == null_or(opt(*v)),
{
    match v {
        Some(j) => j.clone(),
        None => Json::Null,
    }
}

/// An array of copies of the values.
pub fn from_jsons(v: &Vec<Json>) -> (r: Json)
    ensures
        r@ == JsonView::Array(items_view(v@)),
{
    broadcast use crate::json::group_json_view;

    Json::Array(clone_jsons(v))
}

pub fn from_opt_text(v: &Option<String>) -> (r: Option<Json>)
    ensures
        opt(r) == opt_text_json(opt(*v)),
{
    match v {
        Some(s) => Some(Json::Text(s.clone())),
        None => None,
    }
}

pub fn from_opt_bool(v: Option<bool>) -> (r: Option<Json>)
    ensures
        opt(r) == opt_bool_json(v),
{
    match v {
        Some(b) => Some(Json::Bool(b)),
        None => None,
    }
}

pub fn from_opt_i64(v: Option<i64>) -> (r: Option<Json>)
    ensures
        opt(r) == opt_i64_json(v),
{
    match v {
        Some(n) => Some(Json::Int(n)),
        None => None,
    }
}

pub fn from_opt_u32(v: Option<u32>) -> (r: Option<Json>)
    ensures
        opt(r) == opt_u32_json(v),
{
    match v {
        Some(n) => Some(Json::Uint(n as u64)),
        None => None,
    }
}

pub fn from_texts(v: &Vec<String>) -> (r: Json)
    ensures
        r@ == texts_json(texts(v@)),
{
    broadcast use crate::json::group_json_view;

    let mut out: Vec<Json> = Vec::new();
    let mut i: usize = 0;
    while i < v.len()
        invariant
            i <= v.len(),
            i == out.len(),
            forall|k: int| 0 <= k < i ==> (#[trigger] out@[k])@ == JsonView::Text(v@[k]@),
        decreases v.len() - i,
    {
        out.push(Json::Text(v[i].clone()));
        i = i + 1;
    }
    assert(items_view(out@) =~= texts_json(texts(v@))->Array_0);
    Json::Array(out)
}

// ---------------------------------------------------------------------------
// JSON to values
// ---------------------------------------------------------------------------

/// The value of an optional member: absent and `null` both mean none.
pub open spec fn optional(v: JsonView, key: Seq<char>) -> Option<JsonView> {
    match v.get(key) {
        Some(JsonView::Null) => None,
        other => other,
    }
}

pub open spec fn bool_at(v: JsonView, key: Seq<char>) -> Option<bool> {
    match v.get(key) {
        Some(JsonView::Bool(b)) => Some(b),
        _ => None,
    }
}

pub open spec fn i64_at(v: JsonView, key: Seq<char>) -> Option<i64> {
    match v.get(key) {
        Some(JsonView::Number(n)) => if i64::MIN <= n <= i64::MAX {
            Some(n as i64)
        } else {
            None
        },
        _ => None,
    }
}

pub open spec fn u64_at(v: JsonView, key: Seq<char>) -> Option<u64> {
    match v.get(key) {
        Some(JsonView::Number(n)) => if 0 <= n <= u64::MAX {
            Some(n as u64)
        } else {
            None
        },
        _ => None,
    }
}

pub open spec fn u32_at(v: JsonView, key: Seq<char>) -> Option<u32> {
    match v.get(key) {
        Some(JsonView::Number(n)) => if 0 <= n <= u32::MAX {
            Some(n as u32)
        } else {
            None
        },
        _ => None,
    }
}

/// A number that is zero when left out.
pub open spec fn default_u32_at(v: JsonView, key: Seq<char>) -> Option<u32> {
    match v.get(key) {
        None => Some(0),
        Some(_) => u32_at(v, key),
    }
}

/// All items as texts, when every one of them is a string.
pub open spec fn all_texts(items: Seq<JsonView>) -> Option<Seq<Seq<char>>> {
    if forall|i: int| 0 <= i < items.len() ==> (#[trigger] items[i]).text() is Some {
        Some(Seq::new(items.len(), |i: int| items[i].text()->0))
    } else {
        None
    }
}

/// The items of an array member.
pub open spec fn items_at(v: JsonView, key: Seq<char>) -> Option<Seq<JsonView>> {
    match v.get(key) {
        Some(JsonView::Array(items)) => Some(items),
        _ => None,
    }
}

/// Copies of the items of an array member.
pub fn read_items(v: &Json, key: &str) -> (r: Option<Vec<Json>>)
    ensures
        match r {
            Some(items) => items_at(v@, key@) == Some(items_view(items@)),
            None => items_at(v@, key@) is None,
        },
{
    broadcast use crate::json::group_json_view;

    match v.get(key) {
        Some(Json::Array(items)) => Some(clone_jsons(items)),
        _ => None,
    }
}

pub open spec fn texts_at(v: JsonView, key: Seq<char>) -> Option<Seq<Seq<char>>> {
    match v.get(key) {
        Some(JsonView::Array(items)) => all_texts(items),
        _ => None,
    }
}

/// An optional string: `None` when the member holds something else.
pub open spec fn opt_text_at(v: JsonView, key: Seq<char>) -> Option<Option<Seq<char>>> {
    match optional(v, key) {
        None => Some(None),
        Some(JsonView::Text(s)) => Some(Some(s)),
        Some(_) => None,
    }
}

pub open spec fn opt_bool_at(v: JsonView, key: Seq<char>) -> Option<Option<bool>> {
    match optional(v, key) {
        None => Some(None),
        Some(JsonView::Bool(b)) => Some(Some(b)),
        Some(_) => None,
    }
}

pub open spec fn opt_i64_at(v: JsonView, key: Seq<char>) -> Option<Option<i64>> {
    match optional(v, key) {
        None => Some(None),
        Some(_) => match i64_at(v, key) {
            Some(n) => Some(Some(n)),
            None => None,
        },
    }
}

pub open spec fn opt_u32_at(v: JsonView, key: Seq<char>) -> Option<Option<u32>> {
    match optional(v, key) {
        None => Some(None),
        Some(_) => match u32_at(v, key) {
            Some(n) => Some(Some(n)),
            None => None,
        },
    }
}

/// A required member read by `read`.
pub open spec fn member_at<T>(
    v: JsonView,
    key: Seq<char>,
    read: spec_fn(JsonView) -> Option<T>,
) -> Option<T> {
    match v.get(key) {
        Some(j) => read(j),
        None => None,
    }
}

/// An optional member read by `read`: `None` when it is there and `read`
/// refuses it.
pub open spec fn opt_at<T>(
    v: JsonView,
    key: Seq<char>,
    read: spec_fn(JsonView) -> Option<T>,
) -> Option<Option<T>> {
    match optional(v, key) {
        None => Some(None),
        Some(j) => match read(j) {
            Some(x) => Some(Some(x)),
            None => None,
        },
    }
}

/// The value of an optional member: absent and `null` both mean none.
pub fn read_optional<'a>(v: &'a Json, key: &str) -> (r: Option<&'a Json>)
    ensures
        match r {
            Some(j) => optional(v@, key@) == Some(j@),
            None => optional(v@, key@) is None,
        },
{
    match v.get(key) {
        Some(Json::Null) => None,
        other => other,
    }
}

pub fn read_bool(v: &Json, key: &str) -> (r: Option<bool>)
    ensures
        r == bool_at(v@, key@),
{
    match v.get(key) {
        Some(Json::Bool(b)) => Some(*b),
        _ => None,
    }
}

pub fn read_i64(v: &Json, key: &str) -> (r: Option<i64>)
    ensures
        r == i64_at(v@, key@),
{
    match v.get(key) {
        Some(Json::Int(n)) => Some(*n),
        Some(Json::Uint(n)) => if *n <= i64::MAX as u64 {
            Some(*n as i64)
        } else {
            None
        },
        _ => None,
    }
}

pub fn read_u64(v: &Json, key: &str) -> (r: Option<u64>)
    ensures
        r == u64_at(v@, key@),
{
    match v.get(key) {
        Some(Json::Int(n)) => if *n >= 0 {
            Some(*n as u64)
        } else {
            None
        },
        Some(Json::Uint(n)) => Some(*n),
        _ => None,
    }
}

pub fn read_u32(v: &Json, key: &str) -> (r: Option<u32>)
    ensures
        r == u32_at(v@, key@),
{
    match read_u64(v, key) {
        Some(n) => if n <= u32::MAX as u64 {
            Some(n as u32)
        } else {
            None
        },
        None => None,
    }
}

/// A number that is zero when left out.
pub fn read_default_u32(v: &Json, key: &str) -> (r: Option<u32>)
    ensures
        r == default_u32_at(v@, key@),
{
    match v.get(key) {
        None => Some(0),
        Some(_) => read_u32(v, key),
    }
}

pub fn read_texts(v: &Json, key: &str) -> (r: Option<Vec<String>>)
    ensures
        match r {
            Some(s) => texts_at(v@, key@) == Some(texts(s@)),
            None => texts_at(v@, key@) is None,
        },
{
    broadcast use crate::json::group_json_view;

    match v.get(key) {
        Some(Json::Array(items)) => {
            let ghost all = items_view(items@);
            let mut out: Vec<String> = Vec::new();
            let mut i: usize = 0;
            while i < items.len()
                invariant
                    i <= items.len(),
                    i == out.len(),
                    v@.get(key@) == Some(JsonView::Array(all)),
                    all == items_view(items@),
                    forall|k: int| 0 <= k < i ==> (#[trigger] all[k]).text() == Some(out@[k]@),
                decreases items.len() - i,
            {
                match items[i].as_text() {
                    Some(s) => {
                        assert(all[i as int].text() == Some(s@));
                        out.push(s.clone());
                    },
                    None => {
                        assert(all[i as int].text() is None);
                        return None;
                    },
                }
                i = i + 1;
            }
            assert(all_texts(all) is Some);
            assert(texts(out@) =~= all_texts(all)->0);
            Some(out)
        },
        _ => None,
    }
}

pub fn read_opt_text(v: &Json, key: &str) -> (r: Option<Option<String>>)
    ensures
        match r {
            Some(s) => opt_text_at(v@, key@) == Some(opt(s)),
            None => opt_text_at(v@, key@) is None,
        },
{
    match read_optional(v, key) {
        None => Some(None),
        Some(j) => match j.as_text() {
            Some(s) => Some(Some(s.clone())),
            None => None,
        },
    }
}

pub fn read_opt_bool(v: &Json, key: &str) -> (r: Option<Option<bool>>)
    ensures
        r == opt_bool_at(v@, key@),
{
    match read_optional(v, key) {
        None => Some(None),
        Some(Json::Bool(b)) => Some(Some(*b)),
        Some(_) => None,
    }
}

pub fn read_opt_i64(v: &Json, key: &str) -> (r: Option<Option<i64>>)
    ensures
        r == opt_i64_at(v@, key@),
{
    match read_optional(v, key) {
        None => Some(None),
        Some(_) => match read_i64(v, key) {
            Some(n) => Some(Some(n)),
            None => None,
        },
    }
}

pub fn read_opt_u32(v: &Json, key: &str) -> (r: Option<Option<u32>>)
    ensures
        r == opt_u32_at(v@, key@),
{
    match read_optional(v, key) {
        None => Some(None),
        Some(_) => match read_u32(v, key) {
            Some(n) => Some(Some(n)),
            None => None,
        },
    }
}

/// A copy of an optional member of any type.
pub fn read_opt_json(v: &Json, key: &str) -> (r: Option<Json>)
    ensures
        opt(r) == optional(v@, key@),
{
    match read_optional(v, key) {
        Some(j) => Some(j.clone()),
        None => None,
    }
}

// ---------------------------------------------------------------------------
// Other forms of a value
// ---------------------------------------------------------------------------

/// The object that `v` stands for: a list gives the members of a record in the order
/// of declaration, and may leave out those at the end that have a default. At least
/// `required` members must be there.
pub open spec fn struct_form(v: JsonView, names: Seq<Seq<char>>, required: int) -> JsonView {
    match v {
        JsonView::Array(items) => if required <= items.len() <= names.len() {
            JsonView::Object(Seq::new(items.len(), |i: int| (names[i], items[i])))
        } else {
            v
        },
        _ => v,
    }
}

/// The object that a list of members stands for; none where `v` stands for itself.
pub fn listed_members(v: &Json, names: &[&str], required: usize) -> (r: Option<Json>)
    ensures
        match r {
            Some(o) => o@ == struct_form(v@, key_views(names@), required as int),
            None => v@ == struct_form(v@, key_views(names@), required as int),
        },
{
    broadcast use crate::json::group_json_view;

    match v {
        Json::Array(items) => {
            if items.len() < required || items.len() > names.len() {
                return None;
            }
            let ghost all = items_view(items@);
            let ghost wanted = Seq::new(all.len(), |i: int| (key_views(names@)[i], all[i]));
            let mut members: Vec<(String, Json)> = Vec::new();
            let mut i: usize = 0;
            while i < items.len()
                invariant
                    i <= items.len() <= names.len(),
                    all == items_view(items@),
                    wanted == Seq::new(all.len(), |i: int| (key_views(names@)[i], all[i])),
                    crate::json::members_view(members@) == wanted.take(i as int),
                decreases items.len() - i,
            {
                let ghost before = crate::json::members_view(members@);
                members.push((names[i].to_owned(), items[i].clone()));
                assert(crate::json::members_view(members@) =~= before.push(wanted[i as int]));
                assert(wanted.take(i + 1) =~= wanted.take(i as int).push(wanted[i as int]));
                i = i + 1;
            }
            assert(wanted.take(i as int) =~= wanted);
            Some(Json::Object(members))
        },
        _ => None,
    }
}

/// The text that a list starts with; empty where there is none.
pub open spec fn leading_text(v: JsonView) -> Seq<char> {
    match v {
        JsonView::Array(items) => if items.len() > 0 && items[0] is Text {
            items[0]->Text_0
        } else {
            Seq::empty()
        },
        _ => Seq::empty(),
    }
}

/// The text that a list starts with; empty where there is none.
pub fn read_leading_text(v: &Json) -> (r: String)
    ensures
        r@ == leading_text(v@),
{
    broadcast use crate::json::group_json_view;

    proof {
        reveal_strlit("");
        assert(""@ =~= Seq::<char>::empty());
    }
    match v {
        Json::Array(items) => if items.len() > 0 {
            assert(items_view(items@)[0] == items@[0]@);
            match &items[0] {
                Json::Text(s) => s.clone(),
                _ => "".to_owned(),
            }
        } else {
            "".to_owned()
        },
        _ => "".to_owned(),
    }
}

/// The name of the variant that `v` is: its text, or the only key of an object that
/// gives it `null`.
pub open spec fn variant_name(v: JsonView) -> Option<Seq<char>> {
    match v {
        JsonView::Text(s) => Some(s),
        JsonView::Object(members) => if members.len() == 1 && members[0].1 is Null {
            Some(members[0].0)
        } else {
            None
        },
        _ => None,
    }
}

/// As [`variant_name`], for a member of a tagged value, where an empty object does for
/// `null`.
pub open spec fn tagged_variant_name(v: JsonView) -> Option<Seq<char>> {
    match v {
        JsonView::Object(members) => if members.len() == 1 && members[0].1 == JsonView::Object(
            Seq::empty(),
        ) {
            Some(members[0].0)
        } else {
            variant_name(v)
        },
        _ => variant_name(v),
    }
}

/// The name of the variant that `v` is.
pub fn read_variant<'a>(v: &'a Json) -> (r: Option<&'a String>)
    ensures
        match r {
            Some(s) => variant_name(v@) == Some(s@),
            None => variant_name(v@) is None,
        },
{
    broadcast use crate::json::group_json_view;

    match v {
        Json::Text(s) => Some(s),
        Json::Object(members) => {
            if members.len() != 1 {
                return None;
            }
            assert(crate::json::members_view(members@)[0] == (members@[0].0@, members@[0].1@));
            match &members[0].1 {
                Json::Null => Some(&members[0].0),
                _ => None,
            }
        },
        _ => None,
    }
}

/// The name of the variant that a member of a tagged value is.
pub fn read_tagged_variant<'a>(v: &'a Json) -> (r: Option<&'a String>)
    ensures
        match r {
            Some(s) => tagged_variant_name(v@) == Some(s@),
            None => tagged_variant_name(v@) is None,
        },
{
    broadcast use crate::json::group_json_view;

    if let Json::Object(members) = v {
        if members.len() == 1 {
            assert(crate::json::members_view(members@)[0] == (members@[0].0@, members@[0].1@));
            if let Json::Object(inner) = &members[0].1 {
                if inner.len() == 0 {
                    assert(crate::json::members_view(inner@) =~= Seq::empty());
                    return Some(&members[0].0);
                }
                assert(crate::json::members_view(inner@).len() == inner@.len());
            }
        }
    }
    read_variant(v)
}

// ---------------------------------------------------------------------------
// Closed objects
// ---------------------------------------------------------------------------

/// Every member of the object `v` is named by one of `keys`.
pub open spec fn only_keys(v: JsonView, keys: Seq<Seq<char>>) -> bool {
    match v {
        JsonView::Object(members) => forall|i: int|
            0 <= i < members.len() ==> keys.contains((#[trigger] members[i]).0),
        _ => false,
    }
}

/// The texts behind a list of string slices.
pub open spec fn key_views(keys: Seq<&str>) -> Seq<Seq<char>> {
    Seq::new(keys.len(), |i: int| keys[i]@)
}

/// Whether `v` is an object whose members are all named by one of `keys`.
pub fn has_only_keys(v: &Json, keys: &[&str]) -> (r: bool)
    ensures
        r == only_keys(v@, key_views(keys@)),
{
    broadcast use crate::json::group_json_view;

    match v {
        Json::Object(members) => {
            let ghost all = crate::json::members_view(members@);
            let ghost names = key_views(keys@);
            let mut i: usize = 0;
            while i < members.len()
                invariant
                    i <= members.len(),
                    v@ == JsonView::Object(all),
                    all == crate::json::members_view(members@),
                    names == key_views(keys@),
                    forall|k: int| 0 <= k < i ==> names.contains((#[trigger] all[k]).0),
                decreases members.len() - i,
            {
                let mut known = false;
                let mut j: usize = 0;
                while j < keys.len() && !known
                    invariant
                        i < members.len(),
                        j <= keys.len(),
                        all == crate::json::members_view(members@),
                        names == key_views(keys@),
                        known ==> names.contains(all[i as int].0),
                        !known ==> forall|k: int| 0 <= k < j ==> names[k] != all[i as int].0,
                    decreases keys.len() - j,
                {
                    if str_eq(members[i].0.as_str(), keys[j]) {
                        assert(names[j as int] == all[i as int].0);
                        known = true;
                    }
                    j = j + 1;
                }
                if !known {
                    assert(!names.contains(all[i as int].0));
                    assert(all.len() == members.len());
                    assert(v@->Object_0[i as int] == all[i as int]);
                    return false;
                }
                i = i + 1;
            }
            true
        },
        _ => false,
    }
}

// ---------------------------------------------------------------------------
// What an object built from fields gives back
// ---------------------------------------------------------------------------

/// The keys of `fields` ascend strictly.
pub open spec fn keys_ascend(fields: Seq<Field>) -> bool {
    forall|i: int, j: int|
        0 <= i < j < fields.len() ==> text_lt((#[trigger] fields[i]).0, (#[trigger] fields[j]).0)
}

/// Each key of `fields` is greater than the one before it.
pub open spec fn keys_step(fields: Seq<Field>) -> bool {
    forall|i: int| 0 < i < fields.len() ==> text_lt(fields[i - 1].0, (#[trigger] fields[i]).0)
}

pub proof fn lemma_step_ascends(fields: Seq<Field>)
    requires
        keys_step(fields),
    ensures
        keys_ascend(fields),
{
    assert forall|i: int, j: int| 0 <= i < j < fields.len() implies text_lt(
        (#[trigger] fields[i]).0,
        (#[trigger] fields[j]).0,
    ) by {
        lemma_chain(fields, i, j);
    }
}

proof fn lemma_chain(fields: Seq<Field>, i: int, j: int)
    requires
        keys_step(fields),
        0 <= i < j < fields.len(),
    ensures
        text_lt(fields[i].0, fields[j].0),
    decreases j - i,
{
    if i + 1 < j {
        lemma_chain(fields, i, j - 1);
        lemma_lt_transitive(fields[i].0, fields[j - 1].0, fields[j].0);
    }
}

/// Where no field is left out, the members are the fields.
pub proof fn lemma_present_all(fields: Seq<Field>)
    requires
        forall|i: int| 0 <= i < fields.len() ==> (#[trigger] fields[i]).1 is Some,
    ensures
        present(fields).len() == fields.len(),
        forall|i: int|
            0 <= i < fields.len() ==> #[trigger] present(fields)[i] == (
                fields[i].0,
                fields[i].1->0,
            ),
    decreases fields.len(),
{
    if fields.len() > 0 {
        let init = fields.drop_last();
        assert forall|i: int| 0 <= i < init.len() implies (#[trigger] init[i]).1 is Some by {
            assert(fields[i].1 is Some);
        }
        lemma_present_all(init);
        assert(fields[fields.len() - 1].1 is Some);
        assert forall|i: int| 0 <= i < fields.len() implies #[trigger] present(fields)[i] == (
            fields[i].0,
            fields[i].1->0,
        ) by {
            if i < init.len() {
                assert(present(init)[i] == (init[i].0, init[i].1->0));
            }
        }
    }
}

/// Every member of `present(fields)` comes from one of `fields`.
pub proof fn lemma_present_member(fields: Seq<Field>, k: int)
    requires
        0 <= k < present(fields).len(),
    ensures
        exists|i: int| #![trigger fields[i]]
            0 <= i < fields.len() && fields[i] == (
                present(fields)[k].0,
                Some(present(fields)[k].1),
            ),
    decreases fields.len(),
{
    let init = fields.drop_last();
    if fields.last().1 is Some && k == present(fields).len() - 1 {
        assert(fields[fields.len() - 1] == (present(fields)[k].0, Some(present(fields)[k].1)));
    } else {
        lemma_present_member(init, k);
        let i = choose|i: int| #![trigger init[i]]
            0 <= i < init.len() && init[i] == (present(init)[k].0, Some(present(init)[k].1));
        assert(fields[i] == init[i]);
    }
}

/// Fields with ascending keys make an object with ascending keys.
pub proof fn lemma_present_ascends(fields: Seq<Field>)
    requires
        keys_ascend(fields),
    ensures
        ascending(present(fields)),
    decreases fields.len(),
{
    if fields.len() > 0 {
        let init = fields.drop_last();
        assert forall|i: int, j: int| 0 <= i < j < init.len() implies text_lt(
            (#[trigger] init[i]).0,
            (#[trigger] init[j]).0,
        ) by {
            assert(text_lt(fields[i].0, fields[j].0));
        }
        lemma_present_ascends(init);
        if fields.last().1 is Some {
            let all = present(fields);
            assert forall|i: int, j: int| 0 <= i < j < all.len() implies text_lt(
                (#[trigger] all[i]).0,
                (#[trigger] all[j]).0,
            ) by {
                if j == all.len() - 1 {
                    lemma_present_member(init, i);
                    let k = choose|k: int| #![trigger init[k]]
                        0 <= k < init.len() && init[k] == (
                            present(init)[i].0,
                            Some(present(init)[i].1),
                        );
                    assert(text_lt(fields[k].0, fields[fields.len() - 1].0));
                } else {
                    assert(all[i] == present(init)[i]);
                    assert(all[j] == present(init)[j]);
                }
            }
        }
    }
}

/// An object built from fields whose keys are all among `keys` is closed under
/// them.
pub proof fn lemma_only_keys(fields: Seq<Field>, keys: Seq<Seq<char>>)
    requires
        fields.len() == keys.len(),
        forall|i: int| 0 <= i < fields.len() ==> (#[trigger] fields[i]).0 == keys[i],
    ensures
        only_keys(JsonView::Object(present(fields)), keys),
{
    let members = present(fields);
    assert forall|k: int| 0 <= k < members.len() implies keys.contains(
        (#[trigger] members[k]).0,
    ) by {
        lemma_present_member(fields, k);
        let i = choose|i: int| #![trigger fields[i]]
            0 <= i < fields.len() && fields[i] == (members[k].0, Some(members[k].1));
        assert(keys[i] == members[k].0);
    }
}

proof fn lemma_member_push(members: Seq<Member>, m: Member, key: Seq<char>)
    ensures
        member(members.push(m), key) == match member(members, key) {
            Some(v) => Some(v),
            None => if m.0 == key {
                Some(m.1)
            } else {
                None
            },
        },
    decreases members.len(),
{
    if members.len() > 0 {
        assert(members.push(m).skip(1) =~= members.skip(1).push(m));
        lemma_member_push(members.skip(1), m, key);
    } else {
        assert(members.push(m).skip(1) =~= Seq::<Member>::empty());
        assert(member(Seq::<Member>::empty(), key) is None);
    }
}

/// A key that no field has is no member either.
pub proof fn lemma_absent(fields: Seq<Field>, key: Seq<char>)
    requires
        forall|i: int| 0 <= i < fields.len() ==> (#[trigger] fields[i]).0 != key,
    ensures
        member(present(fields), key) is None,
    decreases fields.len(),
{
    if fields.len() > 0 {
        let init = fields.drop_last();
        assert forall|i: int| 0 <= i < init.len() implies (#[trigger] init[i]).0 != key by {
            assert(init[i] == fields[i]);
        }
        lemma_absent(init, key);
        assert(fields[fields.len() - 1].0 != key);
        if fields.last().1 is Some {
            lemma_member_push(present(init), (fields.last().0, fields.last().1->0), key);
        }
    }
}

/// Looking a key up in an object built from `fields` gives what the field of
/// that key was.
pub proof fn lemma_lookup(fields: Seq<Field>, i: int)
    requires
        keys_ascend(fields),
        0 <= i < fields.len(),
    ensures
        member(present(fields), fields[i].0) == fields[i].1,
    decreases fields.len(),
{
    let init = fields.drop_last();
    let key = fields[i].0;
    assert forall|a: int, b: int| 0 <= a < b < init.len() implies text_lt(
        (#[trigger] init[a]).0,
        (#[trigger] init[b]).0,
    ) by {
        assert(text_lt(fields[a].0, fields[b].0));
    }
    if i == fields.len() - 1 {
        assert forall|k: int| 0 <= k < init.len() implies (#[trigger] init[k]).0 != key by {
            assert(text_lt(fields[k].0, fields[i].0));
            lemma_lt_irreflexive(key);
        }
        lemma_absent(init, key);
    } else {
        lemma_lookup(init, i);
        assert(init[i] == fields[i]);
        assert(text_lt(fields[i].0, fields[fields.len() - 1].0));
        lemma_lt_irreflexive(key);
    }
    if fields.last().1 is Some {
        lemma_member_push(present(init), (fields.last().0, fields.last().1->0), key);
    }
}

pub proof fn lemma_texts_sound(v: Seq<Seq<char>>, n: int)
    requires
        n >= 1,
    ensures
        sound(texts_json(v), n),
{
    let items = texts_json(v)->Array_0;
    assert forall|i: int| 0 <= i < items.len() implies canonical(#[trigger] items[i]) && integral(
        items[i],
    ) && nested_within(items[i], n - 1) by {
        assert(items[i] == JsonView::Text(v[i]));
    }
}

/// An object whose keys ascend and whose present values are sound one level
/// further in is sound itself.
pub proof fn lemma_sound_object(fields: Seq<Field>, n: int)
    requires
        n >= 1,
        keys_ascend(fields),
        forall|i: int|
            0 <= i < fields.len() ==> ((#[trigger] fields[i]).1 matches Some(v) ==> sound(v, n - 1)),
    ensures
        sound(JsonView::Object(present(fields)), n),
{
    let members = present(fields);
    lemma_present_ascends(fields);
    assert forall|k: int| 0 <= k < members.len() implies sound((#[trigger] members[k]).1, n - 1) by {
        lemma_present_member(fields, k);
        let i = choose|i: int| #![trigger fields[i]]
            0 <= i < fields.len() && fields[i] == (members[k].0, Some(members[k].1));
        assert(fields[i].1 matches Some(v) ==> sound(v, n - 1));
    }
    assert forall|k: int| 0 <= k < members.len() implies canonical((#[trigger] members[k]).1) by {
        assert(sound(members[k].1, n - 1));
    }
    assert forall|k: int| 0 <= k < members.len() implies integral((#[trigger] members[k]).1) by {
        assert(sound(members[k].1, n - 1));
    }
    assert forall|k: int| 0 <= k < members.len() implies nested_within(
        (#[trigger] members[k]).1,
        n - 1,
    ) by {
        assert(sound(members[k].1, n - 1));
    }
}

/// The other forms of a value: a list of as many members as there are names, or fewer by
/// those that have a default, stands for the object that gives each name its item; a longer
/// or shorter one, and anything but a list, stands for itself. A variant is its name, or an
/// object that gives the name `null`, and in a tagged value also one that gives it an
/// empty object; nothing else names one.
pub proof fn law_other_forms(
    items: Seq<JsonView>,
    names: Seq<Seq<char>>,
    required: int,
    i: int,
    name: Seq<char>,
    v: JsonView,
)
    ensures
        ({
            let form = struct_form(JsonView::Array(items), names, required);
            if required <= items.len() <= names.len() {
                form matches JsonView::Object(members) && members.len() == items.len() && (0 <= i
                    < items.len() ==> members[i] == (names[i], items[i]))
            } else {
                form == JsonView::Array(items)
            }
        }),
        !(v is Array) ==> struct_form(v, names, required) == v,
        variant_name(JsonView::Text(name)) == Some(name),
        variant_name(JsonView::Object(seq![(name, v)])) == (if v is Null {
            Some(name)
        } else {
            None
        }),
        tagged_variant_name(JsonView::Text(name)) == Some(name),
        tagged_variant_name(JsonView::Object(seq![(name, v)])) == (if v is Null || v
            == JsonView::Object(Seq::empty()) {
            Some(name)
        } else {
            None
        }),
        !(v is Text) && !(v is Object) ==> variant_name(v) is None && tagged_variant_name(v) is None,
{
}

} // verus!
