//! JSON values.

use vstd::prelude::*;

use crate::model::{find_from, found_is_first};
use crate::text::same;

verus! {

broadcast use vstd::string::group_string_axioms;

/// A JSON value. A number is kept as it is written.
#[derive(Debug, PartialEq)]
pub enum Json {
    Null,
    Bool(bool),
    Number(String),
    Text(String),
    List(Vec<Json>),
    Object(Vec<Member>),
}

/// A member of an object.
#[derive(Debug, PartialEq)]
pub struct Member {
    pub key: String,
    pub value: Json,
}

/// A JSON value, over texts.
pub enum JsonTree {
    Null,
    Bool(bool),
    Number(Seq<char>),
    Text(Seq<char>),
    List(Seq<JsonTree>),
    Object(Seq<Entry>),
}

/// A member of an object, over texts.
pub struct Entry {
    pub key: Seq<char>,
    pub value: JsonTree,
}

impl View for Json {
    type V = JsonTree;

    open spec fn view(&self) -> JsonTree
        decreases self,
    {
        match self {
            Json::Null => JsonTree::Null,
            Json::Bool(b) => JsonTree::Bool(*b),
            Json::Number(n) => JsonTree::Number(n@),
            Json::Text(s) => JsonTree::Text(s@),
            Json::List(v) => JsonTree::List(
                Seq::new(
                    v@.len(),
                    |i: int|
                        if 0 <= i < v@.len() {
                            v@[i]@
                        } else {
                            JsonTree::Null
                        },
                ),
            ),
            Json::Object(v) => JsonTree::Object(
                Seq::new(
                    v@.len(),
                    |i: int|
                        if 0 <= i < v@.len() {
                            Entry { key: v@[i].key@, value: v@[i].value@ }
                        } else {
                            Entry { key: Seq::empty(), value: JsonTree::Null }
                        },
                ),
            ),
        }
    }
}

/// A member, over texts.
pub open spec fn entry(m: Member) -> Entry {
    Entry { key: m.key@, value: m.value@ }
}

/// The values of a list, over texts.
pub open spec fn trees(s: Seq<Json>) -> Seq<JsonTree> {
    Seq::new(s.len(), |i: int| s[i]@)
}

/// The members of an object, over texts.
pub open spec fn entries(s: Seq<Member>) -> Seq<Entry> {
    Seq::new(s.len(), |i: int| entry(s[i]))
}

/// What a list holds, over texts.
pub(crate) proof fn list_view(list: Vec<Json>)
    ensures
        Json::List(list)@ == JsonTree::List(trees(list@)),
{
    assert(Json::List(list)@->List_0 =~= trees(list@));
}

/// What an object holds, over texts.
pub(crate) proof fn object_view(object: Vec<Member>)
    ensures
        Json::Object(object)@ == JsonTree::Object(entries(object@)),
{
    assert(Json::Object(object)@->Object_0 =~= entries(object@));
}

// ---- members -------------------------------------------------------------

/// That an entry has that key.
pub open spec fn key_is(key: Seq<char>) -> spec_fn(Entry) -> bool {
    |e: Entry| e.key == key
}

/// The place of the member `key`.
pub open spec fn place(s: Seq<Entry>, key: Seq<char>) -> Option<int> {
    find_from(s, key_is(key), 0)
}

/// The member `key` of an object; none of anything else.
pub open spec fn member(tree: JsonTree, key: Seq<char>) -> Option<JsonTree> {
    match tree {
        JsonTree::Object(s) => match place(s, key) {
            Some(i) => Some(s[i].value),
            None => None,
        },
        _ => None,
    }
}

/// The text of the member `key`, where it is one.
pub open spec fn text_member(tree: JsonTree, key: Seq<char>) -> Option<Seq<char>> {
    match member(tree, key) {
        Some(JsonTree::Text(s)) => Some(s),
        _ => None,
    }
}

/// The members with `key` set: in its place where there is one, else last.
pub open spec fn put(s: Seq<Entry>, key: Seq<char>, value: JsonTree) -> Seq<Entry> {
    match place(s, key) {
        Some(i) => s.update(i, Entry { key, value }),
        None => s.push(Entry { key, value }),
    }
}

/// The place of the member `key`.
pub(crate) fn find_member(members: &Vec<Member>, key: &str) -> (r: Option<usize>)
    ensures
        match r {
            Some(i) => i < members@.len() && place(entries(members@), key@) == Some(i as int)
                && members@[i as int].key@ == key@,
            None => place(entries(members@), key@) is None,
        },
{
    let ghost all = entries(members@);
    for i in 0..members.len()
        invariant
            all == entries(members@),
            place(all, key@) == find_from(all, key_is(key@), i as int),
    {
        assert(all[i as int] == entry(members@[i as int]));
        if same(members[i].key.as_str(), key) {
            return Some(i);
        }
    }
    None
}

impl Json {
    /// The member `key` of an object; none of anything else.
    pub fn get(&self, key: &str) -> (r: Option<&Json>)
        ensures
            match r {
                Some(v) => member(self@, key@) == Some(v@),
                None => member(self@, key@) is None,
            },
    {
        match self {
            Json::Object(members) => {
                proof {
                    object_view(*members);
                }
                match find_member(members, key) {
                    Some(i) => Some(&members[i].value),
                    None => None,
                }
            },
            _ => None,
        }
    }

    /// The text of the member `key`, where it is one.
    pub fn get_text(&self, key: &str) -> (r: Option<&str>)
        ensures
            crate::text::opt_str(r) == text_member(self@, key@),
    {
        match self.get(key) {
            Some(Json::Text(s)) => Some(s.as_str()),
            _ => None,
        }
    }
}

// ---- shapes --------------------------------------------------------------

/// Whether every object holds each key once.
pub open spec fn tidy(t: JsonTree) -> bool
    decreases t,
{
    match t {
        JsonTree::List(s) => forall|i: int| 0 <= i < s.len() ==> tidy(#[trigger] s[i]),
        JsonTree::Object(s) => {
            &&& forall|i: int, j: int|
                #![trigger s[i], s[j]]
                0 <= i < j < s.len() ==> s[i].key != s[j].key
            &&& forall|i: int| 0 <= i < s.len() ==> tidy((#[trigger] s[i]).value)
        },
        _ => true,
    }
}

/// Whether two values hold the same but for the order of members and how numbers
/// are written.
pub open spec fn alike(a: JsonTree, b: JsonTree) -> bool
    decreases a,
{
    match a {
        JsonTree::Number(_) => b is Number || b is Null,
        JsonTree::List(s) => {
            &&& b is List
            &&& b->List_0.len() == s.len()
            &&& forall|i: int| 0 <= i < s.len() ==> alike(#[trigger] s[i], b->List_0[i])
        },
        JsonTree::Object(s) => {
            &&& b is Object
            &&& forall|i: int|
                0 <= i < s.len() ==> member(b, (#[trigger] s[i]).key) is Some && alike(
                    s[i].value,
                    member(b, s[i].key)->0,
                )
            &&& forall|j: int|
                0 <= j < b->Object_0.len() ==> place(s, (#[trigger] b->Object_0[j]).key) is Some
        },
        _ => b == a,
    }
}

/// How deep the values go that `serde_json` reads.
pub const READ_DEPTH: usize = 127;

/// Whether lists and objects lie at most `depth` deep in each other.
pub open spec fn shallow(t: JsonTree, depth: int) -> bool
    decreases t,
{
    match t {
        JsonTree::List(s) => depth > 0 && forall|i: int|
            0 <= i < s.len() ==> shallow(#[trigger] s[i], depth - 1),
        JsonTree::Object(s) => depth > 0 && forall|i: int|
            0 <= i < s.len() ==> shallow((#[trigger] s[i]).value, depth - 1),
        _ => true,
    }
}

// ---- texts ---------------------------------------------------------------

/// `serde_json::Value`.
#[verifier::external_type_specification]
#[verifier::external_body]
pub struct ExJsonValue(serde_json::Value);

/// What a `serde_json::Value` holds.
pub uninterp spec fn json_tree(v: serde_json::Value) -> JsonTree;

/// What `serde_json::from_str` reads from a text, or what its error says.
pub uninterp spec fn json_reading(text: Seq<char>) -> Result<JsonTree, Seq<char>>;

/// What the members of objects become in a `serde_json::Map`, which has its own
/// order and holds each key once.
pub uninterp spec fn settled(tree: JsonTree) -> JsonTree;

/// What `serde_json::to_string_pretty` writes of a value that holds this.
pub uninterp spec fn pretty_text(tree: JsonTree) -> Seq<char>;

/// `serde_json::from_str` into a `serde_json::Value`: decided by the text
/// alone, a value or an error with its message. Its objects are of the type
/// `serde_json::Map`, which holds each key once, and the reader refuses what lies
/// deeper than its limit.
#[verifier::external_body]
fn read_json(text: &str) -> (r: Result<serde_json::Value, String>)
    ensures
        match r {
            Ok(v) => json_reading(text@) == Ok::<JsonTree, Seq<char>>(json_tree(v)),
            Err(e) => json_reading(text@) == Err::<JsonTree, Seq<char>>(e@),
        },
        r matches Ok(v) ==> tidy(json_tree(v)) && shallow(json_tree(v), READ_DEPTH as int),
{
    serde_json::from_str::<serde_json::Value>(text).map_err(|e| e.to_string())
}

/// The variants of `serde_json::Value`, one for one: what the value holds.
#[verifier::external_body]
fn json_of(v: serde_json::Value) -> (r: Json)
    ensures
        r@ == json_tree(v),
{
    match v {
        serde_json::Value::Null => Json::Null,
        serde_json::Value::Bool(b) => Json::Bool(b),
        serde_json::Value::Number(n) => Json::Number(n.to_string()),
        serde_json::Value::String(s) => Json::Text(s),
        serde_json::Value::Array(a) => Json::List(a.into_iter().map(json_of).collect()),
        serde_json::Value::Object(o) => {
            Json::Object(o.into_iter().map(|(key, v)| Member { key, value: json_of(v) }).collect())
        }
    }
}

/// The variants of `serde_json::Value`, one for one: the value that holds this,
/// its objects as `serde_json::Map` keeps them, which may order their members
/// anew. A number that is none becomes null. Where each object holds each key
/// once, nothing else changes; otherwise one of the members with that key stays,
/// and which is not said.
#[verifier::external_body]
fn value_of(j: &Json) -> (r: serde_json::Value)
    ensures
        json_tree(r) == settled(j@),
        tidy(j@) ==> tidy(json_tree(r)) && alike(j@, json_tree(r)),
{
    match j {
        Json::Null => serde_json::Value::Null,
        Json::Bool(b) => serde_json::Value::Bool(*b),
        Json::Number(n) => n.parse().map_or(serde_json::Value::Null, serde_json::Value::Number),
        Json::Text(s) => serde_json::Value::String(s.clone()),
        Json::List(v) => serde_json::Value::Array(v.iter().map(value_of).collect()),
        Json::Object(v) => {
            v.iter().map(|m| (m.key.clone(), value_of(&m.value))).collect()
        }
    }
}

/// `serde_json::to_string_pretty` of a `serde_json::Value`, which always
/// succeeds: decided by what the value holds. Where that is no deeper than the
/// reader's limit, `serde_json::from_str` reads it again, with the same members and
/// as many values in each list. How a number that is read again is written is not
/// said: the reader may round one with a fraction.
#[verifier::external_body]
fn write_pretty(v: &serde_json::Value) -> (r: String)
    ensures
        r@ == pretty_text(json_tree(*v)),
        match json_reading(r@) {
            Ok(t) => tidy(t) && alike(json_tree(*v), t),
            Err(_) => !shallow(json_tree(*v), READ_DEPTH as int),
        },
{
    serde_json::to_string_pretty(v).expect("a value serializes")
}

impl Json {
    /// The value that a text is, or what is wrong with it.
    pub fn parse(text: &str) -> (r: Result<Json, String>)
        ensures
            match r {
                Ok(v) => json_reading(text@) == Ok::<JsonTree, Seq<char>>(v@),
                Err(e) => json_reading(text@) == Err::<JsonTree, Seq<char>>(e@),
            },
            r matches Ok(v) ==> tidy(v@) && shallow(v@, READ_DEPTH as int),
    {
        match read_json(text) {
            Ok(v) => Ok(json_of(v)),
            Err(e) => Err(e),
        }
    }

    /// The value as an indented text. Where the value is not too deep, reading the
    /// text gives it back, but for the order of members and how numbers are written.
    pub fn pretty(&self) -> (r: String)
        ensures
            r@ == pretty_text(settled(self@)),
            tidy(self@) ==> tidy(settled(self@)) && alike(self@, settled(self@)),
            tidy(self@) && shallow(self@, READ_DEPTH as int) ==> (json_reading(r@) matches Ok(t)
                && tidy(t) && alike(settled(self@), t)),
    {
        let value = value_of(self);
        proof {
            if tidy(self@) && shallow(self@, READ_DEPTH as int) {
                alike_stays_shallow(self@, json_tree(value), READ_DEPTH as int);
            }
        }
        write_pretty(&value)
    }
}

// ---- laws ----------------------------------------------------------------

/// A member that was set can be read again, and no other member changes.
pub proof fn put_sets_one_member(s: Seq<Entry>, key: Seq<char>, value: JsonTree, other: Seq<char>)
    ensures
        member(JsonTree::Object(put(s, key, value)), key) == Some(value),
        other != key ==> member(JsonTree::Object(put(s, key, value)), other) == member(
            JsonTree::Object(s),
            other,
        ),
{
    let t = put(s, key, value);
    found_is_first(s, key_is(key), 0);
    found_is_first(t, key_is(key), 0);
    found_is_first(s, key_is(other), 0);
    found_is_first(t, key_is(other), 0);
    match place(s, key) {
        Some(i) => {
            assert(key_is(key)(t[i]));
            assert(forall|k: int| 0 <= k < i ==> #[trigger] t[k] == s[k]);
        },
        None => {
            assert(t.last() == (Entry { key, value }));
            assert(key_is(key)(t[s.len() as int]));
            assert(forall|k: int| 0 <= k < s.len() ==> #[trigger] t[k] == s[k]);
        },
    }
    if other != key {
        match place(s, other) {
            Some(a) => {
                assert(key_is(other)(s[a]));
                assert(t[a] == s[a]);
                let b = place(t, other)->0;
                if b < a {
                    assert(!key_is(other)(s[b]));
                }
            },
            None => {
                if place(t, other) is Some {
                    let b = place(t, other)->0;
                    assert(b < s.len() ==> !key_is(other)(s[b]));
                }
            },
        }
    }
}

/// Setting a member keeps every key once.
pub proof fn put_keeps_keys_apart(s: Seq<Entry>, key: Seq<char>, value: JsonTree)
    requires
        tidy(JsonTree::Object(s)),
        tidy(value),
    ensures
        tidy(JsonTree::Object(put(s, key, value))),
{
    let t = put(s, key, value);
    found_is_first(s, key_is(key), 0);
    assert forall|i: int| 0 <= i < t.len() implies tidy((#[trigger] t[i]).value) by {
        if i < s.len() {
            assert(tidy(s[i].value));
        }
    }
    assert forall|i: int, j: int|
        #![trigger t[i], t[j]]
        0 <= i < j < t.len() implies t[i].key != t[j].key by {
        if j < s.len() {
            assert(s[i].key != s[j].key);
            assert(t[i].key == s[i].key || key_is(key)(s[i]));
            assert(t[j].key == s[j].key || key_is(key)(s[j]));
        } else {
            assert(t[i] == s[i]);
            assert(!key_is(key)(s[i]));
        }
    }
}

/// What values that are alike have under a key is alike.
pub proof fn alike_members(a: JsonTree, b: JsonTree, key: Seq<char>)
    requires
        a is Object,
        alike(a, b),
    ensures
        member(a, key) is Some <==> member(b, key) is Some,
        member(a, key) is Some ==> alike(member(a, key)->0, member(b, key)->0),
{
    let s = a->Object_0;
    let t = b->Object_0;
    found_is_first(s, key_is(key), 0);
    found_is_first(t, key_is(key), 0);
    match place(s, key) {
        Some(i) => {
            assert(s[i].key == key);
        },
        None => {
            match place(t, key) {
                Some(j) => {
                    assert(t[j].key == key);
                },
                None => {},
            }
        },
    }
}

/// What is alike is as deep.
pub proof fn alike_stays_shallow(a: JsonTree, b: JsonTree, depth: int)
    requires
        alike(a, b),
        tidy(b),
        shallow(a, depth),
    ensures
        shallow(b, depth),
    decreases a,
{
    match a {
        JsonTree::List(s) => {
            let t = b->List_0;
            assert forall|i: int| 0 <= i < t.len() implies shallow(#[trigger] t[i], depth - 1) by {
                assert(alike(s[i], t[i]));
                assert(tidy(t[i]));
                assert(shallow(s[i], depth - 1));
                alike_stays_shallow(s[i], t[i], depth - 1);
            }
        },
        JsonTree::Object(s) => {
            let t = b->Object_0;
            assert forall|j: int| 0 <= j < t.len() implies shallow(
                (#[trigger] t[j]).value,
                depth - 1,
            ) by {
                let key = t[j].key;
                found_is_first(s, key_is(key), 0);
                found_is_first(t, key_is(key), 0);
                let i = place(s, key)->0;
                assert(s[i].key == key);
                let k = place(t, key)->0;
                assert(key_is(key)(t[j]));
                assert(t[k].key == key);
                assert(k == j) by {
                    if k < j {
                        assert(t[k].key != t[j].key);
                    }
                }
                assert(tidy(t[j].value));
                assert(shallow(s[i].value, depth - 1));
                alike_stays_shallow(s[i].value, t[j].value, depth - 1);
            }
        },
        _ => {},
    }
}

/// What is no deeper than a limit is no deeper than a larger one.
pub proof fn shallower_still(t: JsonTree, less: int, more: int)
    requires
        shallow(t, less),
        less <= more,
    ensures
        shallow(t, more),
    decreases t,
{
    match t {
        JsonTree::List(s) => {
            assert forall|i: int| 0 <= i < s.len() implies shallow(#[trigger] s[i], more - 1) by {
                shallower_still(s[i], less - 1, more - 1);
            }
        },
        JsonTree::Object(s) => {
            assert forall|i: int| 0 <= i < s.len() implies shallow(
                (#[trigger] s[i]).value,
                more - 1,
            ) by {
                shallower_still(s[i].value, less - 1, more - 1);
            }
        },
        _ => {},
    }
}

/// Setting a member goes no deeper than the object and the member.
pub proof fn put_stays_shallow(s: Seq<Entry>, key: Seq<char>, value: JsonTree, depth: int)
    requires
        shallow(JsonTree::Object(s), depth),
        shallow(value, depth - 1),
    ensures
        shallow(JsonTree::Object(put(s, key, value)), depth),
{
    let t = put(s, key, value);
    found_is_first(s, key_is(key), 0);
    assert forall|i: int| 0 <= i < t.len() implies shallow((#[trigger] t[i]).value, depth - 1) by {
        if i < s.len() {
            assert(shallow(s[i].value, depth - 1));
        }
    }
}

} // verus!
