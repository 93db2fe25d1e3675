//! JSON values, and reading them from text.
//!
//! A [`Json`] value is what the host's logic works on; its meaning is the tree
//! that [`Json::tree`] gives. Text is parsed and written by `serde_json`.

use vstd::prelude::*;

use crate::digest;
use crate::order;
use crate::text::{decimal_text, same_text};

verus! {

/// The mathematical form of a JSON value. A number is a natural number, a
/// negative integer, or the decimal form of any other number; the members of an
/// object stand in the order of their keys in the value that holds them.
#[verifier::ext_equal]
pub enum JsonTree {
    Null,
    Bool(bool),
    Unsigned(u64),
    Negative(i64),
    Fraction(Seq<char>),
    Text(Seq<char>),
    List(Seq<JsonTree>),
    Object(Seq<(Seq<char>, JsonTree)>),
}

/// A JSON value.
#[derive(Debug, PartialEq, Eq)]
pub enum Json {
    Null,
    Bool(bool),
    Unsigned(u64),
    Negative(i64),
    Fraction(String),
    Text(String),
    List(Vec<Json>),
    Object(Vec<(String, Json)>),
}

/// The value of the first member with the given key.
pub open spec fn member(entries: Seq<(Seq<char>, JsonTree)>, key: Seq<char>) -> Option<JsonTree>
    decreases entries.len(),
{
    if entries.len() == 0 {
        None
    } else if entries[0].0 == key {
        Some(entries[0].1)
    } else {
        member(entries.drop_first(), key)
    }
}

/// The member of an object; nothing for any other value.
pub open spec fn field(t: JsonTree, key: Seq<char>) -> Option<JsonTree> {
    match t {
        JsonTree::Object(entries) => member(entries, key),
        _ => None,
    }
}

/// One step of a JSON pointer whose token is the decimal form of an index: the
/// element of a list, or the member of an object that has the token as its key.
pub open spec fn element(t: JsonTree, index: nat) -> Option<JsonTree> {
    match t {
        JsonTree::List(items) => if index < items.len() {
            Some(items[index as int])
        } else {
            None
        },
        JsonTree::Object(entries) => member(entries, crate::text::decimal(index)),
        _ => None,
    }
}

pub open spec fn then_field(t: Option<JsonTree>, key: Seq<char>) -> Option<JsonTree> {
    match t {
        Some(v) => field(v, key),
        None => None,
    }
}

pub open spec fn then_element(t: Option<JsonTree>, index: nat) -> Option<JsonTree> {
    match t {
        Some(v) => element(v, index),
        None => None,
    }
}

/// The text of a value that is a string.
pub open spec fn text_value(t: Option<JsonTree>) -> Option<Seq<char>> {
    match t {
        Some(JsonTree::Text(s)) => Some(s),
        _ => None,
    }
}

/// The value of a boolean.
pub open spec fn bool_value(t: Option<JsonTree>) -> Option<bool> {
    match t {
        Some(JsonTree::Bool(b)) => Some(b),
        _ => None,
    }
}

/// The value of a number that is a natural number below two to the power 64.
pub open spec fn u64_value(t: Option<JsonTree>) -> Option<u64> {
    match t {
        Some(JsonTree::Unsigned(n)) => Some(n),
        _ => None,
    }
}

/// The elements of a value that is a list.
pub open spec fn list_value(t: Option<JsonTree>) -> Option<Seq<JsonTree>> {
    match t {
        Some(JsonTree::List(items)) => Some(items),
        _ => None,
    }
}

/// The string member of an object.
pub open spec fn text_field(t: JsonTree, key: Seq<char>) -> Option<Seq<char>> {
    text_value(field(t, key))
}

/// The first of two optional values that is there.
pub open spec fn first_of<A>(a: Option<A>, b: Option<A>) -> Option<A> {
    match a {
        Some(_) => a,
        None => b,
    }
}

/// The trees of a list of values.
pub open spec fn trees(items: Seq<Json>) -> Seq<JsonTree> {
    Seq::new(items.len(), |i: int| items[i].tree())
}

/// The trees of a list of members.
pub open spec fn entry_trees(entries: Seq<(String, Json)>) -> Seq<(Seq<char>, JsonTree)> {
    Seq::new(entries.len(), |i: int| (entries[i].0@, entries[i].1.tree()))
}

impl Json {
    /// What the value stands for.
    pub open spec fn tree(&self) -> JsonTree
        decreases self,
    {
        match self {
            Json::Null => JsonTree::Null,
            Json::Bool(b) => JsonTree::Bool(*b),
            Json::Unsigned(n) => JsonTree::Unsigned(*n),
            Json::Negative(n) => JsonTree::Negative(*n),
            Json::Fraction(s) => JsonTree::Fraction(s@),
            Json::Text(s) => JsonTree::Text(s@),
            Json::List(items) => JsonTree::List(
                Seq::new(
                    items@.len(),
                    |i: int|
                        if 0 <= i < items@.len() {
                            items@[i].tree()
                        } else {
                            JsonTree::Null
                        },
                ),
            ),
            Json::Object(entries) => JsonTree::Object(
                Seq::new(
                    entries@.len(),
                    |i: int|
                        if 0 <= i < entries@.len() {
                            (entries@[i].0@, entries@[i].1.tree())
                        } else {
                            (Seq::empty(), JsonTree::Null)
                        },
                ),
            ),
        }
    }

    pub proof fn lemma_list(&self)
        ensures
            self matches Json::List(items) ==> self.tree() == JsonTree::List(trees(items@)),
            self matches Json::Object(entries) ==> self.tree() == JsonTree::Object(
                entry_trees(entries@),
            ),
    {
        match self {
            Json::List(items) => {
                assert(self.tree()->List_0 =~= trees(items@));
            },
            Json::Object(entries) => {
                assert(self.tree()->Object_0 =~= entry_trees(entries@));
            },
            _ => {},
        }
    }

    /// The member of an object; nothing for any other value.
    pub fn get(&self, key: &str) -> (r: Option<&Json>)
        ensures
            match r {
                Some(v) => field(self.tree(), key@) == Some(v.tree()),
                None => field(self.tree(), key@) is None,
            },
    {
        proof {
            self.lemma_list();
        }
        match self {
            Json::Object(entries) => member_of(entries, key),
            _ => None,
        }
    }

    /// The element of a list, or the member of an object that has the decimal
    /// form of the index as its key.
    pub fn at(&self, index: usize) -> (r: Option<&Json>)
        ensures
            match r {
                Some(v) => element(self.tree(), index as nat) == Some(v.tree()),
                None => element(self.tree(), index as nat) is None,
            },
    {
        proof {
            self.lemma_list();
        }
        match self {
            Json::List(items) => if index < items.len() {
                Some(&items[index])
            } else {
                None
            },
            Json::Object(entries) => member_of(entries, decimal_text(index as u64).as_str()),
            _ => None,
        }
    }

    /// The text of a string.
    pub fn as_str(&self) -> (r: Option<&str>)
        ensures
            match r {
                Some(s) => text_value(Some(self.tree())) == Some(s@),
                None => text_value(Some(self.tree())) is None,
            },
    {
        match self {
            Json::Text(s) => Some(s.as_str()),
            _ => None,
        }
    }

    pub fn as_bool(&self) -> (r: Option<bool>)
        ensures
            r == bool_value(Some(self.tree())),
    {
        match self {
            Json::Bool(b) => Some(*b),
            _ => None,
        }
    }

    pub fn as_u64(&self) -> (r: Option<u64>)
        ensures
            r == u64_value(Some(self.tree())),
    {
        match self {
            Json::Unsigned(n) => Some(*n),
            _ => None,
        }
    }

    /// The elements of a list.
    pub fn as_array(&self) -> (r: Option<&Vec<Json>>)
        ensures
            match r {
                Some(items) => list_value(Some(self.tree())) == Some(trees(items@)),
                None => list_value(Some(self.tree())) is None,
            },
    {
        proof {
            self.lemma_list();
        }
        match self {
            Json::List(items) => Some(items),
            _ => None,
        }
    }

    /// The text of a string member.
    pub fn get_str(&self, key: &str) -> (r: Option<&str>)
        ensures
            match r {
                Some(s) => text_field(self.tree(), key@) == Some(s@),
                None => text_field(self.tree(), key@) is None,
            },
    {
        match self.get(key) {
            Some(v) => v.as_str(),
            None => None,
        }
    }
}

pub proof fn lemma_trees_push(items: Seq<Json>, x: Json)
    ensures
        trees(items.push(x)) == trees(items).push(x.tree()),
{
    assert(trees(items.push(x)) =~= trees(items).push(x.tree()));
}

pub proof fn lemma_entry_trees_push(entries: Seq<(String, Json)>, key: String, x: Json)
    ensures
        entry_trees(entries.push((key, x))) == entry_trees(entries).push((key@, x.tree())),
{
    assert(entry_trees(entries.push((key, x))) =~= entry_trees(entries).push((key@, x.tree())));
}

fn member_of<'a>(entries: &'a Vec<(String, Json)>, key: &str) -> (r: Option<&'a Json>)
    ensures
        match r {
            Some(v) => member(entry_trees(entries@), key@) == Some(v.tree()),
            None => member(entry_trees(entries@), key@) is None,
        },
{
    let ghost all = entry_trees(entries@);
    let mut i: usize = 0;
    assert(all.skip(0) =~= all);
    while i < entries.len()
        invariant
            i <= entries@.len(),
            all == entry_trees(entries@),
            member(all, key@) == member(all.skip(i as int), key@),
        decreases entries@.len() - i,
    {
        assert(all.skip(i as int)[0] == all[i as int]);
        assert(all.skip(i as int).drop_first() =~= all.skip(i + 1));
        if same_text(entries[i].0.as_str(), key) {
            return Some(&entries[i].1);
        }
        i += 1;
    }
    None
}

impl Clone for Json {
    fn clone(&self) -> (r: Self)
        ensures
            r.tree() == self.tree(),
        decreases self,
    {
        proof {
            self.lemma_list();
        }
        match self {
            Json::Null => Json::Null,
            Json::Bool(b) => Json::Bool(*b),
            Json::Unsigned(n) => Json::Unsigned(*n),
            Json::Negative(n) => Json::Negative(*n),
            Json::Fraction(s) => Json::Fraction(s.clone()),
            Json::Text(s) => Json::Text(s.clone()),
            Json::List(items) => {
                let mut out: Vec<Json> = Vec::new();
                let mut i: usize = 0;
                while i < items.len()
                    invariant
                        i <= items@.len(),
                        *self == Json::List(*items),
                        trees(out@) == trees(items@).take(i as int),
                    decreases items@.len() - i,
                {
                    let ghost before = out@;
                    proof {
                        assert(*items == self->List_0);
                        assert(decreases_to!(*self => self->List_0@[i as int]));
                    }
                    let copy = items[i].clone();
                    proof {
                        lemma_trees_push(before, copy);
                        assert(trees(items@).take(i + 1) =~= trees(items@).take(i as int).push(
                            items@[i as int].tree(),
                        ));
                    }
                    out.push(copy);
                    i += 1;
                }
                let r = Json::List(out);
                proof {
                    r.lemma_list();
                    assert(trees(items@).take(i as int) =~= trees(items@));
                }
                r
            },
            Json::Object(entries) => {
                let mut out: Vec<(String, Json)> = Vec::new();
                let mut i: usize = 0;
                while i < entries.len()
                    invariant
                        i <= entries@.len(),
                        *self == Json::Object(*entries),
                        entry_trees(out@) == entry_trees(entries@).take(i as int),
                    decreases entries@.len() - i,
                {
                    let ghost before = out@;
                    proof {
                        assert(*entries == self->Object_0);
                        assert(decreases_to!(*self => self->Object_0@[i as int].1));
                    }
                    let key = entries[i].0.clone();
                    let copy = entries[i].1.clone();
                    proof {
                        lemma_entry_trees_push(before, key, copy);
                        assert(entry_trees(entries@).take(i + 1) =~= entry_trees(entries@).take(
                            i as int,
                        ).push((key@, copy.tree())));
                    }
                    out.push((key, copy));
                    i += 1;
                }
                let r = Json::Object(out);
                proof {
                    r.lemma_list();
                    assert(entry_trees(entries@).take(i as int) =~= entry_trees(entries@));
                }
                r
            },
        }
    }
}

#[verifier::external_type_specification]
#[verifier::external_body]
pub struct ExJsonValue(serde_json::Value);

/// What a `serde_json::Value` holds: its tree.
pub uninterp spec fn value_tree(value: serde_json::Value) -> JsonTree;

/// What `serde_json::from_str` makes of a text when it is asked for a
/// `serde_json::Value`: the tree of the value, or the error as it is displayed.
pub uninterp spec fn json_text(text: Seq<char>) -> Result<JsonTree, Seq<char>>;

/// What `serde_json::from_str` makes of a text when it is asked for a list of
/// `serde_json::Value`s.
pub uninterp spec fn json_list_text(text: Seq<char>) -> Result<Seq<JsonTree>, Seq<char>>;

/// How a character is written in a JSON string literal: quotes, backslashes and
/// characters below the space are escaped, the latter in the short form where there
/// is one.
pub open spec fn escaped_char(c: char) -> Seq<char> {
    if c == '"' || c == '\\' {
        seq!['\\', c]
    } else if c == '\u{8}' {
        seq!['\\', 'b']
    } else if c == '\t' {
        seq!['\\', 't']
    } else if c == '\n' {
        seq!['\\', 'n']
    } else if c == '\u{c}' {
        seq!['\\', 'f']
    } else if c == '\r' {
        seq!['\\', 'r']
    } else if c as u32 <= 0x1f {
        seq![
            '\\',
            'u',
            '0',
            '0',
            digest::lower_hex((c as u32 / 16) as nat),
            digest::lower_hex((c as u32 % 16) as nat),
        ]
    } else {
        seq![c]
    }
}

/// The characters of a text as they are written in a JSON string literal.
pub open spec fn escaped_text(text: Seq<char>) -> Seq<char>
    decreases text.len(),
{
    if text.len() == 0 {
        seq![]
    } else {
        escaped_text(text.drop_last()) + escaped_char(text.last())
    }
}

/// The JSON string literal of a text.
pub open spec fn json_literal(text: Seq<char>) -> Seq<char> {
    seq!['"'] + escaped_text(text) + seq!['"']
}

/// One level of a `serde_json::Value`.
enum JsonNode {
    Null,
    Bool(bool),
    Unsigned(u64),
    Negative(i64),
    Fraction(String),
    Text(String),
    List(Vec<serde_json::Value>),
    Object(Vec<(String, serde_json::Value)>),
}

/// The trees of a list of `serde_json::Value`s.
pub open spec fn value_trees(items: Seq<serde_json::Value>) -> Seq<JsonTree> {
    Seq::new(items.len(), |i: int| value_tree(items[i]))
}

spec fn value_entry_trees(entries: Seq<(String, serde_json::Value)>) -> Seq<
    (Seq<char>, JsonTree),
> {
    Seq::new(entries.len(), |i: int| (entries[i].0@, value_tree(entries[i].1)))
}

spec fn node_tree(node: JsonNode) -> JsonTree {
    match node {
        JsonNode::Null => JsonTree::Null,
        JsonNode::Bool(b) => JsonTree::Bool(b),
        JsonNode::Unsigned(n) => JsonTree::Unsigned(n),
        JsonNode::Negative(n) => JsonTree::Negative(n),
        JsonNode::Fraction(s) => JsonTree::Fraction(s@),
        JsonNode::Text(s) => JsonTree::Text(s@),
        JsonNode::List(items) => JsonTree::List(value_trees(items@)),
        JsonNode::Object(entries) => JsonTree::Object(value_entry_trees(entries@)),
    }
}

/// Takes a `serde_json::Value` apart by one level: its variant and the fields of
/// that variant. A number is told apart by `serde_json::Number::as_u64` and
/// `serde_json::Number::as_i64`, which leave the negative ones to the latter, and
/// any other number is displayed. The members of a `serde_json::Map` come in the
/// order of their keys, and no key comes twice.
#[verifier::external_body]
fn node_of(value: serde_json::Value) -> (r: JsonNode)
    ensures
        node_tree(r) == value_tree(value),
        r matches JsonNode::Negative(n) ==> n < 0,
        r matches JsonNode::Object(entries) ==> (forall|i: int, j: int|
            0 <= i < j < entries@.len() ==> order::text_less(
                (#[trigger] entries@[i]).0@,
                (#[trigger] entries@[j]).0@,
            )),
{
    match value {
        serde_json::Value::Null => JsonNode::Null,
        serde_json::Value::Bool(b) => JsonNode::Bool(b),
        serde_json::Value::Number(n) => match (n.as_u64(), n.as_i64()) {
            (Some(n), _) => JsonNode::Unsigned(n),
            (None, Some(n)) => JsonNode::Negative(n),
            (None, None) => JsonNode::Fraction(n.to_string()),
        },
        serde_json::Value::String(s) => JsonNode::Text(s),
        serde_json::Value::Array(items) => JsonNode::List(items),
        serde_json::Value::Object(map) => JsonNode::Object(map.into_iter().collect()),
    }
}

/// Calls `serde_json::from_str` for a `serde_json::Value`. The result is the one
/// named [`json_text`]; an error is handed out as its displayed text.
#[verifier::external_body]
fn value_from_str(text: &str) -> (r: Result<serde_json::Value, String>)
    ensures
        match r {
            Ok(value) => json_text(text@) == Ok::<JsonTree, Seq<char>>(value_tree(value)),
            Err(message) => json_text(text@) == Err::<JsonTree, Seq<char>>(message@),
        },
{
    serde_json::from_str::<serde_json::Value>(text).map_err(|error| error.to_string())
}

/// What `serde_json::from_slice` makes of bytes when it is asked for a
/// `serde_json::Value`: the tree of the value, or the error as it is displayed.
pub uninterp spec fn json_bytes(bytes: Seq<u8>) -> Result<JsonTree, Seq<char>>;

/// Calls `serde_json::from_slice` for a `serde_json::Value`. The result is the one
/// named [`json_bytes`]; an error is handed out as its displayed text.
#[verifier::external_body]
fn value_from_slice(bytes: &[u8]) -> (r: Result<serde_json::Value, String>)
    ensures
        match r {
            Ok(value) => json_bytes(bytes@) == Ok::<JsonTree, Seq<char>>(value_tree(value)),
            Err(message) => json_bytes(bytes@) == Err::<JsonTree, Seq<char>>(message@),
        },
{
    serde_json::from_slice::<serde_json::Value>(bytes).map_err(|error| error.to_string())
}

/// Calls `serde_json::from_str` for a list of `serde_json::Value`s. The result is
/// the one named [`json_list_text`]; an error is handed out as its displayed text.
#[verifier::external_body]
fn values_from_str(text: &str) -> (r: Result<Vec<serde_json::Value>, String>)
    ensures
        match r {
            Ok(values) => json_list_text(text@) == Ok::<Seq<JsonTree>, Seq<char>>(
                value_trees(values@),
            ),
            Err(message) => json_list_text(text@) == Err::<Seq<JsonTree>, Seq<char>>(message@),
        },
{
    serde_json::from_str::<Vec<serde_json::Value>>(text).map_err(|error| error.to_string())
}

/// Calls `serde_json::to_string` on a text, which writes it as a JSON string
/// literal, [`json_literal`]; writing a text to memory does not fail.
#[verifier::external_body]
pub(crate) fn string_literal(text: &str) -> (r: String)
    ensures
        r@ == json_literal(text@),
{
    serde_json::to_string(text).unwrap_or_default()
}

/// Whether a fraction is written as a `serde_json::Value` displays one.
pub open spec fn displayed_fraction(s: Seq<char>) -> bool {
    exists|v: serde_json::Value| #[trigger] value_tree(v) == JsonTree::Fraction(s)
}

/// A value that a `serde_json::Value` can hold as it is: the members of each
/// object are sorted by their keys, a negative number is negative, and a fraction
/// is written as it is displayed.
pub open spec fn canonical(t: JsonTree) -> bool
    decreases t,
{
    match t {
        JsonTree::Negative(n) => n < 0,
        JsonTree::Fraction(s) => displayed_fraction(s),
        JsonTree::List(items) => forall|i: int|
            0 <= i < items.len() ==> canonical(#[trigger] items[i]),
        JsonTree::Object(entries) => {
            &&& forall|i: int, j: int|
                0 <= i < j < entries.len() ==> order::text_less(
                    (#[trigger] entries[i]).0,
                    (#[trigger] entries[j]).0,
                )
            &&& forall|i: int| 0 <= i < entries.len() ==> canonical((#[trigger] entries[i]).1)
        },
        _ => true,
    }
}

proof fn lemma_canonical_list(items: Seq<JsonTree>, i: int)
    requires
        canonical(JsonTree::List(items)),
        0 <= i < items.len(),
    ensures
        canonical(items[i]),
{
    let t = JsonTree::List(items);
    assert(t->List_0[i] == items[i]);
}

proof fn lemma_canonical_object(entries: Seq<(Seq<char>, JsonTree)>, i: int)
    requires
        canonical(JsonTree::Object(entries)),
        0 <= i < entries.len(),
    ensures
        canonical(entries[i].1),
        forall|j: int|
            i < j < entries.len() ==> order::text_less(entries[i].0, (#[trigger] entries[j]).0),
{
    let t = JsonTree::Object(entries);
    assert(t->Object_0[i] == entries[i]);
}

proof fn lemma_canonical_member(entries: Seq<(Seq<char>, JsonTree)>, key: Seq<char>)
    requires
        forall|i: int| 0 <= i < entries.len() ==> canonical((#[trigger] entries[i]).1),
    ensures
        member(entries, key) matches Some(v) ==> canonical(v),
    decreases entries.len(),
{
    if entries.len() > 0 {
        let rest = entries.drop_first();
        assert forall|i: int| 0 <= i < rest.len() implies canonical((#[trigger] rest[i]).1) by {
            assert(rest[i] == entries[i + 1]);
        }
        lemma_canonical_member(rest, key);
    }
}

pub(crate) proof fn lemma_canonical_field(t: JsonTree, key: Seq<char>)
    requires
        canonical(t),
    ensures
        field(t, key) matches Some(v) ==> canonical(v),
{
    if let JsonTree::Object(entries) = t {
        assert forall|i: int| 0 <= i < entries.len() implies canonical(
            (#[trigger] entries[i]).1,
        ) by {
            lemma_canonical_object(entries, i);
        }
        lemma_canonical_member(entries, key);
    }
}

/// A `serde_json::Value` as a value of this library.
fn json_of(value: serde_json::Value) -> (r: Json)
    ensures
        r.tree() == value_tree(value),
        canonical(r.tree()),
    decreases value_tree(value),
{
    let ghost whole = value_tree(value);
    match node_of(value) {
        JsonNode::Null => Json::Null,
        JsonNode::Bool(b) => Json::Bool(b),
        JsonNode::Unsigned(n) => Json::Unsigned(n),
        JsonNode::Negative(n) => Json::Negative(n),
        JsonNode::Fraction(s) => Json::Fraction(s),
        JsonNode::Text(s) => Json::Text(s),
        JsonNode::List(items) => {
            let ghost all = items@;
            let mut out: Vec<Json> = Vec::new();
            for item in it: items
                invariant
                    whole == value_tree(value),
                    whole == JsonTree::List(value_trees(all)),
                    it.seq() == all,
                    trees(out@) == value_trees(all).take(it.index() as int),
                    forall|k: int|
                        0 <= k < it.index() ==> canonical(#[trigger] value_trees(all)[k]),
            {
                let ghost i = it.index() as int;
                proof {
                    assert(whole->List_0[i] == value_tree(item));
                    assert(decreases_to!(whole => whole->List_0[i]));
                }
                let converted = json_of(item);
                proof {
                    lemma_trees_push(out@, converted);
                    assert(value_trees(all).take(i + 1) =~= value_trees(all).take(i).push(
                        converted.tree(),
                    ));
                }
                out.push(converted);
            }
            assert(value_trees(all).take(all.len() as int) =~= value_trees(all));
            let r = Json::List(out);
            proof {
                r.lemma_list();
            }
            r
        },
        JsonNode::Object(entries) => {
            let ghost all = entries@;
            let mut out: Vec<(String, Json)> = Vec::new();
            for entry in it: entries
                invariant
                    whole == value_tree(value),
                    whole == JsonTree::Object(value_entry_trees(all)),
                    it.seq() == all,
                    forall|k: int|
                        0 <= k < it.index() ==> canonical(
                            (#[trigger] value_entry_trees(all)[k]).1,
                        ),
                    entry_trees(out@) == value_entry_trees(all).take(it.index() as int),
            {
                let ghost i = it.index() as int;
                let (key, item) = entry;
                proof {
                    assert(whole->Object_0[i] == (key@, value_tree(item)));
                    assert(decreases_to!(whole => whole->Object_0[i].1));
                }
                let converted = json_of(item);
                proof {
                    lemma_entry_trees_push(out@, key, converted);
                    assert(value_entry_trees(all).take(i + 1) =~= value_entry_trees(all).take(
                        i,
                    ).push((key@, converted.tree())));
                }
                out.push((key, converted));
            }
            assert(value_entry_trees(all).take(all.len() as int) =~= value_entry_trees(all));
            let r = Json::Object(out);
            proof {
                r.lemma_list();
            }
            r
        },
    }
}

/// Reads a JSON text.
pub fn parse_json(text: &str) -> (r: Result<Json, String>)
    ensures
        match r {
            Ok(value) => json_text(text@) == Ok::<JsonTree, Seq<char>>(value.tree()) && canonical(
                value.tree(),
            ),
            Err(message) => json_text(text@) == Err::<JsonTree, Seq<char>>(message@),
        },
{
    match value_from_str(text) {
        Ok(value) => Ok(json_of(value)),
        Err(message) => Err(message),
    }
}

/// Reads the bytes of a JSON text.
pub fn parse_json_bytes(bytes: &[u8]) -> (r: Result<Json, String>)
    ensures
        match r {
            Ok(value) => json_bytes(bytes@) == Ok::<JsonTree, Seq<char>>(value.tree()) && canonical(
                value.tree(),
            ),
            Err(message) => json_bytes(bytes@) == Err::<JsonTree, Seq<char>>(message@),
        },
{
    match value_from_slice(bytes) {
        Ok(value) => Ok(json_of(value)),
        Err(message) => Err(message),
    }
}

/// Reads a JSON text that is a list.
pub fn parse_json_list(text: &str) -> (r: Result<Vec<Json>, String>)
    ensures
        match r {
            Ok(values) => json_list_text(text@) == Ok::<Seq<JsonTree>, Seq<char>>(trees(values@)),
            Err(message) => json_list_text(text@) == Err::<Seq<JsonTree>, Seq<char>>(message@),
        },
{
    match values_from_str(text) {
        Ok(values) => {
            let ghost all = values@;
            let mut out: Vec<Json> = Vec::new();
            for item in it: values
                invariant
                    it.seq() == all,
                    trees(out@) == value_trees(all).take(it.index() as int),
            {
                let ghost i = it.index() as int;
                let converted = json_of(item);
                proof {
                    lemma_trees_push(out@, converted);
                    assert(value_trees(all).take(i + 1) =~= value_trees(all).take(i).push(
                        converted.tree(),
                    ));
                }
                out.push(converted);
            }
            assert(value_trees(all).take(all.len() as int) =~= value_trees(all));
            Ok(out)
        },
        Err(message) => Err(message),
    }
}

/// What `serde_json::to_string` writes for the `serde_json::Value` with a tree.
pub uninterp spec fn json_encoding(tree: JsonTree) -> Seq<char>;

/// Puts one level of a `serde_json::Value` together. A number is made by
/// `serde_json::Number::from`, a fraction by `str::parse` and
/// `serde_json::Number::from_f64`, which give back the number that was displayed; an
/// object is collected into a `serde_json::Map`, which sorts its members by their
/// keys.
#[verifier::external_body]
fn value_of_node(node: JsonNode) -> (r: Option<serde_json::Value>)
    ensures
        match node {
            JsonNode::Negative(n) => n < 0 ==> r is Some && value_tree(r->0) == node_tree(node),
            JsonNode::Fraction(s) => displayed_fraction(s@) ==> r is Some && value_tree(r->0)
                == node_tree(node),
            JsonNode::Object(entries) => (forall|i: int, j: int|
                0 <= i < j < entries@.len() ==> order::text_less(
                    (#[trigger] entries@[i]).0@,
                    (#[trigger] entries@[j]).0@,
                )) ==> r is Some && value_tree(r->0) == node_tree(node),
            _ => r is Some && value_tree(r->0) == node_tree(node),
        },
{
    Some(match node {
        JsonNode::Null => serde_json::Value::Null,
        JsonNode::Bool(b) => serde_json::Value::Bool(b),
        JsonNode::Unsigned(n) => serde_json::Value::Number(n.into()),
        JsonNode::Negative(n) => serde_json::Value::Number(n.into()),
        JsonNode::Fraction(s) => serde_json::Value::Number(serde_json::Number::from_f64(s.parse().ok()?)?),
        JsonNode::Text(s) => serde_json::Value::String(s),
        JsonNode::List(items) => serde_json::Value::Array(items),
        JsonNode::Object(entries) => serde_json::Value::Object(entries.into_iter().collect()),
    })
}

/// Calls `serde_json::to_string` on a `serde_json::Value`. The result is the one
/// named [`json_encoding`]; all keys are texts, so that writing does not fail.
#[verifier::external_body]
fn value_to_string(value: &serde_json::Value) -> (r: String)
    ensures
        r@ == json_encoding(value_tree(*value)),
{
    serde_json::to_string(value).unwrap_or_default()
}

/// A value of this library as a `serde_json::Value`.
fn value_of(json: &Json) -> (r: Option<serde_json::Value>)
    ensures
        canonical(json.tree()) ==> r is Some && value_tree(r->0) == json.tree(),
    decreases json,
{
    proof {
        json.lemma_list();
    }
    match json {
        Json::Null => value_of_node(JsonNode::Null),
        Json::Bool(b) => value_of_node(JsonNode::Bool(*b)),
        Json::Unsigned(n) => value_of_node(JsonNode::Unsigned(*n)),
        Json::Negative(n) => value_of_node(JsonNode::Negative(*n)),
        Json::Fraction(s) => value_of_node(JsonNode::Fraction(s.clone())),
        Json::Text(s) => value_of_node(JsonNode::Text(s.clone())),
        Json::List(items) => {
            let mut out: Vec<serde_json::Value> = Vec::new();
            let mut i: usize = 0;
            while i < items.len()
                invariant
                    i <= items@.len(),
                    *json == Json::List(*items),
                    json.tree() == JsonTree::List(trees(items@)),
                    canonical(json.tree()) ==> value_trees(out@) == trees(items@).take(i as int),
                decreases items@.len() - i,
            {
                proof {
                    assert(*items == json->List_0);
                    assert(decreases_to!(*json => json->List_0@[i as int]));
                    assert(trees(items@)[i as int] == items@[i as int].tree());
                    if canonical(json.tree()) {
                        lemma_canonical_list(trees(items@), i as int);
                    }
                }
                let item = match value_of(&items[i]) {
                    Some(v) => v,
                    None => {
                        return None;
                    },
                };
                let ghost before = out@;
                out.push(item);
                proof {
                    if canonical(json.tree()) {
                        assert(value_trees(out@) =~= value_trees(before).push(value_tree(item)));
                        assert(trees(items@).take(i + 1) =~= trees(items@).take(i as int).push(
                            items@[i as int].tree(),
                        ));
                    }
                }
                i += 1;
            }
            assert(trees(items@).take(i as int) =~= trees(items@));
            value_of_node(JsonNode::List(out))
        },
        Json::Object(entries) => {
            let mut out: Vec<(String, serde_json::Value)> = Vec::new();
            let mut i: usize = 0;
            while i < entries.len()
                invariant
                    i <= entries@.len(),
                    *json == Json::Object(*entries),
                    json.tree() == JsonTree::Object(entry_trees(entries@)),
                    canonical(json.tree()) ==> value_entry_trees(out@) == entry_trees(
                        entries@,
                    ).take(i as int),
                decreases entries@.len() - i,
            {
                proof {
                    assert(*entries == json->Object_0);
                    assert(decreases_to!(*json => json->Object_0@[i as int].1));
                    assert(entry_trees(entries@)[i as int] == (
                        entries@[i as int].0@,
                        entries@[i as int].1.tree(),
                    ));
                    if canonical(json.tree()) {
                        lemma_canonical_object(entry_trees(entries@), i as int);
                    }
                }
                let key = entries[i].0.clone();
                let item = match value_of(&entries[i].1) {
                    Some(v) => v,
                    None => {
                        return None;
                    },
                };
                let ghost before = out@;
                out.push((key, item));
                proof {
                    if canonical(json.tree()) {
                        assert(value_entry_trees(out@) =~= value_entry_trees(before).push(
                            (key@, value_tree(item)),
                        ));
                        assert(entry_trees(entries@).take(i + 1) =~= entry_trees(entries@).take(
                            i as int,
                        ).push((key@, entries@[i as int].1.tree())));
                    }
                }
                i += 1;
            }
            proof {
                assert(entry_trees(entries@).take(i as int) =~= entry_trees(entries@));
                if canonical(json.tree()) {
                    assert forall|a: int, b: int| 0 <= a < b < out@.len() implies order::text_less(
                        (#[trigger] out@[a]).0@,
                        (#[trigger] out@[b]).0@,
                    ) by {
                        assert(value_entry_trees(out@)[a] == entry_trees(entries@)[a]);
                        assert(value_entry_trees(out@)[b] == entry_trees(entries@)[b]);
                        lemma_canonical_object(entry_trees(entries@), a);
                    }
                }
            }
            value_of_node(JsonNode::Object(out))
        },
    }
}

/// Writes a value as a JSON text. It succeeds on every value that was read, and on
/// every other one that a `serde_json::Value` can hold as it is.
pub fn encode_json(json: &Json) -> (r: Option<String>)
    ensures
        canonical(json.tree()) ==> r is Some && r->0@ == json_encoding(json.tree()),
{
    match value_of(json) {
        Some(value) => Some(value_to_string(&value)),
        None => None,
    }
}

} // verus!
