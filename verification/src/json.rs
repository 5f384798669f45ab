//! JSON documents as plain values, and the reading of JSON text.

use vstd::prelude::*;

verus! {

/// A JSON document.
#[derive(Debug, PartialEq, Eq)]
pub enum Json {
    Null,
    Bool(bool),
    /// A number, with its value where it is an integer of 64 bits.
    Number(Option<i64>),
    Text(String),
    Array(Vec<Json>),
    /// The members of an object, each a key and its value.
    Object(Vec<(String, Json)>),
}

/// What a `Json` stands for.
pub enum JsonView {
    Null,
    Bool(bool),
    Number(Option<i64>),
    Text(Seq<char>),
    Array(Seq<JsonView>),
    Object(Seq<(Seq<char>, JsonView)>),
}

/// The document that a `Json` holds.
pub open spec fn document(json: Json) -> JsonView
    decreases json,
{
    match json {
        Json::Null => JsonView::Null,
        Json::Bool(b) => JsonView::Bool(b),
        Json::Number(n) => JsonView::Number(n),
        Json::Text(s) => JsonView::Text(s@),
        Json::Array(items) => JsonView::Array(
            Seq::new(
                items@.len(),
                |i: int|
                    if 0 <= i < items@.len() {
                        document(items@[i])
                    } else {
                        JsonView::Null
                    },
            ),
        ),
        Json::Object(members) => JsonView::Object(
            Seq::new(
                members@.len(),
                |i: int|
                    if 0 <= i < members@.len() {
                        (members@[i].0@, document(members@[i].1))
                    } else {
                        (Seq::empty(), JsonView::Null)
                    },
            ),
        ),
    }
}

impl View for Json {
    type V = JsonView;

    open spec fn view(&self) -> JsonView {
        document(*self)
    }
}

/// What the items of an array stand for.
pub open spec fn item_views(items: Seq<Json>) -> Seq<JsonView> {
    items.map_values(|item: Json| item@)
}

/// The value that an object gives a key: that of its last member with the
/// key, as a later member of a JSON text takes the place of an earlier one.
pub open spec fn lookup(members: Seq<(Seq<char>, JsonView)>, key: Seq<char>) -> Option<JsonView>
    decreases members.len(),
{
    if members.len() == 0 {
        None
    } else if members.last().0 == key {
        Some(members.last().1)
    } else {
        lookup(members.drop_last(), key)
    }
}

/// An object gives a key the value of the member at `at`, where that member
/// has the key and no later member has it.
pub proof fn lemma_lookup_at(members: Seq<(Seq<char>, JsonView)>, key: Seq<char>, at: int)
    requires
        0 <= at < members.len(),
        members[at].0 == key,
        forall|j: int| at < j < members.len() ==> (#[trigger] members[j]).0 != key,
    ensures
        lookup(members, key) == Some(members[at].1),
    decreases members.len(),
{
    if at < members.len() - 1 {
        lemma_lookup_at(members.drop_last(), key, at);
    }
}

/// An object without a member of a key gives the key no value.
pub proof fn lemma_lookup_absent(members: Seq<(Seq<char>, JsonView)>, key: Seq<char>)
    requires
        forall|j: int| 0 <= j < members.len() ==> (#[trigger] members[j]).0 != key,
    ensures
        lookup(members, key) is None,
    decreases members.len(),
{
    if members.len() > 0 {
        lemma_lookup_absent(members.drop_last(), key);
    }
}

/// The members of a document that is an object; none of any other document.
pub open spec fn members_of(doc: JsonView) -> Seq<(Seq<char>, JsonView)> {
    match doc {
        JsonView::Object(members) => members,
        _ => Seq::empty(),
    }
}

impl Json {
    /// The value that this document gives a key, where it is an object that
    /// has the key.
    pub fn member(&self, key: &str) -> (found: Option<&Json>)
        ensures
            match found {
                Some(item) => lookup(members_of(self@), key@) == Some(item@),
                None => lookup(members_of(self@), key@) is None,
            },
    {
        match self {
            Json::Object(members) => {
                let ghost all = members_of(self@);
                assert(all.take(all.len() as int) =~= all);
                let wanted = key.to_owned();
                let mut i: usize = members.len();
                while i > 0
                    invariant
                        i <= members.len(),
                        wanted@ == key@,
                        all == members_of(self@),
                        all.len() == members.len(),
                        forall|j: int|
                            0 <= j < all.len() ==> all[j] == (
                                (#[trigger] members[j]).0@,
                                members[j].1@,
                            ),
                        lookup(all, key@) == lookup(all.take(i as int), key@),
                    decreases i,
                {
                    i = i - 1;
                    assert(all.take(i + 1).drop_last() =~= all.take(i as int));
                    if members[i].0 == wanted {
                        return Some(&members[i].1);
                    }
                }
                None
            },
            _ => None,
        }
    }
}

/// `serde_json::Value`, the tree that `serde_json` reads a text into.
#[verifier::external_type_specification]
#[verifier::external_body]
pub struct ExValue(serde_json::Value);

/// `serde_json::Error`, what `serde_json` says of a text that it cannot read.
#[verifier::external_type_specification]
#[verifier::external_body]
pub struct ExError(serde_json::Error);

/// The document that a `serde_json::Value` holds.
pub uninterp spec fn value_document(value: serde_json::Value) -> JsonView;

/// How many values deep a `serde_json::Value` nests.
pub uninterp spec fn value_height(value: serde_json::Value) -> nat;

/// The document that `serde_json::from_slice` reads from a text, if it reads
/// one.
pub uninterp spec fn text_document(text: Seq<u8>) -> Option<JsonView>;

/// Calls `serde_json::from_slice` for a `serde_json::Value`. The value holds
/// the document of the text; an error comes exactly where the text has none.
#[verifier::external_body]
fn read_value(text: &[u8]) -> (read: Result<serde_json::Value, serde_json::Error>)
    ensures
        match read {
            Ok(value) => text_document(text@) == Some(value_document(value)),
            Err(_) => text_document(text@) is None,
        },
{
    serde_json::from_slice::<serde_json::Value>(text)
}

/// The top of a `serde_json::Value`: which variant it is, and what the
/// variant holds.
enum Node<'a> {
    Null,
    Bool(bool),
    Number(Option<i64>),
    Text(&'a String),
    Array(&'a Vec<serde_json::Value>),
    Object(Vec<(&'a String, &'a serde_json::Value)>),
}

/// The document of a value with this top.
spec fn node_document(node: Node) -> JsonView {
    match node {
        Node::Null => JsonView::Null,
        Node::Bool(b) => JsonView::Bool(b),
        Node::Number(n) => JsonView::Number(n),
        Node::Text(s) => JsonView::Text(s@),
        Node::Array(items) => JsonView::Array(
            items@.map_values(|item: serde_json::Value| value_document(item)),
        ),
        Node::Object(members) => JsonView::Object(
            members@.map_values(
                |member: (&String, &serde_json::Value)| (member.0@, value_document(*member.1)),
            ),
        ),
    }
}

/// Whether every value under this top nests less than `height` deep.
spec fn node_below(node: Node, height: nat) -> bool {
    match node {
        Node::Array(items) => forall|i: int|
            0 <= i < items@.len() ==> value_height(#[trigger] items@[i]) < height,
        Node::Object(members) => forall|i: int|
            0 <= i < members@.len() ==> value_height(*(#[trigger] members@[i]).1) < height,
        _ => true,
    }
}

/// Tells the variants of a `serde_json::Value` apart and hands out what the
/// variant holds: of a number what `Number::as_i64` gives, of an array its
/// items, of an object its members in the order of `serde_json::Map::iter`.
/// The value's document is made of these, and each value under it nests less
/// deep than it does.
#[verifier::external_body]
fn unpack<'a>(value: &'a serde_json::Value) -> (node: Node<'a>)
    ensures
        node_document(node) == value_document(*value),
        node_below(node, value_height(*value)),
{
    match value {
        serde_json::Value::Null => Node::Null,
        serde_json::Value::Bool(b) => Node::Bool(*b),
        serde_json::Value::Number(n) => Node::Number(n.as_i64()),
        serde_json::Value::String(s) => Node::Text(s),
        serde_json::Value::Array(items) => Node::Array(items),
        serde_json::Value::Object(map) => Node::Object(map.iter().collect()),
    }
}

/// The `Json` of the document that a value holds.
fn lift(value: &serde_json::Value) -> (doc: Json)
    ensures
        doc@ == value_document(*value),
    decreases value_height(*value),
{
    match unpack(value) {
        Node::Null => Json::Null,
        Node::Bool(b) => Json::Bool(b),
        Node::Number(n) => Json::Number(n),
        Node::Text(s) => Json::Text(s.clone()),
        Node::Array(items) => {
            let mut lifted: Vec<Json> = Vec::new();
            let mut i: usize = 0;
            while i < items.len()
                invariant
                    i <= items.len(),
                    lifted.len() == i,
                    forall|j: int|
                        0 <= j < i ==> (#[trigger] lifted[j])@ == value_document(items[j]),
                    forall|j: int|
                        0 <= j < items@.len() ==> value_height(#[trigger] items@[j]) < value_height(
                            *value,
                        ),
                decreases items.len() - i,
            {
                lifted.push(lift(&items[i]));
                i = i + 1;
            }
            let doc = Json::Array(lifted);
            assert(doc@->Array_0 =~= value_document(*value)->Array_0);
            doc
        },
        Node::Object(members) => {
            let mut lifted: Vec<(String, Json)> = Vec::new();
            let mut i: usize = 0;
            while i < members.len()
                invariant
                    i <= members.len(),
                    lifted.len() == i,
                    forall|j: int|
                        0 <= j < i ==> (#[trigger] lifted[j]).0@ == members[j].0@ && lifted[j].1@
                            == value_document(*members[j].1),
                    forall|j: int|
                        0 <= j < members@.len() ==> value_height(*(#[trigger] members@[j]).1)
                            < value_height(*value),
                decreases members.len() - i,
            {
                let key = members[i].0.clone();
                lifted.push((key, lift(members[i].1)));
                i = i + 1;
            }
            let doc = Json::Object(lifted);
            assert(doc@->Object_0 =~= value_document(*value)->Object_0);
            doc
        },
    }
}

/// Reads a JSON text. `None` where the text is no JSON document.
pub fn parse(text: &[u8]) -> (parsed: Option<Json>)
    ensures
        match parsed {
            Some(doc) => text_document(text@) == Some(doc@),
            None => text_document(text@) is None,
        },
{
    match read_value(text) {
        Ok(value) => Some(lift(&value)),
        Err(_) => None,
    }
}

} // verus!
