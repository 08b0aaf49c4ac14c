//! The boundary to `serde_json`: parsing a body into a [`Json`] and writing
//! one back out.

use crate::json::{distinct_keys, Json, Tree};
use vstd::prelude::*;

verus! {

/// `serde_json::Number`, carried through masking untouched.
#[verifier::external_type_specification]
#[verifier::external_body]
pub struct ExNumber(serde_json::Number);

/// `serde_json::Value`, what the parser hands out and the printer takes.
#[verifier::external_type_specification]
#[verifier::external_body]
pub struct ExValue(serde_json::Value);

/// `Clone` for `serde_json::Number`: the copy is the same number.
pub assume_specification[ <serde_json::Number as Clone>::clone ](
    number: &serde_json::Number,
) -> (copy: serde_json::Number)
    ensures
        copy == *number,
;

/// The document that a `serde_json::Value` holds.
pub uninterp spec fn value_tree(value: serde_json::Value) -> Tree;

/// What `serde_json::from_str` reads from a text: the document, or nothing
/// where it reports an error.
pub uninterp spec fn parsed(text: Seq<char>) -> Option<Tree>;

/// What `serde_json::to_string` writes for a value that holds `tree`, or
/// nothing where it reports an error.
pub uninterp spec fn printed(tree: Tree) -> Option<Seq<char>>;

/// One level of a `serde_json::Value`: its own variant, with whatever lies
/// below still in `serde_json`'s hands.
pub(crate) enum Node {
    Null,
    Bool(bool),
    Number(serde_json::Number),
    Text(String),
    Array(Vec<serde_json::Value>),
    Object(Vec<(String, serde_json::Value)>),
}

impl Node {
    /// The document that the node stands for.
    pub(crate) open spec fn tree(self) -> Tree {
        match self {
            Node::Null => Tree::Null,
            Node::Bool(b) => Tree::Bool(b),
            Node::Number(n) => Tree::Number(n),
            Node::Text(s) => Tree::Text(s@),
            Node::Array(items) => Tree::Array(
                Seq::new(items@.len(), |i: int| value_tree(items@[i])),
            ),
            Node::Object(members) => Tree::Object(
                Seq::new(members@.len(), |i: int| (members@[i].0@, value_tree(members@[i].1))),
            ),
        }
    }
}

/// Takes a `serde_json::Value` apart, one level deep. The node stands for
/// the same document; an object's members come in the order in which
/// `serde_json::Map` walks them, and, as that map holds each key once, no
/// two of them share a key.
#[verifier::external_body]
fn open_value(value: serde_json::Value) -> (node: Node)
    ensures
        node.tree() == value_tree(value),
        node.tree() matches Tree::Object(members) ==> distinct_keys(members),
{
    match value {
        serde_json::Value::Null => Node::Null,
        serde_json::Value::Bool(b) => Node::Bool(b),
        serde_json::Value::Number(n) => Node::Number(n),
        serde_json::Value::String(s) => Node::Text(s),
        serde_json::Value::Array(items) => Node::Array(items),
        serde_json::Value::Object(map) => Node::Object(map.into_iter().collect()),
    }
}

/// Puts a `serde_json::Value` together from one level and what lies below.
/// The value holds the document that the node stands for. Members that
/// share a key are left out by `requires`: `serde_json::Map` would keep only
/// one of them.
#[verifier::external_body]
fn close_value(node: Node) -> (value: serde_json::Value)
    requires
        node.tree() matches Tree::Object(members) ==> distinct_keys(members),
    ensures
        value_tree(value) == node.tree(),
{
    match node {
        Node::Null => serde_json::Value::Null,
        Node::Bool(b) => serde_json::Value::Bool(b),
        Node::Number(n) => serde_json::Value::Number(n),
        Node::Text(s) => serde_json::Value::String(s),
        Node::Array(items) => serde_json::Value::Array(items),
        Node::Object(members) => serde_json::Value::Object(members.into_iter().collect()),
    }
}

/// `serde_json::from_str` at `serde_json::Value`: the value holds what the
/// text parses to, and there is none exactly where parsing fails.
#[verifier::external_body]
fn read_value(text: &str) -> (value: Option<serde_json::Value>)
    ensures
        match value {
            Some(v) => parsed(text@) == Some(value_tree(v)),
            None => parsed(text@) is None,
        },
{
    serde_json::from_str::<serde_json::Value>(text).ok()
}

/// `serde_json::to_string` on a `serde_json::Value`: the text written for
/// the document that the value holds, and none exactly where writing fails.
#[verifier::external_body]
fn write_value(value: &serde_json::Value) -> (text: Option<String>)
    ensures
        match text {
            Some(t) => printed(value_tree(*value)) == Some(t@),
            None => printed(value_tree(*value)) is None,
        },
{
    serde_json::to_string(value).ok()
}

/// Turns a `serde_json::Value` into the document it holds. Every object
/// of the result has distinct keys.
pub fn from_value(value: serde_json::Value) -> (doc: Json)
    ensures
        doc@ == value_tree(value),
        doc@.well_formed(),
    decreases value_tree(value),
{
    let ghost tree = value_tree(value);
    match open_value(value) {
        Node::Null => Json::Null,
        Node::Bool(b) => Json::Bool(b),
        Node::Number(n) => Json::Number(n),
        Node::Text(s) => Json::Text(s),
        Node::Array(items) => {
            let ghost all = items@;
            let mut out: Vec<Json> = Vec::new();
            for item in it: items.into_iter()
                invariant
                    it.seq() == all,
                    tree == value_tree(value),
                    tree == Tree::Array(Seq::new(all.len(), |i: int| value_tree(all[i]))),
                    out.len() == it.index(),
                    forall|k: int|
                        0 <= k < out.len() ==> (#[trigger] out[k])@ == value_tree(all[k])
                            && out[k]@.well_formed(),
            {
                assert(tree->Array_0[it.index()] == value_tree(item));
                assert(decreases_to!(tree => tree->Array_0));
                assert(decreases_to!(tree => tree->Array_0[it.index()]));
                out.push(from_value(item));
            }
            let doc = Json::Array(out);
            assert(doc@->Array_0 =~= tree->Array_0);
            doc
        },
        Node::Object(members) => {
            let ghost all = members@;
            let mut out: Vec<(String, Json)> = Vec::new();
            for member in it: members.into_iter()
                invariant
                    it.seq() == all,
                    tree == value_tree(value),
                    tree == Tree::Object(
                        Seq::new(all.len(), |i: int| (all[i].0@, value_tree(all[i].1))),
                    ),
                    out.len() == it.index(),
                    forall|k: int|
                        0 <= k < out.len() ==> (#[trigger] out[k]).0@ == all[k].0@ && out[k].1@
                            == value_tree(all[k].1) && out[k].1@.well_formed(),
            {
                assert(tree->Object_0[it.index()].1 == value_tree(member.1));
                assert(decreases_to!(tree => tree->Object_0));
                assert(decreases_to!(tree->Object_0[it.index()] => tree->Object_0[it.index()].1));
                assert(decreases_to!(tree => tree->Object_0[it.index()].1));
                let (key, inner) = member;
                out.push((key, from_value(inner)));
            }
            let doc = Json::Object(out);
            assert(doc@->Object_0 =~= tree->Object_0);
            doc
        },
    }
}

/// Builds the `serde_json::Value` that holds `doc`. A document in which two
/// members of an object share a key is no such value's content, and is left
/// out by `requires`.
pub fn to_value(doc: &Json) -> (value: serde_json::Value)
    requires
        doc@.well_formed(),
    ensures
        value_tree(value) == doc@,
    decreases doc,
{
    match doc {
        Json::Null => close_value(Node::Null),
        Json::Bool(b) => close_value(Node::Bool(*b)),
        Json::Number(n) => close_value(Node::Number(n.clone())),
        Json::Text(s) => close_value(Node::Text(s.clone())),
        Json::Array(items) => {
            let mut out: Vec<serde_json::Value> = Vec::new();
            let mut i: usize = 0;
            while i < items.len()
                invariant
                    *doc == Json::Array(*items),
                    doc@.well_formed(),
                    i <= items.len(),
                    out.len() == i,
                    forall|k: int| 0 <= k < i ==> value_tree(#[trigger] out[k]) == items[k]@,
                decreases items.len() - i,
            {
                assert(decreases_to!(doc => doc->Array_0));
                assert(decreases_to!(doc => items@[i as int]));
                assert(doc@->Array_0[i as int] == items[i as int]@);
                out.push(to_value(&items[i]));
                i += 1;
            }
            let node = Node::Array(out);
            assert(node.tree()->Array_0 =~= doc@->Array_0);
            close_value(node)
        },
        Json::Object(members) => {
            let mut out: Vec<(String, serde_json::Value)> = Vec::new();
            let mut i: usize = 0;
            while i < members.len()
                invariant
                    *doc == Json::Object(*members),
                    doc@.well_formed(),
                    i <= members.len(),
                    out.len() == i,
                    forall|k: int|
                        0 <= k < i ==> (#[trigger] out[k]).0@ == members[k].0@ && value_tree(
                            out[k].1,
                        ) == members[k].1@,
                decreases members.len() - i,
            {
                assert(decreases_to!(doc => doc->Object_0));
                assert(decreases_to!(members@[i as int] => members@[i as int].1));
                assert(decreases_to!(doc => members@[i as int].1));
                assert(doc@->Object_0[i as int].1 == members[i as int].1@);
                let key = members[i].0.clone();
                let inner = to_value(&members[i].1);
                out.push((key, inner));
                i += 1;
            }
            let node = Node::Object(out);
            assert(node.tree()->Object_0 =~= doc@->Object_0);
            close_value(node)
        },
    }
}

/// Parses a text as JSON. There is a document exactly where
/// `serde_json::from_str` accepts the text, and it is the one read.
pub fn parse_json(text: &str) -> (doc: Option<Json>)
    ensures
        match doc {
            Some(d) => parsed(text@) == Some(d@) && d@.well_formed(),
            None => parsed(text@) is None,
        },
{
    match read_value(text) {
        Some(value) => Some(from_value(value)),
        None => None,
    }
}

/// Writes a document as JSON text. There is a text exactly where
/// `serde_json::to_string` succeeds, and it is the one written.
pub fn print_json(doc: &Json) -> (text: Option<String>)
    requires
        doc@.well_formed(),
    ensures
        match text {
            Some(t) => printed(doc@) == Some(t@),
            None => printed(doc@) is None,
        },
{
    let value = to_value(doc);
    write_value(&value)
}

} // verus!
