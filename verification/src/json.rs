//! The value tree that masking works on, and its mathematical model.

use vstd::hash_set::StringHashSet;
use vstd::prelude::*;

verus! {

/// The mathematical model of a JSON document: what contracts speak of.
pub enum Tree {
    Null,
    Bool(bool),
    Number(serde_json::Number),
    Text(Seq<char>),
    Array(Seq<Tree>),
    Object(Seq<(Seq<char>, Tree)>),
}

/// Whether no two members of an object share a key.
pub open spec fn distinct_keys(members: Seq<(Seq<char>, Tree)>) -> bool {
    forall|i: int, j: int| 0 <= i < j < members.len() ==> members[i].0 != members[j].0
}

impl Tree {
    /// Whether every object in the tree, at any depth, has distinct keys.
    pub open spec fn well_formed(self) -> bool
        decreases self,
    {
        match self {
            Tree::Array(items) => forall|i: int|
                0 <= i < items.len() ==> (#[trigger] items[i]).well_formed(),
            Tree::Object(members) => distinct_keys(members) && forall|i: int|
                0 <= i < members.len() ==> (#[trigger] members[i]).1.well_formed(),
            _ => true,
        }
    }
}

/// A JSON document held in memory. An object is the list of its members in
/// document order.
#[derive(Debug, PartialEq, Eq)]
pub enum Json {
    Null,
    Bool(bool),
    Number(serde_json::Number),
    Text(String),
    Array(Vec<Json>),
    Object(Vec<(String, Json)>),
}

impl View for Json {
    type V = Tree;

    open spec fn view(&self) -> Tree
        decreases self,
    {
        match self {
            Json::Null => Tree::Null,
            Json::Bool(b) => Tree::Bool(*b),
            Json::Number(n) => Tree::Number(*n),
            Json::Text(s) => Tree::Text(s@),
            Json::Array(items) => Tree::Array(
                Seq::new(
                    items@.len(),
                    |i: int|
                        if 0 <= i < items@.len() {
                            items@[i]@
                        } else {
                            Tree::Null
                        },
                ),
            ),
            Json::Object(members) => Tree::Object(
                Seq::new(
                    members@.len(),
                    |i: int|
                        (
                            members@[i].0@,
                            if 0 <= i < members@.len() {
                                members@[i].1@
                            } else {
                                Tree::Null
                            },
                        ),
                ),
            ),
        }
    }
}

impl Clone for Json {
    /// A copy that holds the same document.
    fn clone(&self) -> (copy: Json)
        ensures
            copy@ == self@,
        decreases self,
    {
        match self {
            Json::Null => Json::Null,
            Json::Bool(b) => Json::Bool(*b),
            Json::Number(n) => Json::Number(n.clone()),
            Json::Text(s) => Json::Text(s.clone()),
            Json::Array(items) => {
                let mut out: Vec<Json> = Vec::new();
                let mut i: usize = 0;
                while i < items.len()
                    invariant
                        *self == Json::Array(*items),
                        i <= items.len(),
                        out.len() == i,
                        forall|k: int| 0 <= k < i ==> (#[trigger] out[k])@ == items[k]@,
                    decreases items.len() - i,
                {
                    assert(decreases_to!(self => self->Array_0));
                    assert(decreases_to!(self => items@[i as int]));
                    out.push(items[i].clone());
                    i += 1;
                }
                let copy = Json::Array(out);
                assert(copy@->Array_0 =~= self@->Array_0);
                copy
            },
            Json::Object(members) => {
                let mut out: Vec<(String, Json)> = Vec::new();
                let mut i: usize = 0;
                while i < members.len()
                    invariant
                        *self == Json::Object(*members),
                        i <= members.len(),
                        out.len() == i,
                        forall|k: int|
                            0 <= k < i ==> (#[trigger] out[k]).0@ == members[k].0@ && out[k].1@
                                == members[k].1@,
                    decreases members.len() - i,
                {
                    assert(decreases_to!(self => self->Object_0));
                    assert(decreases_to!(members@[i as int] => members@[i as int].1));
                    assert(decreases_to!(self => members@[i as int].1));
                    let key = members[i].0.clone();
                    let inner = members[i].1.clone();
                    out.push((key, inner));
                    i += 1;
                }
                let copy = Json::Object(out);
                assert(copy@->Object_0 =~= self@->Object_0);
                copy
            },
        }
    }
}

impl Json {
    /// Tells whether every object in the document, at any depth, has
    /// distinct keys.
    pub fn is_well_formed(&self) -> (ok: bool)
        ensures
            ok == self@.well_formed(),
        decreases self,
    {
        match self {
            Json::Array(items) => {
                let mut i: usize = 0;
                while i < items.len()
                    invariant
                        *self == Json::Array(*items),
                        i <= items.len(),
                        forall|k: int| 0 <= k < i ==> (#[trigger] items[k])@.well_formed(),
                    decreases items.len() - i,
                {
                    assert(decreases_to!(self => self->Array_0));
                    assert(decreases_to!(self => items@[i as int]));
                    if !items[i].is_well_formed() {
                        assert(self@->Array_0[i as int] == items[i as int]@);
                        return false;
                    }
                    i += 1;
                }
                assert forall|k: int| 0 <= k < self@->Array_0.len() implies (
                #[trigger] self@->Array_0[k]).well_formed() by {
                    assert(items[k]@.well_formed());
                }
                true
            },
            Json::Object(members) => {
                let mut seen = StringHashSet::new();
                let mut i: usize = 0;
                while i < members.len()
                    invariant
                        *self == Json::Object(*members),
                        i <= members.len(),
                        forall|key: Seq<char>|
                            seen@.contains(key) <==> exists|k: int|
                                0 <= k < i && (#[trigger] members[k]).0@ == key,
                        forall|a: int, b: int|
                            0 <= a < b < i ==> (#[trigger] members[a]).0@ != (
                            #[trigger] members[b]).0@,
                        forall|k: int| 0 <= k < i ==> (#[trigger] members[k]).1@.well_formed(),
                    decreases members.len() - i,
                {
                    assert(decreases_to!(self => self->Object_0));
                    assert(decreases_to!(members@[i as int] => members@[i as int].1));
                    assert(decreases_to!(self => members@[i as int].1));
                    let ghost before = seen@;
                    let fresh = seen.insert(members[i].0.clone());
                    if !fresh {
                        proof {
                            let k = choose|k: int|
                                0 <= k < i && (#[trigger] members[k]).0@ == members[i as int].0@;
                            assert(self@->Object_0[k].0 == self@->Object_0[i as int].0);
                        }
                        return false;
                    }
                    if !members[i].1.is_well_formed() {
                        assert(self@->Object_0[i as int].1 == members[i as int].1@);
                        return false;
                    }
                    assert forall|key: Seq<char>|
                        seen@.contains(key) <==> exists|k: int|
                            0 <= k < i + 1 && (#[trigger] members[k]).0@ == key by {
                        if seen@.contains(key) && !before.contains(key) {
                            assert(members[i as int].0@ == key);
                        }
                    }
                    i += 1;
                }
                assert forall|k: int| 0 <= k < self@->Object_0.len() implies (
                #[trigger] self@->Object_0[k]).1.well_formed() by {
                    assert(members[k].1@.well_formed());
                }
                assert forall|a: int, b: int| 0 <= a < b < self@->Object_0.len() implies self@
                    ->Object_0[a].0 != self@->Object_0[b].0 by {
                    assert(members[a].0@ != members[b].0@);
                }
                true
            },
            _ => true,
        }
    }
}

} // verus!
