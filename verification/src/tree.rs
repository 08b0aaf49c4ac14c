//! The two tree maskers: one redacts every string, the other what stands
//! under chosen keys.

use crate::config::{placeholder, MASK_PLACEHOLDER, MAX_DEPTH};
use crate::json::{Json, Tree};
use vstd::hash_set::StringHashSet;
use vstd::prelude::*;

verus! {

/// `tree` with every string replaced by the placeholder, as seen from level
/// `depth`: whatever lies below level [`MAX_DEPTH`] is cut down to `Null`.
pub open spec fn masked_all(tree: Tree, depth: nat) -> Tree
    decreases tree,
{
    if depth > MAX_DEPTH {
        Tree::Null
    } else {
        match tree {
            Tree::Array(items) => Tree::Array(
                Seq::new(
                    items.len(),
                    |i: int|
                        if 0 <= i < items.len() {
                            masked_all(items[i], depth + 1)
                        } else {
                            Tree::Null
                        },
                ),
            ),
            Tree::Object(members) => Tree::Object(
                Seq::new(
                    members.len(),
                    |i: int|
                        (
                            members[i].0,
                            if 0 <= i < members.len() {
                                masked_all(members[i].1, depth + 1)
                            } else {
                                Tree::Null
                            },
                        ),
                ),
            ),
            Tree::Text(_) => Tree::Text(placeholder()),
            _ => tree,
        }
    }
}

/// `tree` with the value under every key in `keys` replaced, whole, by the
/// placeholder string. Keys are compared as they stand.
pub open spec fn masked_selected(tree: Tree, keys: Set<Seq<char>>) -> Tree
    decreases tree,
{
    match tree {
        Tree::Array(items) => Tree::Array(
            Seq::new(
                items.len(),
                |i: int|
                    if 0 <= i < items.len() {
                        masked_selected(items[i], keys)
                    } else {
                        Tree::Null
                    },
            ),
        ),
        Tree::Object(members) => Tree::Object(
            Seq::new(
                members.len(),
                |i: int|
                    (
                        members[i].0,
                        if keys.contains(members[i].0) {
                            Tree::Text(placeholder())
                        } else if 0 <= i < members.len() {
                            masked_selected(members[i].1, keys)
                        } else {
                            Tree::Null
                        },
                    ),
            ),
        ),
        _ => tree,
    }
}

/// Replaces every string in `value` by the placeholder. Arrays and objects
/// keep their shape down to level [`MAX_DEPTH`], counted from `depth` at
/// `value` itself, and whatever lies deeper becomes `Null`; numbers,
/// booleans and nulls stay as they are. Distinct keys stay distinct.
pub fn mask_all(value: &Json, depth: usize) -> (masked: Json)
    ensures
        masked@ == masked_all(value@, depth as nat),
        value@.well_formed() ==> masked@.well_formed(),
    decreases value,
{
    proof {
        if value@.well_formed() {
            lemma_masked_all_well_formed(value@, depth as nat);
        }
    }
    if depth > MAX_DEPTH {
        return Json::Null;
    }
    match value {
        Json::Array(items) => {
            let mut out: Vec<Json> = Vec::new();
            let mut i: usize = 0;
            while i < items.len()
                invariant
                    *value == Json::Array(*items),
                    i <= items.len(),
                    out.len() == i,
                    depth <= MAX_DEPTH,
                    forall|k: int|
                        0 <= k < i ==> (#[trigger] out[k])@ == masked_all(
                            items[k]@,
                            (depth + 1) as nat,
                        ),
                decreases items.len() - i,
            {
                assert(decreases_to!(value => value->Array_0));
                assert(decreases_to!(value => items@[i as int]));
                out.push(mask_all(&items[i], depth + 1));
                i += 1;
            }
            let masked = Json::Array(out);
            assert(masked@->Array_0 =~= masked_all(value@, depth as nat)->Array_0);
            masked
        },
        Json::Object(members) => {
            let mut out: Vec<(String, Json)> = Vec::new();
            let mut i: usize = 0;
            while i < members.len()
                invariant
                    *value == Json::Object(*members),
                    i <= members.len(),
                    out.len() == i,
                    depth <= MAX_DEPTH,
                    forall|k: int|
                        0 <= k < i ==> (#[trigger] out[k]).0@ == members[k].0@ && out[k].1@
                            == masked_all(members[k].1@, (depth + 1) as nat),
                decreases members.len() - i,
            {
                assert(decreases_to!(value => value->Object_0));
                assert(decreases_to!(members@[i as int] => members@[i as int].1));
                assert(decreases_to!(value => members@[i as int].1));
                let key = members[i].0.clone();
                let inner = mask_all(&members[i].1, depth + 1);
                out.push((key, inner));
                i += 1;
            }
            let masked = Json::Object(out);
            assert(masked@->Object_0 =~= masked_all(value@, depth as nat)->Object_0);
            masked
        },
        Json::Text(_) => Json::Text(MASK_PLACEHOLDER.to_owned()),
        _ => value.clone(),
    }
}

/// Replaces the value under every key of `keys_to_mask`, whatever it holds,
/// by the placeholder string, and goes on below every other key and through
/// every array. A key counts only if it stands in the set letter for letter.
/// Distinct keys stay distinct.
pub fn mask_selected(value: &Json, keys_to_mask: &StringHashSet) -> (masked: Json)
    ensures
        masked@ == masked_selected(value@, keys_to_mask@),
        value@.well_formed() ==> masked@.well_formed(),
    decreases value,
{
    proof {
        if value@.well_formed() {
            lemma_masked_selected_well_formed(value@, keys_to_mask@);
        }
    }
    match value {
        Json::Array(items) => {
            let mut out: Vec<Json> = Vec::new();
            let mut i: usize = 0;
            while i < items.len()
                invariant
                    *value == Json::Array(*items),
                    i <= items.len(),
                    out.len() == i,
                    forall|k: int|
                        0 <= k < i ==> (#[trigger] out[k])@ == masked_selected(
                            items[k]@,
                            keys_to_mask@,
                        ),
                decreases items.len() - i,
            {
                assert(decreases_to!(value => value->Array_0));
                assert(decreases_to!(value => items@[i as int]));
                out.push(mask_selected(&items[i], keys_to_mask));
                i += 1;
            }
            let masked = Json::Array(out);
            assert(masked@->Array_0 =~= masked_selected(value@, keys_to_mask@)->Array_0);
            masked
        },
        Json::Object(members) => {
            let mut out: Vec<(String, Json)> = Vec::new();
            let mut i: usize = 0;
            while i < members.len()
                invariant
                    *value == Json::Object(*members),
                    i <= members.len(),
                    out.len() == i,
                    forall|k: int|
                        0 <= k < i ==> (#[trigger] out[k]).0@ == members[k].0@ && out[k].1@ == (
                        if keys_to_mask@.contains(members[k].0@) {
                            Tree::Text(placeholder())
                        } else {
                            masked_selected(members[k].1@, keys_to_mask@)
                        }),
                decreases members.len() - i,
            {
                assert(decreases_to!(value => value->Object_0));
                assert(decreases_to!(members@[i as int] => members@[i as int].1));
                assert(decreases_to!(value => members@[i as int].1));
                let key = members[i].0.clone();
                let inner = if keys_to_mask.contains(members[i].0.as_str()) {
                    Json::Text(MASK_PLACEHOLDER.to_owned())
                } else {
                    mask_selected(&members[i].1, keys_to_mask)
                };
                out.push((key, inner));
                i += 1;
            }
            let masked = Json::Object(out);
            assert(masked@->Object_0 =~= masked_selected(value@, keys_to_mask@)->Object_0);
            masked
        },
        _ => value.clone(),
    }
}

/// Masking everything keeps the keys of every object distinct.
pub proof fn lemma_masked_all_well_formed(tree: Tree, depth: nat)
    requires
        tree.well_formed(),
    ensures
        masked_all(tree, depth).well_formed(),
    decreases tree,
{
    if depth <= MAX_DEPTH {
        match tree {
            Tree::Array(items) => {
                assert forall|i: int| 0 <= i < items.len() implies (#[trigger] masked_all(
                    tree,
                    depth,
                )->Array_0[i]).well_formed() by {
                    lemma_masked_all_well_formed(items[i], depth + 1);
                }
            },
            Tree::Object(members) => {
                assert forall|i: int| 0 <= i < members.len() implies (#[trigger] masked_all(
                    tree,
                    depth,
                )->Object_0[i]).1.well_formed() by {
                    lemma_masked_all_well_formed(members[i].1, depth + 1);
                }
            },
            _ => {},
        }
    }
}

/// Masking under chosen keys keeps the keys of every object distinct.
pub proof fn lemma_masked_selected_well_formed(tree: Tree, keys: Set<Seq<char>>)
    requires
        tree.well_formed(),
    ensures
        masked_selected(tree, keys).well_formed(),
    decreases tree,
{
    match tree {
        Tree::Array(items) => {
            assert forall|i: int| 0 <= i < items.len() implies (#[trigger] masked_selected(
                tree,
                keys,
            )->Array_0[i]).well_formed() by {
                lemma_masked_selected_well_formed(items[i], keys);
            }
        },
        Tree::Object(members) => {
            assert forall|i: int| 0 <= i < members.len() implies (#[trigger] masked_selected(
                tree,
                keys,
            )->Object_0[i]).1.well_formed() by {
                if !keys.contains(members[i].0) {
                    lemma_masked_selected_well_formed(members[i].1, keys);
                }
            }
        },
        _ => {},
    }
}

} // verus!
