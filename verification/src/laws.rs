//! What holds of masking whatever the input: the shape of a document is
//! kept, strings within the depth bound are redacted and nothing else is,
//! selected keys are redacted exactly, and masking twice changes nothing
//! more.

use crate::body::{body_masked, json_string_masked};
use crate::codec::parsed;
use crate::config::{placeholder, MaskRules, MAX_DEPTH};
use crate::headers::headers_masked;
use crate::json::Tree;
use crate::text::{lowered, lowered_set};
use crate::tree::{masked_all, masked_selected};
use vstd::prelude::*;

verus! {

/// Whether `after` has the shape of `before` as seen from level `depth`:
/// arrays of the same length, objects with the same keys in the same order,
/// leaves where there were leaves, and `Null` for whatever lies below level
/// [`MAX_DEPTH`].
pub open spec fn shape_kept(before: Tree, after: Tree, depth: nat) -> bool
    decreases before,
{
    if depth > MAX_DEPTH {
        after == Tree::Null
    } else {
        match before {
            Tree::Array(items) => {
                &&& after matches Tree::Array(others)
                &&& others.len() == items.len()
                &&& forall|i: int|
                    0 <= i < items.len() ==> shape_kept(
                        #[trigger] items[i],
                        others[i],
                        depth + 1,
                    )
            },
            Tree::Object(members) => {
                &&& after matches Tree::Object(others)
                &&& others.len() == members.len()
                &&& forall|i: int|
                    0 <= i < members.len() ==> others[i].0 == (#[trigger] members[i]).0
                        && shape_kept(members[i].1, others[i].1, depth + 1)
            },
            _ => !(after is Array) && !(after is Object),
        }
    }
}

/// The `i`-th thing directly below `tree`: an element of an array, or the
/// value of a member of an object.
pub open spec fn child(tree: Tree, i: int) -> Option<Tree> {
    match tree {
        Tree::Array(items) => if 0 <= i < items.len() {
            Some(items[i])
        } else {
            None
        },
        Tree::Object(members) => if 0 <= i < members.len() {
            Some(members[i].1)
        } else {
            None
        },
        _ => None,
    }
}

/// What stands in `tree` at the end of `path`, a list of positions to
/// follow downwards from the root.
pub open spec fn at(tree: Tree, path: Seq<int>) -> Option<Tree>
    decreases path.len(),
{
    if path.len() == 0 {
        Some(tree)
    } else {
        match child(tree, path[0]) {
            Some(below) => at(below, path.drop_first()),
            None => None,
        }
    }
}

/// Whether `path` leads, somewhere in `tree`, through a member whose key
/// is in `keys`.
pub open spec fn crosses_key(tree: Tree, path: Seq<int>, keys: Set<Seq<char>>) -> bool
    decreases path.len(),
{
    if path.len() == 0 {
        false
    } else {
        match tree {
            Tree::Array(items) => 0 <= path[0] < items.len() && crosses_key(
                items[path[0]],
                path.drop_first(),
                keys,
            ),
            Tree::Object(members) => 0 <= path[0] < members.len() && (keys.contains(
                members[path[0]].0,
            ) || crosses_key(members[path[0]].1, path.drop_first(), keys)),
            _ => false,
        }
    }
}

/// Masking everything keeps the shape of a document: every array keeps its
/// length and every object its keys, down to the depth bound, and what lies
/// below the bound becomes `Null`.
pub proof fn lemma_mask_all_keeps_shape(tree: Tree, depth: nat)
    ensures
        shape_kept(tree, masked_all(tree, depth), depth),
    decreases tree,
{
    if depth <= MAX_DEPTH {
        match tree {
            Tree::Array(items) => {
                assert forall|i: int| 0 <= i < items.len() implies shape_kept(
                    #[trigger] items[i],
                    masked_all(tree, depth)->Array_0[i],
                    depth + 1,
                ) by {
                    lemma_mask_all_keeps_shape(items[i], depth + 1);
                }
            },
            Tree::Object(members) => {
                assert forall|i: int| 0 <= i < members.len() implies masked_all(
                    tree,
                    depth,
                )->Object_0[i].0 == (#[trigger] members[i]).0 && shape_kept(
                    members[i].1,
                    masked_all(tree, depth)->Object_0[i].1,
                    depth + 1,
                ) by {
                    lemma_mask_all_keeps_shape(members[i].1, depth + 1);
                }
            },
            _ => {},
        }
    }
}

/// Masking everything reaches through a document position by position:
/// what stands at the end of a path after masking is what stood there
/// before, masked from the level at which the path ends. This holds for every
/// path that ends no more than one level below the depth bound.
pub proof fn lemma_mask_all_at(tree: Tree, depth: nat, path: Seq<int>)
    requires
        depth + path.len() <= MAX_DEPTH + 1,
        at(tree, path) is Some,
    ensures
        at(masked_all(tree, depth), path) == Some(
            masked_all(at(tree, path)->0, depth + path.len()),
        ),
    decreases path.len(),
{
    if path.len() > 0 {
        let below = child(tree, path[0])->0;
        assert(child(masked_all(tree, depth), path[0]) == Some(masked_all(below, depth + 1)));
        lemma_mask_all_at(below, depth + 1, path.drop_first());
    }
}

/// Within the depth bound every string is redacted and nothing else is
/// touched: where a path ends at a string, the masked document holds the
/// placeholder there; where it ends at a number, a boolean or a null, the
/// masked document holds the same value. One level below the bound there is
/// `Null`, whatever stood there.
pub proof fn lemma_mask_all_redacts_strings(tree: Tree, depth: nat, path: Seq<int>)
    requires
        depth + path.len() <= MAX_DEPTH + 1,
        at(tree, path) is Some,
    ensures
        depth + path.len() <= MAX_DEPTH && at(tree, path)->0 is Text ==> at(
            masked_all(tree, depth),
            path,
        ) == Some(Tree::Text(placeholder())),
        depth + path.len() <= MAX_DEPTH && (at(tree, path)->0 is Null || at(tree, path)->0 is Bool
            || at(tree, path)->0 is Number) ==> at(masked_all(tree, depth), path) == at(
            tree,
            path,
        ),
        depth + path.len() == MAX_DEPTH + 1 ==> at(masked_all(tree, depth), path) == Some(
            Tree::Null,
        ),
{
    lemma_mask_all_at(tree, depth, path);
}

/// Masking everything a second time changes nothing more.
pub proof fn lemma_mask_all_idempotent(tree: Tree, depth: nat)
    ensures
        masked_all(masked_all(tree, depth), depth) == masked_all(tree, depth),
    decreases tree,
{
    if depth <= MAX_DEPTH {
        let once = masked_all(tree, depth);
        let twice = masked_all(once, depth);
        match tree {
            Tree::Array(items) => {
                assert forall|i: int| 0 <= i < items.len() implies twice->Array_0[i]
                    == once->Array_0[i] by {
                    lemma_mask_all_idempotent(items[i], depth + 1);
                }
                assert(twice->Array_0 =~= once->Array_0);
            },
            Tree::Object(members) => {
                assert forall|i: int| 0 <= i < members.len() implies twice->Object_0[i]
                    == once->Object_0[i] by {
                    lemma_mask_all_idempotent(members[i].1, depth + 1);
                }
                assert(twice->Object_0 =~= once->Object_0);
            },
            _ => {},
        }
    }
}

/// Masking under chosen keys is exact at every object: a member whose key
/// is in the set keeps its key and holds the placeholder string, whatever it
/// held; any other member keeps its key and holds its own value masked by
/// the same rule.
pub proof fn lemma_mask_selected_members(
    members: Seq<(Seq<char>, Tree)>,
    keys: Set<Seq<char>>,
    i: int,
)
    requires
        0 <= i < members.len(),
    ensures
        masked_selected(Tree::Object(members), keys) is Object,
        masked_selected(Tree::Object(members), keys)->Object_0.len() == members.len(),
        masked_selected(Tree::Object(members), keys)->Object_0[i] == (
            members[i].0,
            if keys.contains(members[i].0) {
                Tree::Text(placeholder())
            } else {
                masked_selected(members[i].1, keys)
            },
        ),
{
}

/// Masking under chosen keys goes through every array element by element
/// and leaves a string, a number, a boolean or a null that is no member's
/// value as it is.
pub proof fn lemma_mask_selected_elsewhere(tree: Tree, keys: Set<Seq<char>>)
    ensures
        tree matches Tree::Array(items) ==> {
            &&& masked_selected(tree, keys) matches Tree::Array(others)
            &&& others.len() == items.len()
            &&& forall|i: int|
                0 <= i < items.len() ==> #[trigger] others[i] == masked_selected(items[i], keys)
        },
        !(tree is Array) && !(tree is Object) ==> masked_selected(tree, keys) == tree,
{
}

/// Masking under chosen keys touches nothing that no chosen key stands
/// above: where a path crosses no member with a key in the set, what stands
/// at its end after masking is what stood there before, masked by the same
/// rule; a string, a number, a boolean or a null there is unchanged.
pub proof fn lemma_mask_selected_at(tree: Tree, keys: Set<Seq<char>>, path: Seq<int>)
    requires
        at(tree, path) is Some,
        !crosses_key(tree, path, keys),
    ensures
        at(masked_selected(tree, keys), path) == Some(masked_selected(at(tree, path)->0, keys)),
        !(at(tree, path)->0 is Array) && !(at(tree, path)->0 is Object) ==> at(
            masked_selected(tree, keys),
            path,
        ) == at(tree, path),
    decreases path.len(),
{
    if path.len() > 0 {
        let below = child(tree, path[0])->0;
        assert(child(masked_selected(tree, keys), path[0]) == Some(masked_selected(below, keys)));
        lemma_mask_selected_at(below, keys, path.drop_first());
    }
}

/// Header masking is exact: the list keeps its length and order, every
/// header keeps its name as written, and a value is replaced by the
/// placeholder exactly where masking is on and the name, in lower case, is
/// one of the configured names in lower case.
pub proof fn lemma_headers_masked_exact(
    headers: Seq<(Seq<char>, Seq<char>)>,
    rules: MaskRules,
    i: int,
)
    requires
        0 <= i < headers.len(),
    ensures
        headers_masked(headers, rules).len() == headers.len(),
        headers_masked(headers, rules)[i].0 == headers[i].0,
        headers_masked(headers, rules)[i].1 == (if rules.mask_headers && exists|k: int|
            0 <= k < rules.header_names.len() && lowered(#[trigger] rules.header_names[k])
                == lowered(headers[i].0) {
            placeholder()
        } else {
            headers[i].1
        }),
{
    let name = lowered(headers[i].0);
    if lowered_set(rules.header_names).contains(name) {
        let k = choose|k: int|
            0 <= k < rules.header_names.len() && lowered(rules.header_names[k]) == name;
        assert(lowered(rules.header_names[k]) == lowered(headers[i].0));
    }
}

/// A text that does not parse as JSON comes back from masking as it is.
pub proof fn lemma_unparsable_unchanged(text: Seq<char>, fields: Seq<Seq<char>>)
    requires
        parsed(text) is None,
    ensures
        json_string_masked(text, fields) == text,
{
}

/// With body masking switched off every body comes back as it is, and with
/// header masking switched off every list of headers does.
pub proof fn lemma_disabled_is_identity(
    text: Seq<char>,
    headers: Seq<(Seq<char>, Seq<char>)>,
    rules: MaskRules,
)
    ensures
        !rules.mask_body ==> body_masked(text, rules) == text,
        !rules.mask_headers ==> headers_masked(headers, rules) == headers,
{
    if !rules.mask_headers {
        assert(headers_masked(headers, rules) =~= headers);
    }
}

} // verus!
