//! What masking asks of plain text: lower case for comparing names, and the
//! first character of a body that is not white space.

use vstd::hash_set::StringHashSet;
use vstd::prelude::*;

verus! {

/// `text` in lower case, as `str::to_lowercase` gives it.
pub uninterp spec fn lowered(text: Seq<char>) -> Seq<char>;

/// Whether `c` is white space: a character with the Unicode property
/// `White_Space`, which `char::is_whitespace` and `str::trim` go by.
pub open spec fn white_space(c: char) -> bool {
    let code = c as u32;
    ||| 0x0009 <= code <= 0x000D
    ||| code == 0x0020
    ||| code == 0x0085
    ||| code == 0x00A0
    ||| code == 0x1680
    ||| 0x2000 <= code <= 0x200A
    ||| code == 0x2028
    ||| code == 0x2029
    ||| code == 0x202F
    ||| code == 0x205F
    ||| code == 0x3000
}

/// `str::to_lowercase`: the result is the lower-case form of the text.
#[verifier::external_body]
pub(crate) fn lowercase(text: &str) -> (lower: String)
    ensures
        lower@ == lowered(text@),
{
    text.to_lowercase()
}

/// Tells whether a character is white space.
pub fn is_white_space(c: char) -> (white: bool)
    ensures
        white == white_space(c),
{
    let code: u32 = c as u32;
    (0x0009 <= code && code <= 0x000D) || code == 0x0020 || code == 0x0085 || code == 0x00A0
        || code == 0x1680 || (0x2000 <= code && code <= 0x200A) || code == 0x2028 || code
        == 0x2029 || code == 0x202F || code == 0x205F || code == 0x3000
}

/// The lower-case forms of `names`, as a set.
pub open spec fn lowered_set(names: Seq<Seq<char>>) -> Set<Seq<char>> {
    Set::new(|key: Seq<char>| exists|i: int| 0 <= i < names.len() && lowered(names[i]) == key)
}

/// The characters of each string in `list`.
pub open spec fn texts(list: Seq<String>) -> Seq<Seq<char>> {
    Seq::new(list.len(), |i: int| list[i]@)
}

/// The set of lower-case forms is empty exactly where there is no name.
pub proof fn lemma_lowered_set_empty(names: Seq<Seq<char>>)
    ensures
        lowered_set(names).is_empty() <==> names.len() == 0,
{
    if names.len() > 0 {
        assert(lowered_set(names).contains(lowered(names[0])));
    } else {
        assert(lowered_set(names) =~= Set::empty());
    }
}

/// Collects the lower-case forms of `names` in a set.
pub fn lowercase_set(names: &Vec<String>) -> (set: StringHashSet)
    ensures
        set@ == lowered_set(texts(names@)),
{
    let mut set = StringHashSet::new();
    let mut i: usize = 0;
    while i < names.len()
        invariant
            i <= names.len(),
            set@ == lowered_set(texts(names@).take(i as int)),
        decreases names.len() - i,
    {
        let ghost before = set@;
        set.insert(lowercase(names[i].as_str()));
        proof {
            let all = texts(names@);
            let prev = all.take(i as int);
            let next = all.take(i + 1);
            let added = lowered(all[i as int]);
            assert(next =~= prev.push(all[i as int]));
            assert forall|key: Seq<char>|
                lowered_set(next).contains(key) <==> before.insert(added).contains(key) by {
                if lowered_set(next).contains(key) {
                    let k = choose|k: int| 0 <= k < next.len() && lowered(next[k]) == key;
                    if k < i {
                        assert(lowered(prev[k]) == key);
                    }
                }
                if before.contains(key) {
                    let k = choose|k: int| 0 <= k < prev.len() && lowered(prev[k]) == key;
                    assert(lowered(next[k]) == key);
                }
                if key == added {
                    assert(lowered(next[i as int]) == key);
                }
            }
            assert(set@ =~= lowered_set(next));
        }
        i += 1;
    }
    assert(texts(names@).take(i as int) =~= texts(names@));
    set
}

/// The first character of `text` that is not white space, if there is one.
pub open spec fn first_mark(text: Seq<char>) -> Option<char>
    decreases text.len(),
{
    if text.len() == 0 {
        None
    } else if white_space(text[0]) {
        first_mark(text.drop_first())
    } else {
        Some(text[0])
    }
}

/// Whether `text`, with the white space around it set aside, opens with a
/// brace or a bracket.
pub open spec fn json_shaped(text: Seq<char>) -> bool {
    first_mark(text) == Some('{') || first_mark(text) == Some('[')
}

/// `first_mark` looks past any run of white space at the front.
proof fn lemma_first_mark_skips(text: Seq<char>, n: int)
    requires
        0 <= n <= text.len(),
        forall|k: int| 0 <= k < n ==> white_space(text[k]),
    ensures
        first_mark(text) == first_mark(text.skip(n)),
    decreases n,
{
    if n == 0 {
        assert(text.skip(0) =~= text);
    } else {
        lemma_first_mark_skips(text.drop_first(), n - 1);
        assert(text.drop_first().skip(n - 1) =~= text.skip(n));
    }
}

/// Tells whether a body looks like JSON: whether the first character that
/// is not white space is `{` or `[`.
pub fn looks_like_json(body: &str) -> (shaped: bool)
    ensures
        shaped == json_shaped(body@),
{
    for c in it: body.chars()
        invariant
            it.seq() == body@,
            forall|k: int| 0 <= k < it.index() ==> white_space(body@[k]),
    {
        if !is_white_space(c) {
            proof {
                lemma_first_mark_skips(body@, it.index() as int);
            }
            return c == '{' || c == '[';
        }
    }
    proof {
        lemma_first_mark_skips(body@, body@.len() as int);
    }
    false
}

} // verus!
