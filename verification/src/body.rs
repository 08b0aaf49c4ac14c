//! Masking a body: JSON is parsed, masked and written out again; anything
//! else, and anything that cannot be parsed or written, comes back as it was.

use crate::codec::{parse_json, parsed, print_json, printed};
use crate::config::{MaskConfig, MaskRules};
use crate::json::{Json, Tree};
use crate::text::{
    json_shaped, lemma_lowered_set_empty, looks_like_json, lowercase_set, lowered_set,
};
use crate::tree::{mask_all, mask_selected, masked_all, masked_selected};
use vstd::hash_set::StringHashSet;
use vstd::prelude::*;

verus! {

/// A document masked under a set of keys: with no key at all every string
/// goes; otherwise only what stands under one of the keys.
pub open spec fn masked_document(tree: Tree, keys: Set<Seq<char>>) -> Tree {
    if keys.is_empty() {
        masked_all(tree, 0)
    } else {
        masked_selected(tree, keys)
    }
}

/// A document masked for a list of field names: with an empty list every
/// string goes; otherwise what stands under one of the names, each taken in
/// lower case.
pub open spec fn masked_for_fields(tree: Tree, fields: Seq<Seq<char>>) -> Tree {
    if fields.len() == 0 {
        masked_all(tree, 0)
    } else {
        masked_selected(tree, lowered_set(fields))
    }
}

/// A JSON text masked for a list of field names: the masked document
/// written out, or the text itself where it does not parse or the masked
/// document cannot be written.
pub open spec fn json_string_masked(text: Seq<char>, fields: Seq<Seq<char>>) -> Seq<char> {
    match parsed(text) {
        Some(tree) => match printed(masked_for_fields(tree, fields)) {
            Some(out) => out,
            None => text,
        },
        None => text,
    }
}

/// A body masked under a configuration: untouched where body masking is off
/// or the body does not look like JSON.
pub open spec fn body_masked(text: Seq<char>, rules: MaskRules) -> Seq<char> {
    if rules.mask_body && json_shaped(text) {
        json_string_masked(text, rules.body_fields)
    } else {
        text
    }
}

/// Masks a parsed document: every string where `keys` is empty, else the
/// values under the keys in `keys`. Distinct keys stay distinct.
pub fn mask_document(doc: &Json, keys: &StringHashSet) -> (masked: Json)
    ensures
        masked@ == masked_document(doc@, keys@),
        doc@.well_formed() ==> masked@.well_formed(),
{
    if keys.is_empty() {
        mask_all(doc, 0)
    } else {
        mask_selected(doc, keys)
    }
}

/// Masks a JSON text. With no field configured every string is redacted,
/// otherwise the values under the configured fields, taken in lower case.
/// A text that does not parse comes back unchanged.
pub fn mask_json_string(json_str: &str, config: &MaskConfig) -> (masked: String)
    ensures
        masked@ == json_string_masked(json_str@, config@.body_fields),
{
    let keys_to_mask = lowercase_set(&config.mask_body_fields_list);
    proof {
        lemma_lowered_set_empty(config@.body_fields);
    }
    match parse_json(json_str) {
        Some(doc) => {
            let masked_doc = mask_document(&doc, &keys_to_mask);
            match print_json(&masked_doc) {
                Some(out) => out,
                None => json_str.to_owned(),
            }
        },
        None => json_str.to_owned(),
    }
}

/// Masks a body. Where body masking is switched off the body comes back
/// as it is, and so does one whose first character after any white space
/// is neither `{` nor `[`.
pub fn mask_body(body: &str, config: &MaskConfig) -> (masked: String)
    ensures
        masked@ == body_masked(body@, config@),
{
    if !config.is_mask_body_enabled {
        return body.to_owned();
    }
    if looks_like_json(body) {
        mask_json_string(body, config)
    } else {
        body.to_owned()
    }
}

} // verus!
