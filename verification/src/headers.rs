//! Masking a list of headers by name.

use crate::config::{placeholder, MaskConfig, MaskRules, MASK_PLACEHOLDER};
use crate::text::{lowercase, lowercase_set, lowered, lowered_set};
use vstd::prelude::*;

verus! {

/// One header masked under a configuration: the name stays; the value
/// gives way to the placeholder where header masking is on and the name, in
/// lower case, is one of the configured names in lower case.
pub open spec fn header_masked(header: (Seq<char>, Seq<char>), rules: MaskRules) -> (
    Seq<char>,
    Seq<char>,
) {
    (
        header.0,
        if rules.mask_headers && lowered_set(rules.header_names).contains(lowered(header.0)) {
            placeholder()
        } else {
            header.1
        },
    )
}

/// A list of headers masked one by one, in place.
pub open spec fn headers_masked(headers: Seq<(Seq<char>, Seq<char>)>, rules: MaskRules) -> Seq<
    (Seq<char>, Seq<char>),
> {
    Seq::new(headers.len(), |i: int| header_masked(headers[i], rules))
}

/// The names and values of a list of headers.
pub open spec fn header_texts(headers: Seq<(String, String)>) -> Seq<(Seq<char>, Seq<char>)> {
    Seq::new(headers.len(), |i: int| (headers[i].0@, headers[i].1@))
}

/// Masks the value of every header whose name is configured, whatever the
/// case of either. Names, order and number of the headers stay as they are.
pub fn mask_headers(headers: &[(String, String)], config: &MaskConfig) -> (masked: Vec<
    (String, String),
>)
    ensures
        masked@.len() == headers@.len(),
        header_texts(masked@) == headers_masked(header_texts(headers@), config@),
{
    let mut masked: Vec<(String, String)> = Vec::new();
    if !config.is_mask_headers_enabled {
        let mut i: usize = 0;
        while i < headers.len()
            invariant
                i <= headers.len(),
                masked.len() == i,
                forall|k: int|
                    0 <= k < i ==> (#[trigger] masked[k]).0@ == headers[k].0@ && masked[k].1@
                        == headers[k].1@,
            decreases headers.len() - i,
        {
            masked.push((headers[i].0.clone(), headers[i].1.clone()));
            i += 1;
        }
        assert(header_texts(masked@) =~= headers_masked(header_texts(headers@), config@));
        return masked;
    }
    let headers_to_mask = lowercase_set(&config.mask_headers_list);
    let mut i: usize = 0;
    while i < headers.len()
        invariant
            i <= headers.len(),
            masked.len() == i,
            config.is_mask_headers_enabled,
            headers_to_mask@ == lowered_set(config@.header_names),
            forall|k: int|
                0 <= k < i ==> (#[trigger] masked[k]).0@ == headers[k].0@ && masked[k].1@ == (
                if headers_to_mask@.contains(lowered(headers[k].0@)) {
                    placeholder()
                } else {
                    headers[k].1@
                }),
        decreases headers.len() - i,
    {
        let key_lower = lowercase(headers[i].0.as_str());
        let value = if headers_to_mask.contains(key_lower.as_str()) {
            MASK_PLACEHOLDER.to_owned()
        } else {
            headers[i].1.clone()
        };
        masked.push((headers[i].0.clone(), value));
        i += 1;
    }
    assert(header_texts(masked@) =~= headers_masked(header_texts(headers@), config@));
    masked
}

} // verus!
