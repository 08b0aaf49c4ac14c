//! Redaction of sensitive values in JSON bodies and header lists.
//!
//! A body is masked by [`mask_body`], a list of headers by [`mask_headers`];
//! [`MaskConfig`] says what to mask. Underneath, [`mask_all`] and
//! [`mask_selected`] work on a parsed document, a [`Json`].

pub mod body;
pub mod codec;
pub mod config;
pub mod headers;
pub mod json;
pub mod laws;
pub mod text;
pub mod tree;

pub use body::{mask_body, mask_document, mask_json_string};
pub use codec::{from_value, parse_json, print_json, to_value};
pub use config::{MaskConfig, MASK_PLACEHOLDER, MAX_DEPTH, SENSITIVE_FIELDS, SENSITIVE_HEADERS};
pub use headers::mask_headers;
pub use json::Json;
pub use text::{is_white_space, looks_like_json, lowercase_set};
pub use tree::{mask_all, mask_selected};
pub use vstd::hash_set::StringHashSet;
