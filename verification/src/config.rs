//! The placeholder, the depth bound, the built-in name tables and the
//! masking configuration.

use crate::text::texts;
use vstd::prelude::*;

verus! {

/// What stands in place of every redacted value.
pub const MASK_PLACEHOLDER: &'static str = "***MASKED***";

/// The deepest level that masking everything still descends to; below it a
/// subtree is cut off.
pub const MAX_DEPTH: usize = 8;

/// The field names that are masked in a body unless the configuration says
/// otherwise.
pub const SENSITIVE_FIELDS: [&'static str; 66] = [
    "password", "pass", "passwd", "pwd", "token", "access_token", "accessToken",
    "refresh_token", "refreshToken", "secret", "api_key", "apiKey", "authorization",
    "auth_token", "authToken", "jwt", "session_id", "sessionId", "sessionToken",
    "client_secret", "clientSecret", "private_key", "privateKey", "public_key",
    "publicKey", "key", "encryption_key", "encryptionKey", "credit_card",
    "creditCard", "card_number", "cardNumber", "cvv", "cvc", "ssn", "sin", "pin",
    "security_code", "securityCode", "bank_account", "bankAccount", "iban",
    "swift", "bic", "routing_number", "routingNumber", "license_key", "licenseKey",
    "otp", "mfa_code", "mfaCode", "phone_number", "phoneNumber", "email",
    "address", "dob", "tax_id", "taxId", "passport_number", "passportNumber",
    "driver_license", "driverLicense", "set-cookie", "cookie", "authorization",
    "proxyAuthorization",
];

/// The header names that are masked unless the configuration says otherwise.
pub const SENSITIVE_HEADERS: [&'static str; 4] = [
    "set-cookie", "cookie", "authorization", "proxyAuthorization",
];

/// The placeholder as a sequence of characters.
pub open spec fn placeholder() -> Seq<char> {
    MASK_PLACEHOLDER@
}

/// The characters of each name in a table.
pub open spec fn table_texts(table: Seq<&'static str>) -> Seq<Seq<char>> {
    Seq::new(table.len(), |i: int| table[i]@)
}

/// What to mask: two switches and two lists of names. The names may be in
/// any case; they are compared in lower case.
#[derive(Clone)]
pub struct MaskConfig {
    pub is_mask_body_enabled: bool,
    pub is_mask_headers_enabled: bool,
    pub mask_body_fields_list: Vec<String>,
    pub mask_headers_list: Vec<String>,
}

/// A configuration as contracts see it.
pub struct MaskRules {
    pub mask_body: bool,
    pub mask_headers: bool,
    pub body_fields: Seq<Seq<char>>,
    pub header_names: Seq<Seq<char>>,
}

impl View for MaskConfig {
    type V = MaskRules;

    open spec fn view(&self) -> MaskRules {
        MaskRules {
            mask_body: self.is_mask_body_enabled,
            mask_headers: self.is_mask_headers_enabled,
            body_fields: texts(self.mask_body_fields_list@),
            header_names: texts(self.mask_headers_list@),
        }
    }
}

/// The configuration in force where none is given: both switches on, and
/// the built-in tables.
pub open spec fn default_rules() -> MaskRules {
    MaskRules {
        mask_body: true,
        mask_headers: true,
        body_fields: table_texts(SENSITIVE_FIELDS@),
        header_names: table_texts(SENSITIVE_HEADERS@),
    }
}

/// Copies a table of names into a list of strings.
fn owned_names(table: &[&'static str]) -> (list: Vec<String>)
    ensures
        texts(list@) == table_texts(table@),
{
    let mut list: Vec<String> = Vec::new();
    let mut i: usize = 0;
    while i < table.len()
        invariant
            i <= table.len(),
            list.len() == i,
            forall|k: int| 0 <= k < i ==> (#[trigger] list[k])@ == table[k]@,
        decreases table.len() - i,
    {
        list.push(table[i].to_owned());
        i += 1;
    }
    assert(texts(list@) =~= table_texts(table@));
    list
}

impl Default for MaskConfig {
    fn default() -> (config: MaskConfig)
        ensures
            config@ == default_rules(),
    {
        MaskConfig {
            is_mask_body_enabled: true,
            is_mask_headers_enabled: true,
            mask_body_fields_list: owned_names(&SENSITIVE_FIELDS),
            mask_headers_list: owned_names(&SENSITIVE_HEADERS),
        }
    }
}

} // verus!
