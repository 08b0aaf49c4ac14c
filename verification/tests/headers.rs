use payload_mask::{
    mask_headers, MaskConfig, MASK_PLACEHOLDER, SENSITIVE_FIELDS, SENSITIVE_HEADERS,
};

fn pairs(list: &[(&str, &str)]) -> Vec<(String, String)> {
    list.iter().map(|(k, v)| (k.to_string(), v.to_string())).collect()
}

fn config_with_headers(names: &[&str]) -> MaskConfig {
    MaskConfig {
        is_mask_body_enabled: true,
        is_mask_headers_enabled: true,
        mask_body_fields_list: Vec::new(),
        mask_headers_list: names.iter().map(|s| s.to_string()).collect(),
    }
}

#[test]
fn test_mask_headers() {
    let headers = vec![
        ("content-type".to_string(), "application/json".to_string()),
        ("authorization".to_string(), "Bearer token123".to_string()),
        ("user-agent".to_string(), "Mozilla/5.0".to_string()),
    ];

    let config = MaskConfig::default();
    let result = mask_headers(&headers, &config);

    assert_eq!(result[0].1, "application/json"); // content-type not masked
    assert_eq!(result[1].1, MASK_PLACEHOLDER); // authorization masked
    assert_eq!(result[2].1, "Mozilla/5.0"); // user-agent not masked
}

#[test]
fn default_config_has_both_switches_on_and_the_tables() {
    let config = MaskConfig::default();
    assert!(config.is_mask_body_enabled);
    assert!(config.is_mask_headers_enabled);
    assert_eq!(config.mask_body_fields_list.len(), 66);
    assert_eq!(config.mask_headers_list.len(), 4);
    let fields: Vec<String> = SENSITIVE_FIELDS.iter().map(|s| s.to_string()).collect();
    let headers: Vec<String> = SENSITIVE_HEADERS.iter().map(|s| s.to_string()).collect();
    assert_eq!(config.mask_body_fields_list, fields);
    assert_eq!(config.mask_headers_list, headers);
    assert_eq!(config.mask_body_fields_list[0], "password");
    assert_eq!(config.mask_body_fields_list[6], "accessToken");
    assert_eq!(config.mask_body_fields_list[65], "proxyAuthorization");
    assert_eq!(
        config.mask_headers_list,
        vec!["set-cookie", "cookie", "authorization", "proxyAuthorization"]
    );
}

#[test]
fn config_can_be_cloned() {
    let config = MaskConfig::default();
    let copy = config.clone();
    assert_eq!(copy.is_mask_body_enabled, config.is_mask_body_enabled);
    assert_eq!(copy.is_mask_headers_enabled, config.is_mask_headers_enabled);
    assert_eq!(copy.mask_body_fields_list, config.mask_body_fields_list);
    assert_eq!(copy.mask_headers_list, config.mask_headers_list);
}

#[test]
fn headers_default_scenario() {
    let headers = pairs(&[("content-type", "application/json"), ("authorization", "Bearer xyz")]);
    let result = mask_headers(&headers, &MaskConfig::default());
    assert_eq!(
        result,
        pairs(&[("content-type", "application/json"), ("authorization", MASK_PLACEHOLDER)])
    );
}

#[test]
fn headers_match_whatever_the_case_of_the_header_name() {
    let headers = pairs(&[
        ("Authorization", "a"),
        ("AUTHORIZATION", "b"),
        ("Cookie", "c"),
        ("SET-COOKIE", "d"),
        ("ProxyAuthorization", "e"),
        ("Proxy-Authorization", "f"),
        ("Accept", "g"),
    ]);
    let result = mask_headers(&headers, &MaskConfig::default());
    assert_eq!(
        result,
        pairs(&[
            ("Authorization", MASK_PLACEHOLDER),
            ("AUTHORIZATION", MASK_PLACEHOLDER),
            ("Cookie", MASK_PLACEHOLDER),
            ("SET-COOKIE", MASK_PLACEHOLDER),
            ("ProxyAuthorization", MASK_PLACEHOLDER),
            ("Proxy-Authorization", "f"),
            ("Accept", "g"),
        ])
    );
}

#[test]
fn headers_match_whatever_the_case_of_the_configured_name() {
    let config = config_with_headers(&["X-Api-Key", "TOKEN"]);
    let headers = pairs(&[("x-api-key", "1"), ("X-API-KEY", "2"), ("token", "3"), ("tokens", "4")]);
    let result = mask_headers(&headers, &config);
    assert_eq!(
        result,
        pairs(&[
            ("x-api-key", MASK_PLACEHOLDER),
            ("X-API-KEY", MASK_PLACEHOLDER),
            ("token", MASK_PLACEHOLDER),
            ("tokens", "4"),
        ])
    );
}

#[test]
fn headers_lower_case_beyond_ascii() {
    let config = config_with_headers(&["SCHLÜSSEL"]);
    let headers = pairs(&[("schlüssel", "1"), ("Schlüssel", "2"), ("schlussel", "3")]);
    let result = mask_headers(&headers, &config);
    assert_eq!(
        result,
        pairs(&[("schlüssel", MASK_PLACEHOLDER), ("Schlüssel", MASK_PLACEHOLDER), ("schlussel", "3")])
    );
}

#[test]
fn headers_with_the_same_name_are_each_masked() {
    let headers = pairs(&[
        ("set-cookie", "a=1"),
        ("x-trace", "t"),
        ("Set-Cookie", "b=2"),
        ("set-cookie", "c=3"),
    ]);
    let result = mask_headers(&headers, &MaskConfig::default());
    assert_eq!(
        result,
        pairs(&[
            ("set-cookie", MASK_PLACEHOLDER),
            ("x-trace", "t"),
            ("Set-Cookie", MASK_PLACEHOLDER),
            ("set-cookie", MASK_PLACEHOLDER),
        ])
    );
}

#[test]
fn headers_disabled_come_back_unchanged() {
    let mut config = MaskConfig::default();
    config.is_mask_headers_enabled = false;
    let headers = pairs(&[("authorization", "Bearer xyz"), ("Cookie", "a=b"), ("accept", "*/*")]);
    assert_eq!(mask_headers(&headers, &config), headers);
}

#[test]
fn headers_with_an_empty_list_are_untouched() {
    let config = config_with_headers(&[]);
    let headers = pairs(&[("authorization", "Bearer xyz")]);
    assert_eq!(mask_headers(&headers, &config), headers);
}

#[test]
fn headers_empty_input_gives_empty_output() {
    let none: Vec<(String, String)> = Vec::new();
    assert_eq!(mask_headers(&none, &MaskConfig::default()), none);
}

#[test]
fn headers_body_switch_does_not_matter() {
    let mut config = MaskConfig::default();
    config.is_mask_body_enabled = false;
    let headers = pairs(&[("authorization", "Bearer xyz")]);
    assert_eq!(mask_headers(&headers, &config), pairs(&[("authorization", MASK_PLACEHOLDER)]));
}
