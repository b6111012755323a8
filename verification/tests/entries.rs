use local_api_relay::validate::{
    judge_base_url, valid_eligible_model_route_ids, validate_api_key, validate_base_url,
    validate_display_name, validate_protocol, validate_published_model_name,
    validate_relay_key_label, validate_upstream_model_name, UrlParts,
};

#[test]
fn names_are_trimmed_and_bounded() {
    assert_eq!(validate_display_name("  Acme \u{3000}").unwrap(), "Acme");
    let error = validate_display_name(" \t ").unwrap_err();
    assert_eq!(error.field, "display_name");
    assert_eq!(error.message, "provider name must be between 1 and 128 characters");
    assert!(validate_display_name(&"x".repeat(128)).is_ok());
    assert!(validate_display_name(&"x".repeat(129)).is_err());
    // The bound counts bytes.
    assert!(validate_display_name(&"é".repeat(64)).is_ok());
    assert!(validate_display_name(&"é".repeat(65)).is_err());
    assert!(validate_api_key(&"k".repeat(8_192)).is_ok());
    assert_eq!(
        validate_api_key(&"k".repeat(8_193)).unwrap_err().message,
        "upstream API key must be between 1 and 8192 characters"
    );
    assert_eq!(
        validate_published_model_name("").unwrap_err().message,
        "published model name must be between 1 and 128 characters"
    );
    assert!(validate_upstream_model_name(&"m".repeat(256)).is_ok());
    assert_eq!(
        validate_upstream_model_name(&"m".repeat(257)).unwrap_err().message,
        "upstream model name must be between 1 and 256 characters"
    );
    assert_eq!(
        validate_relay_key_label("").unwrap_err().field,
        "label"
    );
}

#[test]
fn base_urls() {
    assert_eq!(
        validate_base_url(" https://api.example.com/v1// ").unwrap(),
        "https://api.example.com/v1"
    );
    assert_eq!(validate_base_url("http://127.0.0.1:9000").unwrap(), "http://127.0.0.1:9000");
    assert_eq!(
        validate_base_url("not a url").unwrap_err().message,
        "base URL must be a valid HTTP URL"
    );
    for text in [
        "ftp://example.com",
        "https://user@example.com",
        "https://user:pw@example.com",
        "https://example.com/?q=1",
        "https://example.com/#top",
        "mailto:someone@example.com",
    ] {
        let error = validate_base_url(text).unwrap_err();
        assert_eq!(error.field, "base_url");
        assert_eq!(
            error.message,
            "base URL must be a valid HTTP URL without credentials, query, or fragment"
        );
    }
}

#[test]
fn base_urls_are_judged_by_their_parts() {
    let parts = |scheme: &str, username: &str| {
        Some(UrlParts {
            scheme: scheme.to_owned(),
            host: Some("example.com".to_owned()),
            username: username.to_owned(),
            password: None,
            query: None,
            fragment: None,
        })
    };
    assert_eq!(judge_base_url("kept".to_owned(), &parts("https", "")).unwrap(), "kept");
    assert!(judge_base_url("kept".to_owned(), &parts("https", "me")).is_err());
    assert!(judge_base_url("kept".to_owned(), &parts("file", "")).is_err());
    assert!(judge_base_url("kept".to_owned(), &None).is_err());
}

#[test]
fn protocols() {
    assert!(validate_protocol("chat_completions").is_ok());
    assert!(validate_protocol("responses").is_ok());
    let error = validate_protocol("Responses").unwrap_err();
    assert_eq!(error.field, "protocol");
    assert_eq!(error.message, "protocol must be chat_completions or responses");
}

#[test]
fn route_ids_are_sorted_and_distinct() {
    let ids = |texts: &[&str]| texts.iter().map(|t| (*t).to_owned()).collect::<Vec<_>>();
    assert_eq!(
        valid_eligible_model_route_ids(&ids(&["b", "a", "B", "é", "z"])).unwrap(),
        ids(&["B", "a", "b", "z", "é"])
    );
    assert_eq!(
        valid_eligible_model_route_ids(&ids(&[])).unwrap_err().message,
        "at least one eligible model route is required"
    );
    assert_eq!(
        valid_eligible_model_route_ids(&ids(&["a", "b", "a"])).unwrap_err().message,
        "eligible model routes must not contain duplicates"
    );
}
