use agentmail::ai::{
    ai_settings_from_request, ai_settings_view, chat_completions_url, mask_api_key,
    redact_api_key, sanitize_error_body, settings_for_analysis, validate_remote_base_url,
    validate_settings, first_choice_content, response_body, AiProvider, MockAiProvider, ERROR_BODY_MAX_CHARS, TRUNCATED_ERROR_SUFFIX,
};
use agentmail::errors::{AiRemoteError, ApiError};
use agentmail::model::{
    AiAnalysisInput, AiInsightPayload, AiPriority, AiSettings, AttachmentRef,
    SaveAiSettingsRequest,
};

fn settings() -> AiSettings {
    AiSettings {
        id: "default".to_string(),
        provider_name: "openai-compatible".to_string(),
        base_url: "https://api.example.com/v1".to_string(),
        model: "mail-model".to_string(),
        api_key: "sk-local-test".to_string(),
        enabled: true,
        created_at: "2026-04-29T00:00:00Z".to_string(),
        updated_at: "2026-04-29T00:00:00Z".to_string(),
    }
}

fn input() -> AiAnalysisInput {
    AiAnalysisInput {
        message_id: "message-1".to_string(),
        subject: "Release train".to_string(),
        sender: "ops@example.com".to_string(),
        recipients: vec!["me@example.com".to_string()],
        cc: Vec::new(),
        received_at: "2026-04-29T00:00:00Z".to_string(),
        body_preview: "Build passed smoke tests.".to_string(),
        body: Some("Build passed smoke tests. Reply before 18:00.".to_string()),
        attachments: vec![AttachmentRef {
            id: "att-1".to_string(),
            message_id: "message-1".to_string(),
            filename: "report.txt".to_string(),
            mime_type: "text/plain".to_string(),
            size_bytes: 512,
            local_path: None,
        }],
    }
}

fn save(api_key: Option<&str>, base_url: &str) -> Result<AiSettings, ApiError> {
    ai_settings_from_request(
        SaveAiSettingsRequest {
            provider_name: "openai-compatible".to_string(),
            base_url: base_url.to_string(),
            model: "mail-model".to_string(),
            api_key: api_key.map(|k| k.to_string()),
            enabled: true,
        },
        None,
        "2026-04-29T00:00:00Z".to_string(),
    )
}

#[test]
fn save_ai_settings_request_debug_redacts_api_key() {
    let request = SaveAiSettingsRequest {
        provider_name: "openai-compatible".to_string(),
        base_url: "https://api.example.com/v1".to_string(),
        model: "mail-model".to_string(),
        api_key: Some("sk-plaintext-secret".to_string()),
        enabled: true,
    };

    let debug = request.debug_text();

    assert!(!debug.contains("sk-plaintext-secret"));
    assert!(debug.contains("***"));
}

#[test]
fn debug_texts_match_the_derived_layout() {
    let request = SaveAiSettingsRequest {
        provider_name: "p".to_string(),
        base_url: "u".to_string(),
        model: "m\"x".to_string(),
        api_key: None,
        enabled: false,
    };
    assert_eq!(
        request.debug_text(),
        "SaveAiSettingsRequest { provider_name: \"p\", base_url: \"u\", model: \"m\\\"x\", api_key: None, enabled: false }"
    );
    let text = settings().debug_text();
    assert!(text.starts_with("AiSettings { id: \"default\", provider_name: \"openai-compatible\""));
    assert!(text.contains("api_key: \"***\", enabled: true"));
    assert!(!text.contains("sk-local-test"));
}

#[test]
fn mock_provider_returns_configured_payload() {
    let provider = MockAiProvider::new(AiInsightPayload {
        summary: "Summary".to_string(),
        category: "ops".to_string(),
        priority: AiPriority::High,
        todos: vec!["Reply".to_string()],
        reply_draft: "Thanks.".to_string(),
        raw_json: "{}".to_string(),
    });

    let result = provider.analyze_mail(&settings(), &input()).unwrap();
    assert_eq!(result.summary, "Summary");
    assert_eq!(result.priority, AiPriority::High);
}

#[test]
fn mock_provider_returns_configured_error() {
    let provider = MockAiProvider::request_error("forced failure");
    match provider.analyze_mail(&settings(), &input()) {
        Err(AiRemoteError::Request(m)) => assert_eq!(m, "forced failure"),
        other => panic!("unexpected {other:?}"),
    }
}

#[test]
fn disabled_settings_are_rejected_before_request() {
    let mut settings = settings();
    settings.enabled = false;

    assert!(matches!(validate_settings(&settings), Err(AiRemoteError::Disabled)));
}

#[test]
fn missing_settings_fields_are_listed_in_order() {
    let mut settings = settings();
    settings.base_url = " ".to_string();
    settings.api_key = String::new();
    match validate_settings(&settings) {
        Err(AiRemoteError::InvalidSettings(m)) => assert_eq!(m, "base_url, api_key"),
        other => panic!("unexpected {other:?}"),
    }
    assert!(validate_settings(&self::settings()).is_ok());
}

#[test]
fn cleartext_remote_base_url_is_rejected() {
    let mut settings = settings();
    settings.base_url = "http://api.example.com/v1".to_string();

    let result = validate_settings(&settings);

    assert!(
        matches!(result, Err(AiRemoteError::InvalidSettings(message)) if message.contains("https"))
    );
}

#[test]
fn base_url_errors_name_the_problem() {
    match validate_remote_base_url("not a url") {
        Err(AiRemoteError::InvalidSettings(m)) => assert_eq!(m, "base_url must be a valid https URL"),
        other => panic!("unexpected {other:?}"),
    }
    match validate_remote_base_url("http://example.com") {
        Err(AiRemoteError::InvalidSettings(m)) => assert_eq!(m, "base_url must use https"),
        other => panic!("unexpected {other:?}"),
    }
    assert!(validate_remote_base_url("  https://api.example.com/v1  ").is_ok());
}

#[test]
fn redacts_api_key_from_error_text() {
    let settings = settings();

    let redacted = redact_api_key(
        "upstream echoed sk-local-test in an error".to_string(),
        &settings,
    );

    assert_eq!(redacted, "upstream echoed [REDACTED] in an error");
    assert!(!redacted.contains("sk-local-test"));
}

#[test]
fn blank_key_redacts_nothing() {
    let mut settings = settings();
    settings.api_key = "   ".to_string();
    assert_eq!(redact_api_key("a   b".to_string(), &settings), "a   b");
}

#[test]
fn sanitizes_long_error_body_by_redacting_key_and_truncating() {
    let settings = settings();
    let body = format!(
        "provider leaked sk-local-test in a long response: {}",
        "x".repeat(700)
    );

    let sanitized = sanitize_error_body(body, &settings);

    assert!(sanitized.len() <= ERROR_BODY_MAX_CHARS + TRUNCATED_ERROR_SUFFIX.len());
    assert!(sanitized.ends_with(TRUNCATED_ERROR_SUFFIX));
    assert!(sanitized.contains("[REDACTED]"));
    assert!(!sanitized.contains("sk-local-test"));
}

#[test]
fn sanitizes_short_error_body_by_redacting_key() {
    let settings = settings();

    let sanitized = sanitize_error_body(
        "provider rejected api key sk-local-test".to_string(),
        &settings,
    );

    assert_eq!(sanitized, "provider rejected api key [REDACTED]");
    assert!(!sanitized.contains("sk-local-test"));
}

#[test]
fn ai_settings_from_request_are_masked_in_view() {
    let saved = ai_settings_view(save(Some("sk-local-test"), "https://api.example.com/v1").unwrap());

    assert_eq!(saved.api_key_mask, Some("sk-...test".to_string()));
    assert_ne!(saved.api_key_mask, Some("sk-local-test".to_string()));
}

#[test]
fn short_ai_settings_key_is_not_reconstructable_from_mask() {
    let saved = ai_settings_view(save(Some("abcdefg"), "https://api.example.com/v1").unwrap());

    assert_eq!(saved.api_key_mask, Some("****".to_string()));
}

#[test]
fn unicode_ai_settings_key_is_saved_and_masked() {
    let saved = ai_settings_view(save(Some("钥匙abcdefghi"), "https://api.example.com/v1").unwrap());

    assert_eq!(saved.api_key_mask, Some("钥匙a...fghi".to_string()));
    assert_eq!(mask_api_key("123456789"), "123...6789");
}

#[test]
fn save_ai_settings_rejects_cleartext_remote_base_url() {
    let result = save(Some("sk-local-test"), "http://api.example.com/v1");

    match result {
        Err(ApiError::InvalidRequest(message)) => {
            assert!(message.contains("https"));
        }
        Err(other) => panic!("expected https validation error, got {other:?}"),
        Ok(_) => panic!("expected https validation error, got settings"),
    }
}

#[test]
fn saving_without_a_key_reuses_the_stored_one() {
    let stored = settings();
    let request = SaveAiSettingsRequest {
        provider_name: " other ".to_string(),
        base_url: "https://api.example.com/v2".to_string(),
        model: "m2".to_string(),
        api_key: None,
        enabled: false,
    };
    let saved = ai_settings_from_request(request, Some(stored), "2030-01-01T00:00:00Z".to_string())
        .unwrap();
    assert_eq!(saved.provider_name, "other");
    assert_eq!(saved.api_key, "sk-local-test");
    assert_eq!(saved.created_at, "2026-04-29T00:00:00Z");
    assert_eq!(saved.updated_at, "2030-01-01T00:00:00Z");
    match save(None, "https://api.example.com/v1") {
        Err(ApiError::InvalidRequest(m)) => assert_eq!(m, "api_key is required"),
        Err(other) => panic!("unexpected {other:?}"),
        Ok(_) => panic!("unexpected settings"),
    }
}

#[test]
fn run_ai_analysis_requires_settings() {
    match settings_for_analysis(None) {
        Err(ApiError::InvalidRequest(m)) => assert!(m.contains("ai settings")),
        Err(other) => panic!("expected invalid request for missing ai settings, got {other:?}"),
        Ok(_) => panic!("expected invalid request for missing ai settings, got settings"),
    }
    let mut s = settings();
    s.enabled = false;
    assert!(matches!(
        settings_for_analysis(Some(s)),
        Err(ApiError::AiRemote(AiRemoteError::Disabled))
    ));
}

#[test]
fn chat_url_drops_trailing_slashes() {
    assert_eq!(
        chat_completions_url("https://api.example.com/v1//"),
        "https://api.example.com/v1/chat/completions"
    );
}

#[test]
fn provider_answers_are_read_by_status_then_first_choice() {
    assert_eq!(response_body(true, "200 OK", "{}".to_string(), &settings()).unwrap(), "{}");
    match response_body(false, "401 Unauthorized", "bad key sk-local-test".to_string(), &settings()) {
        Err(AiRemoteError::Request(m)) => assert_eq!(m, "status 401 Unauthorized: bad key [REDACTED]"),
        other => panic!("unexpected {other:?}"),
    }
    assert_eq!(first_choice_content(Some("{\"summary\":\"x\"}".to_string())).unwrap(), "{\"summary\":\"x\"}");
    match first_choice_content(None) {
        Err(AiRemoteError::Parse(m)) => assert_eq!(m, "missing choices[0].message.content"),
        other => panic!("unexpected {other:?}"),
    }
}
