use agentmail::account::{
    account_config_view, account_from_config, manual_connection_settings, normalize_email_address,
    required_trimmed, AddAccountRequest, SaveAccountConfigRequest,
};
use agentmail::errors::ApiError;
use agentmail::model::{ConnectionAuth, MailAccount, MailAuth, MailProvider};

fn request() -> SaveAccountConfigRequest {
    SaveAccountConfigRequest {
        id: None,
        display_name: "Ops".to_string(),
        email: " ops@example.com ".to_string(),
        password: "secret".to_string(),
        imap_host: "imap.example.com".to_string(),
        imap_port: 993,
        imap_tls: true,
        smtp_host: "smtp.example.com".to_string(),
        smtp_port: 465,
        smtp_tls: true,
        sync_enabled: true,
    }
}

fn invalid(r: Result<(), ApiError>) -> String {
    match r {
        Err(ApiError::InvalidRequest(m)) => m,
        other => panic!("unexpected {other:?}"),
    }
}

#[test]
fn required_fields_are_trimmed_or_rejected() {
    assert_eq!(required_trimmed("  x ".to_string(), "field").unwrap(), "x");
    match required_trimmed(" \t".to_string(), "model") {
        Err(ApiError::InvalidRequest(m)) => assert_eq!(m, "model is required"),
        other => panic!("unexpected {other:?}"),
    }
}

#[test]
fn invalid_account_email_is_rejected_before_save() {
    let mut r = request();
    r.email = "app test".to_string();
    let err = r.validate().unwrap_err();
    assert_eq!(err.message(), "invalid request: email is invalid");
    assert_eq!(normalize_email_address(" a@b.example ").unwrap(), "a@b.example");
}

#[test]
fn configuration_checks_come_in_order() {
    assert!(request().validate().is_ok());
    let mut r = request();
    r.password = String::new();
    assert_eq!(invalid(r.validate()), "password is required");
    let mut r = request();
    r.smtp_host = "  ".to_string();
    assert_eq!(invalid(r.validate()), "imap_host and smtp_host are required");
    let mut r = request();
    r.email = String::new();
    r.password = String::new();
    assert_eq!(invalid(r.validate()), "email is required");
}

#[test]
fn manual_connection_settings_need_a_request() {
    match manual_connection_settings(None) {
        Err(ApiError::InvalidRequest(m)) => assert_eq!(m, "manual settings required"),
        other => panic!("unexpected {other:?}"),
    }
    let settings = manual_connection_settings(Some(request())).unwrap();
    assert_eq!(settings.email, "ops@example.com");
    assert_eq!(settings.account_id, None);
    assert_eq!(settings.auth, ConnectionAuth::Password { password: "secret".to_string() });
}

#[test]
fn new_account_takes_new_identifier_and_generic_auth() {
    let add = AddAccountRequest {
        display_name: "Ops".to_string(),
        email: "ops@example.com".to_string(),
        password: "pw".to_string(),
        imap_host: "imap.example.com".to_string(),
        imap_port: 993,
        imap_tls: true,
        smtp_host: "smtp.example.com".to_string(),
        smtp_port: 587,
        smtp_tls: true,
    };
    let config = add.into_config();
    assert!(config.sync_enabled);
    assert!(config.id.is_none());
    let account = account_from_config(
        config,
        "ops@example.com".to_string(),
        None,
        "new-id".to_string(),
        "2026-01-01T00:00:00Z".to_string(),
    );
    assert_eq!(account.id, "new-id");
    assert_eq!(account.provider, MailProvider::GenericImapSmtp);
    assert!(account.is_password_auth());
    assert!(!account.is_oauth_auth());
    assert_eq!(account.created_at, "2026-01-01T00:00:00Z");

    let existing = MailAccount { created_at: "2020-01-01T00:00:00Z".to_string(), ..account.clone() };
    let changed = account_from_config(
        request(),
        "ops@example.com".to_string(),
        Some(&existing),
        "ignored".to_string(),
        "2027-01-01T00:00:00Z".to_string(),
    );
    assert_eq!(changed.id, "new-id");
    assert_eq!(changed.created_at, "2020-01-01T00:00:00Z");
    assert_eq!(changed.updated_at, "2027-01-01T00:00:00Z");
    let view = account_config_view(changed, "pw".to_string());
    assert_eq!(view.password, "pw");
    assert!(matches!(MailAuth::empty_password(), MailAuth::Password { password } if password.is_empty()));
}
