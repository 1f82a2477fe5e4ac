use agentmail::folders::infer_folder_role;
use agentmail::html::html_to_text;
use agentmail::model::FolderRole;
use agentmail::model::{ConnectionAuth, ConnectionSettings};
use agentmail::protocol::{
    build_xoauth2_payload, imap_sign_in, smtp_sign_in, uid_search_query, uid_set_from_strings,
    validate_mailbox_address, ImapSignIn, SmtpMechanism,
};

#[test]
fn builds_xoauth2_sasl_payload() {
    let payload = build_xoauth2_payload("user@gmail.com", "access-token");

    assert_eq!(
        payload,
        "user=user@gmail.com\x01auth=Bearer access-token\x01\x01"
    );
}

#[test]
fn builds_incremental_uid_query() {
    assert_eq!(uid_search_query(None), "UID 1:*");
    assert_eq!(uid_search_query(Some("100")), "UID 101:*");
}

#[test]
fn builds_validated_uid_action_set() {
    assert_eq!(
        uid_set_from_strings(&["42".to_string(), "99".to_string()]).unwrap(),
        "42,99"
    );
    assert!(uid_set_from_strings(&["not-a-uid".to_string()]).is_err());
}

#[test]
fn validates_mailbox_addresses_with_protocol_parser() {
    assert!(validate_mailbox_address("ops@example.com").is_ok());
    assert!(validate_mailbox_address("app test").is_err());
}

#[test]
fn infers_common_provider_sent_folder_paths() {
    assert_eq!(infer_folder_role("Sent Mail"), FolderRole::Sent);
    assert_eq!(infer_folder_role("[Gmail]/Sent Mail"), FolderRole::Sent);
}

#[test]
fn html_to_text_strips_unclosed_raw_text_tags_without_dropping_prior_text() {
    assert_eq!(
        html_to_text("<p>Before</p><style>@media only screen { .x { font-family: Arial; }"),
        "Before"
    );
}

fn sign_in_settings(auth: ConnectionAuth) -> ConnectionSettings {
    ConnectionSettings {
        account_id: None,
        email: "user@gmail.com".to_string(),
        imap_host: "imap.gmail.com".to_string(),
        imap_port: 993,
        imap_tls: true,
        smtp_host: "smtp.gmail.com".to_string(),
        smtp_port: 465,
        smtp_tls: true,
        auth,
    }
}

#[test]
fn password_and_oauth_sign_ins_differ() {
    let password = sign_in_settings(ConnectionAuth::Password { password: "pw".to_string() });
    assert_eq!(imap_sign_in(&password), ImapSignIn::Login { password: "pw".to_string() });
    let smtp = smtp_sign_in(&password);
    assert_eq!(smtp.user, "user@gmail.com");
    assert_eq!(smtp.secret, "pw");
    assert_eq!(smtp.mechanisms, vec![SmtpMechanism::Plain, SmtpMechanism::Login]);

    let oauth = sign_in_settings(ConnectionAuth::GoogleOAuth { access_token: "access-token".to_string() });
    assert_eq!(
        imap_sign_in(&oauth),
        ImapSignIn::XOAuth2 { payload: "user=user@gmail.com\x01auth=Bearer access-token\x01\x01".to_string() }
    );
    let smtp = smtp_sign_in(&oauth);
    assert_eq!(smtp.secret, "access-token");
    assert_eq!(smtp.mechanisms, vec![SmtpMechanism::Xoauth2]);
}
