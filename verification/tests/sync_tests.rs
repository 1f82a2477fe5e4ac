use agentmail::model::{MailAccount, MailAuth, MailProvider};
use agentmail::sync::{
    register_watcher, remove_watcher, sync_enabled_account_ids, sync_reason_from_request,
    SyncRunRegistry, WatcherRegistry,
};

fn account(id: &str, sync_enabled: bool) -> MailAccount {
    MailAccount {
        id: id.to_string(),
        display_name: id.to_string(),
        email: format!("{id}@example.com"),
        provider: MailProvider::GenericImapSmtp,
        auth: MailAuth::Password { password: String::new() },
        imap_host: "imap.example.com".to_string(),
        imap_port: 993,
        imap_tls: true,
        smtp_host: "smtp.example.com".to_string(),
        smtp_port: 465,
        smtp_tls: true,
        sync_enabled,
        created_at: "2026-04-29T00:00:00Z".to_string(),
        updated_at: "2026-04-29T00:00:00Z".to_string(),
    }
}

#[test]
fn sync_run_registry_prevents_overlap_for_same_account() {
    let mut registry = SyncRunRegistry::new();
    let first = registry.try_start("acct-1");

    assert!(first.is_some());
    assert!(registry.try_start("acct-1").is_none());
    assert!(registry.try_start("acct-2").is_some());
}

#[test]
fn sync_run_guard_releases_account_on_drop() {
    let mut registry = SyncRunRegistry::new();

    {
        let guard = registry.try_start("acct-1").expect("first sync starts");
        assert!(registry.is_active("acct-1"));
        registry.finish(guard);
    }

    assert!(!registry.is_active("acct-1"));
    assert!(registry.try_start("acct-1").is_some());
}

#[test]
fn sync_enabled_account_ids_filters_disabled_accounts() {
    let accounts = vec![account("enabled", true), account("disabled", false)];

    assert_eq!(
        sync_enabled_account_ids(&accounts),
        vec!["enabled".to_string()]
    );
}

#[test]
fn sync_reason_from_request_allows_known_reasons_only() {
    assert_eq!(
        sync_reason_from_request(Some("account_saved_sync".to_string())),
        "account_saved_sync"
    );
    assert_eq!(
        sync_reason_from_request(Some("unexpected".to_string())),
        "manual_sync"
    );
    assert_eq!(sync_reason_from_request(None), "manual_sync");
}

#[test]
fn register_watcher_accepts_each_folder_once() {
    let mut registry = WatcherRegistry::new();

    assert!(register_watcher(&mut registry, "acct", "inbox"));
    assert!(!register_watcher(&mut registry, "acct", "inbox"));
    assert!(register_watcher(&mut registry, "acct", "trash"));
}

#[test]
fn remove_watcher_allows_restart() {
    let mut registry = WatcherRegistry::new();

    assert!(register_watcher(&mut registry, "acct", "inbox"));
    remove_watcher(&mut registry, "acct", "inbox");

    assert!(register_watcher(&mut registry, "acct", "inbox"));
}
