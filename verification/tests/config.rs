use tginbox::config::{Account, ConfigFile};

#[test]
fn configuration_with_accounts_is_accepted() {
    let cfg = ConfigFile {
        smtpservers: vec![],
        accounts: vec![Account {
            address: "a@example.com".to_string(),
            telegram_bot_key: "SECRET-REDACTED".to_string(),
            telegram_chat_id: "1".to_string(),
        }],
    };
    assert!(cfg.has_accounts());
}

#[test]
fn configuration_without_accounts_is_refused() {
    let cfg = ConfigFile {
        smtpservers: vec![],
        accounts: vec![],
    };
    assert!(!cfg.has_accounts());
}
