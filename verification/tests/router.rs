use tginbox::config::Account;
use tginbox::router::find_account;

fn account(address: &str, key: &str, chat: &str) -> Account {
    Account {
        address: address.to_string(),
        telegram_bot_key: key.to_string(),
        telegram_chat_id: chat.to_string(),
    }
}

#[test]
fn route_returns_first_exact_match() {
    let accounts = vec![
        account("a@example.com", "k1", "1"),
        account("b@example.com", "k2", "2"),
        account("b@example.com", "k3", "3"),
    ];
    let addr = "b@example.com".to_string();
    let routed = find_account(&accounts, &addr);
    assert_eq!(routed.telegram_chat_id, "2");
}

#[test]
fn route_falls_back_to_first_account() {
    let accounts = vec![
        account("a@example.com", "k1", "1"),
        account("b@example.com", "k2", "2"),
    ];
    let addr = "nobody@example.com".to_string();
    let routed = find_account(&accounts, &addr);
    assert_eq!(routed.telegram_chat_id, "1");
}

#[test]
fn route_is_case_sensitive() {
    let accounts = vec![
        account("a@example.com", "k1", "1"),
        account("A@example.com", "k2", "2"),
    ];
    let addr = "A@example.com".to_string();
    let routed = find_account(&accounts, &addr);
    assert_eq!(routed.telegram_chat_id, "2");
}

#[test]
fn route_single_account_always_wins() {
    let accounts = vec![account("only@example.com", "k", "7")];
    let addr = "other@example.com".to_string();
    let routed = find_account(&accounts, &addr);
    assert_eq!(routed.telegram_chat_id, "7");
}
