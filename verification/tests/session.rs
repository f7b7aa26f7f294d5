use tginbox::config::Account;
use tginbox::session::{MyHandler, SessionState};

fn one_account() -> Vec<Account> {
    vec![Account {
        address: "a@example.com".to_string(),
        telegram_bot_key: "SECRET-REDACTED".to_string(),
        telegram_chat_id: "1".to_string(),
    }]
}

#[test]
fn session_accumulates_and_joins_chunks() {
    let mut h = MyHandler::new(one_account());
    assert!(h.data(b"Subject: hi\r\n").is_ok());
    assert!(h.data(b"\r\nbody line\r\n").is_ok());
    let doc = h.data_end();
    assert_eq!(doc, "Subject: hi\r\n\r\nbody line\r\n");
}

#[test]
fn mail_prepends_synthesized_from_line() {
    let mut h = MyHandler::new(one_account());
    h.mail("alice@example.com");
    assert!(h.data(b"Subject: hi\r\n\r\nhello\r\n").is_ok());
    let doc = h.data_end();
    assert_eq!(doc, "From: alice@example.com\r\nSubject: hi\r\n\r\nhello\r\n");
}

#[test]
fn invalid_chunk_is_rejected_and_session_continues() {
    let mut h = MyHandler::new(one_account());
    assert!(h.data(b"first\r\n").is_ok());
    assert!(h.data(&[0xff, 0xfe, 0x01]).is_err());
    assert!(h.data(b"second\r\n").is_ok());
    let doc = h.data_end();
    assert_eq!(doc, "first\r\nsecond\r\n");
}

#[test]
fn data_end_clears_the_buffer() {
    let mut h = MyHandler::new(one_account());
    assert!(h.data(b"something").is_ok());
    let first = h.data_end();
    assert_eq!(first, "something");
    let second = h.data_end();
    assert_eq!(second, "");
}

#[test]
fn session_states_follow_the_lifecycle() {
    let mut h = MyHandler::new(one_account());
    assert_eq!(h.current_state(), SessionState::Idle);
    h.mail("a@example.com");
    assert_eq!(h.current_state(), SessionState::Receiving);
    assert!(h.data(b"x").is_ok());
    assert_eq!(h.current_state(), SessionState::Accumulating);
    let _ = h.data_end();
    assert_eq!(h.current_state(), SessionState::Idle);
}

#[test]
fn rejected_chunk_leaves_state_unchanged() {
    let mut h = MyHandler::new(one_account());
    h.mail("a@example.com");
    assert!(h.data(&[0xc0]).is_err());
    assert_eq!(h.current_state(), SessionState::Receiving);
}

#[test]
fn sessions_are_independent() {
    let mut h1 = MyHandler::new(one_account());
    let mut h2 = MyHandler::new(one_account());
    assert!(h1.data(b"one").is_ok());
    assert!(h2.data(b"two").is_ok());
    assert!(h1.data(b" more").is_ok());
    let d2 = h2.data_end();
    let d1 = h1.data_end();
    assert_eq!(d1, "one more");
    assert_eq!(d2, "two");
}

#[test]
fn accounts_are_kept_for_routing() {
    let h = MyHandler::new(one_account());
    assert_eq!(h.accounts().len(), 1);
    assert_eq!(h.accounts()[0].address, "a@example.com");
}
