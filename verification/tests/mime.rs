use tginbox::mime::{collect_attachments, truncate_body, AttachmentNode, Notification};

#[test]
fn short_body_is_unchanged() {
    assert_eq!(truncate_body("hello"), "hello");
    assert_eq!(truncate_body(""), "");
}

#[test]
fn body_at_the_limit_is_unchanged() {
    let s = "a".repeat(4086);
    assert_eq!(truncate_body(&s), s);
}

#[test]
fn long_body_is_cut_to_limit() {
    let s = "a".repeat(5000);
    let t = truncate_body(&s);
    assert_eq!(t.chars().count(), 4086);
    assert_eq!(t, "a".repeat(4086));
}

#[test]
fn cut_lands_on_a_character_boundary() {
    let s = "\u{e9}".repeat(5000);
    let t = truncate_body(&s);
    assert_eq!(t.chars().count(), 4086);
    assert_eq!(t, "\u{e9}".repeat(4086));
}

#[test]
fn flatten_splices_nested_attachments_in_order() {
    let tree = vec![
        AttachmentNode::File {
            name: Some("outer.txt".to_string()),
            content: vec![1, 2],
        },
        AttachmentNode::Nested {
            parts: vec![
                AttachmentNode::File {
                    name: Some("inner.txt".to_string()),
                    content: vec![3],
                },
                AttachmentNode::Nested {
                    parts: vec![AttachmentNode::File {
                        name: None,
                        content: vec![4, 5],
                    }],
                },
            ],
        },
        AttachmentNode::File {
            name: Some("last.bin".to_string()),
            content: vec![6],
        },
    ];
    let flat = collect_attachments(&tree);
    assert_eq!(flat.len(), 4);
    assert_eq!(flat[0], ("outer.txt".to_string(), vec![1, 2]));
    assert_eq!(flat[1], ("inner.txt".to_string(), vec![3]));
    assert_eq!(flat[2], ("Untitled".to_string(), vec![4, 5]));
    assert_eq!(flat[3], ("last.bin".to_string(), vec![6]));
}

#[test]
fn html_markup_is_stripped_from_the_body() {
    let raw = "From: sender@example.com\r\nTo: dest@example.com\r\nSubject: greetings\r\nContent-Type: text/html; charset=utf-8\r\n\r\n<p>Hello <b>World</b></p>\r\n";
    let n = Notification::new(raw);
    assert_eq!(n.from, "sender@example.com");
    assert_eq!(n.to, "dest@example.com");
    assert_eq!(n.subject, "greetings");
    assert!(n.body.contains("Hello World"));
    assert!(!n.body.contains('<'));
    assert!(!n.body.contains('>'));
}

#[test]
fn unparseable_document_yields_the_empty_notification() {
    let n = Notification::new("");
    assert_eq!(n.from, "");
    assert_eq!(n.to, "");
    assert_eq!(n.subject, "");
    assert_eq!(n.body, "");
    assert!(n.attachments.is_empty());
}

#[test]
fn nested_message_attachments_are_flattened_in_discovery_order() {
    let inner = "From: deep@example.com\r\nSubject: inner mail\r\nContent-Type: multipart/mixed; boundary=\"inb\"\r\n\r\n--inb\r\nContent-Type: text/plain\r\n\r\ninner body\r\n--inb\r\nContent-Type: application/octet-stream; name=\"inner.bin\"\r\nContent-Disposition: attachment; filename=\"inner.bin\"\r\n\r\nINNERDATA\r\n--inb--\r\n";
    let head = "From: sender@example.com\r\nTo: dest@example.com\r\nSubject: nested\r\nContent-Type: multipart/mixed; boundary=\"outb\"\r\n\r\n--outb\r\nContent-Type: text/plain\r\n\r\nouter body\r\n--outb\r\nContent-Type: application/octet-stream; name=\"outer.bin\"\r\nContent-Disposition: attachment; filename=\"outer.bin\"\r\n\r\nOUTERDATA\r\n--outb\r\nContent-Type: message/rfc822\r\nContent-Disposition: attachment; filename=\"forwarded.eml\"\r\n\r\n";
    let raw = format!("{}{}\r\n--outb--\r\n", head, inner);
    let n = Notification::new(&raw);
    let names: Vec<&str> = n.attachments.iter().map(|a| a.0.as_str()).collect();
    assert!(names.contains(&"outer.bin"));
    assert!(names.contains(&"inner.bin"));
    let outer_pos = names.iter().position(|s| *s == "outer.bin").unwrap();
    let inner_pos = names.iter().position(|s| *s == "inner.bin").unwrap();
    assert!(outer_pos < inner_pos);
    let inner_at = &n.attachments[inner_pos];
    assert_eq!(inner_at.1, b"INNERDATA".to_vec());
}

#[test]
fn missing_to_header_routes_to_the_first_account() {
    let raw = "From: sender@example.com\r\nSubject: no destination\r\n\r\nplain body\r\n";
    let n = Notification::new(raw);
    assert_eq!(n.to, "");
    let accounts = vec![
        tginbox::config::Account {
            address: "first@example.com".to_string(),
            telegram_bot_key: "SECRET-REDACTED".to_string(),
            telegram_chat_id: "11".to_string(),
        },
        tginbox::config::Account {
            address: "second@example.com".to_string(),
            telegram_bot_key: "SECRET-REDACTED".to_string(),
            telegram_chat_id: "22".to_string(),
        },
    ];
    let routed = tginbox::router::find_account(&accounts, &n.to);
    assert_eq!(routed.telegram_chat_id, "11");
    let text = tginbox::dispatch::render_text(&n);
    assert!(text.contains("sender@example.com"));
}
