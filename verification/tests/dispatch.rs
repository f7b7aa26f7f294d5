use tginbox::dispatch::{build_multipart, document_url, message_url, render_text};
use tginbox::mime::Notification;

#[test]
fn rendered_text_has_the_fixed_envelope() {
    let n = Notification {
        from: "sender@example.com".to_string(),
        to: "dest@example.com".to_string(),
        subject: "a subject".to_string(),
        body: "the body".to_string(),
        attachments: vec![],
    };
    let text = render_text(&n);
    assert_eq!(
        text,
        "\u{1F4E8} sender@example.com\n<b>a subject</b>\nthe body"
    );
}

#[test]
fn api_urls_embed_the_bot_key() {
    assert_eq!(
        message_url("KEY123"),
        "https://api.telegram.org/botKEY123/sendMessage"
    );
    assert_eq!(
        document_url("KEY123"),
        "https://api.telegram.org/botKEY123/sendDocument"
    );
}

#[test]
fn multipart_body_has_exactly_two_parts() {
    let (body, boundary) = build_multipart(
        "file.txt".to_string(),
        vec![0x41, 0x42, 0x00, 0x43],
        "4242".to_string(),
    );
    assert_eq!(boundary, "------------------------boundary");
    let expected_head = format!(
        "--{b}\r\nContent-Disposition: form-data; name=\"chat_id\"\r\n\r\n4242\r\n\
         --{b}\r\nContent-Disposition: form-data; name=\"document\"; filename=\"file.txt\"\r\n\
         Content-Type: application/octet-stream\r\n\r\n",
        b = boundary
    );
    let expected_tail = format!("\r\n--{}--\r\n", boundary);
    let mut expected: Vec<u8> = Vec::new();
    expected.extend_from_slice(expected_head.as_bytes());
    expected.extend_from_slice(&[0x41, 0x42, 0x00, 0x43]);
    expected.extend_from_slice(expected_tail.as_bytes());
    assert_eq!(body, expected);
}

#[test]
fn multipart_keeps_binary_content_verbatim() {
    let content: Vec<u8> = (0u8..=255u8).collect();
    let (body, _) = build_multipart("b".to_string(), content.clone(), "1".to_string());
    let start = body
        .windows(content.len())
        .position(|w| w == content.as_slice());
    assert!(start.is_some());
}
