//! Delivery payloads for the Telegram Bot API: the rendered message text,
//! the two endpoint URLs, and the `multipart/form-data` body that carries
//! one attachment. The HTTP transport itself lives outside this crate;
//! delivery is best-effort and these functions only compute the bytes that
//! are sent.

use vstd::prelude::*;

use crate::mime::Notification;
use vstd::string::StringExecFns;
use vstd::string::StringSliceAdditionalSpecFns;

verus! {

/// The fixed envelope around a notification's text: an envelope marker, the
/// sender, the subject in bold markup, and the body, inserted verbatim. A
/// literal `<` or `>` that survived normalization in the subject or body can
/// therefore still alter rendering under the API's HTML subset; that is a
/// documented edge of the format, not something this function escapes.
pub open spec fn spec_render_text(n: Notification) -> Seq<char> {
    "\u{1F4E8} "@ + n.from@ + "\n<b>"@ + n.subject@ + "</b>\n"@ + n.body@
}

/// Renders the `sendMessage` text for one notification.
pub fn render_text(n: &Notification) -> (r: String)
    ensures
        r@ == spec_render_text(*n),
{
    let mut r = String::new();
    r.append("\u{1F4E8} ");
    r.append(n.from.as_str());
    r.append("\n<b>");
    r.append(n.subject.as_str());
    r.append("</b>\n");
    r.append(n.body.as_str());
    r
}

/// The `sendMessage` endpoint for the bot identified by `bot_key`.
pub open spec fn spec_message_url(bot_key: Seq<char>) -> Seq<char> {
    "https://api.telegram.org/bot"@ + bot_key + "/sendMessage"@
}

/// The `sendDocument` endpoint for the bot identified by `bot_key`.
pub open spec fn spec_document_url(bot_key: Seq<char>) -> Seq<char> {
    "https://api.telegram.org/bot"@ + bot_key + "/sendDocument"@
}

/// URL of the `sendMessage` API call.
pub fn message_url(bot_key: &str) -> (r: String)
    ensures
        r@ == spec_message_url(bot_key@),
{
    let mut r = String::new();
    r.append("https://api.telegram.org/bot");
    r.append(bot_key);
    r.append("/sendMessage");
    r
}

/// URL of the `sendDocument` API call.
pub fn document_url(bot_key: &str) -> (r: String)
    ensures
        r@ == spec_document_url(bot_key@),
{
    let mut r = String::new();
    r.append("https://api.telegram.org/bot");
    r.append(bot_key);
    r.append("/sendDocument");
    r
}

/// The fixed boundary used for every upload body.
pub open spec fn spec_boundary() -> Seq<char> {
    "------------------------boundary"@
}

/// The upload body for one attachment: exactly two form parts, `chat_id`
/// (text) and `document` (binary, under the attachment's original filename,
/// content type `application/octet-stream`).
pub open spec fn spec_multipart_body(
    name: Seq<char>,
    content: Seq<u8>,
    chat_id: Seq<char>,
) -> Seq<u8> {
    "--------------------------boundary\r\nContent-Disposition: form-data; name=\"chat_id\"\r\n\r\n".spec_bytes()
        + vstd::utf8::encode_utf8(chat_id)
        + "\r\n--------------------------boundary\r\nContent-Disposition: form-data; name=\"document\"; filename=\"".spec_bytes()
        + vstd::utf8::encode_utf8(name)
        + "\"\r\nContent-Type: application/octet-stream\r\n\r\n".spec_bytes() + content
        + "\r\n--------------------------boundary--\r\n".spec_bytes()
}

/// Builds the `multipart/form-data` body that uploads one attachment, and
/// returns it with the boundary that frames it.
pub fn build_multipart(name: String, content: Vec<u8>, chat_id: String) -> (r: (Vec<u8>, String))
    ensures
        r.0@ == spec_multipart_body(name@, content@, chat_id@),
        r.1@ == spec_boundary(),
{
    let mut body: Vec<u8> = Vec::new();
    body.extend_from_slice(
        "--------------------------boundary\r\nContent-Disposition: form-data; name=\"chat_id\"\r\n\r\n".as_bytes(),
    );
    body.extend_from_slice(chat_id.as_str().as_bytes());
    body.extend_from_slice(
        "\r\n--------------------------boundary\r\nContent-Disposition: form-data; name=\"document\"; filename=\"".as_bytes(),
    );
    body.extend_from_slice(name.as_str().as_bytes());
    body.extend_from_slice("\"\r\nContent-Type: application/octet-stream\r\n\r\n".as_bytes());
    body.extend_from_slice(content.as_slice());
    body.extend_from_slice("\r\n--------------------------boundary--\r\n".as_bytes());
    proof {
        assert(body@ =~= spec_multipart_body(name@, content@, chat_id@));
    }
    let boundary = "------------------------boundary".to_owned();
    (body, boundary)
}

} // verus!
