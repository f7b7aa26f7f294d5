//! The trusted boundary around the MIME parser and the HTML-to-text
//! routine. Parsing with the default configuration is a pure function of
//! the document bytes, so each extractor here goes from plain values to
//! plain values — it parses the raw document afresh and reads one thing out
//! of it — and its `ensures` applies an uninterpreted name keyed on those
//! bytes. The verified code ([`doc_of_raw`]) walks the document through
//! these extractors and assembles a [`MimeDoc`] whose every field is tied
//! to the input, so the normalization's contracts reach back to the raw
//! text.

use vstd::prelude::*;

use crate::mime::{
    lemma_flatten_push, lemma_join_push, spec_display_name, spec_flatten, spec_join_html,
    AttachmentNode, MimeDoc,
};

verus! {

/// Whether the default MIME parser accepts a raw document.
pub uninterp spec fn mime_parses(raw: Seq<u8>) -> bool;

/// What the HTML-to-text routine makes of an HTML fragment.
pub uninterp spec fn text_of(html: Seq<char>) -> Seq<char>;

/// The first `From` header's first address, when the document has one.
pub uninterp spec fn from_of(raw: Seq<u8>) -> Option<Seq<char>>;

/// The first `To` header's first address, when the document has one.
pub uninterp spec fn to_of(raw: Seq<u8>) -> Option<Seq<char>>;

/// The first `Subject` header's text, when the document has one.
pub uninterp spec fn subject_of(raw: Seq<u8>) -> Option<Seq<char>>;

/// How many HTML body parts the document has.
pub uninterp spec fn html_count_of(raw: Seq<u8>) -> int;

/// The HTML body part at `pos`, in document order.
pub uninterp spec fn html_of(raw: Seq<u8>, pos: int) -> Option<Seq<char>>;

/// How many attachment parts the document has.
pub uninterp spec fn att_count_of(raw: Seq<u8>) -> int;

/// Whether the attachment part at `pos` is itself a nested message.
pub uninterp spec fn att_is_message_of(raw: Seq<u8>, pos: int) -> bool;

/// The filename of the attachment part at `pos`, when it carries one.
pub uninterp spec fn att_name_of(raw: Seq<u8>, pos: int) -> Option<Seq<char>>;

/// The decoded bytes of the attachment part at `pos`.
pub uninterp spec fn att_content_of(raw: Seq<u8>, pos: int) -> Seq<u8>;

/// The raw bytes of the nested message at attachment `pos`, when that part
/// is one.
pub uninterp spec fn nested_raw_of(raw: Seq<u8>, pos: int) -> Option<Seq<u8>>;

/// Relies on mail_parser::MessageParser::parse with the configuration that
/// MessageParser::default builds: whether the raw document parses at all; a
/// function of the bytes alone.
#[verifier::external_body]
pub(crate) fn doc_parses(raw: &[u8]) -> (r: bool)
    ensures
        r == mime_parses(raw@),
{
    mail_parser::MessageParser::default().parse(raw).is_some()
}

/// Relies on nanohtml2text::html2text: converts an HTML fragment to plain
/// text; the result depends on the input characters alone, and an empty
/// input yields an empty result.
#[verifier::external_body]
pub(crate) fn html_to_text(html: &str) -> (r: String)
    ensures
        r@ == text_of(html@),
        html@.len() == 0 ==> r@.len() == 0,
{
    nanohtml2text::html2text(html)
}

/// Relies on mail_parser::Message::from, Address::first and Addr::address
/// on the freshly parsed document: the first `From` address as text.
#[verifier::external_body]
pub(crate) fn extract_from(raw: &[u8]) -> (r: Option<String>)
    ensures
        r is Some <==> from_of(raw@) is Some,
        r matches Some(s) ==> from_of(raw@) == Some(s@),
{
    let m = match mail_parser::MessageParser::default().parse(raw) {
        Some(m) => m,
        None => return None,
    };
    let a = match m.from() {
        Some(a) => a,
        None => return None,
    };
    let ad = match a.first() {
        Some(ad) => ad,
        None => return None,
    };
    ad.address().map(|s| s.to_string())
}

/// Relies on mail_parser::Message::to, Address::first and Addr::address on
/// the freshly parsed document: the first `To` address as text.
#[verifier::external_body]
pub(crate) fn extract_to(raw: &[u8]) -> (r: Option<String>)
    ensures
        r is Some <==> to_of(raw@) is Some,
        r matches Some(s) ==> to_of(raw@) == Some(s@),
{
    let m = match mail_parser::MessageParser::default().parse(raw) {
        Some(m) => m,
        None => return None,
    };
    let a = match m.to() {
        Some(a) => a,
        None => return None,
    };
    let ad = match a.first() {
        Some(ad) => ad,
        None => return None,
    };
    ad.address().map(|s| s.to_string())
}

/// Relies on mail_parser::Message::subject on the freshly parsed document.
#[verifier::external_body]
pub(crate) fn extract_subject(raw: &[u8]) -> (r: Option<String>)
    ensures
        r is Some <==> subject_of(raw@) is Some,
        r matches Some(s) ==> subject_of(raw@) == Some(s@),
{
    let m = match mail_parser::MessageParser::default().parse(raw) {
        Some(m) => m,
        None => return None,
    };
    m.subject().map(|s| s.to_string())
}

/// Relies on mail_parser::Message::html_body_count on the freshly parsed
/// document; an unparseable document has no parts.
#[verifier::external_body]
pub(crate) fn html_count(raw: &[u8]) -> (r: usize)
    ensures
        r as int == html_count_of(raw@),
{
    match mail_parser::MessageParser::default().parse(raw) {
        Some(m) => m.html_body_count(),
        None => 0,
    }
}

/// Relies on mail_parser::Message::body_html on the freshly parsed
/// document: the HTML body part at `pos`, in document order.
#[verifier::external_body]
pub(crate) fn html_at(raw: &[u8], pos: usize) -> (r: Option<String>)
    ensures
        r is Some <==> html_of(raw@, pos as int) is Some,
        r matches Some(s) ==> html_of(raw@, pos as int) == Some(s@),
{
    let m = match mail_parser::MessageParser::default().parse(raw) {
        Some(m) => m,
        None => return None,
    };
    m.body_html(pos).map(|s| s.into_owned())
}

/// Relies on mail_parser::Message::attachment_count on the freshly parsed
/// document; an unparseable document has no parts.
#[verifier::external_body]
pub(crate) fn attachment_count(raw: &[u8]) -> (r: usize)
    ensures
        r as int == att_count_of(raw@),
{
    match mail_parser::MessageParser::default().parse(raw) {
        Some(m) => m.attachment_count(),
        None => 0,
    }
}

/// Relies on mail_parser::Message::attachment and MessagePart::is_message
/// on the freshly parsed document.
#[verifier::external_body]
pub(crate) fn attachment_is_message(raw: &[u8], pos: usize) -> (r: bool)
    ensures
        r == att_is_message_of(raw@, pos as int),
{
    let m = match mail_parser::MessageParser::default().parse(raw) {
        Some(m) => m,
        None => return false,
    };
    match m.attachment(pos as u32) {
        Some(p) => p.is_message(),
        None => false,
    }
}

/// Relies on mail_parser::Message::attachment and
/// MimeHeaders::attachment_name on the freshly parsed document: the part's
/// filename from its disposition or content type, when it has one.
#[verifier::external_body]
pub(crate) fn attachment_name_at(raw: &[u8], pos: usize) -> (r: Option<String>)
    ensures
        r is Some <==> att_name_of(raw@, pos as int) is Some,
        r matches Some(s) ==> att_name_of(raw@, pos as int) == Some(s@),
{
    let m = match mail_parser::MessageParser::default().parse(raw) {
        Some(m) => m,
        None => return None,
    };
    let p = match m.attachment(pos as u32) {
        Some(p) => p,
        None => return None,
    };
    mail_parser::MimeHeaders::attachment_name(p).map(|s| s.to_string())
}

/// Relies on mail_parser::Message::attachment and MessagePart::contents on
/// the freshly parsed document: the part's decoded bytes.
#[verifier::external_body]
pub(crate) fn attachment_content_at(raw: &[u8], pos: usize) -> (r: Vec<u8>)
    ensures
        r@ == att_content_of(raw@, pos as int),
{
    let m = match mail_parser::MessageParser::default().parse(raw) {
        Some(m) => m,
        None => return Vec::new(),
    };
    match m.attachment(pos as u32) {
        Some(p) => p.contents().to_vec(),
        None => Vec::new(),
    }
}

/// Relies on mail_parser::Message::attachment, MessagePart::message and
/// Message::raw_message on the freshly parsed document: the raw bytes of
/// the nested message at `pos`, when that part is one.
#[verifier::external_body]
pub(crate) fn nested_raw_at(raw: &[u8], pos: usize) -> (r: Option<Vec<u8>>)
    ensures
        r is Some <==> nested_raw_of(raw@, pos as int) is Some,
        r matches Some(v) ==> nested_raw_of(raw@, pos as int) == Some(v@),
{
    let m = match mail_parser::MessageParser::default().parse(raw) {
        Some(m) => m,
        None => return None,
    };
    let p = match m.attachment(pos as u32) {
        Some(p) => p,
        None => return None,
    };
    p.message().map(|sub| sub.raw_message().to_vec())
}

/// How deep nested messages are followed before one is kept as a plain
/// file; deeper nesting than this does not occur in practice.
pub const MAX_NESTING: u32 = 64;

/// The attachment display name defaulting rule over a named result.
pub open spec fn spec_opt_name(o: Option<Seq<char>>) -> Seq<char> {
    match o {
        Some(s) => s,
        None => "Untitled"@,
    }
}

/// The flattened attachment list of the document `raw`, from attachment
/// index `i` on: an attachment that is itself a nested message (followed up
/// to `fuel` levels deep) contributes its own flattened list, spliced in
/// place; every other attachment contributes one `(name, content)` pair.
pub open spec fn spec_flat_from(raw: Seq<u8>, i: int, fuel: nat) -> Seq<(Seq<char>, Seq<u8>)>
    decreases fuel, att_count_of(raw) - i,
{
    if i < 0 || i >= att_count_of(raw) {
        Seq::empty()
    } else {
        (if att_is_message_of(raw, i) && fuel > 0 && nested_raw_of(raw, i) is Some {
            spec_flat_from(nested_raw_of(raw, i)->0, 0, (fuel - 1) as nat)
        } else {
            seq![(spec_opt_name(att_name_of(raw, i)), att_content_of(raw, i))]
        }) + spec_flat_from(raw, i + 1, fuel)
    }
}

/// The HTML parts of the document `raw`, joined in document order with one
/// line break after each part, from part index `i` on.
pub open spec fn spec_joined_htmls(raw: Seq<u8>, i: int) -> Seq<char>
    decreases html_count_of(raw) - i,
{
    if i < 0 || i >= html_count_of(raw) {
        Seq::empty()
    } else {
        (match html_of(raw, i) {
            Some(s) => s + "\n"@,
            None => Seq::<char>::empty(),
        }) + spec_joined_htmls(raw, i + 1)
    }
}

/// Builds the attachment forest of `raw`: a `Nested` node for each
/// attachment that is itself a message, followed up to `fuel` levels deep,
/// and a `File` node for every other attachment. Its flattening is pinned
/// to the named per-position results of the parser.
fn forest_of(raw: &[u8], fuel: u32) -> (r: Vec<AttachmentNode>)
    ensures
        spec_flatten(r@) == spec_flat_from(raw@, 0, fuel as nat),
    decreases fuel,
{
    let mut nodes: Vec<AttachmentNode> = Vec::new();
    let count = attachment_count(raw);
    let mut pos: usize = 0;
    while pos < count
        invariant
            count as int == att_count_of(raw@),
            0 <= pos <= count,
            spec_flatten(nodes@) + spec_flat_from(raw@, pos as int, fuel as nat)
                == spec_flat_from(raw@, 0, fuel as nat),
        decreases count - pos,
    {
        let ghost prev = nodes@;
        let mut nested_done = false;
        if fuel > 0 && attachment_is_message(raw, pos) {
            match nested_raw_at(raw, pos) {
                Some(sub_raw) => {
                    let parts = forest_of(sub_raw.as_slice(), fuel - 1);
                    nodes.push(AttachmentNode::Nested { parts });
                    nested_done = true;
                },
                None => {},
            }
        }
        if !nested_done {
            let name = attachment_name_at(raw, pos);
            let content = attachment_content_at(raw, pos);
            proof {
                assert(spec_display_name(name) == spec_opt_name(att_name_of(raw@, pos as int)));
            }
            nodes.push(AttachmentNode::File { name, content });
        }
        proof {
            lemma_flatten_push(prev, nodes@.last());
            assert(spec_flatten(nodes@) + spec_flat_from(raw@, pos + 1, fuel as nat)
                =~~= spec_flatten(prev) + spec_flat_from(raw@, pos as int, fuel as nat));
        }
        pos += 1;
    }
    proof {
        assert(spec_flatten(nodes@) =~~= spec_flatten(nodes@) + spec_flat_from(
            raw@,
            count as int,
            fuel as nat,
        ));
    }
    nodes
}

/// Pulls everything the normalization reads out of one raw document, each
/// field pinned to a named result of the parser on exactly these bytes:
/// first header values, the HTML parts in document order, and the
/// attachment forest.
pub fn doc_of_raw(raw: &[u8]) -> (d: MimeDoc)
    ensures
        d.from.deep_view() == from_of(raw@),
        d.to.deep_view() == to_of(raw@),
        d.subject.deep_view() == subject_of(raw@),
        spec_join_html(d.html_parts@, 0) == spec_joined_htmls(raw@, 0),
        spec_flatten(d.attachments@) == spec_flat_from(raw@, 0, MAX_NESTING as nat),
{
    let from = extract_from(raw);
    let to = extract_to(raw);
    let subject = extract_subject(raw);
    let mut html_parts: Vec<String> = Vec::new();
    let hcount = html_count(raw);
    let mut i: usize = 0;
    while i < hcount
        invariant
            hcount as int == html_count_of(raw@),
            0 <= i <= hcount,
            spec_join_html(html_parts@, 0) + spec_joined_htmls(raw@, i as int)
                == spec_joined_htmls(raw@, 0),
        decreases hcount - i,
    {
        let ghost prev = html_parts@;
        match html_at(raw, i) {
            Some(s) => {
                let ghost sv = s;
                html_parts.push(s);
                proof {
                    lemma_join_push(prev, sv);
                    assert(spec_join_html(html_parts@, 0) + spec_joined_htmls(raw@, i + 1)
                        =~= spec_join_html(prev, 0) + spec_joined_htmls(raw@, i as int));
                }
            },
            None => {},
        }
        i += 1;
    }
    let attachments = forest_of(raw, MAX_NESTING);
    MimeDoc { from, to, subject, html_parts, attachments }
}

} // verus!
