//! Normalization of one MIME document into a [`Notification`]: header
//! extraction with empty-string defaults, HTML body parts joined and
//! converted to plain text, the body cut to the downstream length limit on a
//! character boundary, and the attachment tree flattened in discovery order.

use vstd::prelude::*;

use crate::parse;
use vstd::string::StrSliceExecFns;
use vstd::string::StringExecFns;
use vstd::string::StringSliceAdditionalSpecFns;

verus! {

/// Upper bound on the body, in characters: leaves margin under the
/// downstream limit of 4096 characters per message.
pub const BODY_LIMIT: usize = 4086;

/// One node of a message's attachment tree: either a plain file (possibly
/// without a display name), or a nested message carrying its own
/// attachments.
#[derive(Debug)]
pub enum AttachmentNode {
    File { name: Option<String>, content: Vec<u8> },
    Nested { parts: Vec<AttachmentNode> },
}

/// What one raw MIME document carries, as plain values: the first `From`,
/// `To` and `Subject` header values (absent headers stay `None`), the HTML
/// body parts in document order, and the attachment tree.
#[derive(Debug)]
pub struct MimeDoc {
    pub from: Option<String>,
    pub to: Option<String>,
    pub subject: Option<String>,
    pub html_parts: Vec<String>,
    pub attachments: Vec<AttachmentNode>,
}

/// One normalized message, ready for delivery: routing headers, a plain-text
/// body of at most [`BODY_LIMIT`] characters, and the flattened attachments
/// as `(filename, content)` pairs in discovery order.
#[derive(Clone, Debug)]
pub struct Notification {
    pub from: String,
    pub to: String,
    pub subject: String,
    pub body: String,
    pub attachments: Vec<(String, Vec<u8>)>,
}

/// The display name of an attachment: its own name, or `Untitled`.
pub open spec fn spec_display_name(name: Option<String>) -> Seq<char> {
    match name {
        Some(s) => s@,
        None => "Untitled"@,
    }
}

/// The flattened tail of an attachment forest, from index `i` on: a plain
/// file becomes one `(name, content)` pair; a nested message's own
/// attachments are spliced into the same list, depth first, rather than
/// kept as one opaque entry.
pub open spec fn flatten_from(nodes: Seq<AttachmentNode>, i: int) -> Seq<(Seq<char>, Seq<u8>)>
    decreases nodes, nodes.len() - i,
{
    if i < 0 || i >= nodes.len() {
        Seq::empty()
    } else {
        (match nodes[i] {
            AttachmentNode::File { name, content } => seq![(spec_display_name(name), content@)],
            AttachmentNode::Nested { parts } => flatten_from(parts@, 0),
        }) + flatten_from(nodes, i + 1)
    }
}

/// The whole flattened attachment list of a forest.
pub open spec fn spec_flatten(nodes: Seq<AttachmentNode>) -> Seq<(Seq<char>, Seq<u8>)> {
    flatten_from(nodes, 0)
}

/// What one node contributes to the flattened list: a file its one
/// `(name, content)` pair, a nested message its own flattened list.
pub open spec fn node_flat(x: AttachmentNode) -> Seq<(Seq<char>, Seq<u8>)> {
    match x {
        AttachmentNode::File { name, content } => seq![(spec_display_name(name), content@)],
        AttachmentNode::Nested { parts } => spec_flatten(parts@),
    }
}

/// Law: flattening splices each node's contribution into the flat list in
/// discovery order — in particular a nested message's attachments are
/// spliced in place, never kept as one opaque entry.
pub proof fn lemma_flatten_splice(nodes: Seq<AttachmentNode>, i: int)
    requires
        0 <= i < nodes.len(),
    ensures
        flatten_from(nodes, i) == node_flat(nodes[i]) + flatten_from(nodes, i + 1),
{
}

proof fn lemma_flatten_push_from(nodes: Seq<AttachmentNode>, x: AttachmentNode, i: int)
    requires
        0 <= i <= nodes.len(),
    ensures
        flatten_from(nodes.push(x), i) == flatten_from(nodes, i) + node_flat(x),
    decreases nodes.len() - i,
{
    if i == nodes.len() {
        assert(nodes.push(x)[i] == x);
        assert(flatten_from(nodes.push(x), i + 1) == Seq::<(Seq<char>, Seq<u8>)>::empty());
        assert(flatten_from(nodes, i) == Seq::<(Seq<char>, Seq<u8>)>::empty());
        assert(flatten_from(nodes.push(x), i) =~~= flatten_from(nodes, i) + node_flat(x));
    } else {
        lemma_flatten_push_from(nodes, x, i + 1);
        assert(nodes.push(x)[i] == nodes[i]);
        assert(flatten_from(nodes.push(x), i) =~~= flatten_from(nodes, i) + node_flat(x));
    }
}

/// Law: appending one node to a forest appends exactly that node's
/// contribution to the flattened list.
pub proof fn lemma_flatten_push(nodes: Seq<AttachmentNode>, x: AttachmentNode)
    ensures
        spec_flatten(nodes.push(x)) == spec_flatten(nodes) + node_flat(x),
{
    lemma_flatten_push_from(nodes, x, 0);
}

/// The display name, as an owned string.
fn display_name(name: &Option<String>) -> (r: String)
    ensures
        r@ == spec_display_name(*name),
{
    match name {
        Some(s) => s.clone(),
        None => "Untitled".to_owned(),
    }
}

/// Flattens an attachment forest into `(filename, content)` pairs,
/// preserving depth-first discovery order and splicing nested messages'
/// attachments into the same list.
pub fn collect_attachments(nodes: &Vec<AttachmentNode>) -> (r: Vec<(String, Vec<u8>)>)
    ensures
        r.deep_view() == spec_flatten(nodes@),
    decreases nodes@,
{
    let mut out: Vec<(String, Vec<u8>)> = Vec::new();
    let n = nodes.len();
    let mut i: usize = 0;
    while i < n
        invariant
            n == nodes@.len(),
            0 <= i <= n,
            out.deep_view() + flatten_from(nodes@, i as int) == spec_flatten(nodes@),
        decreases n - i,
    {
        let ghost prev = out.deep_view();
        match &nodes[i] {
            AttachmentNode::File { name, content } => {
                let dname = display_name(name);
                let cont = content.clone();
                proof {
                    assert(cont@ =~= content@);
                }
                out.push((dname, cont));
                proof {
                    assert(out.deep_view() =~~= prev.push(
                        (spec_display_name(*name), content@),
                    ));
                    assert(out.deep_view() + flatten_from(nodes@, i + 1) =~~= prev + flatten_from(
                        nodes@,
                        i as int,
                    ));
                }
            },
            AttachmentNode::Nested { parts } => {
                let mut sub = collect_attachments(parts);
                out.append(&mut sub);
                proof {
                    assert(out.deep_view() + flatten_from(nodes@, i + 1) =~~= prev + flatten_from(
                        nodes@,
                        i as int,
                    ));
                }
            },
        }
        i += 1;
    }
    proof {
        assert(out.deep_view() =~= out.deep_view() + flatten_from(nodes@, n as int));
    }
    out
}

/// The body after the length cut: unchanged when it has at most
/// [`BODY_LIMIT`] characters, else exactly its first [`BODY_LIMIT`]
/// characters.
pub open spec fn spec_truncate_body(s: Seq<char>) -> Seq<char> {
    if s.len() <= BODY_LIMIT {
        s
    } else {
        s.subrange(0, BODY_LIMIT as int)
    }
}

/// Law: the cut never yields more than [`BODY_LIMIT`] characters; a body
/// within the limit passes through unchanged, and a longer one is cut to
/// exactly its first [`BODY_LIMIT`] characters — by characters, so the cut
/// can never split a multi-byte encoding.
pub proof fn lemma_truncate_body(s: Seq<char>)
    ensures
        spec_truncate_body(s).len() <= BODY_LIMIT,
        s.len() <= BODY_LIMIT ==> spec_truncate_body(s) == s,
        s.len() > BODY_LIMIT ==> spec_truncate_body(s) == s.subrange(0, BODY_LIMIT as int),
{
}

/// Cuts a body to at most [`BODY_LIMIT`] characters, on a character
/// boundary.
pub fn truncate_body(s: &str) -> (r: String)
    ensures
        r@ == spec_truncate_body(s@),
{
    let n = s.unicode_len();
    if n <= BODY_LIMIT {
        s.to_owned()
    } else {
        s.substring_char(0, BODY_LIMIT).to_owned()
    }
}

/// The HTML body parts from index `i` on, joined in document order, each
/// followed by a line break.
pub open spec fn spec_join_html(parts: Seq<String>, i: int) -> Seq<char>
    decreases parts.len() - i,
{
    if i < 0 || i >= parts.len() {
        Seq::empty()
    } else {
        parts[i]@ + "\n"@ + spec_join_html(parts, i + 1)
    }
}

/// Joins all HTML body parts, separating them with line breaks.
fn join_html_parts(parts: &Vec<String>) -> (r: String)
    ensures
        r@ == spec_join_html(parts@, 0),
{
    let mut r = String::new();
    let n = parts.len();
    let mut i: usize = 0;
    while i < n
        invariant
            n == parts@.len(),
            0 <= i <= n,
            r@ + spec_join_html(parts@, i as int) == spec_join_html(parts@, 0),
        decreases n - i,
    {
        let ghost prev = r@;
        r.append(parts[i].as_str());
        r.append("\n");
        proof {
            assert(r@ + spec_join_html(parts@, i + 1) =~= prev + spec_join_html(
                parts@,
                i as int,
            ));
        }
        i += 1;
    }
    proof {
        assert(r@ =~= r@ + spec_join_html(parts@, n as int));
    }
    r
}

proof fn lemma_join_push_from(parts: Seq<String>, s: String, i: int)
    requires
        0 <= i <= parts.len(),
    ensures
        spec_join_html(parts.push(s), i) == spec_join_html(parts, i) + s@ + "\n"@,
    decreases parts.len() - i,
{
    if i == parts.len() {
        assert(parts.push(s)[i] == s);
        assert(spec_join_html(parts.push(s), i + 1) == Seq::<char>::empty());
        assert(spec_join_html(parts, i) == Seq::<char>::empty());
        assert(spec_join_html(parts.push(s), i) =~= spec_join_html(parts, i) + s@ + "\n"@);
    } else {
        lemma_join_push_from(parts, s, i + 1);
        assert(parts.push(s)[i] == parts[i]);
        assert(spec_join_html(parts.push(s), i) =~= spec_join_html(parts, i) + s@ + "\n"@);
    }
}

/// Appending one part to the list appends that part and its line break to
/// the joined text.
pub proof fn lemma_join_push(parts: Seq<String>, s: String)
    ensures
        spec_join_html(parts.push(s), 0) == spec_join_html(parts, 0) + s@ + "\n"@,
{
    lemma_join_push_from(parts, s, 0);
}

/// A header value with the documented default: the value itself, or the
/// empty string when the header was absent.
pub open spec fn spec_opt_header(o: Option<String>) -> Seq<char> {
    match o {
        Some(s) => s@,
        None => Seq::empty(),
    }
}

fn opt_header(o: &Option<String>) -> (r: String)
    ensures
        r@ == spec_opt_header(*o),
{
    match o {
        Some(s) => s.clone(),
        None => String::new(),
    }
}

/// The normalized body of a document: its HTML parts joined in document
/// order, converted to plain text, and cut to [`BODY_LIMIT`] characters.
pub open spec fn spec_body(doc: MimeDoc) -> Seq<char> {
    spec_truncate_body(parse::text_of(spec_join_html(doc.html_parts@, 0)))
}

/// True when `n` is exactly the normalization of `doc`.
pub open spec fn spec_matches_doc(n: Notification, doc: MimeDoc) -> bool {
    &&& n.from@ == spec_opt_header(doc.from)
    &&& n.to@ == spec_opt_header(doc.to)
    &&& n.subject@ == spec_opt_header(doc.subject)
    &&& n.body@ == spec_body(doc)
    &&& n.attachments.deep_view() == spec_flatten(doc.attachments@)
}

/// A named optional header value with the documented default: the value
/// itself, or the empty string when the header was absent.
pub open spec fn spec_opt_val(o: Option<Seq<char>>) -> Seq<char> {
    match o {
        Some(s) => s,
        None => Seq::empty(),
    }
}

/// True when every field of `n` is empty.
pub open spec fn spec_is_empty(n: Notification) -> bool {
    &&& n.from@.len() == 0
    &&& n.to@.len() == 0
    &&& n.subject@.len() == 0
    &&& n.body@.len() == 0
    &&& n.attachments@.len() == 0
}

impl Notification {
    /// The all-empty notification, used when a document cannot be parsed at
    /// all: one malformed message degrades, it never fails the pipeline.
    pub fn empty() -> (r: Notification)
        ensures
            spec_is_empty(r),
    {
        Notification {
            from: String::new(),
            to: String::new(),
            subject: String::new(),
            body: String::new(),
            attachments: Vec::new(),
        }
    }

    /// Normalizes one structured document: headers defaulted to the empty
    /// string, HTML parts joined and converted to plain text, body cut to
    /// [`BODY_LIMIT`] characters, attachments flattened in discovery order.
    pub fn from_doc(doc: &MimeDoc) -> (r: Notification)
        ensures
            spec_matches_doc(r, *doc),
    {
        let joined = join_html_parts(&doc.html_parts);
        let text = parse::html_to_text(joined.as_str());
        let body = truncate_body(text.as_str());
        Notification {
            from: opt_header(&doc.from),
            to: opt_header(&doc.to),
            subject: opt_header(&doc.subject),
            body,
            attachments: collect_attachments(&doc.attachments),
        }
    }

    /// Parses one raw MIME document and normalizes it. A document that the
    /// parser rejects outright yields the all-empty notification; a parsed
    /// one yields exactly the named results of the parser on these bytes:
    /// the first header values with empty-string defaults, the HTML parts
    /// joined in document order and converted to plain text, and the
    /// attachment forest flattened in discovery order. The body stays
    /// within [`BODY_LIMIT`] characters either way.
    pub fn new(mime: &str) -> (r: Notification)
        ensures
            r.body@.len() <= BODY_LIMIT,
            !parse::mime_parses(mime.spec_bytes()) ==> spec_is_empty(r),
            parse::mime_parses(mime.spec_bytes()) ==> {
                &&& r.from@ == spec_opt_val(parse::from_of(mime.spec_bytes()))
                &&& r.to@ == spec_opt_val(parse::to_of(mime.spec_bytes()))
                &&& r.subject@ == spec_opt_val(parse::subject_of(mime.spec_bytes()))
                &&& r.body@ == spec_truncate_body(
                    parse::text_of(parse::spec_joined_htmls(mime.spec_bytes(), 0)),
                )
                &&& r.attachments.deep_view() == parse::spec_flat_from(
                    mime.spec_bytes(),
                    0,
                    parse::MAX_NESTING as nat,
                )
            },
    {
        let bytes = mime.as_bytes();
        if parse::doc_parses(bytes) {
            let doc = parse::doc_of_raw(bytes);
            let r = Notification::from_doc(&doc);
            r
        } else {
            Notification::empty()
        }
    }
}

} // verus!
