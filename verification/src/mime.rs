//! Turning a raw RFC 5322 / MIME message into the fields the platform stores:
//! identifying headers, recipients, the first plain and HTML bodies, and the
//! attachments, with HTML bodies sanitised.

use vstd::prelude::*;
use crate::mime_laws::{
    keeps_found, lemma_extract_is_preorder_walk, lemma_extract_keeps_found, lemma_preorder_forest_append,
    lemma_preorder_forest_single, lemma_stopped_extend, lemma_stopped_keeps_found, lemma_walk_append, preorder,
    preorder_forest, stopped_at, walk,
};
use crate::text::{
    chars_eq_ignore_case, chars_of, contains_chars, contains_seq, eq_ignore_case, split_chars,
    split_on, split_words, string_of, trim_chars, trimmed, words,
};

verus! {

/// One header line of a message part: its name and its decoded value.
pub struct MimeHeader {
    pub key: String,
    pub value: String,
}

/// One node of a parsed MIME tree, holding what the processing reads of it.
pub struct MimePart {
    /// The header lines, in message order.
    pub headers: Vec<MimeHeader>,
    /// The body decoded to text, or `None` when it cannot be decoded.
    pub body: Option<String>,
    /// The body with its transfer encoding undone, or `None` when that fails.
    pub body_raw: Option<Vec<u8>>,
    /// The disposition type of the `Content-Disposition` header.
    pub disposition: Disposition,
    /// The value of the `Content-Disposition` parameter asked for when the
    /// tree was read (the file name, for message processing).
    pub disposition_param: Option<String>,
    /// The nested parts of a multipart node, in message order.
    pub subparts: Vec<MimePart>,
}

/// The disposition type of a part (`Content-Disposition`), `Inline` when the
/// header is absent.
pub enum Disposition {
    Inline,
    Attachment,
    FormData,
    /// Any other type, lower-cased.
    Extension(String),
}

/// An attachment found in a message.
#[derive(Debug, Clone)]
pub struct ProcessedAttachment {
    pub filename: String,
    pub content_type: String,
    pub size: usize,
    pub content: Vec<u8>,
}

/// The fields of a message that the platform stores.
#[derive(Debug, Clone)]
pub struct ProcessedMessage {
    pub message_id: Option<String>,
    pub in_reply_to: Option<String>,
    pub references: Vec<String>,
    pub subject: Option<String>,
    pub from: Option<String>,
    pub to: Vec<String>,
    pub body_text: Option<String>,
    pub body_html: Option<String>,
    pub attachments: Vec<ProcessedAttachment>,
}

/// Why a raw message could not be processed.
#[derive(Debug, Clone, Copy, PartialEq, Eq, Structural)]
pub enum ProcessError {
    /// The bytes do not parse as a message.
    Parse,
    /// A body that the processing needs cannot be decoded.
    Body,
}

/// Mathematical view of an attachment.
pub struct AttachmentView {
    pub filename: Seq<char>,
    pub content_type: Seq<char>,
    pub size: nat,
    pub content: Seq<u8>,
}

/// What the walk over a message tree has collected so far.
pub struct Extraction {
    pub text: Option<Seq<char>>,
    pub html: Option<Seq<char>>,
    pub attachments: Seq<AttachmentView>,
}

/// The character-sequence view of an optional text.
pub open spec fn opt_view(o: Option<String>) -> Option<Seq<char>> {
    match o {
        Some(s) => Some(s@),
        None => None,
    }
}

pub open spec fn attachment_view(a: ProcessedAttachment) -> AttachmentView {
    AttachmentView { filename: a.filename@, content_type: a.content_type@, size: a.size as nat, content: a.content@ }
}

pub open spec fn attachments_view(v: Seq<ProcessedAttachment>) -> Seq<AttachmentView> {
    v.map_values(|a: ProcessedAttachment| attachment_view(a))
}

pub open spec fn extraction_of(
    text: Option<String>,
    html: Option<String>,
    atts: Seq<ProcessedAttachment>,
) -> Extraction {
    Extraction { text: opt_view(text), html: opt_view(html), attachments: attachments_view(atts) }
}

/// The value of the first header named `key`, names compared without regard
/// to ASCII case.
pub open spec fn first_value(headers: Seq<MimeHeader>, key: Seq<char>) -> Option<Seq<char>>
    decreases headers.len(),
{
    if headers.len() == 0 {
        None
    } else if eq_ignore_case(headers[0].key@, key) {
        Some(headers[0].value@)
    } else {
        first_value(headers.drop_first(), key)
    }
}

/// The values of all headers named `key`, in order.
pub open spec fn all_values(headers: Seq<MimeHeader>, key: Seq<char>) -> Seq<Seq<char>>
    decreases headers.len(),
{
    if headers.len() == 0 {
        Seq::<Seq<char>>::empty()
    } else {
        let rest = all_values(headers.drop_last(), key);
        if eq_ignore_case(headers.last().key@, key) {
            rest.push(headers.last().value@)
        } else {
            rest
        }
    }
}

/// The value of the first header named `key`.
pub fn header_first_value(headers: &Vec<MimeHeader>, key: &[char]) -> (r: Option<String>)
    ensures
        opt_view(r) == first_value(headers@, key@),
{
    let mut i: usize = 0;
    assert(headers@.subrange(0, headers@.len() as int) =~= headers@);
    while i < headers.len()
        invariant
            i <= headers@.len(),
            first_value(headers@, key@) == first_value(headers@.subrange(i as int, headers@.len() as int), key@),
        decreases headers@.len() - i,
    {
        let ghost rest = headers@.subrange(i as int, headers@.len() as int);
        assert(rest[0] == headers@[i as int]);
        assert(rest.drop_first() =~= headers@.subrange(i + 1, headers@.len() as int));
        let k = chars_of(headers[i].key.as_str());
        if chars_eq_ignore_case(k.as_slice(), key) {
            return Some(headers[i].value.clone());
        }
        i = i + 1;
    }
    None
}

/// The values of all headers named `key`, in order.
pub fn header_all_values(headers: &Vec<MimeHeader>, key: &[char]) -> (r: Vec<String>)
    ensures
        r@.map_values(|s: String| s@) == all_values(headers@, key@),
{
    let mut out: Vec<String> = Vec::new();
    let mut i: usize = 0;
    assert(headers@.subrange(0, 0) =~= Seq::<MimeHeader>::empty());
    while i < headers.len()
        invariant
            i <= headers@.len(),
            out@.map_values(|s: String| s@) == all_values(headers@.subrange(0, i as int), key@),
        decreases headers@.len() - i,
    {
        let ghost pre = headers@.subrange(0, i + 1);
        assert(pre.drop_last() =~= headers@.subrange(0, i as int));
        assert(pre.last() == headers@[i as int]);
        let k = chars_of(headers[i].key.as_str());
        if chars_eq_ignore_case(k.as_slice(), key) {
            out.push(headers[i].value.clone());
            assert(out@.map_values(|s: String| s@) =~= all_values(headers@.subrange(0, i as int), key@).push(headers@[i as int].value@));
        }
        i = i + 1;
    }
    assert(headers@.subrange(0, headers@.len() as int) =~= headers@);
    out
}

pub open spec fn lit_content_type() -> Seq<char> {
    seq!['C', 'o', 'n', 't', 'e', 'n', 't', '-', 'T', 'y', 'p', 'e']
}

pub open spec fn lit_text_plain() -> Seq<char> {
    seq!['t', 'e', 'x', 't', '/', 'p', 'l', 'a', 'i', 'n']
}

pub open spec fn lit_text_html() -> Seq<char> {
    seq!['t', 'e', 'x', 't', '/', 'h', 't', 'm', 'l']
}

/// The disposition parameter that names an attachment's file.
pub open spec fn lit_filename() -> Seq<char> {
    seq!['f', 'i', 'l', 'e', 'n', 'a', 'm', 'e']
}

fn filename_param() -> (s: String)
    ensures
        s@ == lit_filename(),
{
    let v = vec!['f', 'i', 'l', 'e', 'n', 'a', 'm', 'e'];
    assert(v@ =~= lit_filename());
    string_of(v.as_slice())
}

pub open spec fn lit_unnamed() -> Seq<char> {
    seq!['u', 'n', 'n', 'a', 'm', 'e', 'd']
}

/// The `Content-Type` value of a part, empty when it has none.
pub open spec fn content_type_of(p: MimePart) -> Seq<char> {
    match first_value(p.headers@, lit_content_type()) {
        Some(v) => v,
        None => Seq::<char>::empty(),
    }
}

/// What one part contributes by itself, before its subparts are visited:
/// the first plain-text body, else the first HTML body, else an attachment.
/// `None` when a body the step needs cannot be decoded.
pub open spec fn node_step(p: MimePart, st: Extraction) -> Option<Extraction> {
    let ct = content_type_of(p);
    if contains_seq(ct, lit_text_plain()) && st.text is None {
        match p.body {
            Some(b) => Some(Extraction { text: Some(b@), ..st }),
            None => None,
        }
    } else if contains_seq(ct, lit_text_html()) && st.html is None {
        match p.body {
            Some(b) => Some(Extraction { html: Some(b@), ..st }),
            None => None,
        }
    } else if p.disposition is Attachment {
        match p.body_raw {
            Some(raw) => Some(Extraction {
                attachments: st.attachments.push(AttachmentView {
                    filename: match p.disposition_param {
                        Some(f) => f@,
                        None => lit_unnamed(),
                    },
                    content_type: ct,
                    size: raw@.len(),
                    content: raw@,
                }),
                ..st
            }),
            None => None,
        }
    } else {
        Some(st)
    }
}

/// The walk over a part and all parts below it, in depth-first pre-order.
pub open spec fn extract_tree(p: MimePart, st: Extraction) -> Option<Extraction>
    decreases p, 0nat,
{
    match node_step(p, st) {
        Some(s) => extract_forest(p.subparts@, s),
        None => None,
    }
}

/// The walk over a sequence of sibling parts, left to right.
pub open spec fn extract_forest(ps: Seq<MimePart>, st: Extraction) -> Option<Extraction>
    decreases ps, 1nat,
{
    if ps.len() == 0 {
        Some(st)
    } else {
        match extract_tree(ps[0], st) {
            Some(s) => extract_forest(ps.subrange(1, ps.len() as int), s),
            None => None,
        }
    }
}


fn content_type_key() -> (k: Vec<char>)
    ensures
        k@ == lit_content_type(),
{
    let k = vec!['C', 'o', 'n', 't', 'e', 'n', 't', '-', 'T', 'y', 'p', 'e'];
    assert(k@ =~= lit_content_type());
    k
}

/// The `Content-Type` value of a part, empty when it has none.
pub fn part_content_type(part: &MimePart) -> (ct: String)
    ensures
        ct@ == content_type_of(*part),
{
    let key = content_type_key();
    match header_first_value(&part.headers, key.as_slice()) {
        Some(v) => v,
        None => String::new(),
    }
}

fn copy_bytes(v: &Vec<u8>) -> (r: Vec<u8>)
    ensures
        r@ == v@,
{
    let r = v.clone();
    assert(r@ =~= v@);
    r
}

/// Visits `part` and every part below it in depth-first pre-order, keeping the
/// first plain-text body, the first HTML body, and every attachment.
pub fn extract_parts(
    part: &MimePart,
    body_text: &mut Option<String>,
    body_html: &mut Option<String>,
    attachments: &mut Vec<ProcessedAttachment>,
) -> (r: Result<(), ProcessError>)
    ensures
        match extract_tree(*part, extraction_of(*old(body_text), *old(body_html), old(attachments)@)) {
            Some(st) => {
                &&& r is Ok
                &&& extraction_of(*final(body_text), *final(body_html), final(attachments)@) == st
            },
            None => r == Err::<(), ProcessError>(ProcessError::Body),
        },
        r is Err ==> stopped_at(
            preorder(*part),
            extraction_of(*old(body_text), *old(body_html), old(attachments)@),
            extraction_of(*final(body_text), *final(body_html), final(attachments)@),
        ),
        keeps_found(
            extraction_of(*old(body_text), *old(body_html), old(attachments)@),
            extraction_of(*final(body_text), *final(body_html), final(attachments)@),
        ),
    decreases part,
{
    let ghost st0 = extraction_of(*body_text, *body_html, attachments@);
    let content_type = part_content_type(part);
    let ct = chars_of(content_type.as_str());
    let plain = vec!['t', 'e', 'x', 't', '/', 'p', 'l', 'a', 'i', 'n'];
    let html = vec!['t', 'e', 'x', 't', '/', 'h', 't', 'm', 'l'];
    assert(plain@ =~= lit_text_plain());
    assert(html@ =~= lit_text_html());
    if contains_chars(ct.as_slice(), plain.as_slice()) && body_text.is_none() {
        match &part.body {
            Some(b) => {
                *body_text = Some(b.clone());
            },
            None => {
                proof { lemma_stop_at_root(*part, st0); }
                return Err(ProcessError::Body);
            },
        }
    } else if contains_chars(ct.as_slice(), html.as_slice()) && body_html.is_none() {
        match &part.body {
            Some(b) => {
                *body_html = Some(b.clone());
            },
            None => {
                proof { lemma_stop_at_root(*part, st0); }
                return Err(ProcessError::Body);
            },
        }
    } else if matches!(part.disposition, Disposition::Attachment) {
        match &part.body_raw {
            Some(raw) => {
                let filename = match &part.disposition_param {
                    Some(f) => f.clone(),
                    None => {
                        let u = vec!['u', 'n', 'n', 'a', 'm', 'e', 'd'];
                        assert(u@ =~= lit_unnamed());
                        string_of(u.as_slice())
                    },
                };
                let content = copy_bytes(raw);
                let att = ProcessedAttachment {
                    filename,
                    content_type,
                    size: content.len(),
                    content,
                };
                attachments.push(att);
                assert(attachments_view(attachments@) =~= st0.attachments.push(attachment_view(att)));
            },
            None => {
                proof { lemma_stop_at_root(*part, st0); }
                return Err(ProcessError::Body);
            },
        }
    }
    let ghost st1 = extraction_of(*body_text, *body_html, attachments@);
    assert(node_step(*part, st0) == Some(st1));
    let n: usize = part.subparts.len();
    let mut i: usize = 0;
    assert(part.subparts@.subrange(0, n as int) =~= part.subparts@);
    assert(part.subparts@.subrange(0, 0) =~= Seq::<MimePart>::empty());
    while i < n
        invariant
            n == part.subparts@.len(),
            i <= n,
            node_step(*part, st0) == Some(st1),
            st0 == extraction_of(*old(body_text), *old(body_html), old(attachments)@),
            extract_forest(part.subparts@, st1) == extract_forest(
                part.subparts@.subrange(i as int, n as int),
                extraction_of(*body_text, *body_html, attachments@),
            ),
            walk(preorder_forest(part.subparts@.subrange(0, i as int)), st1) == Some(
                extraction_of(*body_text, *body_html, attachments@),
            ),
        decreases n - i,
    {
        let ghost rest = part.subparts@.subrange(i as int, n as int);
        assert(rest[0] == part.subparts@[i as int]);
        assert(rest.subrange(1, rest.len() as int) =~= part.subparts@.subrange(i + 1, n as int));
        let ghost cur = extraction_of(*body_text, *body_html, attachments@);
        let r = extract_parts(&part.subparts[i], body_text, body_html, attachments);
        proof {
            lemma_subtree_step(*part, st0, st1, i as int, cur);
        }
        if r.is_err() {
            assert(extract_tree(part.subparts@[i as int], cur) is None);
            assert(extract_forest(rest, cur) is None);
            assert(extract_tree(*part, st0) is None);
            proof {
                let fin = extraction_of(*body_text, *body_html, attachments@);
                lemma_stop_in_subtree(*part, st0, st1, i as int, cur, fin);
                lemma_stopped_keeps_found(preorder(*part), st0, fin);
            }
            return r;
        }
        i = i + 1;
    }
    proof {
        lemma_extract_keeps_found(*part, st0);
    }
    Ok(())
}

/// A walk over a tree whose own part needs an undecodable body stops there.
proof fn lemma_stop_at_root(p: MimePart, st: Extraction)
    requires
        node_step(p, st) is None,
    ensures
        stopped_at(preorder(p), st, st),
        keeps_found(st, st),
{
    let parts = preorder(p);
    assert(parts[0] == p);
    assert(parts.take(0) =~= Seq::<MimePart>::empty());
    assert(walk(parts.take(0), st) == Some(st));
    assert(node_step(parts[0], st) is None);
    assert(st.attachments.subrange(0, st.attachments.len() as int) =~= st.attachments);
}

/// The parts of a tree: its own part, the parts of the subtrees before the
/// `i`-th, those of the `i`-th, and those after it.
proof fn lemma_preorder_around(p: MimePart, i: int)
    requires
        0 <= i < p.subparts@.len(),
    ensures
        preorder(p) == seq![p] + preorder_forest(p.subparts@.subrange(0, i)) + preorder(p.subparts@[i])
            + preorder_forest(p.subparts@.subrange(i + 1, p.subparts@.len() as int)),
{
    let subs = p.subparts@;
    let n = subs.len() as int;
    assert(subs =~= subs.subrange(0, i) + (seq![subs[i]] + subs.subrange(i + 1, n)));
    lemma_preorder_forest_append(subs.subrange(0, i), seq![subs[i]] + subs.subrange(i + 1, n));
    lemma_preorder_forest_append(seq![subs[i]], subs.subrange(i + 1, n));
    lemma_preorder_forest_single(subs[i]);
    assert(preorder(p) =~= seq![p] + preorder_forest(subs.subrange(0, i)) + preorder(subs[i])
        + preorder_forest(subs.subrange(i + 1, n)));
}

/// Walking the subtrees before the `i`-th, then the `i`-th, is walking the
/// subtrees up to and including the `i`-th.
proof fn lemma_subtree_step(p: MimePart, st0: Extraction, st1: Extraction, i: int, cur: Extraction)
    requires
        0 <= i < p.subparts@.len(),
        walk(preorder_forest(p.subparts@.subrange(0, i)), st1) == Some(cur),
    ensures
        walk(preorder_forest(p.subparts@.subrange(0, i + 1)), st1) == match extract_tree(p.subparts@[i], cur) {
            Some(s) => Some(s),
            None => None,
        },
{
    let subs = p.subparts@;
    assert(subs.subrange(0, i + 1) =~= subs.subrange(0, i) + seq![subs[i]]);
    lemma_preorder_forest_append(subs.subrange(0, i), seq![subs[i]]);
    lemma_preorder_forest_single(subs[i]);
    lemma_walk_append(preorder_forest(subs.subrange(0, i)), preorder(subs[i]), st1);
    lemma_extract_is_preorder_walk(subs[i], cur);
}

/// A walk that stops inside the `i`-th subtree stops inside the whole tree.
proof fn lemma_stop_in_subtree(p: MimePart, st0: Extraction, st1: Extraction, i: int, cur: Extraction, fin: Extraction)
    requires
        0 <= i < p.subparts@.len(),
        node_step(p, st0) == Some(st1),
        walk(preorder_forest(p.subparts@.subrange(0, i)), st1) == Some(cur),
        stopped_at(preorder(p.subparts@[i]), cur, fin),
    ensures
        stopped_at(preorder(p), st0, fin),
{
    let subs = p.subparts@;
    let pre = seq![p] + preorder_forest(subs.subrange(0, i));
    lemma_preorder_around(p, i);
    lemma_walk_append(seq![p], preorder_forest(subs.subrange(0, i)), st0);
    let one = seq![p];
    assert(one[0] == p);
    assert(one.drop_first() =~= Seq::<MimePart>::empty());
    assert(walk(one.drop_first(), st1) == Some(st1));
    assert(walk(one, st0) == Some(st1));
    lemma_stopped_extend(pre, preorder(subs[i]), preorder_forest(subs.subrange(i + 1, subs.len() as int)), st0, cur, fin);
}


pub open spec fn hdr_message_id() -> Seq<char> {
    seq!['M', 'e', 's', 's', 'a', 'g', 'e', '-', 'I', 'D']
}

pub open spec fn hdr_in_reply_to() -> Seq<char> {
    seq!['I', 'n', '-', 'R', 'e', 'p', 'l', 'y', '-', 'T', 'o']
}

pub open spec fn hdr_subject() -> Seq<char> {
    seq!['S', 'u', 'b', 'j', 'e', 'c', 't']
}

pub open spec fn hdr_from() -> Seq<char> {
    seq!['F', 'r', 'o', 'm']
}

pub open spec fn hdr_to() -> Seq<char> {
    seq!['T', 'o']
}

pub open spec fn hdr_references() -> Seq<char> {
    seq!['R', 'e', 'f', 'e', 'r', 'e', 'n', 'c', 'e', 's']
}

fn key_message_id() -> (k: Vec<char>)
    ensures
        k@ == hdr_message_id(),
{
    let k = vec!['M', 'e', 's', 's', 'a', 'g', 'e', '-', 'I', 'D'];
    assert(k@ =~= hdr_message_id());
    k
}

fn key_in_reply_to() -> (k: Vec<char>)
    ensures
        k@ == hdr_in_reply_to(),
{
    let k = vec!['I', 'n', '-', 'R', 'e', 'p', 'l', 'y', '-', 'T', 'o'];
    assert(k@ =~= hdr_in_reply_to());
    k
}

fn key_subject() -> (k: Vec<char>)
    ensures
        k@ == hdr_subject(),
{
    let k = vec!['S', 'u', 'b', 'j', 'e', 'c', 't'];
    assert(k@ =~= hdr_subject());
    k
}

fn key_from() -> (k: Vec<char>)
    ensures
        k@ == hdr_from(),
{
    let k = vec!['F', 'r', 'o', 'm'];
    assert(k@ =~= hdr_from());
    k
}

fn key_to() -> (k: Vec<char>)
    ensures
        k@ == hdr_to(),
{
    let k = vec!['T', 'o'];
    assert(k@ =~= hdr_to());
    k
}

fn key_references() -> (k: Vec<char>)
    ensures
        k@ == hdr_references(),
{
    let k = vec!['R', 'e', 'f', 'e', 'r', 'e', 'n', 'c', 'e', 's'];
    assert(k@ =~= hdr_references());
    k
}

/// The recipients listed in `To` header values: each value split at commas,
/// each piece with surrounding whitespace removed, in order.
pub open spec fn recipients(values: Seq<Seq<char>>) -> Seq<Seq<char>>
    decreases values.len(),
{
    if values.len() == 0 {
        Seq::<Seq<char>>::empty()
    } else {
        recipients(values.drop_last()) + split_on(values.last(), ',').map_values(
            |p: Seq<char>| trimmed(p),
        )
    }
}

/// The message identifiers listed in a `References` value.
pub open spec fn references_in(value: Option<Seq<char>>) -> Seq<Seq<char>> {
    match value {
        Some(v) => words(v),
        None => Seq::<Seq<char>>::empty(),
    }
}

/// The character-sequence views of a list of texts.
pub open spec fn string_views(v: Seq<String>) -> Seq<Seq<char>> {
    v.map_values(|s: String| s@)
}

fn strings_of(pieces: &Vec<Vec<char>>) -> (r: Vec<String>)
    ensures
        string_views(r@) == crate::text::views(pieces@),
{
    let mut r: Vec<String> = Vec::new();
    let mut i: usize = 0;
    while i < pieces.len()
        invariant
            i <= pieces@.len(),
            string_views(r@) == crate::text::views(pieces@.subrange(0, i as int)),
        decreases pieces@.len() - i,
    {
        let s = string_of(pieces[i].as_slice());
        r.push(s);
        assert(crate::text::views(pieces@.subrange(0, i + 1)) =~= crate::text::views(
            pieces@.subrange(0, i as int),
        ).push(pieces@[i as int]@));
        assert(string_views(r@) =~= string_views(r@.drop_last()).push(s@));
        i = i + 1;
    }
    assert(pieces@.subrange(0, pieces@.len() as int) =~= pieces@);
    r
}

/// Splits `To` header values into single recipients.
pub fn split_recipients(values: &Vec<String>) -> (r: Vec<String>)
    ensures
        string_views(r@) == recipients(string_views(values@)),
{
    let mut out: Vec<String> = Vec::new();
    let mut i: usize = 0;
    assert(string_views(values@.subrange(0, 0)) =~= Seq::<Seq<char>>::empty());
    while i < values.len()
        invariant
            i <= values@.len(),
            string_views(out@) == recipients(string_views(values@.subrange(0, i as int))),
        decreases values@.len() - i,
    {
        let ghost before = out@;
        assert(string_views(values@.subrange(0, i + 1)).drop_last() =~= string_views(
            values@.subrange(0, i as int),
        ));
        let v = chars_of(values[i].as_str());
        let pieces = split_chars(v.as_slice(), ',');
        let ghost target = split_on(v@, ',').map_values(|p: Seq<char>| trimmed(p));
        let mut j: usize = 0;
        while j < pieces.len()
            invariant
                j <= pieces@.len(),
                crate::text::views(pieces@) == split_on(v@, ','),
                target == split_on(v@, ',').map_values(|p: Seq<char>| trimmed(p)),
                string_views(out@) == string_views(before) + target.subrange(0, j as int),
            decreases pieces@.len() - j,
        {
            let t = trim_chars(pieces[j].as_slice());
            let s = string_of(t.as_slice());
            assert(crate::text::views(pieces@)[j as int] == pieces@[j as int]@);
            assert(target[j as int] == trimmed(pieces@[j as int]@));
            let ghost out_before = out@;
            out.push(s);
            assert(string_views(out@) =~= string_views(out_before).push(s@));
            assert(string_views(out@) =~= string_views(before) + target.subrange(0, j + 1));
            j = j + 1;
        }
        assert(target.subrange(0, pieces@.len() as int) =~= target);
        i = i + 1;
    }
    assert(values@.subrange(0, values@.len() as int) =~= values@);
    out
}

/// Splits a `References` value into message identifiers.
pub fn reference_list(value: &Option<String>) -> (r: Vec<String>)
    ensures
        string_views(r@) == references_in(opt_view(*value)),
{
    match value {
        Some(v) => {
            let c = chars_of(v.as_str());
            let ws = split_words(c.as_slice());
            strings_of(&ws)
        },
        None => {
            let r: Vec<String> = Vec::new();
            assert(string_views(r@) =~= Seq::<Seq<char>>::empty());
            r
        },
    }
}

/// The walk's starting point: nothing found yet.
pub open spec fn empty_extraction() -> Extraction {
    Extraction { text: None, html: None, attachments: Seq::<AttachmentView>::empty() }
}

/// The header-derived fields of `m` are those of the top part of `tree`.
pub open spec fn headers_match(m: ProcessedMessage, tree: MimePart) -> bool {
    let h = tree.headers@;
    &&& opt_view(m.message_id) == first_value(h, hdr_message_id())
    &&& opt_view(m.in_reply_to) == first_value(h, hdr_in_reply_to())
    &&& opt_view(m.subject) == first_value(h, hdr_subject())
    &&& opt_view(m.from) == first_value(h, hdr_from())
    &&& string_views(m.to@) == recipients(all_values(h, hdr_to()))
    &&& string_views(m.references@) == references_in(first_value(h, hdr_references()))
}

/// Collects the fields of the message whose parsed tree is `tree`, keeping the
/// HTML body as found.
pub fn collect_message(tree: &MimePart) -> (r: Result<ProcessedMessage, ProcessError>)
    ensures
        match extract_tree(*tree, empty_extraction()) {
            Some(st) => match r {
                Ok(m) => {
                    &&& headers_match(m, *tree)
                    &&& extraction_of(m.body_text, m.body_html, m.attachments@) == st
                },
                Err(_) => false,
            },
            None => r == Err::<ProcessedMessage, ProcessError>(ProcessError::Body),
        },
{
    let message_id = header_first_value(&tree.headers, key_message_id().as_slice());
    let in_reply_to = header_first_value(&tree.headers, key_in_reply_to().as_slice());
    let subject = header_first_value(&tree.headers, key_subject().as_slice());
    let from = header_first_value(&tree.headers, key_from().as_slice());
    let to_values = header_all_values(&tree.headers, key_to().as_slice());
    let to = split_recipients(&to_values);
    let refs_value = header_first_value(&tree.headers, key_references().as_slice());
    let references = reference_list(&refs_value);
    let mut body_text: Option<String> = None;
    let mut body_html: Option<String> = None;
    let mut attachments: Vec<ProcessedAttachment> = Vec::new();
    assert(attachments_view(attachments@) =~= Seq::<AttachmentView>::empty());
    assert(extraction_of(body_text, body_html, attachments@) == empty_extraction());
    let res = extract_parts(tree, &mut body_text, &mut body_html, &mut attachments);
    match res {
        Ok(()) => Ok(ProcessedMessage {
            message_id,
            in_reply_to,
            references,
            subject,
            from,
            to,
            body_text,
            body_html,
            attachments,
        }),
        Err(e) => Err(e),
    }
}


/// What `ammonia::clean` makes of an HTML text.
pub uninterp spec fn ammonia_clean(html: Seq<char>) -> Seq<char>;

/// `ammonia::clean`: removes from `html` whatever the default ammonia policy
/// does not allow. The contract says only that the result is a function of
/// the input text; what that function keeps is ammonia's policy.
#[verifier::external_body]
fn sanitize_html(html: &str) -> (r: String)
    ensures
        r@ == ammonia_clean(html@),
{
    ammonia::clean(html)
}

/// A parsed message tree, as mailparse reads it.
#[verifier::external_type_specification]
#[verifier::external_body]
pub struct ExParsedMail<'a>(mailparse::ParsedMail<'a>);

/// Copies one node of a mailparse tree, and the nodes below it, into the
/// library's part type: header names and decoded values (`get_key`,
/// `get_value`), the decoded bodies (`get_body`, `get_body_raw`, with a
/// failure kept as `None`), the disposition type and the value of the
/// disposition parameter named `param` (`get_content_disposition`). Nothing
/// is stated of the copy.
#[verifier::external_body]
fn part_from_parsed(p: &mailparse::ParsedMail, param: &str) -> MimePart {
    let d = p.get_content_disposition();
    let mut headers = Vec::new();
    for h in p.headers.iter() { headers.push(MimeHeader { key: h.get_key(), value: h.get_value() }); }
    let mut subparts = Vec::new();
    for sp in p.subparts.iter() { subparts.push(part_from_parsed(sp, param)); }
    let disposition = match d.disposition {
        mailparse::DispositionType::Inline => Disposition::Inline,
        mailparse::DispositionType::Attachment => Disposition::Attachment,
        mailparse::DispositionType::FormData => Disposition::FormData,
        mailparse::DispositionType::Extension(e) => Disposition::Extension(e),
    };
    let disposition_param = d.params.get(param).cloned();
    MimePart { headers, body: p.get_body().ok(), body_raw: p.get_body_raw().ok(), disposition, disposition_param, subparts }
}

/// The part tree that mailparse reads from a raw message, if it parses, with
/// the disposition parameter named `param` taken from each part.
pub uninterp spec fn mime_tree(raw: Seq<u8>, param: Seq<char>) -> Option<MimePart>;

/// `mailparse::parse_mail`: the tree of the message in `raw`, or `None` when
/// mailparse rejects it. Stated: the outcome is a function of the bytes and
/// of the parameter name asked for.
#[verifier::external_body]
fn parse_mime(raw: &[u8], param: &str) -> (r: Option<MimePart>)
    ensures
        r == mime_tree(raw@, param@),
{
    match mailparse::parse_mail(raw) {
        Ok(p) => Some(part_from_parsed(&p, param)),
        Err(_) => None,
    }
}

/// An optional HTML body after sanitising.
pub open spec fn sanitized(html: Option<Seq<char>>) -> Option<Seq<char>> {
    match html {
        Some(h) => Some(ammonia_clean(h)),
        None => None,
    }
}

/// `r` is what processing the message tree `tree` yields: the header fields,
/// the bodies and attachments of the pre-order walk with the HTML body
/// sanitised, or the body error when the walk needs a body it cannot decode.
pub open spec fn processed_from(tree: MimePart, r: Result<ProcessedMessage, ProcessError>) -> bool {
    match extract_tree(tree, empty_extraction()) {
        Some(st) => match r {
            Ok(m) => {
                &&& headers_match(m, tree)
                &&& opt_view(m.body_text) == st.text
                &&& opt_view(m.body_html) == sanitized(st.html)
                &&& attachments_view(m.attachments@) == st.attachments
            },
            Err(_) => false,
        },
        None => r == Err::<ProcessedMessage, ProcessError>(ProcessError::Body),
    }
}

/// Processes a parsed message tree, sanitising its HTML body.
pub fn process_parsed(tree: &MimePart) -> (r: Result<ProcessedMessage, ProcessError>)
    ensures
        processed_from(*tree, r),
{
    match collect_message(tree) {
        Ok(m) => {
            let body_html = match &m.body_html {
                Some(h) => Some(sanitize_html(h.as_str())),
                None => None,
            };
            Ok(ProcessedMessage { body_html, ..m })
        },
        Err(e) => Err(e),
    }
}

/// Parses and processes a raw message.
pub fn process_raw_message(raw_mime: &[u8]) -> (r: Result<ProcessedMessage, ProcessError>)
    ensures
        match mime_tree(raw_mime@, lit_filename()) {
            Some(tree) => processed_from(tree, r),
            None => r == Err::<ProcessedMessage, ProcessError>(ProcessError::Parse),
        },
{
    let param = filename_param();
    match parse_mime(raw_mime, param.as_str()) {
        Some(tree) => process_parsed(&tree),
        None => Err(ProcessError::Parse),
    }
}

} // verus!
