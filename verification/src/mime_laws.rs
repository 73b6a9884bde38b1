//! Properties of message processing as a whole: the parts of a message are
//! visited in depth-first pre-order, and the plain-text body kept is that of
//! the first plain-text part met on that walk.

use vstd::prelude::*;
use crate::mime::{
    AttachmentView, content_type_of, empty_extraction, extract_forest, extract_tree, lit_text_plain, lit_unnamed,
    node_step, opt_view, processed_from, Extraction, MimePart, ProcessedMessage, ProcessError,
};
use crate::text::contains_seq;

verus! {

/// The parts of the tree below and including `p`, in depth-first pre-order.
pub open spec fn preorder(p: MimePart) -> Seq<MimePart>
    decreases p, 0nat,
{
    seq![p] + preorder_forest(p.subparts@)
}

/// The parts of a sequence of sibling trees, tree after tree, each in
/// depth-first pre-order.
pub open spec fn preorder_forest(ps: Seq<MimePart>) -> Seq<MimePart>
    decreases ps, 1nat,
{
    if ps.len() == 0 {
        Seq::<MimePart>::empty()
    } else {
        preorder(ps[0]) + preorder_forest(ps.subrange(1, ps.len() as int))
    }
}

/// One part after the other, each contributing what `node_step` takes from it.
pub open spec fn walk(parts: Seq<MimePart>, st: Extraction) -> Option<Extraction>
    decreases parts.len(),
{
    if parts.len() == 0 {
        Some(st)
    } else {
        match node_step(parts[0], st) {
            Some(s) => walk(parts.drop_first(), s),
            None => None,
        }
    }
}

/// Walking two runs of parts one after the other is walking their
/// concatenation; a failure in the first run ends the walk.
pub proof fn lemma_walk_append(a: Seq<MimePart>, b: Seq<MimePart>, st: Extraction)
    ensures
        walk(a + b, st) == match walk(a, st) {
            Some(s) => walk(b, s),
            None => None,
        },
    decreases a.len(),
{
    if a.len() == 0 {
        assert(a + b =~= b);
    } else {
        assert((a + b)[0] == a[0]);
        assert((a + b).drop_first() =~= a.drop_first() + b);
        match node_step(a[0], st) {
            Some(s) => {
                lemma_walk_append(a.drop_first(), b, s);
            },
            None => {},
        }
    }
}

/// The recursive walk over a tree is the walk over its parts in depth-first
/// pre-order.
pub proof fn lemma_extract_is_preorder_walk(p: MimePart, st: Extraction)
    ensures
        extract_tree(p, st) == walk(preorder(p), st),
    decreases p, 0nat,
{
    let rest = preorder_forest(p.subparts@);
    assert((seq![p] + rest)[0] == p);
    assert((seq![p] + rest).drop_first() =~= rest);
    match node_step(p, st) {
        Some(s) => {
            lemma_extract_forest_is_walk(p.subparts@, s);
        },
        None => {},
    }
}

/// The recursive walk over sibling trees is the walk over their parts, tree
/// after tree, each in depth-first pre-order.
pub proof fn lemma_extract_forest_is_walk(ps: Seq<MimePart>, st: Extraction)
    ensures
        extract_forest(ps, st) == walk(preorder_forest(ps), st),
    decreases ps, 1nat,
{
    if ps.len() > 0 {
        let tail = ps.subrange(1, ps.len() as int);
        lemma_extract_is_preorder_walk(ps[0], st);
        lemma_walk_append(preorder(ps[0]), preorder_forest(tail), st);
        match extract_tree(ps[0], st) {
            Some(s) => {
                lemma_extract_forest_is_walk(tail, s);
            },
            None => {},
        }
    }
}

/// The part is plain text by its `Content-Type`.
pub open spec fn is_plain(p: MimePart) -> bool {
    contains_seq(content_type_of(p), lit_text_plain())
}

/// The index of the first plain-text part, if any.
pub open spec fn first_plain(parts: Seq<MimePart>) -> Option<int>
    decreases parts.len(),
{
    if parts.len() == 0 {
        None
    } else if is_plain(parts[0]) {
        Some(0)
    } else {
        match first_plain(parts.drop_first()) {
            Some(i) => Some(i + 1),
            None => None,
        }
    }
}

proof fn lemma_first_plain_in_range(parts: Seq<MimePart>)
    ensures
        first_plain(parts) matches Some(i) ==> 0 <= i < parts.len() && is_plain(parts[i]),
    decreases parts.len(),
{
    if parts.len() > 0 && !is_plain(parts[0]) {
        lemma_first_plain_in_range(parts.drop_first());
    }
}

/// The decoded text body of a part, as a character sequence.
pub open spec fn body_view(p: MimePart) -> Option<Seq<char>> {
    match p.body {
        Some(b) => Some(b@),
        None => None,
    }
}

proof fn lemma_walk_keeps_text(parts: Seq<MimePart>, st: Extraction)
    requires
        st.text is Some,
        walk(parts, st) is Some,
    ensures
        walk(parts, st)->0.text == st.text,
    decreases parts.len(),
{
    if parts.len() > 0 {
        let s = node_step(parts[0], st)->0;
        assert(s.text == st.text);
        lemma_walk_keeps_text(parts.drop_first(), s);
    }
}

/// Walking parts from a state with no plain-text body yet, a successful walk
/// keeps the body of the first plain-text part, or none when there is no such
/// part.
pub proof fn lemma_walk_keeps_first_plain_body(parts: Seq<MimePart>, st: Extraction)
    requires
        st.text is None,
        walk(parts, st) is Some,
    ensures
        walk(parts, st)->0.text == match first_plain(parts) {
            Some(i) => body_view(parts[i]),
            None => None,
        },
    decreases parts.len(),
{
    if parts.len() > 0 {
        let s = node_step(parts[0], st)->0;
        if is_plain(parts[0]) {
            assert(s.text == body_view(parts[0]));
            lemma_walk_keeps_text(parts.drop_first(), s);
        } else {
            assert(s.text is None);
            lemma_walk_keeps_first_plain_body(parts.drop_first(), s);
            lemma_first_plain_in_range(parts.drop_first());
            match first_plain(parts.drop_first()) {
                Some(i) => {
                    assert(parts.drop_first()[i] == parts[i + 1]);
                },
                None => {},
            }
        }
    }
}

/// The plain-text body found in a message tree is the body of its first
/// plain-text part in depth-first pre-order (none when it has no such part).
pub proof fn lemma_plain_body_is_first_in_preorder(tree: MimePart, st: Extraction)
    requires
        st.text is None,
        extract_tree(tree, st) is Some,
    ensures
        extract_tree(tree, st)->0.text == match first_plain(preorder(tree)) {
            Some(i) => body_view(preorder(tree)[i]),
            None => None,
        },
{
    lemma_extract_is_preorder_walk(tree, st);
    lemma_walk_keeps_first_plain_body(preorder(tree), st);
}


/// `a` is what an attachment part `p` yields: its decoded content and size,
/// its `Content-Type`, and its file name (`unnamed` when it gives none).
pub open spec fn attachment_from(a: AttachmentView, p: MimePart) -> bool {
    &&& p.disposition is Attachment
    &&& p.body_raw matches Some(raw) && a.content == raw@ && a.size == raw@.len()
    &&& a.content_type == content_type_of(p)
    &&& a.filename == match p.disposition_param {
        Some(f) => f@,
        None => lit_unnamed(),
    }
}

/// A walk keeps the attachments found before it and adds only attachments
/// that come from attachment parts it visits.
pub proof fn lemma_walk_attachments_come_from_parts(parts: Seq<MimePart>, st: Extraction)
    requires
        walk(parts, st) is Some,
    ensures
        ({
            let s = walk(parts, st)->0;
            &&& s.attachments.len() >= st.attachments.len()
            &&& s.attachments.subrange(0, st.attachments.len() as int) == st.attachments
            &&& forall|k: int| st.attachments.len() <= k < s.attachments.len() ==>
                exists|i: int| 0 <= i < parts.len() && attachment_from(#[trigger] s.attachments[k], parts[i])
        }),
    decreases parts.len(),
{
    if parts.len() == 0 {
        assert(st.attachments.subrange(0, st.attachments.len() as int) =~= st.attachments);
    } else {
        let s1 = node_step(parts[0], st)->0;
        let rest = parts.drop_first();
        lemma_walk_attachments_come_from_parts(rest, s1);
        let s = walk(parts, st)->0;
        assert(s == walk(rest, s1)->0);
        assert(s1.attachments.len() == st.attachments.len() || s1.attachments.len() == st.attachments.len() + 1);
        assert(s1.attachments.subrange(0, st.attachments.len() as int) =~= st.attachments);
        assert(s.attachments.subrange(0, st.attachments.len() as int) =~= st.attachments) by {
            assert(s.attachments.subrange(0, s1.attachments.len() as int) == s1.attachments);
            assert forall|k: int| 0 <= k < st.attachments.len() implies s.attachments[k] == st.attachments[k] by {
                assert(s.attachments.subrange(0, s1.attachments.len() as int)[k] == s1.attachments[k]);
                assert(s1.attachments.subrange(0, st.attachments.len() as int)[k] == st.attachments[k]);
            }
        }
        assert forall|k: int| st.attachments.len() <= k < s.attachments.len() implies
            exists|i: int| 0 <= i < parts.len() && attachment_from(#[trigger] s.attachments[k], parts[i]) by {
            if k < s1.attachments.len() {
                assert(s.attachments.subrange(0, s1.attachments.len() as int)[k] == s1.attachments[k]);
                assert(attachment_from(s.attachments[k], parts[0]));
            } else {
                let i = choose|i: int| 0 <= i < rest.len() && attachment_from(#[trigger] s.attachments[k], rest[i]);
                assert(rest[i] == parts[i + 1]);
                assert(attachment_from(s.attachments[k], parts[i + 1]));
            }
        }
    }
}

/// Every attachment found in a message tree comes from a part of the tree
/// whose disposition is `attachment`, with that part's decoded content and
/// `Content-Type`.
pub proof fn lemma_attachments_come_from_attachment_parts(tree: MimePart, st: Extraction)
    requires
        st.attachments.len() == 0,
        extract_tree(tree, st) is Some,
    ensures
        forall|k: int| 0 <= k < extract_tree(tree, st)->0.attachments.len() ==>
            exists|i: int| 0 <= i < preorder(tree).len()
                && attachment_from(#[trigger] extract_tree(tree, st)->0.attachments[k], preorder(tree)[i]),
{
    lemma_extract_is_preorder_walk(tree, st);
    lemma_walk_attachments_come_from_parts(preorder(tree), st);
}

/// The parts of consecutive runs of sibling trees are the parts of the first
/// run followed by those of the second.
pub proof fn lemma_preorder_forest_append(a: Seq<MimePart>, b: Seq<MimePart>)
    ensures
        preorder_forest(a + b) == preorder_forest(a) + preorder_forest(b),
    decreases a.len(),
{
    if a.len() == 0 {
        assert(a + b =~= b);
        assert(preorder_forest(a) + preorder_forest(b) =~= preorder_forest(b));
    } else {
        assert((a + b)[0] == a[0]);
        assert((a + b).subrange(1, (a + b).len() as int) =~= a.subrange(1, a.len() as int) + b);
        lemma_preorder_forest_append(a.subrange(1, a.len() as int), b);
        assert(preorder_forest(a + b) =~= preorder_forest(a) + preorder_forest(b));
    }
}

/// The parts of a single tree, as a run of one sibling.
pub proof fn lemma_preorder_forest_single(p: MimePart)
    ensures
        preorder_forest(seq![p]) == preorder(p),
{
    let one = seq![p];
    assert(one[0] == p);
    assert(one.subrange(1, one.len() as int) =~= Seq::<MimePart>::empty());
    assert(preorder_forest(one.subrange(1, one.len() as int)) == Seq::<MimePart>::empty());
    assert(preorder(p) + Seq::<MimePart>::empty() =~= preorder(p));
    assert(preorder_forest(one) == preorder(one[0]) + preorder_forest(one.subrange(1, one.len() as int)));
}

/// A walk over `parts` from `st` that stopped with `fin`: it went through a
/// first stretch of the parts, reaching `fin`, and the next part needs a body
/// that cannot be decoded.
pub open spec fn stopped_at(parts: Seq<MimePart>, st: Extraction, fin: Extraction) -> bool {
    exists|k: int| 0 <= k < parts.len() && walk(parts.take(k), st) == Some(fin) && #[trigger] node_step(parts[k], fin) is None
}

/// A walk that stops inside `parts` stops at the same point when other parts
/// are walked before (reaching where `parts` starts from) and after it.
pub proof fn lemma_stopped_extend(
    pre: Seq<MimePart>,
    parts: Seq<MimePart>,
    post: Seq<MimePart>,
    st: Extraction,
    mid: Extraction,
    fin: Extraction,
)
    requires
        walk(pre, st) == Some(mid),
        stopped_at(parts, mid, fin),
    ensures
        stopped_at(pre + parts + post, st, fin),
{
    let k = choose|k: int| 0 <= k < parts.len() && walk(parts.take(k), mid) == Some(fin) && #[trigger] node_step(parts[k], fin) is None;
    let all = pre + parts + post;
    let j = pre.len() + k;
    assert(all.take(j) =~= pre + parts.take(k));
    lemma_walk_append(pre, parts.take(k), st);
    assert(all[j] == parts[k]);
    assert(walk(all.take(j), st) == Some(fin) && node_step(all[j], fin) is None);
}

/// A walk that stops fails.
pub proof fn lemma_stopped_fails(parts: Seq<MimePart>, st: Extraction, fin: Extraction)
    requires
        stopped_at(parts, st, fin),
    ensures
        walk(parts, st) is None,
{
    let k = choose|k: int| 0 <= k < parts.len() && walk(parts.take(k), st) == Some(fin) && #[trigger] node_step(parts[k], fin) is None;
    assert(parts =~= parts.take(k) + parts.skip(k));
    lemma_walk_append(parts.take(k), parts.skip(k), st);
    assert(parts.skip(k)[0] == parts[k]);
}

/// What a walk has found stays found: a plain-text or HTML body already
/// chosen is kept, and the attachments already collected stay, in order, at
/// the front of the list.
pub open spec fn keeps_found(st: Extraction, fin: Extraction) -> bool {
    &&& st.text is Some ==> fin.text == st.text
    &&& st.html is Some ==> fin.html == st.html
    &&& fin.attachments.len() >= st.attachments.len()
    &&& fin.attachments.subrange(0, st.attachments.len() as int) == st.attachments
}

/// A walk, whether it goes to the end or stops, keeps what was found before it.
pub proof fn lemma_walk_keeps_found(parts: Seq<MimePart>, st: Extraction)
    requires
        walk(parts, st) is Some,
    ensures
        keeps_found(st, walk(parts, st)->0),
    decreases parts.len(),
{
    if parts.len() == 0 {
        assert(st.attachments.subrange(0, st.attachments.len() as int) =~= st.attachments);
    } else {
        let s1 = node_step(parts[0], st)->0;
        lemma_walk_keeps_found(parts.drop_first(), s1);
        let fin = walk(parts, st)->0;
        assert(s1.attachments.subrange(0, st.attachments.len() as int) =~= st.attachments);
        assert forall|k: int| 0 <= k < st.attachments.len() implies fin.attachments[k] == st.attachments[k] by {
            assert(fin.attachments.subrange(0, s1.attachments.len() as int)[k] == s1.attachments[k]);
            assert(s1.attachments.subrange(0, st.attachments.len() as int)[k] == st.attachments[k]);
        }
        assert(fin.attachments.subrange(0, st.attachments.len() as int) =~= st.attachments);
    }
}

/// The same holds of a walk that stops: what it had found when it stopped
/// includes what was found before it.
pub proof fn lemma_stopped_keeps_found(parts: Seq<MimePart>, st: Extraction, fin: Extraction)
    requires
        stopped_at(parts, st, fin),
    ensures
        keeps_found(st, fin),
{
    let k = choose|k: int| 0 <= k < parts.len() && walk(parts.take(k), st) == Some(fin) && #[trigger] node_step(parts[k], fin) is None;
    lemma_walk_keeps_found(parts.take(k), st);
}

/// A walk from a state that already has a plain-text body keeps that body
/// over a whole message tree.
pub proof fn lemma_extract_keeps_found(tree: MimePart, st: Extraction)
    requires
        extract_tree(tree, st) is Some,
    ensures
        keeps_found(st, extract_tree(tree, st)->0),
{
    lemma_extract_is_preorder_walk(tree, st);
    lemma_walk_keeps_found(preorder(tree), st);
}

/// The attachments `after` holds beyond the `before` ones come, in order,
/// from the parts at the increasing positions `idx` of `parts`: the `j`-th
/// new attachment is what the attachment part `parts[idx[j]]` yields.
pub open spec fn sourced_in_order(
    idx: Seq<int>,
    parts: Seq<MimePart>,
    before: Seq<AttachmentView>,
    after: Seq<AttachmentView>,
) -> bool {
    &&& idx.len() + before.len() == after.len()
    &&& forall|a: int, b: int| 0 <= a < b < idx.len() ==> idx[a] < idx[b]
    &&& forall|j: int| 0 <= j < idx.len() ==> 0 <= #[trigger] idx[j] < parts.len()
        && attachment_from(after[before.len() + j], parts[idx[j]])
}

proof fn walk_attachment_sources(parts: Seq<MimePart>, st: Extraction) -> (idx: Seq<int>)
    requires
        walk(parts, st) is Some,
    ensures
        sourced_in_order(idx, parts, st.attachments, walk(parts, st)->0.attachments),
    decreases parts.len(),
{
    if parts.len() == 0 {
        Seq::<int>::empty()
    } else {
        let s1 = node_step(parts[0], st)->0;
        let rest = parts.drop_first();
        let tail = walk_attachment_sources(rest, s1);
        lemma_walk_keeps_found(rest, s1);
        let fin = walk(parts, st)->0;
        assert(fin == walk(rest, s1)->0);
        let shifted = tail.map_values(|i: int| i + 1);
        if s1.attachments.len() == st.attachments.len() + 1 {
            let idx = seq![0int] + shifted;
            assert forall|j: int| 0 <= j < idx.len() implies 0 <= #[trigger] idx[j] < parts.len()
                && attachment_from(fin.attachments[st.attachments.len() + j], parts[idx[j]]) by {
                if j == 0 {
                    assert(fin.attachments.subrange(0, s1.attachments.len() as int)[st.attachments.len() as int]
                        == s1.attachments[st.attachments.len() as int]);
                } else {
                    assert(idx[j] == tail[j - 1] + 1);
                    assert(rest[tail[j - 1]] == parts[tail[j - 1] + 1]);
                }
            }
            assert forall|a: int, b: int| 0 <= a < b < idx.len() implies idx[a] < idx[b] by {
                if a > 0 {
                    assert(idx[a] == tail[a - 1] + 1 && idx[b] == tail[b - 1] + 1);
                } else {
                    assert(idx[b] == tail[b - 1] + 1);
                }
            }
            idx
        } else {
            assert(s1.attachments.len() == st.attachments.len());
            assert forall|j: int| 0 <= j < shifted.len() implies 0 <= #[trigger] shifted[j] < parts.len()
                && attachment_from(fin.attachments[st.attachments.len() + j], parts[shifted[j]]) by {
                assert(rest[tail[j]] == parts[tail[j] + 1]);
            }
            shifted
        }
    }
}

/// The attachments a walk adds come in the order of the parts they come
/// from, each being what its attachment part yields.
pub proof fn lemma_walk_attachments_in_order(parts: Seq<MimePart>, st: Extraction)
    requires
        walk(parts, st) is Some,
    ensures
        exists|idx: Seq<int>| #[trigger] sourced_in_order(idx, parts, st.attachments, walk(parts, st)->0.attachments),
{
    let idx = walk_attachment_sources(parts, st);
}

/// The attachments found in a message tree, after those found before, come
/// from its attachment parts in depth-first pre-order.
pub proof fn lemma_attachments_in_preorder(tree: MimePart, st: Extraction)
    requires
        extract_tree(tree, st) is Some,
    ensures
        exists|idx: Seq<int>| #[trigger] sourced_in_order(idx, preorder(tree), st.attachments, extract_tree(tree, st)->0.attachments),
{
    lemma_extract_is_preorder_walk(tree, st);
    lemma_walk_attachments_in_order(preorder(tree), st);
}

/// The plain-text body of a processed message is the decoded body of the
/// first `text/plain` part in depth-first pre-order, exactly as decoded (no
/// sanitising), or none when the message has no such part.
pub proof fn lemma_processed_text_body_is_first_plain_part(tree: MimePart, r: Result<ProcessedMessage, ProcessError>)
    requires
        processed_from(tree, r),
        r is Ok,
    ensures
        opt_view(r->Ok_0.body_text) == match first_plain(preorder(tree)) {
            Some(i) => body_view(preorder(tree)[i]),
            None => None,
        },
{
    assert(extract_tree(tree, empty_extraction()) is Some);
    lemma_plain_body_is_first_in_preorder(tree, empty_extraction());
}

} // verus!
