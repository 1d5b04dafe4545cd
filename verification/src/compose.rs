//! The inline segment composer: walks a flat sequence of inline segments and
//! appends their rendered text to a buffer.
//!
//! Plain text is appended verbatim — no escaping happens at this layer.  A
//! link becomes an anchor element whose href comes from the link resolver and
//! whose text is the label, composed recursively by these same rules (an
//! empty label falls back to the raw target).  A segment of an unsupported
//! kind fails the whole composition; the failure propagates immediately and
//! the buffer is not rolled back — the caller discards it.

use vstd::prelude::*;
use crate::ast::{InlineSegment, RenderError};
use crate::link::{
    ends_with_ext,
    ext_chars,
    is_frag_char,
    lemma_resolve_external,
    lemma_resolve_internal,
    resolve_link,
    resolved_href,
    scheme_prefixed,
};

verus! {

/// The anchor element for a resolved href and a composed link text.
pub open spec fn anchor_of(href: Seq<char>, text: Seq<char>) -> Seq<char> {
    "<a href=\""@ + href + "\">"@ + text + "</a>"@
}

/// Can this segment be composed?  Text always, a link whenever its whole
/// label can, an unsupported segment never.
pub open spec fn seg_ok(seg: InlineSegment) -> bool
    decreases seg,
{
    match seg {
        InlineSegment::Text(_) => true,
        InlineSegment::Link { target: _, label } => inline_ok(label@),
        InlineSegment::Unsupported(_) => false,
    }
}

/// Can every segment of this sequence be composed?
pub open spec fn inline_ok(segs: Seq<InlineSegment>) -> bool
    decreases segs,
{
    if segs.len() == 0 {
        true
    } else {
        seg_ok(segs[0]) && inline_ok(segs.drop_first())
    }
}

/// The text one segment composes to (meaningful only when `seg_ok` holds).
pub open spec fn composed_seg(seg: InlineSegment) -> Seq<char>
    decreases seg,
{
    match seg {
        InlineSegment::Text(t) => t@,
        InlineSegment::Link { target, label } => anchor_of(
            resolved_href(target@),
            if label@.len() == 0 {
                target@
            } else {
                composed_inline(label@)
            },
        ),
        InlineSegment::Unsupported(_) => Seq::empty(),
    }
}

/// The text a sequence of segments composes to, in input order.
pub open spec fn composed_inline(segs: Seq<InlineSegment>) -> Seq<char>
    decreases segs,
{
    if segs.len() == 0 {
        Seq::empty()
    } else {
        composed_seg(segs[0]) + composed_inline(segs.drop_first())
    }
}

/// Appending one segment extends the composition at the end, in order.
pub proof fn lemma_inline_push(segs: Seq<InlineSegment>, seg: InlineSegment)
    ensures
        inline_ok(segs.push(seg)) == (inline_ok(segs) && seg_ok(seg)),
        composed_inline(segs.push(seg)) == composed_inline(segs) + composed_seg(seg),
    decreases segs.len(),
{
    if segs.len() == 0 {
        assert(segs.push(seg).drop_first() =~= Seq::<InlineSegment>::empty());
        assert(inline_ok(Seq::<InlineSegment>::empty()));
        assert(composed_inline(Seq::<InlineSegment>::empty()) == Seq::<char>::empty());
        assert(segs.push(seg)[0] == seg);
        assert(composed_seg(seg) + Seq::<char>::empty() =~= composed_seg(seg));
        assert(Seq::<char>::empty() + composed_seg(seg) =~= composed_seg(seg));
    } else {
        assert(segs.push(seg).drop_first() =~= segs.drop_first().push(seg));
        assert(segs.push(seg)[0] == segs[0]);
        lemma_inline_push(segs.drop_first(), seg);
        assert(composed_seg(segs[0]) + (composed_inline(segs.drop_first()) + composed_seg(seg))
            =~= (composed_seg(segs[0]) + composed_inline(segs.drop_first())) + composed_seg(seg));
    }
}

/// A sequence is a prefix of itself extended by anything.
pub proof fn lemma_prefix_concat(a: Seq<char>, b: Seq<char>)
    ensures
        a.is_prefix_of(a + b),
{
    assert(a =~= (a + b).subrange(0, a.len() as int));
}

/// Being a prefix is transitive.
pub proof fn lemma_prefix_trans(a: Seq<char>, b: Seq<char>, c: Seq<char>)
    requires
        a.is_prefix_of(b),
        b.is_prefix_of(c),
    ensures
        a.is_prefix_of(c),
{
    assert forall|i: int| 0 <= i < a.len() implies a[i] == c[i] by {
        assert(a[i] == b.subrange(0, a.len() as int)[i]);
        assert(b[i] == c.subrange(0, b.len() as int)[i]);
    }
    assert(a =~= c.subrange(0, a.len() as int));
}

/// Compose one segment, appending its text to `out`.
fn compose_one(seg: &InlineSegment, out: &mut String) -> (r: Result<(), RenderError>)
    ensures
        (match r {
            Ok(_) => seg_ok(*seg) && final(out)@ == old(out)@ + composed_seg(*seg),
            Err(e) => !seg_ok(*seg) && old(out)@.is_prefix_of(final(out)@) && e
                is Composition,
        }),
    decreases *seg, 0nat,
{
    match seg {
        InlineSegment::Text(t) => {
            out.append(t.as_str());
            Ok(())
        },
        InlineSegment::Link { target, label } => {
            let ghost orig = out@;
            let href = resolve_link(target.as_str());
            out.append("<a href=\"");
            out.append(href.as_str());
            out.append("\">");
            let ghost open = out@;
            if label.len() == 0 {
                out.append(target.as_str());
            } else {
                match compose_segments(label, out) {
                    Ok(_) => {},
                    Err(e) => {
                        proof {
                            assert(open =~= orig + ("<a href=\""@ + href@ + "\">"@));
                            lemma_prefix_concat(orig, "<a href=\""@ + href@ + "\">"@);
                            lemma_prefix_trans(orig, open, out@);
                        }
                        return Err(e);
                    },
                }
            }
            out.append("</a>");
            proof {
                let text = if label@.len() == 0 {
                    target@
                } else {
                    composed_inline(label@)
                };
                assert(out@ =~= orig + anchor_of(resolved_href(target@), text));
            }
            Ok(())
        },
        InlineSegment::Unsupported(kind) => {
            proof {
                assert(out@ =~= out@.subrange(0, out@.len() as int));
            }
            Err(RenderError::Composition(kind.clone()))
        },
    }
}

/// Compose a sequence of inline segments, appending their text to `out` in
/// input order.  The first unsupported segment aborts the composition; `out`
/// then keeps what was already appended and the caller discards it.
pub fn compose_segments(segments: &Vec<InlineSegment>, out: &mut String) -> (r: Result<
    (),
    RenderError,
>)
    ensures
        (match r {
            Ok(_) => inline_ok(segments@) && final(out)@ == old(out)@ + composed_inline(
                segments@,
            ),
            Err(e) => !inline_ok(segments@) && old(out)@.is_prefix_of(final(out)@) && e
                is Composition,
        }),
    decreases segments@, 1nat,
{
    let ghost orig = out@;
    let mut i: usize = 0;
    while i < segments.len()
        invariant
            i <= segments@.len(),
            orig == old(out)@,
            inline_ok(segments@.take(i as int)),
            out@ == orig + composed_inline(segments@.take(i as int)),
        decreases segments@.len() - i,
    {
        let ghost pre = segments@.take(i as int);
        match compose_one(&segments[i], out) {
            Ok(_) => {},
            Err(e) => {
                proof {
                    lemma_inline_not_ok(segments@, i as int);
                    lemma_prefix_concat(orig, composed_inline(pre));
                    lemma_prefix_trans(orig, orig + composed_inline(pre), out@);
                }
                return Err(e);
            },
        }
        proof {
            lemma_inline_push(pre, segments@[i as int]);
            assert(segments@.take(i as int + 1) =~= pre.push(segments@[i as int]));
            assert(orig + (composed_inline(pre) + composed_seg(segments@[i as int])) =~= (orig
                + composed_inline(pre)) + composed_seg(segments@[i as int]));
        }
        i += 1;
    }
    proof {
        assert(segments@.take(segments@.len() as int) =~= segments@);
    }
    Ok(())
}

/// A sequence with one segment that cannot be composed cannot be composed.
proof fn lemma_inline_not_ok(segs: Seq<InlineSegment>, i: int)
    requires
        0 <= i < segs.len(),
        !seg_ok(segs[i]),
    ensures
        !inline_ok(segs),
    decreases i,
{
    if i > 0 {
        assert(segs.drop_first()[i - 1] == segs[i]);
        lemma_inline_not_ok(segs.drop_first(), i - 1);
    }
}

/// Law: the anchor composed for an internal-reference link — its target
/// carrying no external scheme, no fragment or query part, and not already
/// ending in the document extension — has as its href exactly the target with
/// the document extension appended, and as its text the label's own
/// composition (or the raw target, for an empty label).
pub proof fn lemma_link_anchor_internal(target: String, label: Vec<InlineSegment>)
    requires
        !scheme_prefixed(target@),
        forall|k: int| 0 <= k < target@.len() ==> !is_frag_char(target@[k]),
        !ends_with_ext(target@),
    ensures
        composed_seg(InlineSegment::Link { target, label }) == anchor_of(
            target@ + ext_chars(),
            if label@.len() == 0 {
                target@
            } else {
                composed_inline(label@)
            },
        ),
{
    lemma_resolve_internal(target@);
}

/// Law: the anchor composed for a link whose target carries an external
/// scheme has the target itself as its href — no extension is appended and
/// nothing is rewritten.
pub proof fn lemma_link_anchor_external(target: String, label: Vec<InlineSegment>)
    requires
        scheme_prefixed(target@),
    ensures
        composed_seg(InlineSegment::Link { target, label }) == anchor_of(
            target@,
            if label@.len() == 0 {
                target@
            } else {
                composed_inline(label@)
            },
        ),
{
    lemma_resolve_external(target@);
}

/// Is every segment plain text?
pub open spec fn all_text(segs: Seq<InlineSegment>) -> bool {
    forall|i: int| 0 <= i < segs.len() ==> segs[i] is Text
}

/// The raw characters of a sequence of plain-text segments, concatenated.
pub open spec fn texts_concat(segs: Seq<InlineSegment>) -> Seq<char>
    decreases segs,
{
    if segs.len() == 0 {
        Seq::empty()
    } else {
        (match segs[0] {
            InlineSegment::Text(t) => t@,
            _ => Seq::empty(),
        }) + texts_concat(segs.drop_first())
    }
}

/// Law: a sequence of plain-text segments always composes, and composes to
/// exactly its own characters in order — no transformation is applied to the
/// text itself.
pub proof fn lemma_plain_text_composes_verbatim(segs: Seq<InlineSegment>)
    requires
        all_text(segs),
    ensures
        inline_ok(segs),
        composed_inline(segs) == texts_concat(segs),
    decreases segs.len(),
{
    if segs.len() > 0 {
        assert(segs[0] is Text);
        assert(seg_ok(segs[0]));
        assert(composed_seg(segs[0]) == (match segs[0] {
            InlineSegment::Text(t) => t@,
            _ => Seq::<char>::empty(),
        }));
        assert forall|i: int| 0 <= i < segs.drop_first().len() implies segs.drop_first()[i]
            is Text by {
            assert(segs.drop_first()[i] == segs[i + 1]);
        }
        lemma_plain_text_composes_verbatim(segs.drop_first());
    }
}

/// The fragments of a sequence, concatenated in order.
pub open spec fn concat_frags(frags: Seq<Seq<char>>) -> Seq<char>
    decreases frags.len(),
{
    if frags.len() == 0 {
        Seq::empty()
    } else {
        frags[0] + concat_frags(frags.drop_first())
    }
}

/// The character sequences of a sequence of strings.
pub open spec fn strs_view(ss: Seq<String>) -> Seq<Seq<char>> {
    ss.map_values(|s: String| s@)
}

/// The characters of a sequence of strings, concatenated in order.
pub open spec fn concat_strs(ss: Seq<String>) -> Seq<char> {
    concat_frags(strs_view(ss))
}

/// Appending one fragment extends the concatenation at the end, in order.
pub proof fn lemma_concat_frags_push(frags: Seq<Seq<char>>, f: Seq<char>)
    ensures
        concat_frags(frags.push(f)) == concat_frags(frags) + f,
    decreases frags.len(),
{
    if frags.len() == 0 {
        assert(frags.push(f).drop_first() =~= Seq::<Seq<char>>::empty());
        assert(concat_frags(Seq::<Seq<char>>::empty()) == Seq::<char>::empty());
        assert(frags.push(f)[0] == f);
        assert(f + Seq::<char>::empty() =~= f);
        assert(Seq::<char>::empty() + f =~= f);
    } else {
        assert(frags.push(f).drop_first() =~= frags.drop_first().push(f));
        assert(frags.push(f)[0] == frags[0]);
        lemma_concat_frags_push(frags.drop_first(), f);
        assert(frags[0] + (concat_frags(frags.drop_first()) + f) =~= (frags[0] + concat_frags(
            frags.drop_first(),
        )) + f);
    }
}

} // verus!
