//! The node dispatcher: renders one document-tree node, or a whole body of
//! nodes, to an HTML fragment.
//!
//! A paragraph composes its inline segments and interpolates them into the
//! `paragraph` template.  A heading renders its children first, bottom-up,
//! and hands their concatenated output to the heading renderer.  A node of
//! any other kind renders to the empty string and never fails — a deliberate
//! best-effort fallback that drops the content.  Failures are fail-fast: the
//! first failing node aborts its remaining siblings and every ancestor, and
//! no partial fragment is returned.

use vstd::prelude::*;
use handlebars::Handlebars;
use crate::ast::{AstNode, ErrorKind, InlineSegment, RenderError, ok_val, res_view};
use crate::compose::{
    compose_segments,
    composed_inline,
    concat_frags,
    concat_strs,
    inline_ok,
    lemma_plain_text_composes_verbatim,
    all_text,
    strs_view,
    texts_concat,
};
use crate::engine::{RenderContext, hbs_render, registry_view, render_template, supported_engine};
use crate::heading::{render_heading, spec_render_heading};

verus! {

/// The context a paragraph render hands to the engine: the composed inline
/// text under the one key the paragraph template reads.
pub open spec fn para_ctx(text: Seq<char>) -> Seq<(Seq<char>, Seq<char>)> {
    seq![("para"@, text)]
}

/// What rendering a paragraph returns: its composed inline text interpolated
/// into the `paragraph` template, a composition failure when a segment cannot
/// be composed, a template failure when the engine refuses.
pub open spec fn spec_render_paragraph(
    segs: Seq<InlineSegment>,
    reg: Map<Seq<char>, Seq<char>>,
) -> Result<Seq<char>, ErrorKind> {
    if !inline_ok(segs) {
        Err(ErrorKind::Composition)
    } else {
        match hbs_render(reg, "paragraph"@, para_ctx(composed_inline(segs))) {
            Ok(s) => Ok(s),
            Err(_) => Err(ErrorKind::Template),
        }
    }
}

/// What rendering one node returns.
pub open spec fn spec_render_node(n: AstNode, reg: Map<Seq<char>, Seq<char>>) -> Result<
    Seq<char>,
    ErrorKind,
>
    decreases n,
{
    match n {
        AstNode::Paragraph(segs) => spec_render_paragraph(segs@, reg),
        AstNode::Heading { level, title, extensions, content } => {
            match spec_render_nodes(content@, reg) {
                Ok(children) => spec_render_heading(level, title@, children, extensions@, reg),
                Err(e) => Err(e),
            }
        },
        AstNode::Unsupported(_) => Ok(Seq::empty()),
    }
}

/// What rendering a sequence of nodes returns: their fragments concatenated
/// in input order, or the first failure.
pub open spec fn spec_render_nodes(ns: Seq<AstNode>, reg: Map<Seq<char>, Seq<char>>) -> Result<
    Seq<char>,
    ErrorKind,
>
    decreases ns,
{
    if ns.len() == 0 {
        Ok(Seq::empty())
    } else {
        match spec_render_node(ns[0], reg) {
            Ok(first) => match spec_render_nodes(ns.drop_first(), reg) {
                Ok(rest) => Ok(first + rest),
                Err(e) => Err(e),
            },
            Err(e) => Err(e),
        }
    }
}

/// When the first `i` nodes render and the node at `i` fails, the sequence
/// fails with that node's error.
proof fn lemma_render_nodes_err(ns: Seq<AstNode>, reg: Map<Seq<char>, Seq<char>>, i: int)
    requires
        0 <= i < ns.len(),
        forall|j: int| 0 <= j < i ==> #[trigger] spec_render_node(ns[j], reg) is Ok,
        spec_render_node(ns[i], reg) is Err,
    ensures
        spec_render_nodes(ns, reg) == spec_render_node(ns[i], reg),
    decreases i,
{
    if i == 0 {
    } else {
        assert(spec_render_node(ns[0], reg) is Ok);
        assert forall|j: int| 0 <= j < i - 1 implies #[trigger] spec_render_node(
            ns.drop_first()[j],
            reg,
        ) is Ok by {
            assert(ns.drop_first()[j] == ns[j + 1]);
        }
        assert(ns.drop_first()[i - 1] == ns[i]);
        lemma_render_nodes_err(ns.drop_first(), reg, i - 1);
    }
}

/// When every node renders, the sequence renders to the concatenation of the
/// given fragments.
proof fn lemma_render_nodes_ok(ns: Seq<AstNode>, reg: Map<Seq<char>, Seq<char>>, outs: Seq<String>)
    requires
        outs.len() == ns.len(),
        forall|j: int| 0 <= j < ns.len() ==> #[trigger] spec_render_node(ns[j], reg) == Ok::<
            Seq<char>,
            ErrorKind,
        >(outs[j]@),
    ensures
        spec_render_nodes(ns, reg) == Ok::<Seq<char>, ErrorKind>(concat_strs(outs)),
    decreases ns.len(),
{
    if ns.len() == 0 {
        assert(strs_view(outs) =~= Seq::<Seq<char>>::empty());
        assert(concat_frags(Seq::<Seq<char>>::empty()) == Seq::<char>::empty());
    } else {
        assert(spec_render_node(ns[0], reg) == Ok::<Seq<char>, ErrorKind>(outs[0]@));
        assert forall|j: int| 0 <= j < ns.drop_first().len() implies #[trigger] spec_render_node(
            ns.drop_first()[j],
            reg,
        ) == Ok::<Seq<char>, ErrorKind>(outs.drop_first()[j]@) by {
            assert(ns.drop_first()[j] == ns[j + 1]);
            assert(outs.drop_first()[j] == outs[j + 1]);
        }
        lemma_render_nodes_ok(ns.drop_first(), reg, outs.drop_first());
        assert(strs_view(outs)[0] == outs[0]@);
        assert(strs_view(outs).drop_first() =~= strs_view(outs.drop_first()));
        assert(concat_frags(strs_view(outs)) == outs[0]@ + concat_frags(
            strs_view(outs.drop_first()),
        ));
    }
}

/// Render a paragraph node: compose the segments and interpolate them into
/// the `paragraph` template.
pub fn render_paragraph(segments: &Vec<InlineSegment>, hbr: &Handlebars) -> (r: Result<
    String,
    RenderError,
>)
    requires
        supported_engine(*hbr),
    ensures
        res_view(r) == spec_render_paragraph(segments@, registry_view(*hbr)),
{
    let mut buf = String::new();
    match compose_segments(segments, &mut buf) {
        Ok(_) => {},
        Err(e) => {
            return Err(e);
        },
    }
    proof {
        assert(buf@ =~= composed_inline(segments@));
    }
    let ghost text = buf@;
    let mut entries: Vec<(String, String)> = Vec::new();
    entries.push((String::from_str("para"), buf));
    let ctx = RenderContext { entries };
    proof {
        assert(ctx@ =~= para_ctx(text));
    }
    match render_template(hbr, "paragraph", &ctx) {
        Ok(s) => Ok(s),
        Err(m) => Err(RenderError::Template(m)),
    }
}

/// Render one document-tree node to an HTML fragment.
#[verifier::loop_isolation(false)]
pub fn render_ast(ast: &AstNode, hbr: &Handlebars) -> (r: Result<String, RenderError>)
    requires
        supported_engine(*hbr),
    ensures
        res_view(r) == spec_render_node(*ast, registry_view(*hbr)),
    decreases *ast,
{
    match ast {
        AstNode::Paragraph(segments) => render_paragraph(segments, hbr),
        AstNode::Heading { level, title, extensions, content } => {
            let ghost reg = registry_view(*hbr);
            let mut children: Vec<String> = Vec::new();
            let mut i: usize = 0;
            while i < content.len()
                invariant
                    i <= content@.len(),
                    children@.len() == i,
                    forall|j: int| 0 <= j < i ==> #[trigger] spec_render_node(content@[j], reg)
                        == Ok::<Seq<char>, ErrorKind>(children@[j]@),
                    reg == registry_view(*hbr),
                decreases content@.len() - i,
            {
                proof {
                    assert(content@[i as int] == content[i as int]);
                }
                match render_ast(&content[i], hbr) {
                    Ok(s) => {
                        children.push(s);
                    },
                    Err(e) => {
                        proof {
                            lemma_render_nodes_err(content@, reg, i as int);
                        }
                        return Err(e);
                    },
                }
                i += 1;
            }
            proof {
                lemma_render_nodes_ok(content@, reg, children@);
            }
            let mut out = String::new();
            match render_heading(*level, title, extensions, &children, &mut out, hbr) {
                Ok(_) => {
                    proof {
                        assert(out@ =~= ok_val(
                            spec_render_heading(
                                *level,
                                title@,
                                concat_strs(children@),
                                extensions@,
                                reg,
                            ),
                        ));
                    }
                    Ok(out)
                },
                Err(e) => Err(e),
            }
        },
        AstNode::Unsupported(_) => Ok(String::new()),
    }
}

/// Render a whole document body: every top-level node in order, the fragments
/// concatenated; the first failure aborts the render.
#[verifier::loop_isolation(false)]
pub fn render_body(nodes: &Vec<AstNode>, hbr: &Handlebars) -> (r: Result<String, RenderError>)
    requires
        supported_engine(*hbr),
    ensures
        res_view(r) == spec_render_nodes(nodes@, registry_view(*hbr)),
{
    let ghost reg = registry_view(*hbr);
    let mut outs: Vec<String> = Vec::new();
    let mut i: usize = 0;
    while i < nodes.len()
        invariant
            i <= nodes@.len(),
            outs@.len() == i,
            forall|j: int| 0 <= j < i ==> #[trigger] spec_render_node(nodes@[j], reg) == Ok::<
                Seq<char>,
                ErrorKind,
            >(outs@[j]@),
            reg == registry_view(*hbr),
        decreases nodes@.len() - i,
    {
        match render_ast(&nodes[i], hbr) {
            Ok(s) => {
                outs.push(s);
            },
            Err(e) => {
                proof {
                    lemma_render_nodes_err(nodes@, reg, i as int);
                }
                return Err(e);
            },
        }
        i += 1;
    }
    proof {
        lemma_render_nodes_ok(nodes@, reg, outs@);
    }
    let mut body = String::new();
    let mut k: usize = 0;
    while k < outs.len()
        invariant
            k <= outs@.len(),
            body@ == concat_frags(strs_view(outs@).take(k as int)),
            outs@.len() == nodes@.len(),
        decreases outs@.len() - k,
    {
        let ghost pre = strs_view(outs@).take(k as int);
        body.append(outs[k].as_str());
        proof {
            crate::compose::lemma_concat_frags_push(pre, outs@[k as int]@);
            assert(strs_view(outs@).take(k as int + 1) =~= pre.push(outs@[k as int]@));
        }
        k += 1;
    }
    proof {
        assert(strs_view(outs@).take(outs@.len() as int) =~= strs_view(outs@));
    }
    Ok(body)
}

/// Law: a paragraph of plain text only is the text itself, wrapped in the
/// `paragraph` template exactly once — no inline transformation is applied to
/// the text on the way.
pub proof fn lemma_plain_text_paragraph(segs: Seq<InlineSegment>, reg: Map<Seq<char>, Seq<char>>)
    requires
        all_text(segs),
    ensures
        spec_render_paragraph(segs, reg) == (match hbs_render(
            reg,
            "paragraph"@,
            para_ctx(texts_concat(segs)),
        ) {
            Ok(s) => Ok::<Seq<char>, ErrorKind>(s),
            Err(_) => Err::<Seq<char>, ErrorKind>(ErrorKind::Template),
        }),
{
    lemma_plain_text_composes_verbatim(segs);
}

/// Law: when a sequence of nodes renders, every node of it renders, and the
/// result is exactly the nodes' own fragments concatenated in input order —
/// nothing is reordered and nothing is dropped.
pub proof fn lemma_children_in_order(ns: Seq<AstNode>, reg: Map<Seq<char>, Seq<char>>)
    requires
        spec_render_nodes(ns, reg) is Ok,
    ensures
        forall|j: int| 0 <= j < ns.len() ==> #[trigger] spec_render_node(ns[j], reg) is Ok,
        spec_render_nodes(ns, reg) == Ok::<Seq<char>, ErrorKind>(
            concat_frags(ns.map_values(|n: AstNode| ok_val(spec_render_node(n, reg)))),
        ),
    decreases ns.len(),
{
    let frags = ns.map_values(|n: AstNode| ok_val(spec_render_node(n, reg)));
    if ns.len() == 0 {
        assert(frags =~= Seq::<Seq<char>>::empty());
        assert(concat_frags(Seq::<Seq<char>>::empty()) == Seq::<char>::empty());
    } else {
        assert(spec_render_node(ns[0], reg) is Ok);
        assert(spec_render_nodes(ns.drop_first(), reg) is Ok);
        lemma_children_in_order(ns.drop_first(), reg);
        assert forall|j: int| 0 <= j < ns.len() implies #[trigger] spec_render_node(ns[j], reg)
            is Ok by {
            if j > 0 {
                assert(ns.drop_first()[j - 1] == ns[j]);
                assert(spec_render_node(ns.drop_first()[j - 1], reg) is Ok);
            }
        }
        assert(frags.drop_first() =~= ns.drop_first().map_values(
            |n: AstNode| ok_val(spec_render_node(n, reg)),
        ));
        assert(frags[0] == ok_val(spec_render_node(ns[0], reg)));
        assert(concat_frags(frags) == frags[0] + concat_frags(frags.drop_first()));
    }
}

/// Law: a heading that renders contains its children's fragments
/// concatenated in their original order, interpolated into its level's
/// template beside its composed title.
pub proof fn lemma_heading_children_in_order(
    level: u16,
    title: Vec<InlineSegment>,
    extensions: Vec<String>,
    content: Vec<AstNode>,
    reg: Map<Seq<char>, Seq<char>>,
)
    requires
        spec_render_nodes(content@, reg) is Ok,
    ensures
        spec_render_node(AstNode::Heading { level, title, extensions, content }, reg)
            == spec_render_heading(
            level,
            title@,
            concat_frags(content@.map_values(|n: AstNode| ok_val(spec_render_node(n, reg)))),
            extensions@,
            reg,
        ),
{
    lemma_children_in_order(content@, reg);
}

/// Law: rendering is deterministic — two renders of the same node against
/// the same template registry agree byte for byte, successes and failures
/// alike; there is no hidden state.
pub proof fn lemma_render_idempotent(
    r1: Result<String, RenderError>,
    r2: Result<String, RenderError>,
    n: AstNode,
    reg: Map<Seq<char>, Seq<char>>,
)
    requires
        res_view(r1) == spec_render_node(n, reg),
        res_view(r2) == spec_render_node(n, reg),
    ensures
        res_view(r1) == res_view(r2),
{
}

/// Law: a node of an unsupported kind renders to the empty string and never
/// fails — it appends nothing to the surrounding output.
pub proof fn lemma_unsupported_renders_empty(kind: String, reg: Map<Seq<char>, Seq<char>>)
    ensures
        spec_render_node(AstNode::Unsupported(kind), reg) == Ok::<Seq<char>, ErrorKind>(
            Seq::<char>::empty(),
        ),
{
}

} // verus!
