//! The heading renderer and the one-time template registration for it.
//!
//! A heading selects a template keyed by its level.  Levels 1 through 6 get
//! the templates `h1` … `h6`; a level below 1 is clamped to 1 and a level
//! above 6 to 6 (HTML has no deeper heading elements).  The template receives
//! the composed title and the heading's already-rendered children,
//! concatenated in input order and spliced in verbatim — child output is
//! opaque text and is never re-parsed.  The heading's extension metadata is
//! carried to this layer, but the registered templates make no use of it.

use vstd::prelude::*;
use handlebars::Handlebars;
use crate::ast::{ErrorKind, InlineSegment, RenderError, ok_val};
use crate::compose::{
    compose_segments,
    composed_inline,
    concat_frags,
    concat_strs,
    inline_ok,
    lemma_concat_frags_push,
    strs_view,
};
use crate::engine::{
    RenderContext,
    hbs_render,
    register_template,
    registry_view,
    supported_engine,
    tpl_compiles,
};

verus! {

/// The template name a heading level selects: `h1` … `h6`, out-of-range
/// levels clamped.
pub open spec fn heading_template_name(level: u16) -> Seq<char> {
    if level <= 1 {
        "h1"@
    } else if level == 2 {
        "h2"@
    } else if level == 3 {
        "h3"@
    } else if level == 4 {
        "h4"@
    } else if level == 5 {
        "h5"@
    } else {
        "h6"@
    }
}

/// The source text registered for a heading level's template.
pub open spec fn heading_template_source(level: u16) -> Seq<char> {
    if level <= 1 {
        "<section><h1>{{{title}}}</h1>{{{content}}}</section>"@
    } else if level == 2 {
        "<section><h2>{{{title}}}</h2>{{{content}}}</section>"@
    } else if level == 3 {
        "<section><h3>{{{title}}}</h3>{{{content}}}</section>"@
    } else if level == 4 {
        "<section><h4>{{{title}}}</h4>{{{content}}}</section>"@
    } else if level == 5 {
        "<section><h5>{{{title}}}</h5>{{{content}}}</section>"@
    } else {
        "<section><h6>{{{title}}}</h6>{{{content}}}</section>"@
    }
}

/// The extension metadata as a template receives it: the entries joined with
/// single spaces.
pub open spec fn extensions_text(exts: Seq<String>) -> Seq<char>
    decreases exts.len(),
{
    if exts.len() == 0 {
        Seq::empty()
    } else if exts.len() == 1 {
        exts[0]@
    } else {
        exts[0]@ + " "@ + extensions_text(exts.drop_first())
    }
}

/// Appending one entry extends the joined text at the end.
proof fn lemma_extensions_push(exts: Seq<String>, x: String)
    ensures
        extensions_text(exts.push(x)) == if exts.len() == 0 {
            x@
        } else {
            extensions_text(exts) + " "@ + x@
        },
    decreases exts.len(),
{
    if exts.len() == 0 {
        assert(exts.push(x)[0] == x);
    } else if exts.len() == 1 {
        assert(exts.push(x)[0] == exts[0]);
        assert(exts.push(x).drop_first() =~= seq![x]);
        assert(extensions_text(seq![x]) == x@);
    } else {
        assert(exts.push(x)[0] == exts[0]);
        assert(exts.push(x).drop_first() =~= exts.drop_first().push(x));
        lemma_extensions_push(exts.drop_first(), x);
        assert(exts[0]@ + " "@ + (extensions_text(exts.drop_first()) + " "@ + x@) =~= (exts[0]@
            + " "@ + extensions_text(exts.drop_first())) + " "@ + x@);
    }
}

/// The context a heading render hands to the engine: the composed title, the
/// children's output, and the joined extension metadata, under the keys a
/// heading template may read.
pub open spec fn heading_ctx(
    title: Seq<char>,
    content: Seq<char>,
    extensions: Seq<char>,
) -> Seq<(Seq<char>, Seq<char>)> {
    seq![("title"@, title), ("content"@, content), ("extensions"@, extensions)]
}

/// What rendering a heading returns: the composed title and the concatenated
/// child output interpolated into the level's template, a composition failure
/// when the title cannot be composed, a template failure when the engine
/// refuses.
pub open spec fn spec_render_heading(
    level: u16,
    title: Seq<InlineSegment>,
    children: Seq<char>,
    extensions: Seq<String>,
    reg: Map<Seq<char>, Seq<char>>,
) -> Result<Seq<char>, ErrorKind> {
    if !inline_ok(title) {
        Err(ErrorKind::Composition)
    } else {
        match hbs_render(
            reg,
            heading_template_name(level),
            heading_ctx(composed_inline(title), children, extensions_text(extensions)),
        ) {
            Ok(s) => Ok(s),
            Err(_) => Err(ErrorKind::Template),
        }
    }
}

/// The template name a heading level selects, as a string slice.
fn heading_template_label(level: u16) -> (name: &'static str)
    ensures
        name@ == heading_template_name(level),
{
    if level <= 1 {
        "h1"
    } else if level == 2 {
        "h2"
    } else if level == 3 {
        "h3"
    } else if level == 4 {
        "h4"
    } else if level == 5 {
        "h5"
    } else {
        "h6"
    }
}

/// Render a heading and append the fragment to `out`.  The title is composed
/// by the inline rules; `rendered_children` are spliced in concatenated, in
/// their given order; `extensions` is handed to the template joined with
/// spaces (the templates registered below make no use of it).  On failure
/// `out` is left unchanged.
pub fn render_heading(
    level: u16,
    title: &Vec<InlineSegment>,
    extensions: &Vec<String>,
    rendered_children: &Vec<String>,
    out: &mut String,
    hbr: &Handlebars,
) -> (r: Result<(), RenderError>)
    requires
        supported_engine(*hbr),
    ensures
        (match r {
            Ok(_) => spec_render_heading(
                level,
                title@,
                concat_strs(rendered_children@),
                extensions@,
                registry_view(*hbr),
            ) is Ok && final(out)@ == old(out)@ + ok_val(
                spec_render_heading(
                    level,
                    title@,
                    concat_strs(rendered_children@),
                    extensions@,
                    registry_view(*hbr),
                ),
            ),
            Err(e) => spec_render_heading(
                level,
                title@,
                concat_strs(rendered_children@),
                extensions@,
                registry_view(*hbr),
            ) == Err::<Seq<char>, ErrorKind>(crate::ast::err_kind(e)) && final(out)@ == old(out)@,
        }),
{
    let mut title_buf = String::new();
    match compose_segments(title, &mut title_buf) {
        Ok(_) => {},
        Err(e) => {
            return Err(e);
        },
    }
    proof {
        assert(title_buf@ =~= composed_inline(title@));
    }
    let mut content_buf = String::new();
    proof {
        assert(strs_view(rendered_children@).take(0) =~= Seq::<Seq<char>>::empty());
        assert(concat_frags(Seq::<Seq<char>>::empty()) == Seq::<char>::empty());
    }
    let mut i: usize = 0;
    while i < rendered_children.len()
        invariant
            i <= rendered_children@.len(),
            content_buf@ == concat_frags(strs_view(rendered_children@).take(i as int)),
        decreases rendered_children@.len() - i,
    {
        let ghost pre = strs_view(rendered_children@).take(i as int);
        content_buf.append(rendered_children[i].as_str());
        proof {
            lemma_concat_frags_push(pre, rendered_children@[i as int]@);
            assert(strs_view(rendered_children@).take(i as int + 1) =~= pre.push(
                rendered_children@[i as int]@,
            ));
        }
        i += 1;
    }
    proof {
        assert(strs_view(rendered_children@).take(rendered_children@.len() as int) =~= strs_view(
            rendered_children@,
        ));
    }
    let mut exts_buf = String::new();
    proof {
        assert(extensions@.take(0) =~= Seq::<String>::empty());
        assert(extensions_text(Seq::<String>::empty()) == Seq::<char>::empty());
    }
    let mut j: usize = 0;
    while j < extensions.len()
        invariant
            j <= extensions@.len(),
            exts_buf@ == extensions_text(extensions@.take(j as int)),
        decreases extensions@.len() - j,
    {
        let ghost pre = extensions@.take(j as int);
        if j > 0 {
            exts_buf.append(" ");
        }
        exts_buf.append(extensions[j].as_str());
        proof {
            lemma_extensions_push(pre, extensions@[j as int]);
            assert(extensions@.take(j as int + 1) =~= pre.push(extensions@[j as int]));
            if j == 0 {
                assert(extensions_text(pre) == Seq::<char>::empty());
                assert(Seq::<char>::empty() + extensions@[j as int]@ =~= extensions@[j as int]@);
            }
        }
        j += 1;
    }
    proof {
        assert(extensions@.take(extensions@.len() as int) =~= extensions@);
    }
    let name = heading_template_label(level);
    let ghost title_text = title_buf@;
    let ghost content_text = content_buf@;
    let ghost exts_text = exts_buf@;
    let mut entries: Vec<(String, String)> = Vec::new();
    entries.push((String::from_str("title"), title_buf));
    entries.push((String::from_str("content"), content_buf));
    entries.push((String::from_str("extensions"), exts_buf));
    let ctx = RenderContext { entries };
    proof {
        assert(ctx@ =~= heading_ctx(title_text, content_text, exts_text));
    }
    match crate::engine::render_template(hbr, name, &ctx) {
        Ok(s) => {
            out.append(s.as_str());
            Ok(())
        },
        Err(m) => Err(RenderError::Template(m)),
    }
}

/// Every heading-template source compiles: the six registrations of
/// `registser_helpers` all succeed exactly when this holds.
pub open spec fn all_heading_templates_compile() -> bool {
    tpl_compiles(heading_template_source(1)) && tpl_compiles(heading_template_source(2))
        && tpl_compiles(heading_template_source(3)) && tpl_compiles(heading_template_source(4))
        && tpl_compiles(heading_template_source(5)) && tpl_compiles(heading_template_source(6))
}

/// The template table after `registser_helpers`: the six level-keyed
/// templates inserted in order, stopping at the first source the engine
/// refuses — so on failure the table holds exactly a prefix of the six.
pub open spec fn registry_after_helpers(reg0: Map<Seq<char>, Seq<char>>) -> Map<
    Seq<char>,
    Seq<char>,
> {
    if !tpl_compiles(heading_template_source(1)) {
        reg0
    } else if !tpl_compiles(heading_template_source(2)) {
        reg0.insert(heading_template_name(1), heading_template_source(1))
    } else if !tpl_compiles(heading_template_source(3)) {
        reg0.insert(heading_template_name(1), heading_template_source(1)).insert(
            heading_template_name(2),
            heading_template_source(2),
        )
    } else if !tpl_compiles(heading_template_source(4)) {
        reg0.insert(heading_template_name(1), heading_template_source(1)).insert(
            heading_template_name(2),
            heading_template_source(2),
        ).insert(heading_template_name(3), heading_template_source(3))
    } else if !tpl_compiles(heading_template_source(5)) {
        reg0.insert(heading_template_name(1), heading_template_source(1)).insert(
            heading_template_name(2),
            heading_template_source(2),
        ).insert(heading_template_name(3), heading_template_source(3)).insert(
            heading_template_name(4),
            heading_template_source(4),
        )
    } else if !tpl_compiles(heading_template_source(6)) {
        reg0.insert(heading_template_name(1), heading_template_source(1)).insert(
            heading_template_name(2),
            heading_template_source(2),
        ).insert(heading_template_name(3), heading_template_source(3)).insert(
            heading_template_name(4),
            heading_template_source(4),
        ).insert(heading_template_name(5), heading_template_source(5))
    } else {
        reg0.insert(heading_template_name(1), heading_template_source(1)).insert(
            heading_template_name(2),
            heading_template_source(2),
        ).insert(heading_template_name(3), heading_template_source(3)).insert(
            heading_template_name(4),
            heading_template_source(4),
        ).insert(heading_template_name(5), heading_template_source(5)).insert(
            heading_template_name(6),
            heading_template_source(6),
        )
    }
}

/// Register the level-keyed heading templates into the engine, once, before
/// any rendering; a heading render finds its template afterwards for every
/// level.  Registration succeeds exactly when the engine accepts all six
/// template sources; on failure the registry holds exactly a prefix of the
/// six inserts, cut at the first refused source.
pub fn registser_helpers(hbr: &mut Handlebars) -> (ok: bool)
    ensures
        ok == all_heading_templates_compile(),
        registry_view(*final(hbr)) == registry_after_helpers(registry_view(*old(hbr))),
        supported_engine(*old(hbr)) ==> supported_engine(*final(hbr)),
        ok ==> forall|level: u16|
            registry_view(*final(hbr)).dom().contains(#[trigger] heading_template_name(level)),
{
    if !register_template(hbr, "h1", "<section><h1>{{{title}}}</h1>{{{content}}}</section>") {
        return false;
    }
    if !register_template(hbr, "h2", "<section><h2>{{{title}}}</h2>{{{content}}}</section>") {
        return false;
    }
    if !register_template(hbr, "h3", "<section><h3>{{{title}}}</h3>{{{content}}}</section>") {
        return false;
    }
    if !register_template(hbr, "h4", "<section><h4>{{{title}}}</h4>{{{content}}}</section>") {
        return false;
    }
    if !register_template(hbr, "h5", "<section><h5>{{{title}}}</h5>{{{content}}}</section>") {
        return false;
    }
    if !register_template(hbr, "h6", "<section><h6>{{{title}}}</h6>{{{content}}}</section>") {
        return false;
    }
    true
}

} // verus!
