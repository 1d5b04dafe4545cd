//! The trusted boundary to the handlebars template engine.
//!
//! The engine is an injected, string-keyed service: templates are registered
//! under names, and rendering interpolates a registered template with a flat
//! key/value context.  Verified code sees the registry through the abstract
//! template table `registry_view` and the abstract interpolation result
//! `hbs_render`; the two wrappers below are the only places that call into
//! the engine.

use vstd::prelude::*;
use handlebars::Handlebars;

verus! {

#[verifier::external_type_specification]
#[verifier::external_body]
pub struct ExHandlebars<'reg>(Handlebars<'reg>);

/// The registry's template table: template name to template source, as built
/// up by `register_template`.
pub uninterp spec fn registry_view(hbr: Handlebars) -> Map<Seq<char>, Seq<char>>;

/// The registry configurations this library is written for: every template
/// registered from a string (so nothing is ever re-read from disk in the
/// engine's dev mode), no caller-registered helpers or decorators beyond the
/// deterministic built-ins, the default escape function, and strict mode and
/// dev mode left off.  Only within this scope does the engine render
/// deterministically from the template table, the template name and the
/// context alone; `render_template` therefore requires it, and
/// `register_template` preserves it.  The caller who builds the engine
/// vouches for it once, at the boundary.
pub uninterp spec fn supported_engine(hbr: Handlebars) -> bool;

/// What the engine's interpolation returns for a template table, a template
/// name and a key/value context, on a supported engine: the rendered text,
/// or the engine's error message.  Nothing is assumed about the text it
/// produces.
pub uninterp spec fn hbs_render(
    reg: Map<Seq<char>, Seq<char>>,
    name: Seq<char>,
    ctx: Seq<(Seq<char>, Seq<char>)>,
) -> Result<Seq<char>, Seq<char>>;

/// Whether the engine accepts a template source: compilation parses the
/// source text alone, so its success is a function of that text.
pub uninterp spec fn tpl_compiles(tpl: Seq<char>) -> bool;

/// The attribute mapping handed to the engine for a single render call:
/// an ordered list of key/value pairs.
pub struct RenderContext {
    pub entries: Vec<(String, String)>,
}

impl View for RenderContext {
    type V = Seq<(Seq<char>, Seq<char>)>;

    open spec fn view(&self) -> Seq<(Seq<char>, Seq<char>)> {
        self.entries@.map_values(|p: (String, String)| (p.0@, p.1@))
    }
}

/// Relies on `handlebars::Handlebars::render`: it interpolates the template
/// registered under `name` with the given context and fails — among other
/// causes — whenever no template of that name is registered.  On a supported
/// engine the interpolation reads only the template table, the name and the
/// context, with no disk re-reads and no caller helpers, so its result is a
/// function of those three values.
#[verifier::external_body]
pub(crate) fn render_template(hbr: &Handlebars, name: &str, ctx: &RenderContext) -> (r: Result<
    String,
    String,
>)
    requires
        supported_engine(*hbr),
    ensures
        (match r {
            Ok(s) => hbs_render(registry_view(*hbr), name@, ctx@) == Ok::<Seq<char>, Seq<char>>(
                s@,
            ),
            Err(e) => hbs_render(registry_view(*hbr), name@, ctx@) == Err::<Seq<char>, Seq<char>>(
                e@,
            ),
        }),
        !registry_view(*hbr).dom().contains(name@) ==> r is Err,
{
    let mut data = std::collections::BTreeMap::new();
    for (k, v) in ctx.entries.iter() {
        data.insert(k.clone(), v.clone());
    }
    hbr.render(name, &data).map_err(|e| e.to_string())
}

/// Relies on `handlebars::Handlebars::register_template_string`: it compiles
/// `tpl` — success is decided by parsing the source text alone — and on
/// success stores the template in the registry under `name`; on a template
/// syntax error it reports failure and leaves the registry as it was.
/// Registering a string template keeps a supported engine supported.
#[verifier::external_body]
pub(crate) fn register_template(hbr: &mut Handlebars, name: &str, tpl: &str) -> (ok: bool)
    ensures
        ok == tpl_compiles(tpl@),
        ok ==> registry_view(*final(hbr)) == registry_view(*old(hbr)).insert(name@, tpl@),
        !ok ==> registry_view(*final(hbr)) == registry_view(*old(hbr)),
        supported_engine(*old(hbr)) ==> supported_engine(*final(hbr)),
{
    hbr.register_template_string(name, tpl).is_ok()
}

} // verus!
