//! The link resolver: turns the raw target of a link into the href written
//! into the anchor element.
//!
//! Rule: a target carrying a recognized external scheme (`http://`,
//! `https://`, `mailto:`) is returned unchanged.  Any other target is an
//! internal document reference; the document extension `.norg` is appended to
//! its path part unless that part already ends in it.  A fragment (`#...`) or
//! query (`?...`) suffix is kept after the extension, never before it.  The
//! empty target resolves to the bare extension `.norg`.

use vstd::prelude::*;

verus! {

/// The document file extension appended to internal references.
pub open spec fn ext_chars() -> Seq<char> {
    ".norg"@
}

/// Does the target carry a recognized external scheme?
pub open spec fn scheme_prefixed(t: Seq<char>) -> bool {
    "http://"@.is_prefix_of(t) || "https://"@.is_prefix_of(t) || "mailto:"@.is_prefix_of(t)
}

/// Characters that open the fragment or query suffix of a target.
pub open spec fn is_frag_char(c: char) -> bool {
    c == '#' || c == '?'
}

/// Index of the first fragment or query character, or the length when there
/// is none: the path part of the target ends here.
pub open spec fn frag_start(t: Seq<char>) -> int
    decreases t.len(),
{
    if t.len() == 0 {
        0
    } else if is_frag_char(t[0]) {
        0
    } else {
        1 + frag_start(t.drop_first())
    }
}

/// Does the path already end in the document extension?
pub open spec fn ends_with_ext(path: Seq<char>) -> bool {
    ext_chars().is_suffix_of(path)
}

/// The resolved href of a link target.
pub open spec fn resolved_href(t: Seq<char>) -> Seq<char> {
    if scheme_prefixed(t) {
        t
    } else {
        let fs = frag_start(t);
        let path = t.subrange(0, fs);
        if ends_with_ext(path) {
            t
        } else {
            path + ext_chars() + t.subrange(fs, t.len() as int)
        }
    }
}

/// A position with no fragment or query character before it, and one at it
/// (or the end of the target), is exactly `frag_start`.
pub proof fn lemma_frag_start_at(t: Seq<char>, i: int)
    requires
        0 <= i <= t.len(),
        forall|k: int| 0 <= k < i ==> !is_frag_char(t[k]),
        i == t.len() || is_frag_char(t[i]),
    ensures
        frag_start(t) == i,
    decreases i,
{
    if i == 0 {
    } else {
        assert(!is_frag_char(t[0]));
        let rest = t.drop_first();
        assert forall|k: int| 0 <= k < i - 1 implies !is_frag_char(rest[k]) by {
            assert(rest[k] == t[k + 1]);
        }
        if i - 1 < rest.len() {
            assert(rest[i - 1] == t[i]);
        }
        lemma_frag_start_at(rest, i - 1);
    }
}

/// Law: an internal reference — no external scheme, no fragment or query
/// part, not already ending in the document extension — resolves to the
/// target with the document extension appended, and nothing else changes.
pub proof fn lemma_resolve_internal(t: Seq<char>)
    requires
        !scheme_prefixed(t),
        forall|k: int| 0 <= k < t.len() ==> !is_frag_char(t[k]),
        !ends_with_ext(t),
    ensures
        resolved_href(t) == t + ext_chars(),
{
    lemma_frag_start_at(t, t.len() as int);
    assert(t.subrange(0, t.len() as int) =~= t);
    assert(t.subrange(t.len() as int, t.len() as int) =~= Seq::<char>::empty());
    assert(t + ext_chars() + Seq::<char>::empty() =~= t + ext_chars());
}

/// Law: a target with a recognized external scheme resolves to itself,
/// unchanged.
pub proof fn lemma_resolve_external(t: Seq<char>)
    requires
        scheme_prefixed(t),
    ensures
        resolved_href(t) == t,
{
}

/// Law: resolving is idempotent on extension-bearing paths — a target whose
/// path part already ends in the document extension is returned unchanged,
/// so the extension is never appended twice.
pub proof fn lemma_resolve_no_double_extension(t: Seq<char>)
    requires
        !scheme_prefixed(t),
        ends_with_ext(t.subrange(0, frag_start(t))),
    ensures
        resolved_href(t) == t,
{
}

/// Does `s` start with `p`, character for character?
fn str_has_prefix(s: &str, p: &str) -> (b: bool)
    ensures
        b == p@.is_prefix_of(s@),
{
    let sl = s.unicode_len();
    let pl = p.unicode_len();
    if pl > sl {
        return false;
    }
    let mut i: usize = 0;
    while i < pl
        invariant
            i <= pl,
            pl == p@.len(),
            sl == s@.len(),
            pl <= sl,
            forall|j: int| 0 <= j < i ==> s@[j] == p@[j],
        decreases pl - i,
    {
        if s.get_char(i) != p.get_char(i) {
            proof {
                assert(s@.subrange(0, p@.len() as int)[i as int] == s@[i as int]);
                assert(!p@.is_prefix_of(s@));
            }
            return false;
        }
        i += 1;
    }
    proof {
        assert(p@ =~= s@.subrange(0, p@.len() as int));
    }
    true
}

/// Does `s` end with `p`, character for character?
fn str_has_suffix(s: &str, p: &str) -> (b: bool)
    ensures
        b == p@.is_suffix_of(s@),
{
    let sl = s.unicode_len();
    let pl = p.unicode_len();
    if pl > sl {
        return false;
    }
    let off: usize = sl - pl;
    let mut i: usize = 0;
    while i < pl
        invariant
            i <= pl,
            pl == p@.len(),
            sl == s@.len(),
            pl <= sl,
            off == sl - pl,
            forall|j: int| 0 <= j < i ==> s@[off + j] == p@[j],
        decreases pl - i,
    {
        if s.get_char(off + i) != p.get_char(i) {
            proof {
                let lo = s@.len() - p@.len();
                assert(s@.subrange(lo, s@.len() as int)[i as int] == s@[lo + i]);
                assert(!p@.is_suffix_of(s@));
            }
            return false;
        }
        i += 1;
    }
    proof {
        assert(p@ =~= s@.subrange(s@.len() - p@.len(), s@.len() as int));
    }
    true
}

/// Index of the first `#` or `?` in `s`, or its length when there is none.
fn find_frag(s: &str) -> (i: usize)
    ensures
        i as int == frag_start(s@),
        i <= s@.len(),
{
    let sl = s.unicode_len();
    let mut i: usize = 0;
    while i < sl
        invariant
            i <= sl,
            sl == s@.len(),
            forall|k: int| 0 <= k < i ==> !is_frag_char(s@[k]),
        decreases sl - i,
    {
        let c = s.get_char(i);
        if c == '#' || c == '?' {
            proof {
                lemma_frag_start_at(s@, i as int);
            }
            return i;
        }
        i += 1;
    }
    proof {
        lemma_frag_start_at(s@, sl as int);
    }
    sl
}

/// Does the target carry a recognized external scheme?
pub fn has_scheme_prefix(target: &str) -> (b: bool)
    ensures
        b == scheme_prefixed(target@),
{
    str_has_prefix(target, "http://") || str_has_prefix(target, "https://") || str_has_prefix(
        target,
        "mailto:",
    )
}

/// Resolve a link target to the href written into the anchor element.
pub fn resolve_link(target: &str) -> (href: String)
    ensures
        href@ == resolved_href(target@),
{
    if has_scheme_prefix(target) {
        return target.to_owned();
    }
    let fs = find_frag(target);
    let len = target.unicode_len();
    let path = target.substring_char(0, fs);
    if str_has_suffix(path, ".norg") {
        return target.to_owned();
    }
    let mut href = path.to_owned();
    href.append(".norg");
    href.append(target.substring_char(fs, len));
    href
}

} // verus!
