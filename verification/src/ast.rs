//! The document tree that the renderer consumes, and the renderer's error
//! type.  Values of these types are built by the caller (typically from an
//! external parser's output) and consumed once by the renderer.

use vstd::prelude::*;

verus! {

/// One unit of text-level content inside a paragraph or a heading title.
pub enum InlineSegment {
    /// Plain text; it is appended to the output verbatim.  Escaping, if any,
    /// is the template engine's responsibility, not this layer's.
    Text(String),
    /// A hyperlink: `target` is the raw reference written in the document and
    /// `label` is the inline content shown as the link text.  An empty label
    /// falls back to showing the raw target.
    Link { target: String, label: Vec<InlineSegment> },
    /// An inline construct this renderer has no rule for; the string names
    /// its kind.  Composing a paragraph that holds one fails.
    Unsupported(String),
}

/// One node of the parsed document tree.
pub enum AstNode {
    /// A flat sequence of inline segments.
    Paragraph(Vec<InlineSegment>),
    /// A heading: `level` counts from 1, `title` is inline content,
    /// `extensions` is opaque metadata carried for the templates' benefit,
    /// and `content` is the subtree rendered inside the heading.
    Heading {
        level: u16,
        title: Vec<InlineSegment>,
        extensions: Vec<String>,
        content: Vec<AstNode>,
    },
    /// A node kind this renderer has no rule for; the string names its kind.
    /// Such a node renders to the empty string and never fails.
    Unsupported(String),
}

/// Why a render failed.  The first failure aborts the whole render; no
/// partial fragment is returned on failure.
#[derive(Debug)]
pub enum RenderError {
    /// An inline segment could not be composed; the string names the
    /// offending segment kind.
    Composition(String),
    /// The template engine could not render a context; the string is the
    /// engine's own message.
    Template(String),
}

/// The two failure classes, as the specification functions speak of them.
pub enum ErrorKind {
    Composition,
    Template,
}

/// The failure class of an error value.
pub open spec fn err_kind(e: RenderError) -> ErrorKind {
    match e {
        RenderError::Composition(_) => ErrorKind::Composition,
        RenderError::Template(_) => ErrorKind::Template,
    }
}

/// The mathematical value of a rendering result: the fragment's characters on
/// success, the failure class on failure.
pub open spec fn res_view(r: Result<String, RenderError>) -> Result<Seq<char>, ErrorKind> {
    match r {
        Ok(s) => Ok(s@),
        Err(e) => Err(err_kind(e)),
    }
}

/// The fragment of a successful result; the empty sequence stands in for a
/// failure, which callers rule out separately.
pub open spec fn ok_val(r: Result<Seq<char>, ErrorKind>) -> Seq<char> {
    match r {
        Ok(s) => s,
        Err(_) => Seq::empty(),
    }
}

impl RenderError {
    /// A human-readable description, with the failing stage named first.
    pub fn message(&self) -> (m: String)
        ensures
            (match *self {
                RenderError::Composition(d) => m@ == "paragraph construction failed: "@ + d@,
                RenderError::Template(d) => m@ == "template rendering failed: "@ + d@,
            }),
    {
        match self {
            RenderError::Composition(d) => {
                let mut m = String::from_str("paragraph construction failed: ");
                m.append(d.as_str());
                m
            },
            RenderError::Template(d) => {
                let mut m = String::from_str("template rendering failed: ");
                m.append(d.as_str());
                m
            },
        }
    }
}

} // verus!
