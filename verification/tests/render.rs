use handlebars::Handlebars;
use norg_render::ast::{AstNode, InlineSegment, RenderError};
use norg_render::compose::compose_segments;
use norg_render::heading::registser_helpers;
use norg_render::link::resolve_link;
use norg_render::render::{render_ast, render_body, render_paragraph};

fn engine() -> Handlebars<'static> {
    let mut hbr = Handlebars::new();
    hbr.register_template_string("paragraph", "<p>{{{para}}}</p>")
        .expect("couldn't register the paragraph template");
    assert!(registser_helpers(&mut hbr));
    hbr
}

fn text(s: &str) -> InlineSegment {
    InlineSegment::Text(String::from(s))
}

fn link(target: &str, label: Vec<InlineSegment>) -> InlineSegment {
    InlineSegment::Link {
        target: String::from(target),
        label,
    }
}

#[test]
fn link_to_norg_file() {
    let hbr = engine();
    let body = vec![AstNode::Paragraph(vec![link(
        "abc/def",
        vec![text("link to def")],
    )])];
    let expected = "<p><a href=\"abc/def.norg\">link to def</a></p>";
    assert_eq!(
        render_body(&body, &hbr).expect("couldn't render content"),
        expected,
        "html with a paragraph pointing to another norg file"
    );
}

#[test]
fn resolve_internal_appends_extension() {
    assert_eq!(resolve_link("abc/def"), "abc/def.norg");
    assert_eq!(resolve_link("note"), "note.norg");
}

#[test]
fn resolve_external_scheme_unchanged() {
    assert_eq!(resolve_link("http://example.com/a"), "http://example.com/a");
    assert_eq!(resolve_link("https://example.com"), "https://example.com");
    assert_eq!(resolve_link("mailto:someone@example.com"), "mailto:someone@example.com");
}

#[test]
fn resolve_existing_extension_unchanged() {
    assert_eq!(resolve_link("abc/def.norg"), "abc/def.norg");
}

#[test]
fn resolve_empty_target_gives_bare_extension() {
    assert_eq!(resolve_link(""), ".norg");
}

#[test]
fn resolve_inserts_extension_before_fragment_and_query() {
    assert_eq!(resolve_link("abc#section"), "abc.norg#section");
    assert_eq!(resolve_link("abc?x=1"), "abc.norg?x=1");
    assert_eq!(resolve_link("abc.norg#section"), "abc.norg#section");
}

#[test]
fn heading_nests_child_paragraph() {
    let hbr = engine();
    let node = AstNode::Heading {
        level: 1,
        title: vec![text("Intro")],
        extensions: vec![],
        content: vec![AstNode::Paragraph(vec![text("Hello")])],
    };
    assert_eq!(
        render_ast(&node, &hbr).expect("couldn't render heading"),
        "<section><h1>Intro</h1><p>Hello</p></section>"
    );
}

#[test]
fn heading_keeps_children_in_order() {
    let hbr = engine();
    let node = AstNode::Heading {
        level: 2,
        title: vec![text("Two")],
        extensions: vec![],
        content: vec![
            AstNode::Paragraph(vec![text("first")]),
            AstNode::Paragraph(vec![text("second")]),
        ],
    };
    assert_eq!(
        render_ast(&node, &hbr).expect("couldn't render heading"),
        "<section><h2>Two</h2><p>first</p><p>second</p></section>"
    );
}

#[test]
fn unsupported_node_between_paragraphs_adds_nothing() {
    let hbr = engine();
    let body = vec![
        AstNode::Paragraph(vec![text("one")]),
        AstNode::Unsupported(String::from("verbatim ranged tag")),
        AstNode::Paragraph(vec![text("two")]),
    ];
    assert_eq!(
        render_body(&body, &hbr).expect("couldn't render body"),
        "<p>one</p><p>two</p>"
    );
}

#[test]
fn rerender_is_byte_identical() {
    let hbr = engine();
    let node = AstNode::Heading {
        level: 3,
        title: vec![text("Same")],
        extensions: vec![],
        content: vec![AstNode::Paragraph(vec![link("x", vec![])])],
    };
    let first = render_ast(&node, &hbr).expect("first render");
    let second = render_ast(&node, &hbr).expect("second render");
    assert_eq!(first, second);
}

#[test]
fn plain_text_paragraph_is_verbatim() {
    let hbr = engine();
    let body = vec![AstNode::Paragraph(vec![text("a < b & c"), text("!")])];
    assert_eq!(
        render_body(&body, &hbr).expect("couldn't render body"),
        "<p>a < b & c!</p>"
    );
}

#[test]
fn empty_label_shows_raw_target() {
    let hbr = engine();
    let para = vec![link("abc/def", vec![])];
    assert_eq!(
        render_paragraph(&para, &hbr).expect("couldn't render paragraph"),
        "<p><a href=\"abc/def.norg\">abc/def</a></p>"
    );
}

#[test]
fn unsupported_inline_fails_composition() {
    let hbr = engine();
    let para = vec![text("before"), InlineSegment::Unsupported(String::from("inline math"))];
    let err = render_paragraph(&para, &hbr).expect_err("composition must fail");
    assert!(matches!(err, RenderError::Composition(_)));
    assert_eq!(err.message(), "paragraph construction failed: inline math");
}

#[test]
fn missing_template_is_a_template_error() {
    let hbr = Handlebars::new();
    let err = render_paragraph(&vec![text("hi")], &hbr).expect_err("no template registered");
    assert!(matches!(err, RenderError::Template(_)));
    assert!(err.message().starts_with("template rendering failed: "));
}

#[test]
fn heading_level_is_clamped() {
    let hbr = engine();
    let low = AstNode::Heading {
        level: 0,
        title: vec![text("low")],
        extensions: vec![],
        content: vec![],
    };
    let high = AstNode::Heading {
        level: 9,
        title: vec![text("high")],
        extensions: vec![],
        content: vec![],
    };
    assert_eq!(
        render_ast(&low, &hbr).expect("couldn't render"),
        "<section><h1>low</h1></section>"
    );
    assert_eq!(
        render_ast(&high, &hbr).expect("couldn't render"),
        "<section><h6>high</h6></section>"
    );
}

#[test]
fn composer_appends_in_input_order() {
    let mut buf = String::from("start:");
    let segments = vec![text("one "), link("t", vec![text("two")]), text(" three")];
    compose_segments(&segments, &mut buf).expect("couldn't compose");
    assert_eq!(buf, "start:one <a href=\"t.norg\">two</a> three");
}

#[test]
fn nested_label_composes_recursively() {
    let hbr = engine();
    let para = vec![link("outer", vec![text("see "), link("inner", vec![text("this")])])];
    assert_eq!(
        render_paragraph(&para, &hbr).expect("couldn't render paragraph"),
        "<p><a href=\"outer.norg\">see <a href=\"inner.norg\">this</a></a></p>"
    );
}

#[test]
fn empty_body_renders_empty() {
    let hbr = engine();
    assert_eq!(render_body(&vec![], &hbr).expect("couldn't render"), "");
}

#[test]
fn registering_helpers_twice_is_harmless() {
    let mut hbr = engine();
    assert!(registser_helpers(&mut hbr));
    let node = AstNode::Heading {
        level: 1,
        title: vec![text("Intro")],
        extensions: vec![],
        content: vec![],
    };
    assert_eq!(
        render_ast(&node, &hbr).expect("couldn't render heading"),
        "<section><h1>Intro</h1></section>"
    );
}

#[test]
fn heading_fails_fast_on_bad_child() {
    let hbr = engine();
    let node = AstNode::Heading {
        level: 1,
        title: vec![text("Intro")],
        extensions: vec![],
        content: vec![
            AstNode::Paragraph(vec![InlineSegment::Unsupported(String::from("table"))]),
            AstNode::Paragraph(vec![text("never reached")]),
        ],
    };
    let err = render_ast(&node, &hbr).expect_err("bad child must abort the heading");
    assert!(matches!(err, RenderError::Composition(_)));
}

#[test]
fn heading_template_receives_extensions() {
    let mut hbr = engine();
    hbr.register_template_string(
        "h1",
        "<section data-ext=\"{{{extensions}}}\"><h1>{{{title}}}</h1>{{{content}}}</section>",
    )
    .expect("couldn't register the extension-aware template");
    let node = AstNode::Heading {
        level: 1,
        title: vec![text("Tasks")],
        extensions: vec![String::from("todo"), String::from("urgent")],
        content: vec![],
    };
    assert_eq!(
        render_ast(&node, &hbr).expect("couldn't render heading"),
        "<section data-ext=\"todo urgent\"><h1>Tasks</h1></section>"
    );
}
