//! Scenario tests for the scanner and the inliner, on documents built in
//! the library's own model.

use cssinliner::inline::inline_stylesheets;
use cssinliner::model::Node;
use cssinliner::scan::scan_stylesheets;

fn link(href: &str) -> Node {
    Node::Element {
        name: "link".to_string(),
        attrs: vec![
            ("rel".to_string(), "stylesheet".to_string()),
            ("href".to_string(), href.to_string()),
        ],
        children: vec![],
    }
}

fn style(css: &str) -> Node {
    Node::Element {
        name: "style".to_string(),
        attrs: vec![],
        children: vec![Node::Text(css.to_string())],
    }
}

fn page(head_children: Vec<Node>) -> Vec<Node> {
    vec![Node::Element {
        name: "html".to_string(),
        attrs: vec![],
        children: vec![
            Node::Element {
                name: "head".to_string(),
                attrs: vec![],
                children: head_children,
            },
            Node::Element {
                name: "body".to_string(),
                attrs: vec![],
                children: vec![Node::Text("hello".to_string())],
            },
        ],
    }]
}

#[test]
fn scan_finds_single_link() {
    let doc = page(vec![link("style.css")]);
    let hrefs = scan_stylesheets(&doc);
    assert_eq!(hrefs, vec!["style.css".to_string()]);
}

#[test]
fn scan_is_in_document_order() {
    let doc = page(vec![link("a.css"), Node::Comment("x".to_string()), link("b.css")]);
    let hrefs = scan_stylesheets(&doc);
    assert_eq!(hrefs, vec!["a.css".to_string(), "b.css".to_string()]);
}

#[test]
fn scan_skips_external_marker() {
    let doc = page(vec![link("a.css"), link("theme.css?external")]);
    let hrefs = scan_stylesheets(&doc);
    assert_eq!(hrefs, vec!["a.css".to_string()]);
}

#[test]
fn scan_skips_wrong_rel_and_blank_href() {
    let doc = page(vec![
        Node::Element {
            name: "link".to_string(),
            attrs: vec![
                ("rel".to_string(), "icon".to_string()),
                ("href".to_string(), "favicon.ico".to_string()),
            ],
            children: vec![],
        },
        link("  \t "),
        Node::Element {
            name: "link".to_string(),
            attrs: vec![("rel".to_string(), "stylesheet".to_string())],
            children: vec![],
        },
    ]);
    let hrefs = scan_stylesheets(&doc);
    assert!(hrefs.is_empty());
}

#[test]
fn single_link_is_inlined() {
    let doc = page(vec![link("style.css")]);
    let out = inline_stylesheets(&doc, &vec![Some("body{margin:0}".to_string())]);
    assert_eq!(out, page(vec![style("body{margin:0}")]));
}

#[test]
fn external_marker_is_left_untouched() {
    let doc = page(vec![link("a.css"), link("theme.css?external")]);
    let out = inline_stylesheets(&doc, &vec![Some("p{color:red}".to_string())]);
    assert_eq!(out, page(vec![style("p{color:red}"), link("theme.css?external")]));
}

#[test]
fn missing_file_leaves_reference_untouched() {
    let doc = page(vec![link("/missing.css"), link("ok.css")]);
    let out = inline_stylesheets(&doc, &vec![None, Some("h1{x:y}".to_string())]);
    assert_eq!(out, page(vec![link("/missing.css"), style("h1{x:y}")]));
}

#[test]
fn order_is_preserved_among_siblings() {
    let doc = page(vec![
        Node::Text("before".to_string()),
        link("a.css"),
        Node::Comment("mid".to_string()),
        link("b.css"),
        Node::Text("after".to_string()),
    ]);
    let out = inline_stylesheets(
        &doc,
        &vec![Some("a{}".to_string()), Some("b{}".to_string())],
    );
    assert_eq!(
        out,
        page(vec![
            Node::Text("before".to_string()),
            style("a{}"),
            Node::Comment("mid".to_string()),
            style("b{}"),
            Node::Text("after".to_string()),
        ])
    );
}

#[test]
fn second_run_changes_nothing_and_runs_agree() {
    let doc = page(vec![link("style.css")]);
    let contents = vec![Some("body{margin:0}".to_string())];
    let once = inline_stylesheets(&doc, &contents);
    let again = inline_stylesheets(&doc, &contents);
    assert_eq!(once, again);
    // the output holds no stylesheet reference any more, so a second pass
    // over it consumes nothing and leaves it as it is
    assert!(scan_stylesheets(&once).is_empty());
    let twice = inline_stylesheets(&once, &vec![]);
    assert_eq!(twice, once);
}

#[test]
fn empty_document_stays_empty() {
    let doc: Vec<Node> = vec![];
    assert!(scan_stylesheets(&doc).is_empty());
    assert!(inline_stylesheets(&doc, &vec![]).is_empty());
}

#[test]
fn first_of_equal_attribute_names_wins() {
    let doc = page(vec![Node::Element {
        name: "link".to_string(),
        attrs: vec![
            ("rel".to_string(), "stylesheet".to_string()),
            ("href".to_string(), "first.css".to_string()),
            ("href".to_string(), "second.css".to_string()),
        ],
        children: vec![],
    }]);
    assert_eq!(scan_stylesheets(&doc), vec!["first.css".to_string()]);
}

#[test]
fn doctype_text_and_comments_survive() {
    let doc = vec![
        Node::Doctype("html".to_string()),
        Node::Comment("note".to_string()),
        Node::Text("raw".to_string()),
    ];
    let out = inline_stylesheets(&doc, &vec![]);
    assert_eq!(out, doc);
}
