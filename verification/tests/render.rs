use doc2readme::convert::{render_document, Options};
use doc2readme::dom::{Attr, Element, Node};

fn text(s: &str) -> Node {
    Node::Text(String::from(s))
}

fn attr(name: &str, value: &str) -> Attr {
    Attr { name: String::from(name), value: String::from(value) }
}

fn el(name: &str, attrs: Vec<Attr>, children: Vec<Node>) -> Node {
    Node::Element(Element { name: String::from(name), attrs, children })
}

fn render(nodes: &Vec<Node>, options: &Options) -> String {
    let (markdown, failures) = render_document(nodes, options);
    assert!(failures.is_empty());
    markdown
}

#[test]
fn codeblock() {
    let nodes = vec![el(
        "div",
        vec![attr("class", "example-wrap")],
        vec![el(
            "pre",
            vec![attr("class", "language-notrust")],
            vec![el("code", vec![], vec![text("hello you!\n")])],
        )],
    )];
    let markdown = render(&nodes, &Options::default());
    assert_eq!("```notrust\nhello you!\n```", markdown.trim());
}

#[test]
fn strip_relative_links() {
    let nodes = vec![el("a", vec![attr("href", "fun")], vec![text("hi")])];
    let markdown = render(&nodes, &Options::default());
    assert_eq!("hi", markdown.trim());

    let nodes = vec![el("a", vec![attr("href", "/fun")], vec![text("hi")])];
    let markdown = render(&nodes, &Options::default());
    assert_eq!("hi", markdown.trim());

    let nodes = vec![el("a", vec![attr("href", "https://dagans.dev/fun")], vec![text("hi")])];
    let markdown = render(&nodes, &Options::default());
    assert_eq!("[hi](https://dagans.dev/fun)", markdown.trim());
}

#[test]
fn relative_links() {
    let options = Options {
        base_url: Some(String::from("https://dagans.dev/page/")),
        ..Default::default()
    };

    let nodes = vec![el("a", vec![attr("href", "fun")], vec![text("hi")])];
    let markdown = render(&nodes, &options);
    assert_eq!("[hi](https://dagans.dev/page/fun)", markdown.trim());

    let nodes = vec![el("a", vec![attr("href", "/fun")], vec![text("hi")])];
    let markdown = render(&nodes, &options);
    assert_eq!("[hi](https://dagans.dev/fun)", markdown.trim());

    let nodes = vec![el("a", vec![attr("href", "https://dagans.dev/fun")], vec![text("hi")])];
    let markdown = render(&nodes, &options);
    assert_eq!("[hi](https://dagans.dev/fun)", markdown.trim());
}

#[test]
fn unpin_std_docs_version() {
    let options = Options { unpin_std_docs: true, ..Default::default() };
    let urls = [
        "https://doc.rust-lang.org/1.75.0/core/iter/trait.Iterator.html",
        "https://doc.rust-lang.org/stable/core/iter/trait.Iterator.html",
        "https://doc.rust-lang.org/beta/core/iter/trait.Iterator.html",
        "https://doc.rust-lang.org/nightly/core/iter/trait.Iterator.html",
        // Future version of Rust
        "https://doc.rust-lang.org/9.743.234/core/iter/trait.Iterator.html",
        // Base case
        "https://doc.rust-lang.org/core/iter/trait.Iterator.html",
    ];

    for url in urls {
        let nodes = vec![el("a", vec![attr("href", url)], vec![text("link")])];
        let markdown = render(&nodes, &options);
        assert_eq!(
            "[link](https://doc.rust-lang.org/core/iter/trait.Iterator.html)",
            markdown.trim()
        );
    }
}

#[test]
fn heading_levels() {
    let cases = [
        ("h1", "# Title"),
        ("h2", "## Title"),
        ("h3", "### Title"),
        ("h4", "#### Title"),
        ("h5", "##### Title"),
        ("h6", "###### Title"),
    ];
    for (tag, expected) in cases {
        let nodes = vec![el(tag, vec![], vec![text("Title")])];
        let markdown = render(&nodes, &Options::default());
        // The heading sits on its own block, with blank lines around it.
        assert_eq!(format!("\n\n{expected}\n\n"), markdown);
    }
}

#[test]
fn code_inside_pre_not_doubled() {
    let nodes = vec![el("pre", vec![], vec![el("code", vec![], vec![text("hi\n")])])];
    let markdown = render(&nodes, &Options::default());
    assert_eq!("\n\n```\nhi\n```\n", markdown);
    assert!(!markdown.contains("````"));
    assert!(!markdown.contains("`hi`"));
}

#[test]
fn inline_code_backticks() {
    let nodes = vec![text("use "), el("code", vec![], vec![text("foo::bar")]), text(" here")];
    let markdown = render(&nodes, &Options::default());
    assert_eq!("use `foo::bar` here", markdown);
}

#[test]
fn rust_class_names_language() {
    let nodes = vec![el(
        "pre",
        vec![attr("class", "rust rust-example-rendered")],
        vec![text("fn main() {}\n")],
    )];
    let markdown = render(&nodes, &Options::default());
    assert_eq!("```rust\nfn main() {}\n```", markdown.trim());
}

#[test]
fn last_language_class_wins() {
    let nodes = vec![el(
        "pre",
        vec![attr("class", "language-first language-second")],
        vec![text("x\n")],
    )];
    let markdown = render(&nodes, &Options::default());
    assert_eq!("```second\nx\n```", markdown.trim());
}

#[test]
fn unmatched_tags_are_transparent() {
    let nodes = vec![el(
        "p",
        vec![],
        vec![text("one "), el("em", vec![], vec![text("two")]), text(" three")],
    )];
    let markdown = render(&nodes, &Options::default());
    assert_eq!("one two three", markdown);
}

#[test]
fn tooltip_anchor_dropped_entirely() {
    let nodes = vec![
        text("before"),
        el("a", vec![attr("class", "tooltip"), attr("href", "x")], vec![text("tip")]),
        text("after"),
    ];
    let markdown = render(&nodes, &Options::default());
    assert_eq!("beforeafter", markdown);
}
