use doc2readme::convert::{render_document, Options};
use doc2readme::dom::{Attr, Element, Node};
use doc2readme::markdown::Item;

fn text(s: &str) -> Node {
    Node::Text(String::from(s))
}

fn attr(name: &str, value: &str) -> Attr {
    Attr { name: String::from(name), value: String::from(value) }
}

fn el(name: &str, attrs: Vec<Attr>, children: Vec<Node>) -> Node {
    Node::Element(Element { name: String::from(name), attrs, children })
}

fn render(nodes: &Vec<Node>, options: &Options) -> String {
    let (markdown, failures) = render_document(nodes, options);
    assert!(failures.is_empty());
    markdown
}

fn with_base(base: &str) -> Options {
    Options { base_url: Some(String::from(base)), ..Default::default() }
}

#[test]
fn fragment_link_passes_through() {
    let nodes = vec![el("a", vec![attr("href", "#section")], vec![text("jump")])];
    let markdown = render(&nodes, &Options::default());
    assert_eq!("[jump](#section)", markdown);
}

#[test]
fn http_link_passes_through() {
    let nodes = vec![el("a", vec![attr("href", "http://dagans.dev/x")], vec![text("hi")])];
    let markdown = render(&nodes, &Options::default());
    assert_eq!("[hi](http://dagans.dev/x)", markdown);
}

#[test]
fn heading_self_link_suppressed() {
    let nodes = vec![el(
        "h2",
        vec![],
        vec![el("a", vec![attr("href", "#usage")], vec![text("Usage")])],
    )];
    let markdown = render(&nodes, &Options::default());
    assert_eq!("\n\n## Usage\n\n", markdown);
}

#[test]
fn heading_absolute_link_kept() {
    let nodes = vec![el(
        "h2",
        vec![],
        vec![el("a", vec![attr("href", "https://dagans.dev/")], vec![text("Usage")])],
    )];
    let markdown = render(&nodes, &Options::default());
    assert_eq!("\n\n## [Usage](https://dagans.dev/)\n\n", markdown);
}

#[test]
fn missing_href_without_base_degrades() {
    let nodes = vec![el("a", vec![], vec![text("hi")])];
    let markdown = render(&nodes, &Options::default());
    assert_eq!("hi", markdown);
}

#[test]
fn base_without_trailing_slash_is_normalized() {
    let nodes = vec![el("a", vec![attr("href", "fun")], vec![text("hi")])];
    let markdown = render(&nodes, &with_base("https://dagans.dev/page"));
    assert_eq!("[hi](https://dagans.dev/page/fun)", markdown);
}

#[test]
fn dotdot_segments_resolve_against_base() {
    let nodes = vec![el("a", vec![attr("href", "../other")], vec![text("hi")])];
    let markdown = render(&nodes, &with_base("https://dagans.dev/a/b/"));
    assert_eq!("[hi](https://dagans.dev/a/other)", markdown);
}

#[test]
fn unpin_ignores_other_hosts_and_shapes() {
    let options = Options { unpin_std_docs: true, ..Default::default() };
    let untouched = [
        "https://docs.rs/1.75.0/core/iter.html",
        "https://doc.rust-lang.org/1.75/core/iter.html",
        "https://doc.rust-lang.org/edge/core/iter.html",
        "https://doc.rust-lang.org/stable/book/iter.html",
        "https://doc.rust-lang.org/stable/core",
        "https://doc.rust-lang.org/1.2.3.4/core/iter.html",
    ];
    for url in untouched {
        let nodes = vec![el("a", vec![attr("href", url)], vec![text("x")])];
        let markdown = render(&nodes, &options);
        assert_eq!(format!("[x]({url})"), markdown);
    }
}

#[test]
fn unpin_accepts_any_version_digits() {
    let options = Options { unpin_std_docs: true, ..Default::default() };
    let cases = [
        ("https://doc.rust-lang.org/10.0.0/std/x", "https://doc.rust-lang.org/std/x"),
        ("https://doc.rust-lang.org/1.123456.0/core/x", "https://doc.rust-lang.org/core/x"),
    ];
    for (pinned, unpinned) in cases {
        let nodes = vec![el("a", vec![attr("href", pinned)], vec![text("x")])];
        let markdown = render(&nodes, &options);
        assert_eq!(format!("[x]({unpinned})"), markdown);
    }
}

#[test]
fn samp_gets_backticks() {
    let nodes = vec![el("samp", vec![], vec![text("output")])];
    let markdown = render(&nodes, &Options::default());
    assert_eq!("`output`", markdown);
}

#[test]
fn rust_token_beats_language_class() {
    let nodes = vec![el("pre", vec![attr("class", "language-c rust")], vec![text("x\n")])];
    let markdown = render(&nodes, &Options::default());
    assert_eq!("```rust\nx\n```", markdown.trim());
}

#[test]
fn language_rust_suffix_is_not_the_rust_token() {
    let nodes = vec![el(
        "pre",
        vec![attr("class", "language-rust language-c")],
        vec![text("x\n")],
    )];
    let markdown = render(&nodes, &Options::default());
    assert_eq!("```c\nx\n```", markdown.trim());
}

#[test]
fn failed_resolution_is_reported() {
    let nodes = vec![el("a", vec![attr("href", "fun")], vec![text("hi")])];
    let options = with_base("::not a url::");
    let (markdown, failures) = render_document(&nodes, &options);
    assert_eq!("hi", markdown);
    assert_eq!(vec![String::from("fun")], failures);
}

#[test]
fn unpin_keeps_rest_of_path() {
    let options = Options { unpin_std_docs: true, ..Default::default() };
    let nodes = vec![el(
        "a",
        vec![attr("href", "https://doc.rust-lang.org/nightly/alloc/")],
        vec![text("x")],
    )];
    let markdown = render(&nodes, &options);
    assert_eq!("[x](https://doc.rust-lang.org/alloc/)", markdown);
}

#[test]
fn first_href_attribute_wins() {
    let nodes = vec![el(
        "a",
        vec![attr("href", "https://dagans.dev/first"), attr("href", "https://dagans.dev/second")],
        vec![text("hi")],
    )];
    let markdown = render(&nodes, &Options::default());
    assert_eq!("[hi](https://dagans.dev/first)", markdown);
}

#[test]
fn markdown_items_classified() {
    assert!(Item::Text(String::from("x")).is_span());
    assert!(Item::CodeSpan(vec![]).is_span());
    assert!(Item::Link(String::from("u"), vec![]).is_span());
    assert!(!Item::Paragraph(vec![]).is_span());
    assert!(Item::Paragraph(vec![]).is_block());
    assert!(Item::CodeBlock(vec![]).is_block());
    assert!(Item::UnorderedList(vec![Item::ListItem(vec![])]).is_block());
    assert!(!Item::Text(String::from("x")).is_block());
}

#[test]
fn resolver_joins_relative_hrefs() {
    let base = Some("https://example.com/page/");
    let r = doc2readme::urls::resolve_href("fun", base, false, false);
    assert_eq!(Some(String::from("https://example.com/page/fun")), r.url);
    assert_eq!(None, r.failed_href);

    let r = doc2readme::urls::resolve_href("/fun", base, false, false);
    assert_eq!(Some(String::from("https://example.com/fun")), r.url);

    let r = doc2readme::urls::resolve_href("fun", None, false, false);
    assert_eq!(None, r.url);
    assert_eq!(None, r.failed_href);
}

#[test]
fn unpin_rewrites_once_and_stays_put() {
    let pinned = "https://doc.rust-lang.org/1.75.0/core/iter/trait.Iterator.html";
    let unpinned = doc2readme::urls::unpin_std_docs(pinned);
    assert_eq!("https://doc.rust-lang.org/core/iter/trait.Iterator.html", unpinned);
    assert_eq!(unpinned, doc2readme::urls::unpin_std_docs(&unpinned));
}
