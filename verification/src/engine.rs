//! The traversal engine: walks the parsed fragment in document order and
//! dispatches the registered handlers.
//!
//! For each element the engine looks the tag name up: `a` runs the anchor
//! handler, `h1` through `h6` the heading handler, `pre`, `code` and
//! `samp` the code handler; any other element is transparent.  A matched
//! element gets a fresh handler instance; its entry step runs before the
//! tag name is pushed onto the parent chain, its exit step after the name
//! is popped, so handlers always see the chain of proper ancestors.
//!
//! `spec_emit` states what one node adds to the buffer, and
//! `spec_emit_nodes` what a sequence of siblings adds, each seeing the
//! buffer its predecessors left.  `spec_diags` states which hrefs failed
//! to resolve along the way.  The walker is proved to produce exactly
//! that text and exactly those reports.

use vstd::prelude::*;

use crate::anchor_handler::{spec_anchor_failure, spec_anchor_url, spec_is_tooltip,
    spec_parent_is_heading, AnchorHandler};
use crate::buffer::OutputBuffer;
use crate::chain::ParentChain;
use crate::code_handler::{code_entry, code_exit, is_code_name, is_code_tag, spec_language,
    CodeHandler};
use crate::dom::{spec_attr, spec_attr_or_empty, Element, Node};
use crate::header_handler::{heading_marker, is_heading_name, is_heading_tag, HeaderHandler};
use crate::strutil;
use crate::urls;

verus! {

/// The text `node` adds to a buffer holding `acc`, under the ancestor
/// chain `chain`, the configured base URL and the unpinning switch.
pub open spec fn spec_emit(
    node: Node,
    base: Option<Seq<char>>,
    unpin: bool,
    chain: Seq<Seq<char>>,
    acc: Seq<char>,
) -> Seq<char>
    decreases node,
{
    match node {
        Node::Text(t) => t@,
        Node::Element(e) => {
            let tag = e.name@;
            let chain2 = chain.push(tag);
            if tag == "a"@ {
                if spec_is_tooltip(e.attrs@) {
                    Seq::empty()
                } else {
                    let inner = spec_emit_nodes(e.children@, base, unpin, chain2, acc);
                    match urls::spec_resolve(
                        spec_attr_or_empty(e.attrs@, "href"@),
                        base,
                        unpin,
                        spec_parent_is_heading(chain),
                    ) {
                        Some(u) => "["@ + inner + "]("@ + u + ")"@,
                        None => inner,
                    }
                }
            } else if is_heading_name(tag) {
                let open = "\n\n"@ + heading_marker(tag);
                let inner = spec_emit_nodes(e.children@, base, unpin, chain2, acc + open);
                open + inner + "\n\n"@
            } else if is_code_name(tag) {
                let lang = spec_language(spec_attr(e.attrs@, "class"@));
                let open = code_entry(tag, chain, lang, acc);
                let inner = spec_emit_nodes(e.children@, base, unpin, chain2, acc + open);
                open + inner + code_exit(tag, chain, acc + open + inner)
            } else {
                spec_emit_nodes(e.children@, base, unpin, chain2, acc)
            }
        },
    }
}

/// The text a sequence of sibling nodes adds, in document order.
pub open spec fn spec_emit_nodes(
    nodes: Seq<Node>,
    base: Option<Seq<char>>,
    unpin: bool,
    chain: Seq<Seq<char>>,
    acc: Seq<char>,
) -> Seq<char>
    decreases nodes,
{
    if nodes.len() == 0 {
        Seq::empty()
    } else {
        let first = spec_emit(nodes[0], base, unpin, chain, acc);
        first + spec_emit_nodes(nodes.drop_first(), base, unpin, chain, acc + first)
    }
}

/// Peeling the last sibling off the fold: the whole sequence emits what
/// the front emits, followed by what the last node adds to the buffer the
/// front left.
pub proof fn lemma_emit_nodes_snoc(
    nodes: Seq<Node>,
    base: Option<Seq<char>>,
    unpin: bool,
    chain: Seq<Seq<char>>,
    acc: Seq<char>,
)
    requires
        nodes.len() > 0,
    ensures
        spec_emit_nodes(nodes, base, unpin, chain, acc) == spec_emit_nodes(
            nodes.drop_last(),
            base,
            unpin,
            chain,
            acc,
        ) + spec_emit(
            nodes.last(),
            base,
            unpin,
            chain,
            acc + spec_emit_nodes(nodes.drop_last(), base, unpin, chain, acc),
        ),
    decreases nodes.len(),
{
    let first = spec_emit(nodes[0], base, unpin, chain, acc);
    if nodes.len() == 1 {
        assert(nodes.drop_first() =~= Seq::<Node>::empty());
        assert(nodes.drop_last() =~= Seq::<Node>::empty());
        assert(acc + Seq::<char>::empty() =~= acc);
        assert(nodes.last() == nodes[0]);
        assert(spec_emit_nodes(nodes.drop_first(), base, unpin, chain, acc + first)
            == Seq::<char>::empty());
        assert(spec_emit_nodes(nodes, base, unpin, chain, acc) == first + Seq::<char>::empty());
        assert(first + Seq::<char>::empty() =~= first);
        assert(Seq::<char>::empty() + first =~= first);
    } else {
        let rest = nodes.drop_first();
        let accp = acc + first;
        lemma_emit_nodes_snoc(rest, base, unpin, chain, accp);
        let a = spec_emit_nodes(rest.drop_last(), base, unpin, chain, accp);
        let b = spec_emit(nodes.last(), base, unpin, chain, accp + a);
        assert(rest.last() == nodes.last());
        assert(spec_emit_nodes(rest, base, unpin, chain, accp) == a + b);
        assert(spec_emit_nodes(nodes, base, unpin, chain, acc) == first + (a + b));
        assert(nodes.drop_last().len() > 0);
        assert(nodes.drop_last()[0] == nodes[0]);
        assert(nodes.drop_last().drop_first() =~= rest.drop_last());
        assert(spec_emit_nodes(nodes.drop_last(), base, unpin, chain, acc) == spec_emit(
            nodes.drop_last()[0],
            base,
            unpin,
            chain,
            acc,
        ) + spec_emit_nodes(
            nodes.drop_last().drop_first(),
            base,
            unpin,
            chain,
            acc + spec_emit(nodes.drop_last()[0], base, unpin, chain, acc),
        ));
        assert(spec_emit_nodes(nodes.drop_last(), base, unpin, chain, acc) == first + a);
        assert(acc + (first + a) =~= accp + a);
        assert(first + (a + b) =~= (first + a) + b);
    }
}

/// The hrefs whose resolution against the base URL failed while
/// rendering `node`, in the order the anchors are visited: each anchor
/// reports its own failure before its descendants report theirs.
pub open spec fn spec_diags(node: Node, base: Option<Seq<char>>, unpin: bool, chain: Seq<
    Seq<char>,
>) -> Seq<Seq<char>>
    decreases node,
{
    match node {
        Node::Text(_) => Seq::empty(),
        Node::Element(e) => {
            let tag = e.name@;
            let chain2 = chain.push(tag);
            if tag == "a"@ {
                if spec_is_tooltip(e.attrs@) {
                    Seq::empty()
                } else {
                    let own: Seq<Seq<char>> = match spec_anchor_failure(
                        e.attrs@,
                        base,
                        unpin,
                        chain,
                    ) {
                        Some(f) => seq![f],
                        None => Seq::empty(),
                    };
                    own + spec_diags_nodes(e.children@, base, unpin, chain2)
                }
            } else {
                spec_diags_nodes(e.children@, base, unpin, chain2)
            }
        },
    }
}

/// The failed hrefs a sequence of sibling nodes reports, in document
/// order.
pub open spec fn spec_diags_nodes(
    nodes: Seq<Node>,
    base: Option<Seq<char>>,
    unpin: bool,
    chain: Seq<Seq<char>>,
) -> Seq<Seq<char>>
    decreases nodes,
{
    if nodes.len() == 0 {
        Seq::empty()
    } else {
        spec_diags(nodes[0], base, unpin, chain) + spec_diags_nodes(
            nodes.drop_first(),
            base,
            unpin,
            chain,
        )
    }
}

/// Peeling the last sibling off the report fold.
pub proof fn lemma_diags_nodes_snoc(
    nodes: Seq<Node>,
    base: Option<Seq<char>>,
    unpin: bool,
    chain: Seq<Seq<char>>,
)
    requires
        nodes.len() > 0,
    ensures
        spec_diags_nodes(nodes, base, unpin, chain) == spec_diags_nodes(
            nodes.drop_last(),
            base,
            unpin,
            chain,
        ) + spec_diags(nodes.last(), base, unpin, chain),
    decreases nodes.len(),
{
    let d0 = spec_diags(nodes[0], base, unpin, chain);
    if nodes.len() == 1 {
        assert(nodes.drop_first() =~= Seq::<Node>::empty());
        assert(nodes.drop_last() =~= Seq::<Node>::empty());
        assert(nodes.last() == nodes[0]);
        assert(spec_diags_nodes(nodes.drop_first(), base, unpin, chain) == Seq::<Seq<char>>::empty());
        assert(spec_diags_nodes(nodes, base, unpin, chain) == d0 + Seq::<Seq<char>>::empty());
        assert(d0 + Seq::<Seq<char>>::empty() =~= d0);
        assert(Seq::<Seq<char>>::empty() + d0 =~= d0);
    } else {
        let rest = nodes.drop_first();
        lemma_diags_nodes_snoc(rest, base, unpin, chain);
        let a = spec_diags_nodes(rest.drop_last(), base, unpin, chain);
        let b = spec_diags(nodes.last(), base, unpin, chain);
        assert(rest.last() == nodes.last());
        assert(spec_diags_nodes(rest, base, unpin, chain) == a + b);
        assert(spec_diags_nodes(nodes, base, unpin, chain) == d0 + (a + b));
        assert(nodes.drop_last().len() > 0);
        assert(nodes.drop_last()[0] == nodes[0]);
        assert(nodes.drop_last().drop_first() =~= rest.drop_last());
        assert(spec_diags_nodes(nodes.drop_last(), base, unpin, chain) == spec_diags(
            nodes.drop_last()[0],
            base,
            unpin,
            chain,
        ) + spec_diags_nodes(nodes.drop_last().drop_first(), base, unpin, chain));
        assert(spec_diags_nodes(nodes.drop_last(), base, unpin, chain) == d0 + a);
        assert(d0 + (a + b) =~= (d0 + a) + b);
    }
}

/// Every heading element is emitted on its own block: a blank line,
/// exactly `level` `#` characters followed by one space, the text of its
/// children, and a closing blank line.
pub proof fn lemma_heading_emission(
    e: Element,
    base: Option<Seq<char>>,
    unpin: bool,
    chain: Seq<Seq<char>>,
    acc: Seq<char>,
)
    requires
        is_heading_name(e.name@),
    ensures
        1 <= crate::header_handler::heading_level(e.name@) <= 6,
        spec_emit(Node::Element(e), base, unpin, chain, acc) == ("\n\n"@ + Seq::new(
            crate::header_handler::heading_level(e.name@) as nat,
            |i: int| '#',
        ).push(' ')) + spec_emit_nodes(
            e.children@,
            base,
            unpin,
            chain.push(e.name@),
            acc + ("\n\n"@ + heading_marker(e.name@)),
        ) + "\n\n"@,
{
    broadcast use vstd::string::group_string_axioms;

    crate::header_handler::lemma_heading_marker_shape(e.name@);
    reveal_strlit("a");
    reveal_strlit("h1");
    reveal_strlit("h2");
    reveal_strlit("h3");
    reveal_strlit("h4");
    reveal_strlit("h5");
    reveal_strlit("h6");
    assert("a"@.len() == 1);
    assert("h1"@.len() == 2);
    assert("h2"@.len() == 2);
    assert("h3"@.len() == 2);
    assert("h4"@.len() == 2);
    assert("h5"@.len() == 2);
    assert("h6"@.len() == 2);
    assert(e.name@ != "a"@);
}

/// A `code` element sitting directly under a `pre` block adds no markup
/// of its own, on entry or on exit: it emits exactly what its children
/// emit, so an active fence is never doubled.
pub proof fn lemma_code_inside_pre(
    e: Element,
    base: Option<Seq<char>>,
    unpin: bool,
    chain: Seq<Seq<char>>,
    acc: Seq<char>,
)
    requires
        e.name@ == "code"@,
        crate::chain::spec_top_is(chain, "pre"@),
    ensures
        spec_emit(Node::Element(e), base, unpin, chain, acc) == spec_emit_nodes(
            e.children@,
            base,
            unpin,
            chain.push("code"@),
            acc,
        ),
{
    broadcast use vstd::string::group_string_axioms;

    reveal_strlit("a");
    reveal_strlit("h1");
    reveal_strlit("h2");
    reveal_strlit("h3");
    reveal_strlit("h4");
    reveal_strlit("h5");
    reveal_strlit("h6");
    reveal_strlit("pre");
    reveal_strlit("code");
    assert("a"@.len() == 1);
    assert("h1"@.len() == 2);
    assert("h2"@.len() == 2);
    assert("h3"@.len() == 2);
    assert("h4"@.len() == 2);
    assert("h5"@.len() == 2);
    assert("h6"@.len() == 2);
    assert("code"@.len() == 4);
    assert(e.name@ != "a"@);
    assert(!is_heading_name(e.name@));
    let inner = spec_emit_nodes(e.children@, base, unpin, chain.push("code"@), acc);
    assert(acc + Seq::<char>::empty() =~= acc);
    assert(Seq::<char>::empty() + inner + Seq::<char>::empty() =~= inner);
}

/// Render one node: dispatch a handler by tag name, run its entry step,
/// descend into the children with the tag on the parent chain, then run
/// its exit step.  The buffer grows by exactly `spec_emit` of the node;
/// the chain is restored.
#[verifier::rlimit(100)]
pub fn render_node(
    node: &Node,
    printer: &mut OutputBuffer,
    chain: &mut ParentChain,
    diags: &mut Vec<String>,
    base: &Option<String>,
    unpin: bool,
)
    ensures
        final(chain)@ == old(chain)@,
        final(printer)@ == old(printer)@ + spec_emit(
            *node,
            base.deep_view(),
            unpin,
            old(chain)@,
            old(printer)@,
        ),
        final(diags).deep_view() == old(diags).deep_view() + spec_diags(
            *node,
            base.deep_view(),
            unpin,
            old(chain)@,
        ),
    decreases *node,
{
    match node {
        Node::Text(t) => {
            printer.append(t.as_str());
            proof {
                assert(diags.deep_view() =~= diags.deep_view() + Seq::<Seq<char>>::empty());
            }
        },
        Node::Element(e) => {
            let ghost acc = printer@;
            let ghost chain0 = chain@;
            let ghost basev = base.deep_view();
            let ghost diags0 = diags.deep_view();
            if strutil::str_eq(e.name.as_str(), "a") {
                let base_cl: Option<String> = match base {
                    Some(b) => Some(b.clone()),
                    None => None,
                };
                let mut h = AnchorHandler::new(base_cl, unpin);
                h.handle(e, printer, chain);
                let ghost url = spec_anchor_url(e.attrs@, basev, unpin, chain0);
                let ghost failure = spec_anchor_failure(e.attrs@, basev, unpin, chain0);
                if let Some(f) = &h.failed_href {
                    diags.push(f.clone());
                    proof {
                        assert(diags.deep_view() =~= diags0.push(f@));
                        assert(diags0.push(f@) =~= diags0 + seq![f@]);
                    }
                }
                let ghost diags1 = diags.deep_view();
                if !h.skip_descendants() {
                    chain.push(e.name.clone());
                    render_children(&e.children, printer, chain, diags, base, unpin);
                    chain.pop();
                    proof {
                        assert(chain0.push(e.name@).drop_last() =~= chain0);
                    }
                }
                h.after_handle(printer);
                proof {
                    let inner = spec_emit_nodes(
                        e.children@,
                        basev,
                        unpin,
                        chain0.push(e.name@),
                        acc,
                    );
                    let dinner = spec_diags_nodes(e.children@, basev, unpin, chain0.push(e.name@));
                    if spec_is_tooltip(e.attrs@) {
                        assert(printer@ =~= acc + Seq::<char>::empty());
                        assert(diags.deep_view() =~= diags0 + Seq::<Seq<char>>::empty());
                    } else {
                        assert((acc + inner).subrange(0, acc.len() as int) =~= acc);
                        assert((acc + inner).skip(acc.len() as int) =~= inner);
                        if url is Some {
                            let u = url->0;
                            assert(printer@ =~= acc + ("["@ + inner + "]("@ + u + ")"@));
                        } else {
                            assert(printer@ =~= acc + inner);
                        }
                        if failure is Some {
                            assert(diags1 == diags0 + seq![failure->0]);
                            assert((diags0 + seq![failure->0]) + dinner =~= diags0 + (seq![
                                failure->0,
                            ] + dinner));
                        } else {
                            assert(diags1 == diags0);
                            assert(diags0 + (Seq::<Seq<char>>::empty() + dinner) =~= diags0
                                + dinner);
                        }
                    }
                }
            } else if is_heading_tag(e.name.as_str()) {
                let mut h = HeaderHandler::new();
                h.handle(e, printer);
                chain.push(e.name.clone());
                render_children(&e.children, printer, chain, diags, base, unpin);
                chain.pop();
                h.after_handle(printer);
                proof {
                    assert(chain0.push(e.name@).drop_last() =~= chain0);
                    let open = "\n\n"@ + heading_marker(e.name@);
                    let inner = spec_emit_nodes(
                        e.children@,
                        basev,
                        unpin,
                        chain0.push(e.name@),
                        acc + open,
                    );
                    assert(acc + "\n\n"@ + heading_marker(e.name@) =~= acc + open);
                    assert((acc + open) + inner + "\n\n"@ =~= acc + (open + inner + "\n\n"@));
                }
            } else if is_code_tag(e.name.as_str()) {
                let mut h = CodeHandler::new();
                h.handle(e, printer, chain);
                chain.push(e.name.clone());
                render_children(&e.children, printer, chain, diags, base, unpin);
                chain.pop();
                h.after_handle(e, printer, chain);
                proof {
                    assert(chain0.push(e.name@).drop_last() =~= chain0);
                    let lang = spec_language(spec_attr(e.attrs@, "class"@));
                    let open = code_entry(e.name@, chain0, lang, acc);
                    let inner = spec_emit_nodes(
                        e.children@,
                        basev,
                        unpin,
                        chain0.push(e.name@),
                        acc + open,
                    );
                    assert((acc + open) + inner =~= acc + open + inner);
                    assert((acc + open + inner) + code_exit(e.name@, chain0, acc + open + inner)
                        =~= acc + (open + inner + code_exit(e.name@, chain0, acc + open + inner)));
                }
            } else {
                chain.push(e.name.clone());
                render_children(&e.children, printer, chain, diags, base, unpin);
                chain.pop();
                proof {
                    assert(chain0.push(e.name@).drop_last() =~= chain0);
                }
            }
        },
    }
}

/// Render a sequence of sibling nodes in document order.
pub fn render_children(
    nodes: &Vec<Node>,
    printer: &mut OutputBuffer,
    chain: &mut ParentChain,
    diags: &mut Vec<String>,
    base: &Option<String>,
    unpin: bool,
)
    ensures
        final(chain)@ == old(chain)@,
        final(printer)@ == old(printer)@ + spec_emit_nodes(
            nodes@,
            base.deep_view(),
            unpin,
            old(chain)@,
            old(printer)@,
        ),
        final(diags).deep_view() == old(diags).deep_view() + spec_diags_nodes(
            nodes@,
            base.deep_view(),
            unpin,
            old(chain)@,
        ),
    decreases nodes@,
{
    let n = nodes.len();
    let mut i: usize = 0;
    proof {
        assert(nodes@.subrange(0, 0) =~= Seq::<Node>::empty());
        assert(old(printer)@ + Seq::<char>::empty() =~= old(printer)@);
        assert(old(diags).deep_view() + Seq::<Seq<char>>::empty() =~= old(diags).deep_view());
    }
    while i < n
        invariant
            n == nodes@.len(),
            i <= n,
            chain@ == old(chain)@,
            printer@ == old(printer)@ + spec_emit_nodes(
                nodes@.subrange(0, i as int),
                base.deep_view(),
                unpin,
                old(chain)@,
                old(printer)@,
            ),
            diags.deep_view() == old(diags).deep_view() + spec_diags_nodes(
                nodes@.subrange(0, i as int),
                base.deep_view(),
                unpin,
                old(chain)@,
            ),
        decreases n - i,
    {
        proof {
            assert(decreases_to!(nodes@ => nodes@[i as int]));
        }
        render_node(&nodes[i], printer, chain, diags, base, unpin);
        proof {
            lemma_emit_nodes_snoc(
                nodes@.subrange(0, (i + 1) as int),
                base.deep_view(),
                unpin,
                old(chain)@,
                old(printer)@,
            );
            lemma_diags_nodes_snoc(
                nodes@.subrange(0, (i + 1) as int),
                base.deep_view(),
                unpin,
                old(chain)@,
            );
            assert(nodes@.subrange(0, (i + 1) as int).drop_last() =~= nodes@.subrange(0, i as int));
            assert(nodes@.subrange(0, (i + 1) as int).last() == nodes@[i as int]);
        }
        i += 1;
    }
    proof {
        assert(nodes@.subrange(0, n as int) =~= nodes@);
    }
}

} // verus!
