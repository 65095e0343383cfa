//! The public entry: render a parsed documentation fragment as Markdown.

use vstd::prelude::*;

use crate::buffer::OutputBuffer;
use crate::chain::ParentChain;
use crate::dom::Node;
use crate::engine;
use crate::urls;

verus! {

/// Conversion options.
#[derive(Clone, Debug)]
pub struct Options {
    /// Base URL used to convert relative links to absolute ones.
    pub base_url: Option<String>,
    /// Unpin `std` documentation versions?
    pub unpin_std_docs: bool,
}

impl Default for Options {
    /// No base URL, no unpinning.
    fn default() -> (r: Self)
        ensures
            r.base_url is None,
            !r.unpin_std_docs,
    {
        Options { base_url: None, unpin_std_docs: false }
    }
}

/// The configured base URL as the handlers see it: normalised to end in a
/// path separator, so relative references resolve as children of its path.
pub open spec fn spec_base(options: Options) -> Option<Seq<char>> {
    match options.base_url {
        Some(b) => Some(urls::spec_normalize_base(b@)),
        None => None,
    }
}

/// Render a parsed documentation fragment as Markdown: the concatenation
/// every node adds in document order, starting from an empty buffer and an
/// empty ancestor chain.  Returned beside the text are the hrefs whose
/// resolution against the base URL failed: each such anchor degrades to
/// plain text, and the failure is reported here rather than dropped.
pub fn render_document(nodes: &Vec<Node>, options: &Options) -> (r: (String, Vec<String>))
    ensures
        r.0@ == engine::spec_emit_nodes(
            nodes@,
            spec_base(*options),
            options.unpin_std_docs,
            Seq::<Seq<char>>::empty(),
            Seq::<char>::empty(),
        ),
        r.1.deep_view() == engine::spec_diags_nodes(
            nodes@,
            spec_base(*options),
            options.unpin_std_docs,
            Seq::<Seq<char>>::empty(),
        ),
{
    let base: Option<String> = match &options.base_url {
        Some(b) => Some(urls::normalize_base(b.as_str())),
        None => None,
    };
    proof {
        assert(base.deep_view() == spec_base(*options));
    }
    let mut printer = OutputBuffer::new();
    let mut chain = ParentChain::new();
    let mut diags: Vec<String> = Vec::new();
    proof {
        assert(diags.deep_view() =~= Seq::<Seq<char>>::empty());
    }
    engine::render_children(
        nodes,
        &mut printer,
        &mut chain,
        &mut diags,
        &base,
        options.unpin_std_docs,
    );
    proof {
        assert(Seq::<char>::empty() + engine::spec_emit_nodes(
            nodes@,
            spec_base(*options),
            options.unpin_std_docs,
            Seq::<Seq<char>>::empty(),
            Seq::<char>::empty(),
        ) =~= engine::spec_emit_nodes(
            nodes@,
            spec_base(*options),
            options.unpin_std_docs,
            Seq::<Seq<char>>::empty(),
            Seq::<char>::empty(),
        ));
        assert(Seq::<Seq<char>>::empty() + engine::spec_diags_nodes(
            nodes@,
            spec_base(*options),
            options.unpin_std_docs,
            Seq::<Seq<char>>::empty(),
        ) =~= engine::spec_diags_nodes(
            nodes@,
            spec_base(*options),
            options.unpin_std_docs,
            Seq::<Seq<char>>::empty(),
        ));
    }
    (printer.into_string(), diags)
}

} // verus!
