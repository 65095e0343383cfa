//! The anchor handler: turns `a` elements into Markdown links, or strips
//! them back to plain text.
//!
//! On entry it records the buffer offset (where the opening bracket will
//! later be inserted), drops tooltip anchors entirely, and classifies the
//! `href`.  On exit, if a URL was resolved, it wraps everything the
//! descendants emitted in `[...](url)`; otherwise the anchor degrades to
//! the plain text of its children.

use vstd::prelude::*;

use crate::buffer::OutputBuffer;
use crate::chain::ParentChain;
use crate::dom::{spec_attr, spec_attr_or_empty, Element};
use crate::header_handler::is_heading_name;
use crate::strutil;
use crate::urls;

verus! {

/// The anchor carries the tooltip class and is dropped with its content.
pub open spec fn spec_is_tooltip(attrs: Seq<crate::dom::Attr>) -> bool {
    spec_attr(attrs, "class"@) == Some("tooltip"@)
}

/// The immediate parent is a heading element.
pub open spec fn spec_parent_is_heading(chain: Seq<Seq<char>>) -> bool {
    chain.len() > 0 && is_heading_name(chain.last())
}

/// The href whose resolution failed for an anchor element, if any:
/// tooltips attempt no resolution, so they report nothing.
pub open spec fn spec_anchor_failure(
    attrs: Seq<crate::dom::Attr>,
    base: Option<Seq<char>>,
    unpin: bool,
    chain: Seq<Seq<char>>,
) -> Option<Seq<char>> {
    if spec_is_tooltip(attrs) {
        None
    } else {
        urls::spec_join_failure(
            spec_attr_or_empty(attrs, "href"@),
            base,
            unpin,
            spec_parent_is_heading(chain),
        )
    }
}

/// The URL an anchor element resolves to: none for tooltips, otherwise
/// the classification and resolution of its `href` attribute.
pub open spec fn spec_anchor_url(
    attrs: Seq<crate::dom::Attr>,
    base: Option<Seq<char>>,
    unpin: bool,
    chain: Seq<Seq<char>>,
) -> Option<Seq<char>> {
    if spec_is_tooltip(attrs) {
        None
    } else {
        urls::spec_resolve(
            spec_attr_or_empty(attrs, "href"@),
            base,
            unpin,
            spec_parent_is_heading(chain),
        )
    }
}

/// What the exit step leaves in the buffer: with a resolved URL the
/// content from the recorded offset onward is wrapped in link markup;
/// without one the buffer is untouched.
pub open spec fn spec_anchor_wrap(url: Option<Seq<char>>, pos: int, acc: Seq<char>) -> Seq<char> {
    match url {
        Some(u) => acc.subrange(0, pos) + "["@ + acc.skip(pos) + "]("@ + u + ")"@,
        None => acc,
    }
}

/// Per-element state of the anchor handler.
pub struct AnchorHandler {
    pub base_url: Option<String>,
    pub start_pos: usize,
    pub url: Option<String>,
    pub failed_href: Option<String>,
    pub skip_descendents: bool,
    pub unpin_std_docs: bool,
}

impl AnchorHandler {
    /// A fresh handler for one anchor element, holding the configuration.
    pub fn new(base_url: Option<String>, unpin_std_docs: bool) -> (r: Self)
        ensures
            r.base_url == base_url,
            r.unpin_std_docs == unpin_std_docs,
            r.start_pos == 0,
            r.url is None,
            r.failed_href is None,
            !r.skip_descendents,
    {
        AnchorHandler {
            base_url,
            start_pos: 0,
            url: None,
            failed_href: None,
            skip_descendents: false,
            unpin_std_docs,
        }
    }

    /// Entry: record the buffer offset and resolve the `href`, or flag a
    /// tooltip anchor for suppression.  A failed resolution against the
    /// base URL is recorded for reporting.  The buffer is not touched.
    pub fn handle(&mut self, tag: &Element, printer: &OutputBuffer, chain: &ParentChain)
        ensures
            final(self).base_url == old(self).base_url,
            final(self).unpin_std_docs == old(self).unpin_std_docs,
            final(self).start_pos == printer@.len(),
            final(self).skip_descendents == spec_is_tooltip(tag.attrs@),
            final(self).url.deep_view() == spec_anchor_url(
                tag.attrs@,
                old(self).base_url.deep_view(),
                old(self).unpin_std_docs,
                chain@,
            ),
            final(self).failed_href.deep_view() == spec_anchor_failure(
                tag.attrs@,
                old(self).base_url.deep_view(),
                old(self).unpin_std_docs,
                chain@,
            ),
    {
        self.start_pos = printer.mark();
        let tooltip = match tag.attr("class") {
            Some(c) => strutil::str_eq(c.as_str(), "tooltip"),
            None => false,
        };
        self.skip_descendents = tooltip;
        if tooltip {
            self.url = None;
            self.failed_href = None;
            return ;
        }
        let href: String = match tag.attr("href") {
            Some(h) => h.clone(),
            None => String::new(),
        };
        let parent_is_heading = match chain.last() {
            Some(t) => crate::header_handler::is_heading_tag(t.as_str()),
            None => false,
        };
        let resolution = match &self.base_url {
            Some(b) => urls::resolve_href(
                href.as_str(),
                Some(b.as_str()),
                self.unpin_std_docs,
                parent_is_heading,
            ),
            None => urls::resolve_href(href.as_str(), None, self.unpin_std_docs, parent_is_heading),
        };
        self.url = resolution.url;
        self.failed_href = resolution.failed_href;
    }

    /// Whether the engine should skip this element's descendants.
    pub fn skip_descendants(&self) -> (r: bool)
        ensures
            r == self.skip_descendents,
    {
        self.skip_descendents
    }

    /// Exit: wrap the content emitted since entry in link markup, if a
    /// URL was resolved.
    pub fn after_handle(&mut self, printer: &mut OutputBuffer)
        requires
            old(self).url is Some ==> old(self).start_pos <= old(printer)@.len(),
        ensures
            *final(self) == *old(self),
            final(printer)@ == spec_anchor_wrap(
                old(self).url.deep_view(),
                old(self).start_pos as int,
                old(printer)@,
            ),
    {
        if let Some(u) = &self.url {
            printer.insert_at(self.start_pos, "[");
            printer.append("](");
            printer.append(u.as_str());
            printer.append(")");
            proof {
                assert(printer@ =~= old(printer)@.subrange(0, self.start_pos as int) + "["@ + old(
                    printer,
                )@.skip(self.start_pos as int) + "]("@ + u@ + ")"@);
            }
        }
    }
}

} // verus!
