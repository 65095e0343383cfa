//! The heading handler: emits ATX heading markers for `h1` through `h6`.
//!
//! On entry it isolates the heading on its own block with a blank line and
//! appends the marker for the level; on exit it appends another blank
//! line.  The children render normally between marker and trailing
//! newlines.

use vstd::prelude::*;

use crate::buffer::OutputBuffer;
use crate::dom::Element;
use crate::strutil;

verus! {

/// A heading tag name, levels one to six.
pub open spec fn is_heading_name(t: Seq<char>) -> bool {
    ||| t == "h1"@
    ||| t == "h2"@
    ||| t == "h3"@
    ||| t == "h4"@
    ||| t == "h5"@
    ||| t == "h6"@
}

/// The heading level of a heading tag name.
pub open spec fn heading_level(t: Seq<char>) -> int {
    if t == "h1"@ {
        1
    } else if t == "h2"@ {
        2
    } else if t == "h3"@ {
        3
    } else if t == "h4"@ {
        4
    } else if t == "h5"@ {
        5
    } else if t == "h6"@ {
        6
    } else {
        0
    }
}

/// The ATX marker for a heading tag: as many `#` as the level, then one
/// space.
pub open spec fn heading_marker(t: Seq<char>) -> Seq<char> {
    if t == "h1"@ {
        "# "@
    } else if t == "h2"@ {
        "## "@
    } else if t == "h3"@ {
        "### "@
    } else if t == "h4"@ {
        "#### "@
    } else if t == "h5"@ {
        "##### "@
    } else if t == "h6"@ {
        "###### "@
    } else {
        Seq::empty()
    }
}

/// The marker of a heading tag is exactly `level` repetitions of `#`
/// followed by a single space.
pub proof fn lemma_heading_marker_shape(t: Seq<char>)
    requires
        is_heading_name(t),
    ensures
        1 <= heading_level(t) <= 6,
        heading_marker(t) == Seq::new(heading_level(t) as nat, |i: int| '#').push(' '),
{
    reveal_strlit("# ");
    reveal_strlit("## ");
    reveal_strlit("### ");
    reveal_strlit("#### ");
    reveal_strlit("##### ");
    reveal_strlit("###### ");
    assert(heading_marker(t) =~= Seq::new(heading_level(t) as nat, |i: int| '#').push(' '));
}

/// Decide whether a tag name is a heading.
pub fn is_heading_tag(name: &str) -> (r: bool)
    ensures
        r == is_heading_name(name@),
{
    strutil::str_eq(name, "h1") || strutil::str_eq(name, "h2") || strutil::str_eq(name, "h3")
        || strutil::str_eq(name, "h4") || strutil::str_eq(name, "h5") || strutil::str_eq(
        name,
        "h6",
    )
}

/// Per-element state of the heading handler.
pub struct HeaderHandler {
    pub header_type: String,
}

impl HeaderHandler {
    /// A fresh handler, created per matched element.
    pub fn new() -> (r: Self)
        ensures
            r.header_type@ == Seq::<char>::empty(),
    {
        HeaderHandler { header_type: String::new() }
    }

    /// Entry: a blank line, then the ATX marker for the level.
    pub fn handle(&mut self, tag: &Element, printer: &mut OutputBuffer)
        requires
            is_heading_name(tag.name@),
        ensures
            final(self).header_type@ == tag.name@,
            final(printer)@ == old(printer)@ + "\n\n"@ + heading_marker(tag.name@),
    {
        proof {
            reveal_strlit("\n");
            reveal_strlit("\n\n");
        }
        self.header_type = tag.name.clone();
        printer.append("\n");
        printer.append("\n");
        if strutil::str_eq(tag.name.as_str(), "h1") {
            printer.append("# ");
        } else if strutil::str_eq(tag.name.as_str(), "h2") {
            printer.append("## ");
        } else if strutil::str_eq(tag.name.as_str(), "h3") {
            printer.append("### ");
        } else if strutil::str_eq(tag.name.as_str(), "h4") {
            printer.append("#### ");
        } else if strutil::str_eq(tag.name.as_str(), "h5") {
            printer.append("##### ");
        } else if strutil::str_eq(tag.name.as_str(), "h6") {
            printer.append("###### ");
        }
        proof {
            assert(printer@ =~= old(printer)@ + "\n\n"@ + heading_marker(tag.name@));
        }
    }

    /// Exit: a blank line after the heading's content.
    pub fn after_handle(&mut self, printer: &mut OutputBuffer)
        ensures
            *final(self) == *old(self),
            final(printer)@ == old(printer)@ + "\n\n"@,
    {
        proof {
            reveal_strlit("\n");
            reveal_strlit("\n\n");
        }
        printer.append("\n");
        printer.append("\n");
        proof {
            assert(printer@ =~= old(printer)@ + "\n\n"@);
        }
    }
}

} // verus!
