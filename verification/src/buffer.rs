//! The output buffer: an append-only text value that also supports
//! inserting at a previously recorded offset.
//!
//! A handler records the buffer length on entry to an element and may later
//! insert opening markup at that offset, wrapping everything that the
//! element's descendants emitted in between.  Offsets are counted in
//! characters, matching the `Seq<char>` view of the text.

use vstd::prelude::*;
use vstd::string::{StrSliceExecFns, StringExecFns};

use crate::strutil;

verus! {

/// A growable Markdown text with insertion at recorded offsets.
pub struct OutputBuffer {
    data: String,
}

impl View for OutputBuffer {
    type V = Seq<char>;

    closed spec fn view(&self) -> Seq<char> {
        self.data@
    }
}

impl OutputBuffer {
    /// An empty buffer.
    pub fn new() -> (r: Self)
        ensures
            r@ == Seq::<char>::empty(),
    {
        OutputBuffer { data: String::new() }
    }

    /// The current length in characters, usable as a mark for `insert_at`.
    pub fn mark(&self) -> (r: usize)
        ensures
            r == self@.len(),
    {
        self.data.as_str().unicode_len()
    }

    /// Append `s` at the end.
    pub fn append(&mut self, s: &str)
        ensures
            final(self)@ == old(self)@ + s@,
    {
        self.data.append(s);
    }

    /// Insert `s` at offset `pos`; everything from `pos` onward is pushed
    /// forward intact.
    pub fn insert_at(&mut self, pos: usize, s: &str)
        requires
            pos <= old(self)@.len(),
        ensures
            final(self)@ == old(self)@.subrange(0, pos as int) + s@ + old(self)@.subrange(
                pos as int,
                old(self)@.len() as int,
            ),
    {
        let n = self.data.as_str().unicode_len();
        let mut out = String::new();
        out.append(self.data.as_str().substring_char(0, pos));
        out.append(s);
        out.append(self.data.as_str().substring_char(pos, n));
        proof {
            assert(out@ =~= self@.subrange(0, pos as int) + s@ + self@.subrange(
                pos as int,
                self@.len() as int,
            ));
        }
        self.data = out;
    }

    /// Whether the buffer currently ends with a newline character.
    pub fn ends_with_newline(&self) -> (r: bool)
        ensures
            r == strutil::spec_ends_with_newline(self@),
    {
        strutil::ends_with_newline(self.data.as_str())
    }

    /// The finished text.
    pub fn into_string(self) -> (r: String)
        ensures
            r@ == self@,
    {
        self.data
    }
}

} // verus!
