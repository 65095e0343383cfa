//! A simplified model of a Markdown document: inline spans and
//! block-level items.

use vstd::prelude::*;

verus! {

/// One item of a Markdown document.
#[derive(Debug, PartialEq)]
pub enum Item {
    /// Plain text.
    Text(String),
    /// Inline code.
    CodeSpan(Vec<Item>),
    /// A hyperlink with its label content.
    Link(String, Vec<Item>),
    /// A level-one heading.
    Header1(Vec<Item>),
    /// A level-two heading.
    Header2(Vec<Item>),
    /// A level-three heading.
    Header3(Vec<Item>),
    /// A fenced code block.
    CodeBlock(Vec<Item>),
    /// A paragraph.
    Paragraph(Vec<Item>),
    /// A bulleted list.
    UnorderedList(Vec<Item>),
    /// One entry of a list.
    ListItem(Vec<Item>),
}

impl Item {
    /// An inline span: text, a code span or a link.
    pub fn is_span(&self) -> (r: bool)
        ensures
            r == (*self is Text || *self is CodeSpan || *self is Link),
    {
        match self {
            Item::Text(_) => true,
            Item::CodeSpan(_) => true,
            Item::Link(_, _) => true,
            _ => false,
        }
    }

    /// A block-level item: anything that is not an inline span.
    pub fn is_block(&self) -> (r: bool)
        ensures
            r == !(*self is Text || *self is CodeSpan || *self is Link),
    {
        !self.is_span()
    }
}

} // verus!
