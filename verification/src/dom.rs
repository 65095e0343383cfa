//! The input tree: an immutable, already-parsed HTML fragment.
//!
//! A node is either raw character data or an element carrying a tag name,
//! an ordered list of attributes (duplicates possible; the first match
//! wins) and an ordered list of children.  The tree is only read here; the
//! caller owns the parser that builds it.

use vstd::prelude::*;

use crate::strutil;

verus! {

/// One attribute of an element.
pub struct Attr {
    pub name: String,
    pub value: String,
}

/// An element: tag name, attributes and children in document order.
pub struct Element {
    pub name: String,
    pub attrs: Vec<Attr>,
    pub children: Vec<Node>,
}

/// A node of the parsed fragment.
pub enum Node {
    /// Raw character data.
    Text(String),
    /// An element node.
    Element(Element),
}

/// The value of the first attribute named `key`, if any.
pub open spec fn spec_attr(attrs: Seq<Attr>, key: Seq<char>) -> Option<Seq<char>>
    decreases attrs.len(),
{
    if attrs.len() == 0 {
        None
    } else if attrs[0].name@ == key {
        Some(attrs[0].value@)
    } else {
        spec_attr(attrs.drop_first(), key)
    }
}

/// The value of the first attribute named `key`, or the empty string.
pub open spec fn spec_attr_or_empty(attrs: Seq<Attr>, key: Seq<char>) -> Seq<char> {
    match spec_attr(attrs, key) {
        Some(v) => v,
        None => Seq::empty(),
    }
}

impl Element {
    /// Look up the first attribute named `key`.
    pub fn attr(&self, key: &str) -> (r: Option<&String>)
        ensures
            match r {
                Some(v) => spec_attr(self.attrs@, key@) == Some(v@),
                None => spec_attr(self.attrs@, key@) is None,
            },
    {
        let n = self.attrs.len();
        let mut i: usize = 0;
        proof {
            assert(self.attrs@.skip(0) =~= self.attrs@);
        }
        while i < n
            invariant
                n == self.attrs@.len(),
                i <= n,
                spec_attr(self.attrs@, key@) == spec_attr(self.attrs@.skip(i as int), key@),
            decreases n - i,
        {
            proof {
                assert(self.attrs@.skip(i as int)[0] == self.attrs@[i as int]);
                assert(self.attrs@.skip(i as int).drop_first() =~= self.attrs@.skip(i + 1));
            }
            if strutil::str_eq(self.attrs[i].name.as_str(), key) {
                return Some(&self.attrs[i].value);
            }
            i += 1;
        }
        proof {
            assert(self.attrs@.skip(n as int) =~= Seq::<Attr>::empty());
        }
        None
    }
}

} // verus!
