//! The parent chain: the stack of ancestor tag names, from the root of the
//! fragment down to the immediate parent of the node being visited.
//!
//! The traversal engine pushes a tag name before descending into an
//! element's children and pops it afterwards; handlers only read the chain.

use vstd::prelude::*;

verus! {

/// The top of the chain is `tag`.
pub open spec fn spec_top_is(chain: Seq<Seq<char>>, tag: Seq<char>) -> bool {
    chain.len() > 0 && chain.last() == tag
}

/// Stack of ancestor tag names.
pub struct ParentChain {
    tags: Vec<String>,
}

impl View for ParentChain {
    type V = Seq<Seq<char>>;

    closed spec fn view(&self) -> Seq<Seq<char>> {
        self.tags.deep_view()
    }
}

impl ParentChain {
    /// An empty chain, for the root of a fragment.
    pub fn new() -> (r: Self)
        ensures
            r@ == Seq::<Seq<char>>::empty(),
    {
        let r = ParentChain { tags: Vec::new() };
        proof {
            assert(r@ =~= Seq::<Seq<char>>::empty());
        }
        r
    }

    /// Push a tag name before descending into its children.
    pub fn push(&mut self, tag: String)
        ensures
            final(self)@ == old(self)@.push(tag@),
    {
        self.tags.push(tag);
        proof {
            assert(self@ =~= old(self)@.push(self.tags@.last()@));
        }
    }

    /// Pop the tag pushed last.
    pub fn pop(&mut self)
        requires
            old(self)@.len() > 0,
        ensures
            final(self)@ == old(self)@.drop_last(),
    {
        let _ = self.tags.pop();
        proof {
            assert(self@ =~= old(self)@.drop_last());
        }
    }

    /// The tag name of the immediate parent, if any.
    pub fn last(&self) -> (r: Option<&String>)
        ensures
            match r {
                Some(t) => self@.len() > 0 && t@ == self@.last(),
                None => self@.len() == 0,
            },
    {
        let n = self.tags.len();
        if n == 0 {
            None
        } else {
            Some(&self.tags[n - 1])
        }
    }
}

} // verus!
