//! A pull-based lazy sequence interface, and a vector-backed source.
//!
//! Every adapter in this crate both consumes and provides this interface, so
//! adapters can be chained freely. The contract of [`PullSource::next`] is
//! deliberately tight: each pull delivers exactly the first outstanding item
//! and nothing else, so no implementation may run ahead of its caller.

use vstd::prelude::*;

verus! {

/// A lazy, pull-based sequence of items.
///
/// `remaining()` is the mathematical view of a source: the sequence of items
/// it will still produce, in order. A finite source is exhausted exactly when
/// `remaining()` is empty.
pub trait PullSource<Item>: Sized {
    /// The items this source has yet to produce, in production order.
    spec fn remaining(&self) -> Seq<Item>;

    /// Produce the next item, or `None` once the source is exhausted.
    ///
    /// Exactly the first outstanding item is consumed per call; an exhausted
    /// source stays exhausted.
    fn next(&mut self) -> (r: Option<Item>)
        ensures
            match r {
                Some(x) => {
                    &&& old(self).remaining().len() > 0
                    &&& x == old(self).remaining()[0]
                    &&& final(self).remaining() == old(self).remaining().skip(1)
                },
                None => {
                    &&& old(self).remaining().len() == 0
                    &&& final(self).remaining() == old(self).remaining()
                },
            },
    ;
}

/// A source that produces the elements of a vector, front to back.
pub struct VecSource<T> {
    items: Vec<T>,
}

impl<T> VecSource<T> {
    /// Wrap a vector as a source over its elements.
    pub fn new(items: Vec<T>) -> (r: VecSource<T>)
        ensures
            r.remaining() == items@,
    {
        VecSource { items }
    }

    /// How many items are still to be produced.
    pub fn len(&self) -> (n: usize)
        ensures
            n == self.remaining().len(),
    {
        self.items.len()
    }
}

impl<T> PullSource<T> for VecSource<T> {
    closed spec fn remaining(&self) -> Seq<T> {
        self.items@
    }

    fn next(&mut self) -> (r: Option<T>) {
        if self.items.len() > 0 {
            let x = self.items.remove(0);
            proof {
                assert(self.items@ =~= old(self).items@.skip(1));
            }
            Some(x)
        } else {
            None
        }
    }
}

} // verus!
