//! Adapter that flattens a sequence of `Result`-wrapped collections.
//!
//! Each `Ok(collection)` item of the underlying source is unrolled into one
//! `Ok(element)` item per element, in the collection's own order; each `Err`
//! item passes through as a single item. Output order is the strict
//! concatenation of those per-item expansions, in source order.

use vstd::prelude::*;

use crate::source::PullSource;
use crate::stop_after_error::truncate_spec;
use crate::stop_after_error::lemma_truncate_is_prefix_to_first_error;
use crate::stop_after_error::lemma_truncate_all_ok;

verus! {

/// The expansion of one source item: all elements of an `Ok` collection,
/// each wrapped back into `Ok`, or the single `Err` item unchanged.
pub open spec fn flat_item_spec<T, E>(item: Result<Vec<T>, E>) -> Seq<Result<T, E>> {
    match item {
        Ok(v) => v@.map_values(|t: T| Result::<T, E>::Ok(t)),
        Err(e) => seq![Result::<T, E>::Err(e)],
    }
}

/// The flattening of a whole sequence of `Result`-wrapped collections: the
/// concatenation of every item's expansion, in source order.
pub open spec fn flatten_spec<T, E>(s: Seq<Result<Vec<T>, E>>) -> Seq<Result<T, E>>
    decreases s.len(),
{
    if s.len() == 0 {
        Seq::empty()
    } else {
        flat_item_spec(s[0]) + flatten_spec(s.skip(1))
    }
}

/// Flattening concatenates: the flat output of one sequence of items
/// followed by another is the flat output of the first followed by the flat
/// output of the second. In particular the output order is the strict
/// concatenation of every item's expansion, in source order.
pub proof fn lemma_flatten_concat<T, E>(a: Seq<Result<Vec<T>, E>>, b: Seq<Result<Vec<T>, E>>)
    ensures
        flatten_spec(a + b) == flatten_spec(a) + flatten_spec(b),
    decreases a.len(),
{
    if a.len() == 0 {
        assert(a + b =~= b);
        assert(flatten_spec(a) + flatten_spec(b) =~= flatten_spec(b));
    } else {
        assert((a + b).skip(1) =~= a.skip(1) + b);
        lemma_flatten_concat(a.skip(1), b);
        assert((a + b).len() > 0);
        assert((a + b)[0] == a[0]);
        assert(flatten_spec(a + b) =~= flatten_spec(a) + flatten_spec(b));
    }
}

/// A success item whose collection is empty contributes no output at all:
/// cutting it out of the source leaves the flat output unchanged, so the
/// items around it are unaffected.
pub proof fn lemma_flatten_empty_collection<T, E>(
    a: Seq<Result<Vec<T>, E>>,
    v: Vec<T>,
    b: Seq<Result<Vec<T>, E>>,
)
    requires
        v@.len() == 0,
    ensures
        flatten_spec(a + seq![Result::<Vec<T>, E>::Ok(v)] + b) == flatten_spec(a + b),
{
    let mid = seq![Result::<Vec<T>, E>::Ok(v)];
    lemma_flatten_concat(a + mid, b);
    lemma_flatten_concat(a, mid);
    lemma_flatten_concat(a, b);
    assert(flat_item_spec(mid[0]) =~= Seq::<Result<T, E>>::empty());
    assert(mid.skip(1) =~= Seq::<Result<Vec<T>, E>>::empty());
    assert(flatten_spec(Seq::<Result<Vec<T>, E>>::empty()) =~= Seq::<Result<T, E>>::empty());
    assert(flatten_spec(mid) =~= Seq::<Result<T, E>>::empty());
    assert(flatten_spec(a) + flatten_spec(mid) =~= flatten_spec(a));
}

/// A failure item occupies exactly one slot of the flat output, neither
/// duplicated nor dropped, and the items on either side of it are unrolled
/// unaffected, in source order.
pub proof fn lemma_flatten_single_error<T, E>(
    a: Seq<Result<Vec<T>, E>>,
    e: E,
    b: Seq<Result<Vec<T>, E>>,
)
    ensures
        flatten_spec(a + seq![Result::<Vec<T>, E>::Err(e)] + b) == flatten_spec(a) + seq![
            Result::<T, E>::Err(e),
        ] + flatten_spec(b),
{
    let mid = seq![Result::<Vec<T>, E>::Err(e)];
    lemma_flatten_concat(a + mid, b);
    lemma_flatten_concat(a, mid);
    assert(mid.skip(1) =~= Seq::<Result<Vec<T>, E>>::empty());
    assert(flatten_spec(Seq::<Result<Vec<T>, E>>::empty()) =~= Seq::<Result<T, E>>::empty());
    assert(flatten_spec(mid) =~= seq![Result::<T, E>::Err(e)]);
    assert(flatten_spec(a + mid) + flatten_spec(b) =~= flatten_spec(a) + seq![
        Result::<T, E>::Err(e),
    ] + flatten_spec(b));
}

/// The flat output holds an error exactly when the source holds one: the
/// flattening adapter neither drops, duplicates nor invents failures.
pub proof fn lemma_flatten_err_iff<T, E>(s: Seq<Result<Vec<T>, E>>)
    ensures
        (exists|j: int| 0 <= j < flatten_spec(s).len() && flatten_spec(s)[j] is Err) <==> (
        exists|i: int| 0 <= i < s.len() && s[i] is Err),
    decreases s.len(),
{
    if s.len() > 0 {
        lemma_flatten_err_iff(s.skip(1));
        let head = flat_item_spec(s[0]);
        let tail = flatten_spec(s.skip(1));
        assert(flatten_spec(s) == head + tail);
        if exists|i: int| 0 <= i < s.len() && s[i] is Err {
            let i = choose|i: int| 0 <= i < s.len() && s[i] is Err;
            if i == 0 {
                assert(flatten_spec(s)[0] == head[0]);
                assert(flatten_spec(s)[0] is Err);
            } else {
                assert(s.skip(1)[i - 1] is Err);
                let j = choose|j: int| 0 <= j < tail.len() && tail[j] is Err;
                assert(flatten_spec(s)[head.len() + j] is Err);
            }
        }
        if exists|j: int| 0 <= j < flatten_spec(s).len() && flatten_spec(s)[j] is Err {
            let j = choose|j: int| 0 <= j < flatten_spec(s).len() && flatten_spec(s)[j] is Err;
            if j < head.len() {
                assert(s[0] is Err) by {
                    if s[0] is Ok {
                        assert(head[j] is Ok);
                    }
                }
            } else {
                assert(tail[j - head.len()] is Err);
                let i = choose|i: int| 0 <= i < s.skip(1).len() && s.skip(1)[i] is Err;
                assert(s[i + 1] is Err);
            }
        }
    }
}

/// The promise of chaining the two adapters: flattening and then stopping
/// at the first error yields a prefix of the flat output in which every
/// item but the last is a success; when the source holds any failure the
/// chain ends with the first one, in document order, and when it holds none
/// the chain delivers the whole flat output unchanged.
pub proof fn lemma_flatten_then_truncate<T, E>(s: Seq<Result<Vec<T>, E>>)
    ensures
        truncate_spec(flatten_spec(s)) == flatten_spec(s).take(
            truncate_spec(flatten_spec(s)).len() as int,
        ),
        forall|j: int|
            0 <= j < truncate_spec(flatten_spec(s)).len() - 1 ==> flatten_spec(s)[j] is Ok,
        (exists|i: int| 0 <= i < s.len() && s[i] is Err) ==> truncate_spec(
            flatten_spec(s),
        ).len() > 0 && truncate_spec(flatten_spec(s)).last() is Err,
        (forall|i: int| 0 <= i < s.len() ==> s[i] is Ok) ==> truncate_spec(flatten_spec(s))
            == flatten_spec(s),
{
    let f = flatten_spec(s);
    lemma_truncate_is_prefix_to_first_error(f);
    lemma_flatten_err_iff(s);
    if exists|i: int| 0 <= i < s.len() && s[i] is Err {
        if truncate_spec(f).len() == f.len() {
            let j = choose|j: int| 0 <= j < f.len() && f[j] is Err;
            assert(truncate_spec(f).len() > 0);
            if j < f.len() - 1 {
                assert(f[j] is Ok);
            } else {
                assert(truncate_spec(f).last() == f[j]);
            }
        }
    }
    if forall|i: int| 0 <= i < s.len() ==> s[i] is Ok {
        assert forall|j: int| 0 <= j < f.len() implies f[j] is Ok by {
            if f[j] is Err {
                assert(exists|i: int| 0 <= i < s.len() && s[i] is Err);
            }
        }
        lemma_truncate_all_ok(f);
    }
}

/// Wrap a plain value back into a `Result`, as the success case.
pub fn wrap_result<T, E>(t: T) -> (r: Result<T, E>)
    ensures
        r == Result::<T, E>::Ok(t),
{
    Ok(t)
}

/// Expand one source item into the vector of results it contributes to the
/// flat output: every element of an `Ok` collection wrapped by
/// [`wrap_result`], or the `Err` item alone.
pub fn flatten<T, E>(res: Result<Vec<T>, E>) -> (out: Vec<Result<T, E>>)
    ensures
        out@ == flat_item_spec(res),
{
    let ghost item: Result<Vec<T>, E> = res;
    match res {
        Ok(mut v) => {
            let ghost orig: Seq<T> = v@;
            let mut out: Vec<Result<T, E>> = Vec::new();
            while v.len() > 0
                invariant
                    out@ + v@.map_values(|t: T| Result::<T, E>::Ok(t)) == orig.map_values(
                        |t: T| Result::<T, E>::Ok(t),
                    ),
                decreases v@.len(),
            {
                let ghost before: Seq<T> = v@;
                let t = v.remove(0);
                out.push(wrap_result(t));
                proof {
                    assert(v@ =~= before.skip(1));
                    assert(out@ + v@.map_values(|t: T| Result::<T, E>::Ok(t)) =~= orig
                        .map_values(|t: T| Result::<T, E>::Ok(t)));
                }
            }
            proof {
                assert(v@.map_values(|t: T| Result::<T, E>::Ok(t)) =~= Seq::empty());
                assert(out@ =~= flat_item_spec(item));
            }
            out
        },
        Err(e) => {
            let mut out: Vec<Result<T, E>> = Vec::new();
            out.push(Err(e));
            proof {
                assert(out@ =~= flat_item_spec(item));
            }
            out
        },
    }
}

/// Enables `flatten_results()` on any [`PullSource`] of `Result`-wrapped
/// collections.
pub trait FlattenResults<T, E>: PullSource<Result<Vec<T>, E>> + Sized {
    /// Wrap this source so that each `Ok` collection is unrolled element by
    /// element and each `Err` passes through as a single item.
    fn flatten_results(self) -> (r: FlattenResultsIter<Self, T, E>)
        ensures
            r.remaining() == flatten_spec(self.remaining()),
            r.buffered().len() == 0,
            r.inner() == self,
    ;
}

impl<It, T, E> FlattenResults<T, E> for It where It: PullSource<Result<Vec<T>, E>> + Sized {
    fn flatten_results(self) -> (r: FlattenResultsIter<It, T, E>) {
        transform(self)
    }
}

/// Free-standing analog of
/// [`flatten_results()`](FlattenResults::flatten_results), for callers who
/// prefer not to adopt the trait.
pub fn transform<It, T, E>(outer_iter: It) -> (r: FlattenResultsIter<It, T, E>) where
    It: PullSource<Result<Vec<T>, E>>,
    ensures
        r.remaining() == flatten_spec(outer_iter.remaining()),
        r.buffered().len() == 0,
        r.inner() == outer_iter,
{
    let r = FlattenResultsIter { source: outer_iter, buffer: Vec::new() };
    proof {
        assert(r.remaining() =~= flatten_spec(r.source.remaining()));
    }
    r
}

/// The sequence returned by
/// [`flatten_results()`](FlattenResults::flatten_results) and [`transform`].
/// It buffers at most one source item's expansion at a time and pulls from
/// the underlying source only when that buffer is empty.
pub struct FlattenResultsIter<It, T, E> {
    /// The wrapped source of `Result`-wrapped collections.
    source: It,
    /// What is left of the expansion of the most recently pulled source item.
    buffer: Vec<Result<T, E>>,
}

impl<It, T, E> FlattenResultsIter<It, T, E> {
    /// The part of the current item's expansion that is still to be produced.
    pub closed spec fn buffered(&self) -> Seq<Result<T, E>> {
        self.buffer@
    }

    /// The wrapped source, as it stands now.
    pub closed spec fn inner(&self) -> It {
        self.source
    }

    /// Give the wrapped source and the unconsumed part of the current
    /// expansion back, discarding the adapter.
    pub fn into_parts(self) -> (r: (It, Vec<Result<T, E>>))
        ensures
            r.0 == self.inner(),
            r.1@ == self.buffered(),
    {
        (self.source, self.buffer)
    }
}

impl<It, T, E> PullSource<Result<T, E>> for FlattenResultsIter<It, T, E> where
    It: PullSource<Result<Vec<T>, E>>,
 {
    closed spec fn remaining(&self) -> Seq<Result<T, E>> {
        self.buffer@ + flatten_spec(self.source.remaining())
    }

    /// Produce the next buffered item, pulling and expanding source items
    /// only while the buffer is empty. Expanding an empty collection yields
    /// nothing, so the pull loop moves on to the next source item.
    fn next(&mut self) -> (r: Option<Result<T, E>>)
        ensures
            old(self).buffered().len() > 0 ==> final(self).inner() == old(self).inner(),
    {
        loop
            invariant
                self.remaining() == old(self).remaining(),
                old(self).buffered().len() > 0 ==> *self == *old(self),
            decreases self.source.remaining().len(),
        {
            if self.buffer.len() > 0 {
                let x = self.buffer.remove(0);
                proof {
                    assert(self.remaining() =~= old(self).remaining().skip(1));
                }
                return Some(x);
            }
            match self.source.next() {
                None => {
                    proof {
                        assert(self.remaining() =~= Seq::empty());
                    }
                    return None;
                },
                Some(item) => {
                    let expansion = flatten(item);
                    self.buffer = expansion;
                    proof {
                        assert(self.remaining() =~= old(self).remaining());
                    }
                },
            }
        }
    }
}

} // verus!
