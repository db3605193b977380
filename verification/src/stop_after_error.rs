//! Adapter that stops a sequence of results right after its first error.
//!
//! [`StopAfterErrorIter`] relays items of an underlying source unchanged up to
//! and including the first `Err` item, then reports exhaustion forever and
//! never touches the underlying source again.

use vstd::prelude::*;

use crate::source::PullSource;

verus! {

/// What is left of a sequence of results once production stops at the first
/// error: every item up to and including the first `Err`, and nothing after.
pub open spec fn truncate_spec<O, E>(s: Seq<Result<O, E>>) -> Seq<Result<O, E>>
    decreases s.len(),
{
    if s.len() == 0 {
        Seq::empty()
    } else if s[0] is Err {
        seq![s[0]]
    } else {
        seq![s[0]] + truncate_spec(s.skip(1))
    }
}

/// Truncation keeps exactly the items up to the point where it stops: what
/// it produces is a prefix of the input, everything before its last item is
/// a success, it runs short of the input only when its last item is the
/// first error, and it covers the whole input exactly when going further
/// would pass an error by.
pub proof fn lemma_truncate_is_prefix_to_first_error<O, E>(s: Seq<Result<O, E>>)
    ensures
        truncate_spec(s).len() <= s.len(),
        truncate_spec(s) == s.take(truncate_spec(s).len() as int),
        forall|i: int| 0 <= i < truncate_spec(s).len() - 1 ==> s[i] is Ok,
        truncate_spec(s).len() < s.len() ==> truncate_spec(s).len() > 0 && truncate_spec(
            s,
        ).last() is Err,
    decreases s.len(),
{
    if s.len() == 0 {
        assert(truncate_spec(s) =~= s.take(truncate_spec(s).len() as int));
    } else if s[0] is Err {
        assert(truncate_spec(s) =~= s.take(1));
    } else {
        lemma_truncate_is_prefix_to_first_error(s.skip(1));
        let t = truncate_spec(s);
        assert(t =~= s.take(t.len() as int));
        assert forall|i: int| 0 <= i < t.len() - 1 implies s[i] is Ok by {
            if i > 0 {
                assert(s.skip(1)[i - 1] is Ok);
            }
        }
    }
}

/// An all-success sequence of results is left whole by truncation.
pub proof fn lemma_truncate_all_ok<O, E>(s: Seq<Result<O, E>>)
    requires
        forall|i: int| 0 <= i < s.len() ==> s[i] is Ok,
    ensures
        truncate_spec(s) == s,
    decreases s.len(),
{
    if s.len() == 0 {
        assert(truncate_spec(s) =~= s);
    } else {
        assert forall|i: int| 0 <= i < s.skip(1).len() implies s.skip(1)[i] is Ok by {
            assert(s.skip(1)[i] == s[i + 1]);
        }
        lemma_truncate_all_ok(s.skip(1));
        assert(truncate_spec(s) =~= s);
    }
}

/// Truncating a second time changes nothing: once a sequence stops at its
/// first error, stopping it at its first error again is a no-op.
pub proof fn lemma_truncate_idempotent<O, E>(s: Seq<Result<O, E>>)
    ensures
        truncate_spec(truncate_spec(s)) == truncate_spec(s),
    decreases s.len(),
{
    if s.len() == 0 {
        assert(truncate_spec(truncate_spec(s)) =~= truncate_spec(s));
    } else if s[0] is Err {
        assert(truncate_spec(truncate_spec(s)) =~= truncate_spec(s));
    } else {
        let t = truncate_spec(s);
        lemma_truncate_idempotent(s.skip(1));
        assert(t.skip(1) =~= truncate_spec(s.skip(1)));
        assert(truncate_spec(t) =~= t);
    }
}

/// Enables `stop_after_error()` on any [`PullSource`] of results.
pub trait StopAfterError<O, E>: PullSource<Result<O, E>> + Sized {
    /// Wrap this source so that iteration stops after the first error.
    fn stop_after_error(self) -> (r: StopAfterErrorIter<Self>)
        ensures
            r.remaining() == truncate_spec(self.remaining()),
            !r.halted(),
            r.inner() == self,
    ;
}

impl<It, O, E> StopAfterError<O, E> for It where It: PullSource<Result<O, E>> + Sized {
    fn stop_after_error(self) -> (r: StopAfterErrorIter<It>) {
        StopAfterErrorIter { iter: self, error: false }
    }
}

/// The sequence returned by
/// [`stop_after_error()`](StopAfterError::stop_after_error). It produces each
/// item of the wrapped source up to and including the first error, after
/// which every pull reports exhaustion.
pub struct StopAfterErrorIter<It> {
    /// The wrapped source.
    iter: It,
    /// Set once the first error has been produced; never cleared.
    error: bool,
}

impl<It> StopAfterErrorIter<It> {
    /// Whether the first error has already been produced.
    pub closed spec fn halted(&self) -> bool {
        self.error
    }

    /// The wrapped source, as it stands now.
    pub closed spec fn inner(&self) -> It {
        self.iter
    }

    /// Give the wrapped source back, discarding the adapter.
    pub fn into_inner(self) -> (r: It)
        ensures
            r == self.inner(),
    {
        self.iter
    }
}

impl<It, O, E> PullSource<Result<O, E>> for StopAfterErrorIter<It> where
    It: PullSource<Result<O, E>>,
 {
    closed spec fn remaining(&self) -> Seq<Result<O, E>> {
        if self.error {
            Seq::empty()
        } else {
            truncate_spec(self.iter.remaining())
        }
    }

    /// Relay the next item of the wrapped source until the first error has
    /// been produced, then report exhaustion without pulling anything more.
    fn next(&mut self) -> (r: Option<Result<O, E>>)
        ensures
            old(self).halted() ==> *final(self) == *old(self),
            final(self).halted() <==> old(self).halted() || (r matches Some(x) && x is Err),
    {
        match self.error {
            true => None,
            false => {
                match self.iter.next() {
                    None => None,
                    Some(result) => {
                        match result {
                            Ok(o) => {
                                proof {
                                    assert(self.remaining() =~= old(self).remaining().skip(1));
                                }
                                Some(Ok(o))
                            },
                            Err(e) => {
                                self.error = true;
                                proof {
                                    assert(old(self).remaining() =~= seq![
                                        old(self).iter.remaining()[0],
                                    ]);
                                    assert(self.remaining() =~= old(self).remaining().skip(1));
                                }
                                Some(Err(e))
                            },
                        }
                    },
                }
            },
        }
    }
}

} // verus!
