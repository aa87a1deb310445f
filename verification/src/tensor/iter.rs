//! Iteration over the elements of a one-dimensional tensor.
use vstd::prelude::*;

verus! {

/// An iterator over the elements of a one dimensional tensor.
///
/// The tensor values are read in bulk when the iterator is created: reading
/// element by element through the C api would perform one tensor to scalar
/// conversion per element, and on CUDA a device synchronization per element.
pub struct Iter<T> {
    index: usize,
    content: Vec<T>,
}

impl<T> Iter<T> {
    #[verifier::type_invariant]
    spec fn inv(self) -> bool {
        self.index <= self.content@.len()
    }

    /// The elements not yielded yet, in order.
    pub closed spec fn remaining(self) -> Seq<T> {
        self.content@.skip(self.index as int)
    }
}

/// What a call of `next` does: with `before` left to yield, it returns
/// `v` and leaves `after`. The first element comes out and the rest stays;
/// once nothing is left, `None` comes out and nothing changes.
pub open spec fn next_step<T>(before: Seq<T>, v: Option<T>, after: Seq<T>) -> bool {
    if before.len() == 0 {
        v is None && after == before
    } else {
        v == Some(before[0]) && after == before.drop_first()
    }
}

impl<T: Copy> Iter<T> {
    /// An iterator over `content`, from its first element.
    pub fn new(content: Vec<T>) -> (it: Iter<T>)
        ensures
            it.remaining() == content@,
    {
        let it = Iter { index: 0, content };
        assert(it.content@.skip(0) =~= it.content@);
        it
    }

    /// Yields the next element, or `None` once every element was yielded.
    pub fn next(&mut self) -> (v: Option<T>)
        ensures
            next_step(old(self).remaining(), v, final(self).remaining()),
    {
        proof {
            use_type_invariant(&*self);
        }
        if self.index < self.content.len() {
            let v = self.content[self.index];
            self.index = self.index + 1;
            assert(self.content@.skip(self.index as int) =~= old(self).remaining().drop_first());
            Some(v)
        } else {
            None
        }
    }

    /// The number of elements left, as lower and upper bounds (both
    /// exact).
    pub fn size_hint(&self) -> (r: (usize, Option<usize>))
        ensures
            r.0 == self.remaining().len(),
            r.1 == Some(self.remaining().len() as usize),
    {
        proof {
            use_type_invariant(self);
        }
        let remaining = self.content.len() - self.index;
        (remaining, Some(remaining))
    }

    /// The exact number of elements left.
    pub fn len(&self) -> (n: usize)
        ensures
            n == self.remaining().len(),
    {
        proof {
            use_type_invariant(self);
        }
        self.content.len() - self.index
    }
}

/// Law: after `k` calls of `next` on an iterator over `content`, the
/// elements left are those of `content` after the first `min(k, m)`, `m`
/// being its length, so that `size_hint` gives `m - min(k, m)` and never
/// goes below zero; call `j` returned element `j` of `content` while
/// `j < m`, and `None` ever after. `rests[j]` is what is left before call
/// `j`, and `outs[j]` is what call `j` returned.
pub proof fn lemma_iter_calls<T>(content: Seq<T>, rests: Seq<Seq<T>>, outs: Seq<Option<T>>)
    requires
        rests.len() == outs.len() + 1,
        rests[0] == content,
        forall|j: int| 0 <= j < outs.len() ==> next_step(rests[j], #[trigger] outs[j], rests[j + 1]),
    ensures
        forall|k: int|
            0 <= k < rests.len() ==> #[trigger] rests[k] == content.skip(
                if k < content.len() { k } else { content.len() as int },
            ),
        forall|k: int|
            0 <= k < rests.len() ==> (#[trigger] rests[k]).len() == content.len() - (if k
                < content.len() {
                k
            } else {
                content.len() as int
            }),
        forall|j: int|
            0 <= j < outs.len() ==> #[trigger] outs[j] == if j < content.len() {
                Some(content[j])
            } else {
                None
            },
    decreases outs.len(),
{
    if outs.len() > 0 {
        let n = outs.len() - 1;
        lemma_iter_calls(content, rests.take(n + 1), outs.take(n));
        assert forall|k: int| 0 <= k < rests.len() implies #[trigger] rests[k] == content.skip(
            if k < content.len() { k } else { content.len() as int },
        ) by {
            if k <= n {
                assert(rests.take(n + 1)[k] == rests[k]);
            } else {
                assert(rests.take(n + 1)[n] == rests[n]);
                assert(next_step(rests[n], outs[n], rests[n + 1]));
                if n < content.len() {
                    assert(content.skip(n).drop_first() =~= content.skip(n + 1));
                }
            }
        }
        assert forall|j: int| 0 <= j < outs.len() implies #[trigger] outs[j] == if j
            < content.len() {
            Some(content[j])
        } else {
            None
        } by {
            if j < n {
                assert(outs.take(n)[j] == outs[j]);
            } else {
                assert(rests.take(n + 1)[n] == rests[n]);
                assert(next_step(rests[n], outs[n], rests[n + 1]));
            }
        }
    } else {
        assert(content.skip(0) =~= content);
    }
}

} // verus!
