use vstd::prelude::*;
use crate::runtime::GlobalRuntime;

verus! {

/// How many items are in flight at once unless `buffered` says otherwise.
pub const DEFAULT_CONCURRENCY: usize = 4;

/// The limit that `buffered(limit)` sets: at least one item in flight.
pub open spec fn buffered_limit(limit: usize) -> usize {
    if limit < 1 {
        1
    } else {
        limit
    }
}

/// A limit set through `buffered` is never zero, and setting it again
/// with the limit it produced changes nothing.
pub proof fn lemma_buffered_limit(limit: usize)
    ensures
        buffered_limit(limit) >= 1,
        buffered_limit(buffered_limit(limit)) == buffered_limit(limit),
        limit >= 1 ==> buffered_limit(limit) == limit,
{
}

/// Types whose items can be processed concurrently.
pub trait IntoConcurrencyIterator: Sized {
    type Item;
    type Iter;

    fn into_con_iter(self) -> ConIter<Self::Iter, GlobalRuntime>;
}

/// An iterator whose items are processed concurrently, at most `limit` at once,
/// on the runtime `r`.
pub struct ConIter<I, R = GlobalRuntime> {
    iter: I,
    limit: usize,
    r: R,
}

impl<I, R> ConIter<I, R> {
    /// The underlying iterator.
    pub closed spec fn base(&self) -> I {
        self.iter
    }

    /// How many items may be in flight at once.
    pub closed spec fn concurrency(&self) -> usize {
        self.limit
    }

    /// The runtime that processes the items.
    pub closed spec fn rt(&self) -> R {
        self.r
    }

    /// Sets the number of items in flight to `limit`, and to one where `limit` is zero.
    pub fn buffered(self, limit: usize) -> (c: Self)
        ensures
            c.concurrency() == buffered_limit(limit),
            c.base() == self.base(),
            c.rt() == self.rt(),
    {
        let mut c = self;
        c.limit = if limit < 1 { 1 } else { limit };
        c
    }

    /// Processes the items on the runtime `r`.
    pub fn runtime(self, r: R) -> (c: Self)
        ensures
            c.rt() == r,
            c.base() == self.base(),
            c.concurrency() == self.concurrency(),
    {
        let mut c = self;
        c.r = r;
        c
    }

    /// Names a kind of runtime; the iterator is returned as it was.
    pub fn runtime_type<R2>(self, runtime: R2) -> (c: Self)
        ensures
            c == self,
    {
        self
    }

    /// The underlying iterator, handed back.
    pub fn into_inner(self) -> (it: I)
        ensures
            it == self.base(),
    {
        self.iter
    }

    /// How many items may be in flight at once.
    pub fn limit(&self) -> (n: usize)
        ensures
            n == self.concurrency(),
    {
        self.limit
    }
}

/// An iterator over the items of a slice, front to back.
pub struct SliceIter<'a, T> {
    slice: &'a [T],
}

impl<'a, T> SliceIter<'a, T> {
    /// The items not yet handed out, in order.
    pub closed spec fn rest(&self) -> Seq<T> {
        self.slice@
    }

    /// Hands out the next item, or `None` once all have been handed out.
    pub fn next(&mut self) -> (item: Option<&'a T>)
        ensures
            old(self).rest().len() == 0 ==> item is None && final(self).rest() == old(self).rest(),
            old(self).rest().len() > 0 ==> item is Some && *item.unwrap() == old(self).rest()[0]
                && final(self).rest() == old(self).rest().drop_first(),
    {
        if self.slice.len() == 0 {
            None
        } else {
            let s: &'a [T] = self.slice;
            let (head, tail) = s.split_at(1);
            self.slice = tail;
            proof {
                assert(tail@ =~= s@.drop_first());
            }
            Some(&head[0])
        }
    }
}

/// An iterator whose items are each turned into a task by `f` and processed
/// concurrently, at most `limit` at once, on the runtime `r`.
pub struct Then<I, F, R = GlobalRuntime> {
    base: I,
    f: F,
    limit: usize,
    r: R,
}

impl<'a, T> IntoConcurrencyIterator for &'a [T] {
    type Item = &'a T;
    type Iter = SliceIter<'a, T>;

    fn into_con_iter(self) -> (c: ConIter<SliceIter<'a, T>, GlobalRuntime>)
        ensures
            c.base().rest() == self@,
            c.concurrency() == DEFAULT_CONCURRENCY,
    {
        ConIter { iter: SliceIter { slice: self }, limit: DEFAULT_CONCURRENCY, r: GlobalRuntime }
    }
}

impl<'a, T> IntoConcurrencyIterator for &'a Vec<T> {
    type Item = &'a T;
    type Iter = SliceIter<'a, T>;

    fn into_con_iter(self) -> (c: ConIter<SliceIter<'a, T>, GlobalRuntime>)
        ensures
            c.base().rest() == self@,
            c.concurrency() == DEFAULT_CONCURRENCY,
    {
        self.as_slice().into_con_iter()
    }
}

} // verus!
