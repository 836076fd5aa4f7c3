use vstd::prelude::*;
use vstd::hash_map::HashMapWithView;

verus! {

broadcast use vstd::std_specs::hash::group_hash_axioms;

/// One readiness event reported by the poller: the key that the source was
/// registered under and whether it became readable and/or writable.
#[derive(Clone, Copy)]
pub struct ReadyEvent {
    pub key: usize,
    pub readable: bool,
    pub writable: bool,
}

/// The largest key whose tokens fit in a `u64`, plus one.
pub open spec fn key_limit() -> int {
    0x8000_0000_0000_0000
}

/// The token under which the waker that waits for `key` to become readable is kept.
pub open spec fn read_token(key: int) -> int {
    key * 2
}

/// The token under which the waker that waits for `key` to become writable is kept.
pub open spec fn write_token(key: int) -> int {
    key * 2 + 1
}

/// Read tokens and write tokens never meet, and different keys never share a token.
pub proof fn lemma_tokens_distinct(k1: int, k2: int)
    ensures
        read_token(k1) != write_token(k2),
        k1 != k2 ==> read_token(k1) != read_token(k2),
        k1 != k2 ==> write_token(k1) != write_token(k2),
{
}

/// Takes the waker kept under `token` out of `m`, if there is one.
pub open spec fn take_token<W>(m: Map<u64, W>, token: int) -> (Map<u64, W>, Seq<W>) {
    if 0 <= token <= u64::MAX && m.contains_key(token as u64) {
        (m.remove(token as u64), seq![m[token as u64]])
    } else {
        (m, Seq::empty())
    }
}

/// What one event does: it takes the read waker of its key if the source is
/// readable, then the write waker if it is writable.
pub open spec fn dispatch_event<W>(m: Map<u64, W>, e: ReadyEvent) -> (Map<u64, W>, Seq<W>) {
    let r = if e.readable { take_token(m, read_token(e.key as int)) } else { (m, Seq::empty()) };
    let w = if e.writable { take_token(r.0, write_token(e.key as int)) } else { (r.0, Seq::empty()) };
    (w.0, r.1 + w.1)
}

/// What a batch of events does, the first event first: the wakers left and
/// the wakers taken, in the order they were taken.
pub open spec fn dispatch<W>(m: Map<u64, W>, evs: Seq<ReadyEvent>) -> (Map<u64, W>, Seq<W>)
    decreases evs.len(),
{
    if evs.len() == 0 {
        (m, Seq::empty())
    } else {
        let before = dispatch(m, evs.drop_last());
        let last = dispatch_event(before.0, evs.last());
        (last.0, before.1 + last.1)
    }
}

/// After a batch of events, no waker is left under a token that one of the
/// events made ready, and every other token keeps the waker it had.
pub proof fn lemma_dispatch_effect<W>(m: Map<u64, W>, evs: Seq<ReadyEvent>)
    ensures
        forall|j: int, t: u64|
            #![trigger evs[j], dispatch(m, evs).0.contains_key(t)]
            0 <= j < evs.len() && ((evs[j].readable && t == read_token(evs[j].key as int))
                || (evs[j].writable && t == write_token(evs[j].key as int)))
                ==> !dispatch(m, evs).0.contains_key(t),
        forall|t: u64|
            (forall|j: int|
                0 <= j < evs.len() ==> t != read_token(#[trigger] evs[j].key as int) && t
                    != write_token(evs[j].key as int)) ==> (#[trigger] dispatch(m, evs).0.contains_key(t)
                == m.contains_key(t) && (m.contains_key(t) ==> dispatch(m, evs).0[t] == m[t])),
    decreases evs.len(),
{
    if evs.len() > 0 {
        let pre = evs.drop_last();
        lemma_dispatch_effect(m, pre);
        let before = dispatch(m, pre);
        let e = evs.last();
        let after = dispatch_event(before.0, e);
        assert(after.0.dom().subset_of(before.0.dom()));
        assert forall|j: int, t: u64|
            0 <= j < evs.len() && ((evs[j].readable && t == read_token(evs[j].key as int))
                || (evs[j].writable && t == write_token(evs[j].key as int)))
            implies !dispatch(m, evs).0.contains_key(t) by {
            if j < evs.len() - 1 {
                assert(pre[j] == evs[j]);
            }
        }
        assert forall|t: u64|
            (forall|j: int|
                0 <= j < evs.len() ==> t != read_token(#[trigger] evs[j].key as int) && t
                    != write_token(evs[j].key as int)) implies (dispatch(m, evs).0.contains_key(t)
                == m.contains_key(t) && (m.contains_key(t) ==> dispatch(m, evs).0[t] == m[t])) by {
            assert forall|j: int| 0 <= j < pre.len() implies t != read_token(#[trigger] pre[j].key as int)
                && t != write_token(pre[j].key as int) by {
                assert(pre[j] == evs[j]);
            }
            assert(t != read_token(e.key as int));
            assert(t != write_token(e.key as int));
            let r = if e.readable { take_token(before.0, read_token(e.key as int)) } else { (before.0, Seq::<W>::empty()) };
            assert(r.0.contains_key(t) == before.0.contains_key(t)
                && (before.0.contains_key(t) ==> r.0[t] == before.0[t]));
            let w = if e.writable { take_token(r.0, write_token(e.key as int)) } else { (r.0, Seq::<W>::empty()) };
            assert(w.0.contains_key(t) == r.0.contains_key(t)
                && (r.0.contains_key(t) ==> w.0[t] == r.0[t]));
        }
    }
}

/// Keeps the wakers of the tasks that wait for an I/O source to become
/// readable or writable, and hands them out when the poller reports it.
#[verifier::reject_recursive_types(W)]
pub struct Reactor<W> {
    waker_mapping: HashMapWithView<u64, W>,
}

impl<W> Reactor<W> {
    /// The wakers kept, by token.
    pub closed spec fn wakers(&self) -> Map<u64, W> {
        self.waker_mapping@
    }

    /// A reactor that keeps no waker.
    pub fn new() -> (r: Reactor<W>)
        ensures
            r.wakers() == Map::<u64, W>::empty(),
    {
        Reactor { waker_mapping: HashMapWithView::new() }
    }

    /// Keeps `waker` under `token`, in place of any waker kept there before.
    pub fn register(&mut self, token: u64, waker: W)
        ensures
            final(self).wakers() == old(self).wakers().insert(token, waker),
    {
        self.waker_mapping.insert(token, waker);
    }

    /// Takes out the wakers that the events make ready, in the order of the
    /// events and, within one event, read before write; the caller wakes them.
    pub fn wait(&mut self, events: &Vec<ReadyEvent>) -> (woken: Vec<W>)
        requires
            forall|i: int| 0 <= i < events@.len() ==> (#[trigger] events@[i]).key < key_limit(),
        ensures
            final(self).wakers() == dispatch(old(self).wakers(), events@).0,
            woken@ == dispatch(old(self).wakers(), events@).1,
    {
        let mut woken: Vec<W> = Vec::new();
        let mut i: usize = 0;
        proof {
            assert(events@.take(0) =~= Seq::<ReadyEvent>::empty());
        }
        while i < events.len()
            invariant
                0 <= i <= events@.len(),
                forall|j: int| 0 <= j < events@.len() ==> (#[trigger] events@[j]).key < key_limit(),
                self.wakers() == dispatch(old(self).wakers(), events@.take(i as int)).0,
                woken@ == dispatch(old(self).wakers(), events@.take(i as int)).1,
            decreases events@.len() - i,
        {
            let e = events[i];
            let ghost m0 = self.wakers();
            let ghost w0 = woken@;
            let key = e.key as u64;
            if e.readable {
                if let Some(w) = self.waker_mapping.remove(&(key * 2)) {
                    woken.push(w);
                }
            }
            let ghost m1 = self.wakers();
            let ghost w1 = woken@;
            if e.writable {
                if let Some(w) = self.waker_mapping.remove(&(key * 2 + 1)) {
                    woken.push(w);
                }
            }
            proof {
                let r = if e.readable { take_token(m0, read_token(e.key as int)) } else { (m0, Seq::empty()) };
                assert(m1 == r.0);
                assert(w1 =~= w0 + r.1);
                let wt = if e.writable { take_token(r.0, write_token(e.key as int)) } else { (r.0, Seq::empty()) };
                assert(self.wakers() == wt.0);
                assert(woken@ =~= w0 + r.1 + wt.1);
                assert(events@.take(i as int + 1).drop_last() =~= events@.take(i as int));
                assert(events@.take(i as int + 1).last() == e);
            }
            i = i + 1;
        }
        proof {
            assert(events@.take(i as int) =~= events@);
        }
        woken
    }
}

} // verus!
