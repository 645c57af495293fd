//! Batching of emitted records: a batch goes out when it is full or when it
//! has waited long enough, and holds no two records that are duplicates of
//! each other.
use vstd::prelude::*;
use crate::dedup::Keyed;

verus! {

/// No record of `s` is a duplicate of another.
pub open spec fn no_dups<T: Keyed>(s: Seq<T>) -> bool {
    forall|i: int, j: int|
        #![trigger s[i], s[j]]
        0 <= i < s.len() && 0 <= j < s.len() && i != j ==> !s[i].dup_of(&s[j])
}

/// No record of `s` is traffic of a pod with itself.
pub open spec fn no_self_flows<T: Keyed>(s: Seq<T>) -> bool {
    forall|i: int| 0 <= i < s.len() ==> !(#[trigger] s[i]).is_self_flow()
}

/// Some record of `s` and `item` are duplicates, one way or the other.
pub open spec fn holds_dup<T: Keyed>(s: Seq<T>, item: T) -> bool {
    exists|i: int| 0 <= i < s.len() && ((#[trigger] s[i]).dup_of(&item) || item.dup_of(&s[i]))
}

/// `r` is a batch that holds `s`.
pub open spec fn sent<T>(r: Option<Vec<T>>, s: Seq<T>) -> bool {
    r matches Some(b) && b@ == s
}

/// Records waiting to be sent, and when the last batch went out.
pub struct Batcher<T> {
    items: Vec<T>,
    size: usize,
    timeout_ms: u64,
    last_flush_ms: u64,
}

impl<T: Keyed> Batcher<T> {
    /// The records waiting, oldest first.
    pub closed spec fn pending(&self) -> Seq<T> {
        self.items@
    }

    /// How many records fill a batch.
    pub closed spec fn capacity(&self) -> nat {
        self.size as nat
    }

    /// How long a batch may wait, in milliseconds.
    pub closed spec fn timeout(&self) -> nat {
        self.timeout_ms as nat
    }

    /// When the last batch went out, in milliseconds of a monotonic clock.
    pub closed spec fn last_flush(&self) -> nat {
        self.last_flush_ms as nat
    }

    pub open spec fn well_formed(&self) -> bool {
        &&& self.capacity() > 1
        &&& self.pending().len() < self.capacity()
        &&& no_dups(self.pending())
        &&& no_self_flows(self.pending())
    }

    /// Something waits and `timeout` has passed since the last batch.
    pub open spec fn due(&self, now_ms: u64) -> bool {
        self.pending().len() > 0 && now_ms >= self.last_flush() + self.timeout()
    }

    /// An empty batcher whose batches hold `size` records and wait at most
    /// `timeout_ms`, started at `now_ms`.
    pub fn new(size: usize, timeout_ms: u64, now_ms: u64) -> (r: Self)
        requires
            size > 1,
        ensures
            r.well_formed(),
            r.pending() == Seq::<T>::empty(),
            r.capacity() == size,
            r.timeout() == timeout_ms,
            r.last_flush() == now_ms,
    {
        Batcher { items: Vec::new(), size, timeout_ms, last_flush_ms: now_ms }
    }

    /// The number of records waiting.
    pub fn len(&self) -> (r: usize)
        ensures
            r == self.pending().len(),
    {
        self.items.len()
    }

    /// Whether a waiting record and `item` are duplicates.
    pub fn holds(&self, item: &T) -> (r: bool)
        ensures
            r == holds_dup(self.pending(), *item),
    {
        let mut i: usize = 0;
        while i < self.items.len()
            invariant
                0 <= i <= self.items@.len(),
                forall|j: int|
                    0 <= j < i ==> !((#[trigger] self.items@[j]).dup_of(item) || item.dup_of(
                        &self.items@[j],
                    )),
            decreases self.items@.len() - i,
        {
            if self.items[i].is_dup_of(item) || item.is_dup_of(&self.items[i]) {
                assert(self.items@[i as int].dup_of(item) || item.dup_of(&self.items@[i as int]));
                return true;
            }
            i = i + 1;
        }
        false
    }

    fn take(&mut self, now_ms: u64) -> (r: Vec<T>)
        requires
            old(self).well_formed(),
        ensures
            r@ == old(self).pending(),
            final(self).pending() == Seq::<T>::empty(),
            final(self).capacity() == old(self).capacity(),
            final(self).timeout() == old(self).timeout(),
            final(self).last_flush() == now_ms,
            final(self).well_formed(),
    {
        let mut out: Vec<T> = Vec::new();
        std::mem::swap(&mut out, &mut self.items);
        self.last_flush_ms = now_ms;
        out
    }

    /// Adds a record at `now_ms`. A record that is a duplicate of a waiting
    /// one, or has one as its duplicate, is left out. The batch goes out as
    /// soon as it holds `capacity` records.
    pub fn push(&mut self, item: T, now_ms: u64) -> (r: Option<Vec<T>>)
        requires
            old(self).well_formed(),
            !item.is_self_flow(),
        ensures
            final(self).well_formed(),
            final(self).capacity() == old(self).capacity(),
            final(self).timeout() == old(self).timeout(),
            holds_dup(old(self).pending(), item) ==> r is None && *final(self) == *old(self),
            !holds_dup(old(self).pending(), item) ==> {
                if old(self).pending().len() + 1 == old(self).capacity() {
                    &&& sent(r, old(self).pending().push(item))
                    &&& final(self).pending() == Seq::<T>::empty()
                    &&& final(self).last_flush() == now_ms
                } else {
                    &&& r is None
                    &&& final(self).pending() == old(self).pending().push(item)
                    &&& final(self).last_flush() == old(self).last_flush()
                }
            },
            r matches Some(b) ==> no_dups(b@) && no_self_flows(b@) && b@.len() == old(self).capacity(),
    {
        if self.holds(&item) {
            return None;
        }
        let ghost before = self.items@;
        self.items.push(item);
        assert(no_dups(self.items@)) by {
            assert forall|i: int, j: int|
                #![trigger self.items@[i], self.items@[j]]
                0 <= i < self.items@.len() && 0 <= j < self.items@.len() && i != j implies !self.items@[i].dup_of(&self.items@[j]) by {
                if i < before.len() && j < before.len() {
                    assert(self.items@[i] == before[i]);
                    assert(self.items@[j] == before[j]);
                } else if i < before.len() {
                    assert(self.items@[i] == before[i]);
                } else {
                    assert(self.items@[j] == before[j]);
                }
            }
        }
        assert(no_self_flows(self.items@)) by {
            assert forall|i: int| 0 <= i < self.items@.len() implies !(
            #[trigger] self.items@[i]).is_self_flow() by {
                if i < before.len() {
                    assert(self.items@[i] == before[i]);
                }
            }
        }
        if self.items.len() >= self.size {
            let mut out: Vec<T> = Vec::new();
            std::mem::swap(&mut out, &mut self.items);
            self.last_flush_ms = now_ms;
            Some(out)
        } else {
            None
        }
    }

    /// At `now_ms`, sends what waits if the batch is due.
    pub fn tick(&mut self, now_ms: u64) -> (r: Option<Vec<T>>)
        requires
            old(self).well_formed(),
        ensures
            final(self).well_formed(),
            final(self).capacity() == old(self).capacity(),
            final(self).timeout() == old(self).timeout(),
            if old(self).due(now_ms) {
                &&& sent(r, old(self).pending())
                &&& final(self).pending() == Seq::<T>::empty()
                &&& final(self).last_flush() == now_ms
            } else {
                r is None && *final(self) == *old(self)
            },
            r matches Some(b) ==> no_dups(b@) && no_self_flows(b@),
    {
        if self.items.len() > 0 && now_ms >= self.last_flush_ms && now_ms - self.last_flush_ms
            >= self.timeout_ms {
            Some(self.take(now_ms))
        } else {
            None
        }
    }

    /// Sends what waits, when the stream of events has ended.
    pub fn close(&mut self, now_ms: u64) -> (r: Option<Vec<T>>)
        requires
            old(self).well_formed(),
        ensures
            final(self).well_formed(),
            final(self).capacity() == old(self).capacity(),
            final(self).timeout() == old(self).timeout(),
            final(self).pending() == Seq::<T>::empty(),
            old(self).pending().len() > 0 ==> sent(r, old(self).pending()),
            old(self).pending().len() == 0 ==> r is None,
            r matches Some(b) ==> no_dups(b@) && no_self_flows(b@),
    {
        if self.items.len() > 0 {
            Some(self.take(now_ms))
        } else {
            None
        }
    }
}

} // verus!
