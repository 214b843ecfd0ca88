//! Experience replay buffer: a ring of bounded capacity that keeps the most
//! recent experiences and hands out uniformly drawn samples.

use rand::rngs::ThreadRng;
use rand::Rng;
use vstd::prelude::*;

verus! {

/// `entries` after `item` has been pushed into a ring of capacity `cap`:
/// the oldest entry leaves once the ring is full.
pub open spec fn ring_push<T>(entries: Seq<T>, cap: nat, item: T) -> Seq<T> {
    if entries.len() < cap {
        entries.push(item)
    } else {
        entries.drop_first().push(item)
    }
}

/// `entries` after each of `items` has been pushed in turn.
pub open spec fn ring_push_all<T>(entries: Seq<T>, cap: nat, items: Seq<T>) -> Seq<T>
    decreases items.len(),
{
    if items.len() == 0 {
        entries
    } else {
        ring_push(ring_push_all(entries, cap, items.drop_last()), cap, items.last())
    }
}

/// The last `min(items.len(), cap)` elements of `items`.
pub open spec fn most_recent<T>(items: Seq<T>, cap: nat) -> Seq<T> {
    if items.len() <= cap {
        items
    } else {
        items.subrange(items.len() - cap, items.len() as int)
    }
}

/// `i` is an index that the random generator handed out for a range of
/// `len` slots.
pub closed spec fn drawn_index(i: usize, len: usize) -> bool {
    exists|args: (&mut ThreadRng, usize)| args.1 == len && call_ensures(random_index, args, i)
}

/// Every index the random generator hands out for `len` slots is one of
/// those slots.
pub proof fn lemma_drawn_index_in_range(i: usize, len: usize)
    requires
        drawn_index(i, len),
    ensures
        i < len,
{
}

/// `item` is a clone of one of `entries`.
pub open spec fn clone_of_some<T: Clone>(entries: Seq<T>, item: T) -> bool {
    exists|j: int| 0 <= j < entries.len() && cloned::<T>(entries[j], item)
}

/// Experience storage of bounded capacity.
///
/// Until the ring is full, new entries are appended; afterwards each new
/// entry overwrites the oldest one.
pub struct ReplayBuffer<T> {
    buf: Vec<T>,
    cap: usize,
    idx: usize,
}

impl<T> ReplayBuffer<T> {
    /// The ring's internal invariant: never more entries than the capacity,
    /// and the write position is the oldest slot once the ring is full.
    #[verifier::type_invariant]
    spec fn well_formed(self) -> bool {
        &&& self.buf.len() <= self.cap
        &&& self.buf.len() < self.cap ==> self.idx == 0
        &&& self.buf.len() == self.cap && self.cap > 0 ==> self.idx < self.cap
        &&& self.cap == 0 ==> self.idx == 0
    }

    /// The most entries the buffer holds.
    pub closed spec fn capacity(&self) -> nat {
        self.cap as nat
    }

    /// The stored entries in storage order (the order in which `sample_at`
    /// addresses them).
    pub closed spec fn slots(&self) -> Seq<T> {
        self.buf@
    }

    /// The stored entries from the oldest to the most recent.
    pub closed spec fn entries(&self) -> Seq<T> {
        self.buf@.subrange(self.idx as int, self.buf@.len() as int) + self.buf@.subrange(
            0,
            self.idx as int,
        )
    }

    /// The slot that the next push into a full buffer overwrites: the slot of
    /// the oldest entry.
    pub closed spec fn write_slot(&self) -> int {
        self.idx as int
    }

    /// The entries, oldest first, are the slots read from the write slot to
    /// the end and then from the start up to the write slot.
    pub proof fn lemma_entries_from_slots(&self)
        requires
            0 <= self.write_slot() <= self.slots().len(),
        ensures
            self.entries() == self.slots().subrange(self.write_slot(), self.slots().len() as int)
                + self.slots().subrange(0, self.write_slot()),
            self.entries().len() == self.slots().len(),
    {
    }

    /// Slot `k` holds the entry that is `(k - idx) mod len` in age order.
    proof fn lemma_slot_entry(&self, k: int)
        requires
            0 <= k < self.buf@.len(),
            self.idx <= self.buf@.len(),
        ensures
            k >= self.idx ==> self.entries()[k - self.idx] == self.buf@[k],
            k < self.idx ==> self.entries()[self.buf@.len() - self.idx + k] == self.buf@[k],
            self.entries().len() == self.buf@.len(),
    {
    }

    /// An empty buffer that will hold at most `cap` entries.
    pub fn new(cap: usize) -> (buffer: Self)
        ensures
            buffer.capacity() == cap,
            buffer.entries() == Seq::<T>::empty(),
            buffer.slots() == Seq::<T>::empty(),
            buffer.write_slot() == 0,
    {
        let buffer = ReplayBuffer { buf: Vec::with_capacity(cap), cap, idx: 0 };
        assert(buffer.entries() =~= Seq::<T>::empty());
        buffer
    }

    /// Stores `ex`; once the buffer is full it replaces the oldest entry.
    pub fn push(&mut self, ex: T)
        requires
            old(self).capacity() > 0,
        ensures
            final(self).capacity() == old(self).capacity(),
            final(self).entries() == ring_push(old(self).entries(), old(self).capacity(), ex),
            final(self).entries().len() <= final(self).capacity(),
            old(self).slots().len() < old(self).capacity() ==> final(self).slots() == old(
                self,
            ).slots().push(ex) && final(self).write_slot() == 0,
            old(self).slots().len() >= old(self).capacity() ==> final(self).slots() == old(
                self,
            ).slots().update(old(self).write_slot(), ex) && final(self).write_slot() == (old(
                self,
            ).write_slot() + 1) % (old(self).capacity() as int),
            0 <= final(self).write_slot() <= final(self).slots().len(),
    {
        proof {
            use_type_invariant(&*self);
        }
        let ghost before = self.entries();
        let i = self.idx;
        self.idx = 0;
        let mut buf: Vec<T> = Vec::new();
        std::mem::swap(&mut buf, &mut self.buf);
        if buf.len() < self.cap {
            buf.push(ex);
            self.buf = buf;
            proof {
                assert(self.buf@.subrange(0, 0) =~= Seq::<T>::empty());
                assert(old(self).buf@.subrange(0, old(self).buf@.len() as int) =~= old(self).buf@);
                assert(self.buf@.subrange(0, self.buf@.len() as int) =~= self.buf@);
                assert(self.entries() =~= before.push(ex));
            }
        } else {
            buf.set(i, ex);
            self.buf = buf;
            self.idx = (i + 1) % self.cap;
            proof {
                let ob = old(self).buf@;
                let nb = self.buf@;
                let n = ob.len() as int;
                assert(before =~= ob.subrange(i as int, n) + ob.subrange(0, i as int));
                if i + 1 < n {
                    vstd::arithmetic::div_mod::lemma_small_mod((i + 1) as nat, old(self).cap as nat);
                    assert(self.idx == i + 1);
                    assert(self.entries() =~= before.drop_first().push(ex));
                } else {
                    vstd::arithmetic::div_mod::lemma_mod_self_0(old(self).cap as int);
                    assert(self.idx == 0);
                    assert(self.entries() =~= before.drop_first().push(ex));
                }
            }
        }
    }

    /// The number of stored entries.
    pub fn len(&self) -> (n: usize)
        ensures
            n == self.entries().len(),
            n == self.slots().len(),
            n <= self.capacity(),
            0 <= self.write_slot() <= self.slots().len(),
    {
        proof {
            use_type_invariant(self);
        }
        self.buf.len()
    }
}

impl<T: Clone> ReplayBuffer<T> {
    /// Clones of the entries stored at the slots `picks`, in that order.
    pub fn sample_at(&self, picks: &Vec<usize>) -> (batch: Vec<T>)
        requires
            forall|i: int| 0 <= i < picks@.len() ==> picks@[i] < self.slots().len(),
        ensures
            batch@.len() == picks@.len(),
            forall|i: int|
                0 <= i < picks@.len() ==> cloned::<T>(
                    self.slots()[picks@[i] as int],
                    #[trigger] batch@[i],
                ),
    {
        let mut batch: Vec<T> = Vec::new();
        let mut i: usize = 0;
        while i < picks.len()
            invariant
                i <= picks@.len(),
                batch@.len() == i,
                forall|k: int| 0 <= k < picks@.len() ==> picks@[k] < self.slots().len(),
                forall|k: int|
                    0 <= k < i ==> cloned::<T>(self.slots()[picks@[k] as int], #[trigger] batch@[k]),
            decreases picks@.len() - i,
        {
            let item = self.buf[picks[i]].clone();
            batch.push(item);
            i = i + 1;
        }
        batch
    }

    /// `n` entries drawn uniformly, with replacement, from the buffer.
    pub fn sample(&self, n: usize) -> (batch: Vec<T>)
        requires
            n == 0 || self.entries().len() > 0,
        ensures
            batch@.len() == n,
            forall|i: int| 0 <= i < n ==> clone_of_some(self.entries(), #[trigger] batch@[i]),
            exists|picks: Seq<usize>|
                {
                    &&& picks.len() == n
                    &&& forall|k: int|
                        0 <= k < n ==> drawn_index(#[trigger] picks[k], self.slots().len() as usize)
                    &&& forall|k: int|
                        0 <= k < n ==> cloned::<T>(
                            self.slots()[picks[k] as int],
                            #[trigger] batch@[k],
                        )
                },
    {
        proof {
            use_type_invariant(self);
        }
        let len = self.buf.len();
        let mut rng = thread_rng();
        let mut picks: Vec<usize> = Vec::new();
        let mut i: usize = 0;
        while i < n
            invariant
                i <= n,
                n == 0 || len > 0,
                len == self.slots().len(),
                picks@.len() == i,
                forall|k: int| 0 <= k < i ==> picks@[k] < len,
                forall|k: int| 0 <= k < i ==> drawn_index(#[trigger] picks@[k], len),
            decreases n - i,
        {
            let pick = random_index(&mut rng, len);
            proof {
                assert(drawn_index(pick, len));
            }
            picks.push(pick);
            i = i + 1;
        }
        let batch = self.sample_at(&picks);
        proof {
            assert(picks@.len() == n);
            assert forall|k: int| 0 <= k < n implies clone_of_some(self.entries(), #[trigger] batch@[k]) by {
                let s = picks@[k] as int;
                self.lemma_slot_entry(s);
                if s >= self.idx {
                    assert(self.entries()[s - self.idx] == self.slots()[s]);
                } else {
                    assert(self.entries()[self.buf@.len() - self.idx + s] == self.slots()[s]);
                }
            }
        }
        batch
    }
}

/// The thread-local random generator of `rand`.
#[verifier::external_type_specification]
#[verifier::external_body]
pub struct ExThreadRng(ThreadRng);

/// `rand::thread_rng`: a handle to the thread-local generator; nothing is
/// promised of its state.
#[verifier::external_body]
fn thread_rng() -> ThreadRng {
    rand::thread_rng()
}

/// `rand::Rng::gen_range(0..len)`: an index drawn uniformly below `len`;
/// the range must not be empty, and which index comes is left to chance.
#[verifier::external_body]
fn random_index(rng: &mut ThreadRng, len: usize) -> (i: usize)
    requires
        len > 0,
    ensures
        i < len,
{
    rng.gen_range(0..len)
}

/// Pushing any items into an empty ring leaves exactly the most recent
/// `capacity` of them, from the oldest to the newest.
pub proof fn lemma_ring_keeps_most_recent<T>(cap: nat, items: Seq<T>)
    requires
        cap > 0,
    ensures
        ring_push_all(Seq::<T>::empty(), cap, items) == most_recent(items, cap),
    decreases items.len(),
{
    if items.len() > 0 {
        let prefix = items.drop_last();
        lemma_ring_keeps_most_recent(cap, prefix);
        let before = most_recent(prefix, cap);
        if prefix.len() < cap {
            assert(ring_push(before, cap, items.last()) =~= most_recent(items, cap));
        } else {
            assert(before.len() == cap);
            assert(ring_push(before, cap, items.last()) =~= most_recent(items, cap));
        }
    }
}

} // verus!
