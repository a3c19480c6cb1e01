//! Fixed-capacity circular store of samples.

use vstd::prelude::*;
use crate::sample::{lemma_samples_within_front, samples_within, Sample};

verus! {

/// The last `capacity` elements of `history`, in the same order.
pub open spec fn retain_last(history: Seq<Sample>, capacity: nat) -> Seq<Sample> {
    if history.len() <= capacity {
        history
    } else {
        history.subrange(history.len() - capacity, history.len() as int)
    }
}

/// The contents of a store of the given capacity that held `contents` and to
/// which the samples of `appended` were then written, first to last.
pub open spec fn after_appends(contents: Seq<Sample>, appended: Seq<Sample>, capacity: nat) -> Seq<
    Sample,
>
    decreases appended.len(),
{
    if appended.len() == 0 {
        contents
    } else {
        retain_last(
            after_appends(contents, appended.drop_last(), capacity).push(appended.last()),
            capacity,
        )
    }
}

/// A store holds the most recent samples of all that were ever written to it:
/// if it holds the last `capacity` samples of `history`, then after the
/// samples of `appended` were written it holds the last `capacity` samples of
/// `history` followed by `appended`, in the order in which they were written.
pub proof fn lemma_store_retains_most_recent(
    history: Seq<Sample>,
    appended: Seq<Sample>,
    capacity: nat,
)
    ensures
        after_appends(retain_last(history, capacity), appended, capacity) == retain_last(
            history + appended,
            capacity,
        ),
    decreases appended.len(),
{
    if appended.len() == 0 {
        assert(history + appended =~= history);
    } else {
        let front = appended.drop_last();
        lemma_store_retains_most_recent(history, front, capacity);
        assert((history + front).push(appended.last()) =~= history + appended);
        assert(retain_last(retain_last(history + front, capacity).push(appended.last()), capacity)
            =~= retain_last(history + appended, capacity));
    }
}

/// A store that started empty holds the last `capacity` samples of those
/// written to it, oldest first, or all of them while they are fewer. Once
/// more samples were written than it can hold, it holds exactly the last
/// `capacity` of them.
pub proof fn lemma_store_overflow_keeps_last(appended: Seq<Sample>, capacity: nat)
    ensures
        after_appends(Seq::empty(), appended, capacity) == retain_last(appended, capacity),
        after_appends(Seq::empty(), appended, capacity).len() == if appended.len() <= capacity {
            appended.len()
        } else {
            capacity
        },
        appended.len() >= capacity ==> after_appends(Seq::empty(), appended, capacity)
            == appended.subrange(appended.len() - capacity, appended.len() as int),
{
    let empty = Seq::<Sample>::empty();
    lemma_store_retains_most_recent(empty, appended, capacity);
    assert(retain_last(empty, capacity) =~= empty);
    assert(empty + appended =~= appended);
    assert(appended.subrange(0, appended.len() as int) =~= appended);
}

/// A circular buffer that holds the most recent `N` samples written to it.
pub struct SampleStore<const N: usize> {
    slots: [Sample; N],
    head: usize,
    len: usize,
}

impl<const N: usize> SampleStore<N> {
    #[verifier::type_invariant]
    spec fn inv(self) -> bool {
        &&& self.len <= N
        &&& N > 0 ==> self.head < N
    }

    /// Position in `slots` of the `i`-th oldest stored sample.
    spec fn slot_of(self, i: int) -> int {
        let x = self.head - self.len + i;
        if x >= 0 { x } else { x + N }
    }

    /// The stored samples, oldest first.
    pub closed spec fn view(&self) -> Seq<Sample> {
        Seq::new(self.len as nat, |i: int| self.slots@[self.slot_of(i)])
    }

    /// An empty store.
    pub fn new() -> (store: Self)
        ensures
            store@ == Seq::<Sample>::empty(),
    {
        SampleStore { slots: [Sample { timestamp: 0, value: 0 }; N], head: 0, len: 0 }
    }

    /// The number of samples that the store can hold.
    pub fn capacity(&self) -> (n: usize)
        ensures
            n == N,
    {
        N
    }

    /// The number of samples that the store holds.
    pub fn len(&self) -> (n: usize)
        ensures
            n == self@.len(),
            n <= N,
    {
        proof {
            use_type_invariant(self);
        }
        self.len
    }

    /// The `i`-th oldest stored sample.
    fn nth(&self, i: usize) -> (sample: Sample)
        requires
            i < self@.len(),
        ensures
            sample == self@[i as int],
    {
        proof {
            use_type_invariant(self);
        }
        let back = self.len - i;
        if back <= self.head {
            self.slots[self.head - back]
        } else {
            self.slots[N - (back - self.head)]
        }
    }

    /// A cursor over the stored samples whose timestamp lies between
    /// `now - window` and `now`, both included, oldest first.
    ///
    /// What the cursor yields depends on the stored samples and on the two
    /// arguments alone, and the store is left as it is: asking again gives
    /// the same samples.
    pub fn snapshot_since(&self, now: u64, window: u64) -> (snapshot: Snapshot<'_, N>)
        ensures
            snapshot.remaining() == samples_within(self@, now, window),
            snapshot.remaining().len() <= N,
    {
        proof {
            use_type_invariant(self);
            assert(self@.skip(0) =~= self@);
            self@.lemma_filter_len(crate::sample::within(now, window));
        }
        Snapshot { store: self, now, window, pos: 0 }
    }

    /// Writes `sample` as the newest entry. Once the store is full, the
    /// oldest entry is overwritten.
    pub fn append(&mut self, sample: Sample)
        ensures
            final(self)@ == retain_last(old(self)@.push(sample), N as nat),
    {
        proof {
            use_type_invariant(&*self);
        }
        if N == 0 {
            return;
        }
        self.slots[self.head] = sample;
        self.head = if self.head + 1 == N { 0 } else { self.head + 1 };
        if self.len < N {
            self.len = self.len + 1;
        }
    }
}

/// A cursor over the samples of a store that lie in a time window.
///
/// It borrows the store, so no sample can be written while it is in use.
pub struct Snapshot<'a, const N: usize> {
    store: &'a SampleStore<N>,
    now: u64,
    window: u64,
    pos: usize,
}

impl<'a, const N: usize> Snapshot<'a, N> {
    #[verifier::type_invariant]
    spec fn inv(self) -> bool {
        self.pos <= self.store@.len()
    }

    /// The samples that the cursor has yet to yield, oldest first.
    pub closed spec fn remaining(&self) -> Seq<Sample> {
        samples_within(self.store@.skip(self.pos as int), self.now, self.window)
    }

    /// Yields the oldest sample not yet yielded, or `None` once all samples
    /// in the window have been yielded.
    pub fn next(&mut self) -> (item: Option<Sample>)
        ensures
            match item {
                Some(sample) => {
                    &&& old(self).remaining().len() > 0
                    &&& sample == old(self).remaining()[0]
                    &&& final(self).remaining() == old(self).remaining().drop_first()
                },
                None => {
                    &&& old(self).remaining().len() == 0
                    &&& final(self).remaining().len() == 0
                },
            },
    {
        proof {
            use_type_invariant(&*self);
        }
        let end = self.store.len();
        while self.pos < end
            invariant
                end == self.store@.len(),
                self.pos <= end,
                self.store == old(self).store,
                self.now == old(self).now,
                self.window == old(self).window,
                self.remaining() == old(self).remaining(),
            decreases end - self.pos,
        {
            let sample = self.store.nth(self.pos);
            proof {
                let rest = self.store@.skip(self.pos as int);
                lemma_samples_within_front(rest, self.now, self.window);
                assert(rest.drop_first() =~= self.store@.skip(self.pos + 1));
            }
            self.pos = self.pos + 1;
            if sample.is_within(self.now, self.window) {
                proof {
                    let tail = samples_within(
                        self.store@.skip(self.pos as int),
                        self.now,
                        self.window,
                    );
                    assert((seq![sample] + tail).drop_first() =~= tail);
                }
                return Some(sample);
            }
        }
        proof {
            assert(self.store@.skip(self.pos as int) =~= Seq::<Sample>::empty());
            reveal(Seq::filter);
        }
        None
    }

    /// Yields all samples not yet yielded, oldest first.
    pub fn collect(self) -> (samples: Vec<Sample>)
        ensures
            samples@ == self.remaining(),
    {
        let ghost all = self.remaining();
        let mut cursor = self;
        let mut samples: Vec<Sample> = Vec::new();
        proof {
            assert(all.skip(0) =~= all);
        }
        loop
            invariant
                all == self.remaining(),
                samples@.len() <= all.len(),
                samples@ == all.take(samples@.len() as int),
                cursor.remaining() == all.skip(samples@.len() as int),
            decreases cursor.remaining().len(),
        {
            match cursor.next() {
                Some(sample) => {
                    samples.push(sample);
                    proof {
                        let k = samples@.len() as int;
                        assert(all.skip(k - 1).drop_first() =~= all.skip(k));
                        assert(all.take(k) =~= all.take(k - 1).push(all[k - 1]));
                    }
                },
                None => {
                    proof {
                        assert(all.take(all.len() as int) =~= all);
                    }
                    return samples;
                },
            }
        }
    }
}

} // verus!
