//! Bounded rolling history of usage samples.
//!
//! Each tracked metric keeps the most recent samples in chronological order.
//! Once the buffer is full, every push evicts the oldest entry, so the
//! buffer always holds at most [`HISTORY_CAPACITY`] values and, after enough
//! pushes, exactly the latest ones.

use vstd::prelude::*;

verus! {

/// How many samples a history keeps.
pub const HISTORY_CAPACITY: usize = 50;

/// A fixed-capacity rolling sequence of samples, oldest first.
pub struct HistoryBuffer {
    data: Vec<u64>,
}

impl View for HistoryBuffer {
    type V = Seq<u64>;

    closed spec fn view(&self) -> Seq<u64> {
        self.data@
    }
}

/// What one push does to a history: append, evicting the oldest entry
/// when the buffer is already full.
pub open spec fn history_push(s: Seq<u64>, v: u64) -> Seq<u64> {
    if s.len() < HISTORY_CAPACITY {
        s.push(v)
    } else {
        s.subrange(1, s.len() as int).push(v)
    }
}

/// The history after pushing every value of `vs` in order onto `s`.
pub open spec fn history_push_all(s: Seq<u64>, vs: Seq<u64>) -> Seq<u64>
    decreases vs.len(),
{
    if vs.len() == 0 {
        s
    } else {
        history_push_all(history_push(s, vs[0]), vs.drop_first())
    }
}

impl HistoryBuffer {
    /// The capacity invariant: never more than [`HISTORY_CAPACITY`] samples.
    pub open spec fn wf(&self) -> bool {
        self@.len() <= HISTORY_CAPACITY
    }

    /// An empty history.
    pub fn new() -> (r: Self)
        ensures
            r@ == Seq::<u64>::empty(),
            r.wf(),
    {
        HistoryBuffer { data: Vec::new() }
    }

    /// Appends a sample, evicting the oldest when full.
    pub fn push(&mut self, v: u64)
        requires
            old(self).wf(),
        ensures
            final(self)@ == history_push(old(self)@, v),
            final(self).wf(),
    {
        if self.data.len() >= HISTORY_CAPACITY {
            self.data.remove(0);
        }
        self.data.push(v);
        proof {
            assert(self@ =~= history_push(old(self)@, v));
        }
    }

    /// The number of stored samples.
    pub fn len(&self) -> (n: usize)
        ensures
            n == self@.len(),
    {
        self.data.len()
    }

    /// The sample at position `i`, oldest first.
    pub fn index(&self, i: usize) -> (v: u64)
        requires
            i < self@.len(),
        ensures
            v == self@[i as int],
    {
        self.data[i]
    }

    /// A copy of the stored samples, oldest first, for display.
    pub fn to_vec(&self) -> (r: Vec<u64>)
        ensures
            r@ == self@,
    {
        let mut r: Vec<u64> = Vec::new();
        let mut i: usize = 0;
        while i < self.data.len()
            invariant
                i <= self.data.len(),
                r@ == self@.subrange(0, i as int),
            decreases self.data.len() - i,
        {
            r.push(self.data[i]);
            proof {
                assert(r@ =~= self@.subrange(0, i + 1 as int));
            }
            i += 1;
        }
        proof {
            assert(r@ =~= self@);
        }
        r
    }
}

/// Pushing keeps the capacity bound: however many samples arrive, the
/// history never exceeds the capacity.
pub proof fn lemma_history_bounded(s: Seq<u64>, vs: Seq<u64>)
    requires
        s.len() <= HISTORY_CAPACITY,
    ensures
        history_push_all(s, vs).len() <= HISTORY_CAPACITY,
    decreases vs.len(),
{
    if vs.len() > 0 {
        lemma_history_bounded(history_push(s, vs[0]), vs.drop_first());
    }
}

/// After pushing, the history is exactly the most recent capacity-many
/// values of everything it ever saw, oldest first: the last
/// [`HISTORY_CAPACITY`] entries of `s + vs`, or all of them when fewer.
pub proof fn lemma_history_keeps_latest(s: Seq<u64>, vs: Seq<u64>)
    requires
        s.len() <= HISTORY_CAPACITY,
    ensures
        (s + vs).len() <= HISTORY_CAPACITY ==> history_push_all(s, vs) == s + vs,
        (s + vs).len() > HISTORY_CAPACITY ==> history_push_all(s, vs) == (s + vs).subrange(
            (s + vs).len() - HISTORY_CAPACITY,
            (s + vs).len() as int,
        ),
    decreases vs.len(),
{
    if vs.len() == 0 {
        assert(s + vs =~= s);
    } else {
        let s1 = history_push(s, vs[0]);
        lemma_history_keeps_latest(s1, vs.drop_first());
        if s.len() < HISTORY_CAPACITY {
            assert(s1 + vs.drop_first() =~= s + vs);
        } else {
            let t = s1 + vs.drop_first();
            let full = s + vs;
            assert(t =~= full.subrange(1, full.len() as int));
            if t.len() <= HISTORY_CAPACITY {
                assert(history_push_all(s, vs) == t);
                assert(full.len() > HISTORY_CAPACITY);
                assert(t =~= full.subrange(full.len() - HISTORY_CAPACITY, full.len() as int));
            } else {
                assert(history_push_all(s, vs) == t.subrange(
                    t.len() - HISTORY_CAPACITY,
                    t.len() as int,
                ));
                assert(t.subrange(t.len() - HISTORY_CAPACITY, t.len() as int) =~= full.subrange(
                    full.len() - HISTORY_CAPACITY,
                    full.len() as int,
                ));
            }
        }
    }
}

/// After pushing more than capacity-many samples, the history holds
/// exactly the most recent capacity-many of them, oldest first.
pub proof fn lemma_history_latest_window(s: Seq<u64>, vs: Seq<u64>)
    requires
        s.len() <= HISTORY_CAPACITY,
        vs.len() >= HISTORY_CAPACITY,
    ensures
        history_push_all(s, vs) == vs.subrange(vs.len() - HISTORY_CAPACITY, vs.len() as int),
{
    lemma_history_keeps_latest(s, vs);
    let full = s + vs;
    if full.len() <= HISTORY_CAPACITY {
        assert(s.len() == 0);
        assert(full =~= vs);
        assert(vs.subrange(vs.len() - HISTORY_CAPACITY, vs.len() as int) =~= vs);
    } else {
        assert(full.subrange(full.len() - HISTORY_CAPACITY, full.len() as int) =~= vs.subrange(
            vs.len() - HISTORY_CAPACITY,
            vs.len() as int,
        ));
    }
}

} // verus!
