//! The samples an extrapolation strategy works from: the most recent fresh
//! fixes, oldest first, at most `HISTORY_LEN` of them.
use vstd::prelude::*;

verus! {

/// How many fresh fixes are kept: a linear projection needs two.
pub const HISTORY_LEN: usize = 2;

/// The last `HISTORY_LEN` elements of `s` (all of them if there are fewer).
pub open spec fn most_recent<T>(s: Seq<T>) -> Seq<T> {
    if s.len() <= HISTORY_LEN {
        s
    } else {
        s.subrange(s.len() - HISTORY_LEN, s.len() as int)
    }
}

/// The most recent fresh fixes.
pub struct History<T> {
    samples: Vec<T>,
}

impl<T> View for History<T> {
    type V = Seq<T>;

    closed spec fn view(&self) -> Seq<T> {
        self.samples@
    }
}

impl<T> History<T> {
    /// The invariant: no more than `HISTORY_LEN` samples are held.
    pub open spec fn wf(&self) -> bool {
        self@.len() <= HISTORY_LEN
    }

    /// A history with no sample.
    pub fn new() -> (r: Self)
        ensures
            r.wf(),
            r@ == Seq::<T>::empty(),
    {
        History { samples: Vec::new() }
    }

    /// Records a fresh fix; the oldest one leaves when the history is full.
    pub fn push(&mut self, sample: T)
        requires
            old(self).wf(),
        ensures
            final(self).wf(),
            final(self)@ == most_recent(old(self)@.push(sample)),
    {
        self.samples.push(sample);
        if self.samples.len() > HISTORY_LEN {
            self.samples.remove(0);
            assert(self@ =~= most_recent(old(self)@.push(sample)));
        }
    }

    /// The samples, oldest first.
    pub fn samples(&self) -> (r: &[T])
        ensures
            r@ == self@,
    {
        self.samples.as_slice()
    }
}

/// Whatever fixes were recorded, in order, the history holds the most recent
/// ones, oldest first.
pub open spec fn record_all<T>(h: Seq<T>, xs: Seq<T>) -> Seq<T>
    decreases xs.len(),
{
    if xs.len() == 0 {
        h
    } else {
        most_recent(record_all(h, xs.drop_last()).push(xs.last()))
    }
}

/// Recording fixes one by one into an empty history leaves exactly the last
/// `HISTORY_LEN` of them.
pub proof fn lemma_history_keeps_most_recent<T>(xs: Seq<T>)
    ensures
        record_all(Seq::<T>::empty(), xs) == most_recent(xs),
    decreases xs.len(),
{
    if xs.len() > 0 {
        let prev = xs.drop_last();
        lemma_history_keeps_most_recent(prev);
        assert(most_recent(most_recent(prev).push(xs.last())) =~= most_recent(xs));
    }
}

} // verus!
