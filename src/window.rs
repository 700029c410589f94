use vstd::prelude::*;

verus! {

/// The window `w` after one more sample `v`: the newest sample stands first
/// and the oldest one leaves, so the size is kept. A window of size zero
/// holds nothing.
pub open spec fn after_observe<T>(w: Seq<T>, v: T) -> Seq<T> {
    if w.len() == 0 {
        w
    } else {
        seq![v] + w.drop_last()
    }
}

/// The window `w` after the samples `vs`, observed in order.
pub open spec fn after_all<T>(w: Seq<T>, vs: Seq<T>) -> Seq<T>
    decreases vs.len(),
{
    if vs.len() == 0 {
        w
    } else {
        after_observe(after_all(w, vs.drop_last()), vs.last())
    }
}

/// A rolling window of a fixed number of samples of an observed quantity,
/// newest first.
///
/// A window may be seeded with values that must all be pushed out before its
/// samples say anything about the observed quantity; `is_full` tells when that
/// has happened. Deciding convergence from the spread of the samples is a
/// heuristic, not a proof of equilibrium.
pub struct SampleWindow<T> {
    samples: Vec<T>,
    observed: usize,
}

impl<T> View for SampleWindow<T> {
    type V = Seq<T>;

    closed spec fn view(&self) -> Seq<T> {
        self.samples@
    }
}

impl<T> SampleWindow<T> {
    /// How many of the samples held were observed rather than seeded.
    pub closed spec fn observed_count(&self) -> nat {
        self.observed as nat
    }

    /// At most as many observed samples as the window holds.
    pub open spec fn wf(&self) -> bool {
        self.observed_count() <= self@.len()
    }

    /// A window whose size and initial contents are those of `seed`.
    pub fn new(seed: Vec<T>) -> (r: Self)
        ensures
            r.wf(),
            r@ == seed@,
            r.observed_count() == 0,
    {
        SampleWindow { samples: seed, observed: 0 }
    }

    /// The number of samples the window holds.
    pub fn size(&self) -> (r: usize)
        ensures
            r == self@.len(),
    {
        self.samples.len()
    }

    /// The samples, newest first.
    pub fn samples(&self) -> (r: &Vec<T>)
        ensures
            r@ == self@,
    {
        &self.samples
    }

    /// Adds `value` as the newest sample and drops the oldest one.
    pub fn observe(&mut self, value: T)
        requires
            old(self).wf(),
        ensures
            final(self).wf(),
            final(self)@ == after_observe(old(self)@, value),
            final(self).observed_count() == if old(self).observed_count() < old(self)@.len() {
                old(self).observed_count() + 1
            } else {
                old(self).observed_count()
            },
    {
        if self.samples.len() > 0 {
            self.samples.insert(0, value);
            self.samples.pop();
            assert(self.samples@ =~= seq![value] + old(self).samples@.drop_last());
            if self.observed < self.samples.len() {
                self.observed = self.observed + 1;
            }
        }
    }

    /// True when every sample held was observed: no seeded value is left.
    pub fn is_full(&self) -> (r: bool)
        requires
            self.wf(),
        ensures
            r == (self.observed_count() == self@.len()),
    {
        self.observed == self.samples.len()
    }
}

/// A window holds the latest samples, newest first, followed by what remains
/// of its earlier contents: after the samples `vs`, entry `i` is the `i`-th
/// newest of them, or, past the last of them, entry `i - |vs|` of the window
/// before.
pub proof fn lemma_window_holds_latest<T>(w: Seq<T>, vs: Seq<T>)
    ensures
        after_all(w, vs).len() == w.len(),
        forall|i: int|
            0 <= i < w.len() ==> #[trigger] after_all(w, vs)[i] == if i < vs.len() {
                vs[vs.len() - 1 - i]
            } else {
                w[i - vs.len()]
            },
    decreases vs.len(),
{
    if vs.len() > 0 {
        lemma_window_holds_latest(w, vs.drop_last());
    }
}

/// Once a window has seen at least as many samples as it holds, all equal to
/// `v`, every sample it holds is `v`.
pub proof fn lemma_window_of_equal_samples<T>(w: Seq<T>, vs: Seq<T>, v: T)
    requires
        vs.len() >= w.len(),
        forall|j: int| 0 <= j < vs.len() ==> vs[j] == v,
    ensures
        forall|i: int| 0 <= i < w.len() ==> #[trigger] after_all(w, vs)[i] == v,
{
    lemma_window_holds_latest(w, vs);
    assert forall|i: int| 0 <= i < w.len() implies #[trigger] after_all(w, vs)[i] == v by {
        assert(vs[vs.len() - 1 - i] == v);
    }
}

} // verus!
