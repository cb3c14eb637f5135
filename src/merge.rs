use vstd::prelude::*;

use crate::rng::{draw, next_state, RandomGenerator};

verus! {

/// What probing one source gave.
#[derive(Clone, Copy, Debug, PartialEq, Eq, Structural)]
pub enum Probe {
    /// The source yielded an item: the cycle ends with it.
    Item,
    /// The source reported its end: it is fused and never probed again.
    Exhausted,
    /// The source has nothing yet.
    Pending,
}

/// How a cycle that yielded no item ends.
#[derive(Clone, Copy, Debug, PartialEq, Eq, Structural)]
pub enum CycleEnd {
    /// Some source was pending: suspend.
    Pending,
    /// No source was pending: the merged stream has ended.
    Ended,
}

/// The abstract state of a merge.
pub struct MergeView {
    /// One flag per source, set for good once the source is exhausted.
    pub exhausted: Seq<bool>,
    /// The rotation offset of the current cycle.
    pub start: nat,
    /// How many positions of the current cycle have been dealt with.
    pub step: nat,
    /// Whether a source was pending in the current cycle.
    pub pending: bool,
    /// Whether the current cycle ended with an item.
    pub yielded: bool,
    /// The state of the generator that draws rotation offsets.
    pub rng: u64,
}

/// Merges several sources into one without starving any of them: each
/// cycle scans all sources once, starting from a random rotation offset,
/// and skips those that are exhausted.
#[derive(Debug)]
pub struct Merge {
    exhausted: Vec<bool>,
    rng: RandomGenerator,
    start: usize,
    step: usize,
    pending: bool,
    yielded: bool,
}

/// The source probed at position `step` of a cycle that starts at `start`.
pub open spec fn scan_index(start: nat, step: nat, n: nat) -> nat
    recommends
        n > 0,
{
    ((start + step) % n) as nat
}

/// Every source whose position in the cycle comes before `step` is exhausted.
pub open spec fn scanned_exhausted(exhausted: Seq<bool>, start: nat, step: nat) -> bool {
    forall|s: nat| s < step ==> exhausted[scan_index(start, s, exhausted.len()) as int]
}

/// A cycle that starts at `start` reaches every source within `n` positions.
proof fn lemma_scan_covers(start: nat, i: nat, n: nat)
    requires
        start < n,
        i < n,
    ensures
        scan_index(start, ((i + n - start) % (n as int)) as nat, n) == i,
{
    if i >= start {
        vstd::arithmetic::div_mod::lemma_mod_add_multiples_vanish((i - start) as int, n as int);
        vstd::arithmetic::div_mod::lemma_small_mod((i - start) as nat, n);
        vstd::arithmetic::div_mod::lemma_small_mod(i, n);
    } else {
        vstd::arithmetic::div_mod::lemma_small_mod((i + n - start) as nat, n);
        vstd::arithmetic::div_mod::lemma_mod_add_multiples_vanish(i as int, n as int);
        vstd::arithmetic::div_mod::lemma_small_mod(i, n);
    }
}

impl View for Merge {
    type V = MergeView;

    closed spec fn view(&self) -> MergeView {
        MergeView {
            exhausted: self.exhausted@,
            start: self.start as nat,
            step: self.step as nat,
            pending: self.pending,
            yielded: self.yielded,
            rng: self.rng.state_spec(),
        }
    }
}

impl Merge {
    /// The merge's invariant: the scan stays within one cycle, and unless the
    /// cycle saw a pending source or an item, every source it has dealt with
    /// is exhausted.
    pub closed spec fn wf(&self) -> bool {
        &&& self.exhausted@.len() <= u32::MAX
        &&& self.step <= self.exhausted@.len()
        &&& (self.start < self.exhausted@.len() || self.start == 0)
        &&& (!self.pending && !self.yielded) ==> scanned_exhausted(
            self.exhausted@,
            self.start as nat,
            self.step as nat,
        )
    }

    /// A merge of `n` sources, none exhausted, seeded with `seed`.
    pub fn new(n: usize, seed: u64) -> (r: Merge)
        requires
            n <= u32::MAX,
        ensures
            r.wf(),
            r@.exhausted == Seq::new(n as nat, |i: int| false),
            r@.step == n,
            r@.yielded,
            r@.rng == seed,
    {
        let mut exhausted: Vec<bool> = Vec::new();
        let mut i: usize = 0;
        while i < n
            invariant
                i <= n,
                exhausted@ == Seq::new(i as nat, |k: int| false),
            decreases n - i,
        {
            exhausted.push(false);
            i = i + 1;
            assert(exhausted@ =~= Seq::new(i as nat, |k: int| false));
        }
        Merge {
            exhausted,
            rng: RandomGenerator::new(seed),
            start: 0,
            step: n,
            pending: false,
            yielded: true,
        }
    }

    /// The number of sources.
    pub fn len(&self) -> (r: usize)
        ensures
            r == self@.exhausted.len(),
    {
        self.exhausted.len()
    }

    pub fn is_exhausted(&self, index: usize) -> (r: bool)
        requires
            index < self@.exhausted.len(),
        ensures
            r == self@.exhausted[index as int],
    {
        self.exhausted[index]
    }

    /// Starts a cycle: advances the generator and draws from it a rotation
    /// offset below the number of sources.
    pub fn start_cycle(&mut self) -> (r: usize)
        requires
            old(self).wf(),
        ensures
            final(self).wf(),
            final(self)@.rng == next_state(old(self)@.rng),
            r == draw(final(self)@.rng, old(self)@.exhausted.len() as u32),
            r == final(self)@.start,
            old(self)@.exhausted.len() > 0 ==> r < old(self)@.exhausted.len(),
            final(self)@.exhausted == old(self)@.exhausted,
            final(self)@.step == 0,
            !final(self)@.pending,
            !final(self)@.yielded,
    {
        let n = self.exhausted.len();
        let r = self.rng.random(n as u32) as usize;
        self.start = r;
        self.step = 0;
        self.pending = false;
        self.yielded = false;
        r
    }

    /// The next source to probe in this cycle: the first position, from the
    /// current one on, whose source is not exhausted; exhausted sources are
    /// passed over without a probe. `None` once the cycle is through.
    pub fn next_probe(&mut self) -> (r: Option<usize>)
        requires
            old(self).wf(),
        ensures
            final(self).wf(),
            final(self)@.exhausted == old(self)@.exhausted,
            final(self)@.start == old(self)@.start,
            final(self)@.pending == old(self)@.pending,
            final(self)@.yielded == old(self)@.yielded,
            final(self)@.rng == old(self)@.rng,
            old(self)@.step <= final(self)@.step,
            forall|s: nat|
                old(self)@.step <= s < final(self)@.step ==> old(self)@.exhausted[scan_index(
                    old(self)@.start,
                    s,
                    old(self)@.exhausted.len(),
                ) as int],
            match r {
                Some(i) => {
                    &&& final(self)@.step < old(self)@.exhausted.len()
                    &&& i == scan_index(
                        old(self)@.start,
                        final(self)@.step,
                        old(self)@.exhausted.len(),
                    )
                    &&& !old(self)@.exhausted[i as int]
                },
                None => final(self)@.step == old(self)@.exhausted.len(),
            },
    {
        let n = self.exhausted.len();
        while self.step < n
            invariant
                self.wf(),
                n == self.exhausted@.len(),
                self.exhausted@ == old(self).exhausted@,
                self.start == old(self).start,
                self.pending == old(self).pending,
                self.yielded == old(self).yielded,
                self.rng.state_spec() == old(self).rng.state_spec(),
                old(self).step <= self.step,
                forall|s: nat|
                    old(self).step <= s < self.step ==> self.exhausted@[scan_index(
                        self.start as nat,
                        s,
                        n as nat,
                    ) as int],
            decreases n - self.step,
        {
            let index = ((self.start as u64 + self.step as u64) % (n as u64)) as usize;
            if !self.exhausted[index] {
                return Some(index);
            }
            self.step = self.step + 1;
        }
        None
    }

    /// Records the outcome of probing `index`, the source that `next_probe`
    /// returned. An exhausted source is flagged for good; an item ends the
    /// cycle. Returns whether the cycle ended here.
    pub fn record(&mut self, index: usize, outcome: Probe) -> (r: bool)
        requires
            old(self).wf(),
            old(self)@.step < old(self)@.exhausted.len(),
            index == scan_index(old(self)@.start, old(self)@.step, old(self)@.exhausted.len()),
        ensures
            final(self).wf(),
            r == (outcome == Probe::Item),
            final(self)@.exhausted == (if outcome == Probe::Exhausted {
                old(self)@.exhausted.update(index as int, true)
            } else {
                old(self)@.exhausted
            }),
            final(self)@.pending == (old(self)@.pending || outcome == Probe::Pending),
            final(self)@.yielded == (old(self)@.yielded || outcome == Probe::Item),
            final(self)@.start == old(self)@.start,
            final(self)@.rng == old(self)@.rng,
            final(self)@.step == (if outcome == Probe::Item {
                old(self)@.exhausted.len()
            } else {
                old(self)@.step + 1
            }),
    {
        match outcome {
            Probe::Item => {
                self.yielded = true;
                self.step = self.exhausted.len();
                true
            },
            Probe::Exhausted => {
                self.exhausted.set(index, true);
                self.step = self.step + 1;
                false
            },
            Probe::Pending => {
                self.pending = true;
                self.step = self.step + 1;
                false
            },
        }
    }

    /// How a cycle that yielded no item ends: pending if any source was;
    /// otherwise the merged stream has ended, and then, once the cycle is
    /// through, every source is exhausted.
    pub fn cycle_end(&self) -> (r: CycleEnd)
        requires
            self.wf(),
        ensures
            r == (if self@.pending {
                CycleEnd::Pending
            } else {
                CycleEnd::Ended
            }),
            r == CycleEnd::Ended && !self@.yielded && self@.step == self@.exhausted.len()
                ==> forall|i: int| 0 <= i < self@.exhausted.len() ==> self@.exhausted[i],
    {
        proof {
            let n = self.exhausted@.len();
            if !self.pending && !self.yielded && self.step == n {
                assert forall|i: int| 0 <= i < n implies self.exhausted@[i] by {
                    lemma_scan_covers(self.start as nat, i as nat, n);
                    let s = ((i + n - self.start) % (n as int)) as nat;
                    assert(s < n);
                }
            }
        }
        if self.pending {
            CycleEnd::Pending
        } else {
            CycleEnd::Ended
        }
    }
}

} // verus!
