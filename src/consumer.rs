use vstd::prelude::*;

use crate::pipeline::{advance_result, next_stage, Advance, ForEachFut, Stage};

verus! {

/// What a consumer reports back to the driver that feeds it.
#[derive(Clone, Copy, Debug, PartialEq, Eq, Structural)]
pub enum ConsumerState {
    /// Keep sending items.
    Continue,
    /// Nothing is in flight.
    Empty,
}

/// A live pipeline of the task group, with its admission number.
struct Slot {
    id: u64,
    pipeline: ForEachFut,
}

/// The abstract state of a bounded for-each consumer.
pub struct ConsumerView {
    /// Largest number of pipelines that may be in flight at once.
    pub limit: nat,
    /// Admission numbers of the live pipelines, in the order they were admitted.
    pub group: Seq<u64>,
    /// The stage of each live pipeline, index for index with `group`.
    pub stages: Seq<Stage>,
    /// How many items were admitted so far; they are numbered `0..admitted`.
    pub admitted: nat,
    /// Admission numbers of the pipelines whose transform has run, in
    /// completion order.
    pub completed: Seq<u64>,
}

/// Runs a transform on each admitted item, with at most `limit` items in
/// flight. The in-flight counter is the size of the task group: one permit
/// is taken when an item is admitted and given back when its pipeline
/// completes.
pub struct ForEachConsumer {
    limit: usize,
    count: usize,
    group: Vec<Slot>,
    next_id: u64,
    completed: Ghost<Seq<u64>>,
}

/// The limit that an optional concurrency limit stands for: no limit is
/// the largest `usize`.
pub open spec fn effective_limit(limit: Option<usize>) -> nat {
    match limit {
        Some(n) => n as nat,
        None => usize::MAX as nat,
    }
}

/// The item numbered `id` is live in `group` or has completed.
spec fn accounted(group: Seq<Slot>, completed: Seq<u64>, id: u64) -> bool {
    completed.contains(id) || exists|i: int| 0 <= i < group.len() && group[i].id == id
}

/// Items stay accounted for from one state to the next: each live pipeline
/// of the old group is found again, live or completed, the completed ones
/// are kept, and the newly admitted numbers are accounted for.
proof fn lemma_accounted_kept(
    g0: Seq<Slot>,
    c0: Seq<u64>,
    g1: Seq<Slot>,
    c1: Seq<u64>,
    bound0: u64,
    bound1: u64,
)
    requires
        forall|id: u64| id < bound0 ==> accounted(g0, c0, id),
        forall|i: int| #![trigger g0[i]] 0 <= i < g0.len() ==> accounted(g1, c1, g0[i].id),
        c0.len() <= c1.len(),
        forall|k: int| 0 <= k < c0.len() ==> c1[k] == c0[k],
        forall|id: u64| bound0 <= id < bound1 ==> accounted(g1, c1, id),
    ensures
        forall|id: u64| id < bound1 ==> accounted(g1, c1, id),
{
    assert forall|id: u64| id < bound1 implies accounted(g1, c1, id) by {
        if id < bound0 {
            assert(accounted(g0, c0, id));
            if c0.contains(id) {
                let k = choose|k: int| 0 <= k < c0.len() && c0[k] == id;
                assert(c1[k] == id);
            } else {
                let i = choose|i: int| 0 <= i < g0.len() && g0[i].id == id;
                assert(accounted(g1, c1, g0[i].id));
            }
        }
    }
}

impl View for ForEachConsumer {
    type V = ConsumerView;

    closed spec fn view(&self) -> ConsumerView {
        ConsumerView {
            limit: self.limit as nat,
            group: Seq::new(self.group@.len(), |i: int| self.group@[i].id),
            stages: Seq::new(self.group@.len(), |i: int| self.group@[i].pipeline@),
            admitted: self.next_id as nat,
            completed: self.completed@,
        }
    }
}

impl ForEachConsumer {
    /// The consumer's invariant: the counter equals the number of live
    /// pipelines and stays within the limit; live pipelines are held in
    /// admission order and none of them has completed; every admitted item
    /// is either live or completed, never both, and completes at most once.
    pub closed spec fn wf(&self) -> bool {
        &&& self.limit >= 1
        &&& self.count == self.group@.len()
        &&& self.count <= self.limit
        &&& forall|i: int| 0 <= i < self.group@.len() ==> self.group@[i].pipeline@ != Stage::Completed
        &&& forall|i: int, j: int|
            0 <= i < j < self.group@.len() ==> self.group@[i].id < self.group@[j].id
        &&& forall|i: int| 0 <= i < self.group@.len() ==> self.group@[i].id < self.next_id
        &&& self.completed@.no_duplicates()
        &&& forall|k: int| 0 <= k < self.completed@.len() ==> self.completed@[k] < self.next_id
        &&& forall|i: int, k: int|
            0 <= i < self.group@.len() && 0 <= k < self.completed@.len()
                ==> self.group@[i].id != self.completed@[k]
        &&& forall|id: u64| id < self.next_id ==> accounted(self.group@, self.completed@, id)
    }

    /// A consumer with no pipelines in flight. `limit` is the concurrency
    /// limit, positive when given; without one the consumer is effectively
    /// unbounded.
    pub fn new(limit: Option<usize>) -> (r: ForEachConsumer)
        requires
            limit matches Some(n) ==> n >= 1,
        ensures
            r.wf(),
            r@.limit == effective_limit(limit),
            r@.group.len() == 0,
            r@.stages.len() == 0,
            r@.admitted == 0,
            r@.completed.len() == 0,
    {
        let limit = match limit {
            Some(n) => n,
            None => usize::MAX,
        };
        let r = ForEachConsumer {
            limit,
            count: 0,
            group: Vec::new(),
            next_id: 0,
            completed: Ghost(Seq::empty()),
        };
        assert(r@.group =~= Seq::<u64>::empty());
        r
    }

    pub fn limit(&self) -> (r: usize)
        ensures
            r == self@.limit,
    {
        self.limit
    }

    /// The in-flight counter.
    pub fn in_flight(&self) -> (r: usize)
        requires
            self.wf(),
        ensures
            r == self@.group.len(),
    {
        self.count
    }

    /// Admission number of the live pipeline at `index`.
    pub fn id_at(&self, index: usize) -> (r: u64)
        requires
            index < self@.group.len(),
        ensures
            r == self@.group[index as int],
    {
        self.group[index].id
    }

    /// Stage of the live pipeline at `index`.
    pub fn stage_at(&self, index: usize) -> (r: Stage)
        requires
            index < self@.group.len(),
        ensures
            r == self@.stages[index as int],
    {
        self.group[index].pipeline.stage()
    }
}

/// The protocol between a driver and the consumer it feeds: items are
/// admitted by `send`, their pipelines are advanced by the driver, and
/// `progress` and `finish` drain what is in flight.
pub trait Consumer: Sized {
    /// The consumer's invariant.
    spec fn valid(&self) -> bool;

    /// The abstract state of the consumer.
    spec fn state(&self) -> ConsumerView;

    /// Whether an item can be admitted now. While this is false, `send`
    /// waits for a pipeline of the group to complete.
    fn has_capacity(&self) -> (r: bool)
        requires
            self.valid(),
        ensures
            r == (self.state().group.len() < self.state().limit),
    ;

    /// Admits one item once a slot is free: takes a permit and inserts a
    /// fresh pipeline at the end of the group. Returns the item's admission
    /// number and `Continue`.
    fn send(&mut self) -> (r: (u64, ConsumerState))
        requires
            old(self).valid(),
            old(self).state().group.len() < old(self).state().limit,
            old(self).state().admitted < u64::MAX,
        ensures
            final(self).valid(),
            r.0 == old(self).state().admitted,
            r.1 == ConsumerState::Continue,
            final(self).state().stages.len() == final(self).state().group.len(),
            final(self).state().group == old(self).state().group.push(r.0),
            final(self).state().stages == old(self).state().stages.push(Stage::WaitingItem),
            final(self).state().admitted == old(self).state().admitted + 1,
            final(self).state().completed == old(self).state().completed,
            final(self).state().limit == old(self).state().limit,
    ;

    /// One advancement attempt of the live pipeline at `index`, given
    /// whether the computation it waits on has resolved. When the pipeline
    /// completes, its permit is released: it leaves the group and its
    /// admission number is recorded as completed.
    fn advance(&mut self, index: usize, ready: bool) -> (r: Advance)
        requires
            old(self).valid(),
            index < old(self).state().group.len(),
        ensures
            final(self).valid(),
            r == advance_result(old(self).state().stages[index as int], ready),
            final(self).state().stages.len() == final(self).state().group.len(),
            final(self).state().limit == old(self).state().limit,
            final(self).state().admitted == old(self).state().admitted,
            r == Advance::Finished ==> {
                &&& final(self).state().group == old(self).state().group.remove(index as int)
                &&& final(self).state().stages == old(self).state().stages.remove(index as int)
                &&& final(self).state().completed == old(self).state().completed.push(
                    old(self).state().group[index as int],
                )
            },
            r != Advance::Finished ==> {
                &&& final(self).state().group == old(self).state().group
                &&& final(self).state().stages == old(self).state().stages.update(
                    index as int,
                    next_stage(old(self).state().stages[index as int], ready),
                )
                &&& final(self).state().completed == old(self).state().completed
            },
    ;

    /// Reports whether anything is still in flight: `Empty` at once when
    /// the group holds no pipeline, `Continue` while completions are still
    /// to be drained.
    fn progress(&mut self) -> (r: ConsumerState)
        requires
            old(self).valid(),
        ensures
            final(self).valid(),
            final(self).state() == old(self).state(),
            r == (if old(self).state().group.len() == 0 {
                ConsumerState::Empty
            } else {
                ConsumerState::Continue
            }),
    ;

    /// Ends the consumer once every admitted pipeline has completed: then
    /// every admitted item's transform has run exactly once, and nothing
    /// else has.
    fn finish(self)
        requires
            self.valid(),
            self.state().group.len() == 0,
        ensures
            self.state().completed.no_duplicates(),
            forall|id: u64| self.state().completed.contains(id) <==> id < self.state().admitted,
    ;
}

impl Consumer for ForEachConsumer {
    open spec fn valid(&self) -> bool {
        self.wf()
    }

    open spec fn state(&self) -> ConsumerView {
        self@
    }

    fn has_capacity(&self) -> (r: bool) {
        self.count < self.limit
    }

    fn send(&mut self) -> (r: (u64, ConsumerState)) {
        let id = self.next_id;
        self.count = self.count + 1;
        self.group.push(Slot { id, pipeline: ForEachFut::new() });
        self.next_id = self.next_id + 1;
        proof {
            let g0 = old(self).group@;
            let g1 = self.group@;
            assert forall|i: int| 0 <= i < g0.len() implies accounted(g1, self.completed@, g0[i].id) by {
                assert(g1[i] == g0[i]);
            }
            assert forall|x: u64| id <= x < self.next_id implies accounted(g1, self.completed@, x) by {
                assert(g1[g1.len() - 1].id == x);
            }
            lemma_accounted_kept(g0, self.completed@, g1, self.completed@, id, self.next_id);
        }
        assert(self@.group =~= old(self)@.group.push(id));
        assert(self@.stages =~= old(self)@.stages.push(Stage::WaitingItem));
        (id, ConsumerState::Continue)
    }

    fn advance(&mut self, index: usize, ready: bool) -> (r: Advance) {
        let ghost old_group = self.group@;
        let mut slot = self.group.remove(index);
        let r = slot.pipeline.advance(ready);
        if r == Advance::Finished {
            let ghost id = slot.id;
            self.count = self.count - 1;
            self.completed = Ghost(self.completed@.push(id));
            assert forall|k: int| 0 <= k < old(self).completed@.len() implies old(self).completed@[k] != id by {
                assert(old_group[index as int].id == id);
            }
            assert(self.completed@.no_duplicates());
            assert forall|i: int, j: int| 0 <= i < j < self.group@.len() implies self.group@[i].id < self.group@[j].id by {
                let oi = if i < index { i } else { i + 1 };
                let oj = if j < index { j } else { j + 1 };
                assert(self.group@[i] == old_group[oi]);
                assert(self.group@[j] == old_group[oj]);
            }
            assert forall|i: int, k: int|
                0 <= i < self.group@.len() && 0 <= k < self.completed@.len()
                implies self.group@[i].id != self.completed@[k] by {
                let oi = if i < index { i } else { i + 1 };
                assert(self.group@[i] == old_group[oi]);
                if k == old(self).completed@.len() {
                    assert(old_group[index as int].id == id);
                }
            }
            assert forall|oi: int| 0 <= oi < old_group.len() implies accounted(
                self.group@,
                self.completed@,
                old_group[oi].id,
            ) by {
                if oi == index {
                    assert(self.completed@[self.completed@.len() - 1] == id);
                } else {
                    let i = if oi < index { oi } else { oi - 1 };
                    assert(self.group@[i] == old_group[oi]);
                }
            }
            proof {
                lemma_accounted_kept(
                old_group,
                old(self).completed@,
                self.group@,
                self.completed@,
                self.next_id,
                self.next_id,
            );
            }
            assert(self@.group =~= old(self)@.group.remove(index as int));
            assert(self@.stages =~= old(self)@.stages.remove(index as int));
        } else {
            self.group.insert(index, slot);
            assert(self.group@ =~= old_group.update(index as int, self.group@[index as int]));
            assert forall|i: int| 0 <= i < old_group.len() implies accounted(
                self.group@,
                self.completed@,
                old_group[i].id,
            ) by {
                assert(self.group@[i].id == old_group[i].id);
            }
            proof {
                lemma_accounted_kept(
                old_group,
                self.completed@,
                self.group@,
                self.completed@,
                self.next_id,
                self.next_id,
            );
            }
            assert(self@.group =~= old(self)@.group);
            assert(self@.stages =~= old(self)@.stages.update(
                index as int,
                next_stage(old(self)@.stages[index as int], ready),
            ));
        }
        r
    }

    fn progress(&mut self) -> (r: ConsumerState) {
        if self.count == 0 {
            ConsumerState::Empty
        } else {
            ConsumerState::Continue
        }
    }

    fn finish(self) {
        proof {
            lemma_drained_runs_each_once(&self);
        }
    }
}

/// No admission ever leaves more pipelines in flight than the limit.
pub proof fn lemma_in_flight_within_limit(c: &ForEachConsumer)
    requires
        c.wf(),
    ensures
        c@.group.len() <= c@.limit,
        c@.limit >= 1,
        c@.stages.len() == c@.group.len(),
{
}

/// Live pipelines stand in the group in the order their items were sent,
/// whatever the order in which others completed.
pub proof fn lemma_group_in_admission_order(c: &ForEachConsumer)
    requires
        c.wf(),
    ensures
        forall|i: int, j: int| 0 <= i < j < c@.group.len() ==> c@.group[i] < c@.group[j],
        forall|i: int| 0 <= i < c@.group.len() ==> c@.group[i] < c@.admitted,
{
}

/// Once the group is drained, every admitted item's transform has run
/// exactly once, and nothing else has.
pub proof fn lemma_drained_runs_each_once(c: &ForEachConsumer)
    requires
        c.wf(),
        c@.group.len() == 0,
    ensures
        c@.completed.no_duplicates(),
        forall|id: u64| c@.completed.contains(id) <==> id < c@.admitted,
{
    assert forall|id: u64| id < c@.admitted implies c@.completed.contains(id) by {
        assert(accounted(c.group@, c.completed@, id));
    }
    assert forall|id: u64| c@.completed.contains(id) implies id < c@.admitted by {
        let k = choose|k: int| 0 <= k < c.completed@.len() && c.completed@[k] == id;
    }
}

} // verus!
