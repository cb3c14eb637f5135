use vstd::prelude::*;

verus! {

/// The phase an item pipeline is in. Phases only move forward:
/// `WaitingItem`, then `WaitingTransform`, then `Completed`.
#[derive(Clone, Copy, Debug, PartialEq, Eq, Structural)]
pub enum Stage {
    /// Waiting for the item-producing computation to resolve.
    WaitingItem,
    /// Waiting for the transform's computation to resolve.
    WaitingTransform,
    /// The transform has run; the pipeline must not be advanced again.
    Completed,
}

/// What one advancement attempt of a pipeline asks of its driver.
#[derive(Clone, Copy, Debug, PartialEq, Eq, Structural)]
pub enum Advance {
    /// The awaited computation is not ready: suspend, nothing changed.
    Suspended,
    /// The item resolved: invoke the transform on it and poll the result.
    TransformStarted,
    /// The transform's computation resolved: release the admission permit.
    Finished,
}

/// The state machine that runs one item's transform: first await the
/// item, then await the transform applied to it.
#[derive(Debug)]
pub struct ForEachFut {
    stage: Stage,
}

impl View for ForEachFut {
    type V = Stage;

    closed spec fn view(&self) -> Stage {
        self.stage
    }
}

/// The stage reached by one advancement attempt from `s`, given whether the
/// awaited computation resolved.
pub open spec fn next_stage(s: Stage, ready: bool) -> Stage {
    if !ready {
        s
    } else {
        match s {
            Stage::WaitingItem => Stage::WaitingTransform,
            _ => Stage::Completed,
        }
    }
}

/// What one advancement attempt from `s` reports, given whether the awaited
/// computation resolved.
pub open spec fn advance_result(s: Stage, ready: bool) -> Advance {
    if !ready {
        Advance::Suspended
    } else {
        match s {
            Stage::WaitingItem => Advance::TransformStarted,
            _ => Advance::Finished,
        }
    }
}

impl ForEachFut {
    /// A fresh pipeline, waiting for its item.
    pub fn new() -> (r: ForEachFut)
        ensures
            r@ == Stage::WaitingItem,
    {
        ForEachFut { stage: Stage::WaitingItem }
    }

    pub fn stage(&self) -> (r: Stage)
        ensures
            r == self@,
    {
        self.stage
    }

    pub fn is_completed(&self) -> (r: bool)
        ensures
            r == (self@ == Stage::Completed),
    {
        self.stage == Stage::Completed
    }

    /// One advancement attempt. `ready` tells whether the computation the
    /// pipeline waits on in its current stage has resolved. A completed
    /// pipeline may not be advanced.
    pub fn advance(&mut self, ready: bool) -> (r: Advance)
        requires
            old(self)@ != Stage::Completed,
        ensures
            final(self)@ == next_stage(old(self)@, ready),
            r == advance_result(old(self)@, ready),
    {
        if !ready {
            return Advance::Suspended;
        }
        match self.stage {
            Stage::WaitingItem => {
                self.stage = Stage::WaitingTransform;
                Advance::TransformStarted
            },
            _ => {
                self.stage = Stage::Completed;
                Advance::Finished
            },
        }
    }
}

} // verus!
