use vstd::prelude::*;

use crate::consumer::{Consumer, ConsumerState, ConsumerView};
use crate::pipeline::Advance;

verus! {

/// A concurrent stream that hands every consumer it drives through a
/// `PassthroughConsumer`: a layer that changes nothing, where middleware
/// can later be added.
#[derive(Debug)]
pub struct Passthrough<CS> {
    inner: CS,
}

impl<CS> Passthrough<CS> {
    pub closed spec fn inner_spec(&self) -> CS {
        self.inner
    }

    pub fn new(inner: CS) -> (r: Passthrough<CS>)
        ensures
            r.inner_spec() == inner,
    {
        Passthrough { inner }
    }

    pub fn inner(&self) -> (r: &CS)
        ensures
            *r == self.inner_spec(),
    {
        &self.inner
    }

    pub fn into_inner(self) -> (r: CS)
        ensures
            r == self.inner_spec(),
    {
        self.inner
    }

    /// Wraps the consumer that the inner stream will drive.
    pub fn wrap<C: Consumer>(&self, consumer: C) -> (r: PassthroughConsumer<C>)
        ensures
            r.inner_spec() == consumer,
    {
        PassthroughConsumer::new(consumer)
    }
}

/// A consumer that forwards every call to the consumer it wraps.
#[derive(Debug)]
pub struct PassthroughConsumer<C> {
    inner: C,
}

impl<C> PassthroughConsumer<C> {
    pub closed spec fn inner_spec(&self) -> C {
        self.inner
    }

    pub fn new(inner: C) -> (r: PassthroughConsumer<C>)
        ensures
            r.inner_spec() == inner,
    {
        PassthroughConsumer { inner }
    }

    pub fn into_inner(self) -> (r: C)
        ensures
            r == self.inner_spec(),
    {
        self.inner
    }
}

impl<C: Consumer> Consumer for PassthroughConsumer<C> {
    open spec fn valid(&self) -> bool {
        self.inner_spec().valid()
    }

    open spec fn state(&self) -> ConsumerView {
        self.inner_spec().state()
    }

    fn has_capacity(&self) -> (r: bool) {
        self.inner.has_capacity()
    }

    fn send(&mut self) -> (r: (u64, ConsumerState)) {
        self.inner.send()
    }

    fn advance(&mut self, index: usize, ready: bool) -> (r: Advance) {
        self.inner.advance(index, ready)
    }

    fn progress(&mut self) -> (r: ConsumerState) {
        self.inner.progress()
    }

    fn finish(self) {
        self.inner.finish()
    }
}

} // verus!
