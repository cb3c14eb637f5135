use vstd::prelude::*;

pub mod consumer;
pub mod merge;
pub mod passthrough;
pub mod pipeline;
pub mod rng;
