//! The ways in which building or stepping an environment can fail.

use vstd::prelude::*;
use crate::schedule::{Stage, Subsystem};

verus! {

/// Why an environment, or a part of one, could not be built.
///
/// Nothing is left behind by a failed construction: the operation that
/// reports one of these has changed nothing and returns nothing else.
#[derive(Clone, Copy, Debug, PartialEq, Eq, Structural)]
pub enum ConstructionFailure {
    /// The name is already registered in the instance container.
    NameTaken,
    /// The subsystem is already part of the schedule.
    AlreadyScheduled(Subsystem),
}

/// A subsystem gave up during a tick.
///
/// The environment that reports this is finished: it keeps the agent as it
/// was before the failed tick and answers every later tick with the same
/// failure.
#[derive(Clone, Copy, Debug, PartialEq, Eq, Structural)]
pub struct SubsystemFailure {
    /// The stage that failed.
    pub stage: Stage,
}

} // verus!
