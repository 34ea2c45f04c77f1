//! The fixed order in which the subsystems run.

use vstd::prelude::*;
use crate::error::ConstructionFailure;

verus! {

/// The subsystems that act on the agent during a tick.
///
/// Networking, rendering and chat are not among them: they have no place in a
/// simulation and cannot be scheduled.
#[derive(Clone, Copy, Debug, PartialEq, Eq, Structural, Hash)]
pub enum Subsystem {
    /// Gravity, collision and integration of velocity.
    Physics,
    /// Bookkeeping of which entities exist and where.
    EntityLifecycle,
    /// Turning movement intent into acceleration.
    Movement,
    /// Inventory management.
    Inventory,
    /// Progress of block breaking.
    Mining,
    /// Interaction with blocks and entities.
    Interaction,
    /// Generic agent behaviour, such as looking and jumping.
    Behavior,
    /// Hooks of the path planner.
    PathPlanning,
}

/// One step of a tick: a subsystem, or the update pass that ends the tick.
#[derive(Clone, Copy, Debug, PartialEq, Eq, Structural, Hash)]
pub enum Stage {
    Run(Subsystem),
    /// The bookkeeping pass after the last subsystem, in which signals queued
    /// during the tick are flushed.
    Update,
}

/// How a schedule runs its subsystems.
#[derive(Clone, Copy, Debug, PartialEq, Eq, Structural)]
pub enum ExecutorKind {
    /// One subsystem after the other, on the caller's thread.
    SingleThreaded,
    /// Subsystems without conflicts side by side. Never used by a simulation.
    MultiThreaded,
}

/// Number of subsystems in the standard pipeline.
pub const SUBSYSTEMS: usize = 8;

/// Number of stages in a tick: every subsystem, then the update pass.
pub const STAGES: usize = 9;

/// The standard pipeline, in the order in which it runs.
pub open spec fn pipeline() -> Seq<Subsystem> {
    seq![
        Subsystem::Physics,
        Subsystem::EntityLifecycle,
        Subsystem::Movement,
        Subsystem::Inventory,
        Subsystem::Mining,
        Subsystem::Interaction,
        Subsystem::Behavior,
        Subsystem::PathPlanning,
    ]
}

/// The stages that a schedule of the given subsystems goes through in one
/// tick: each subsystem in order, then the update pass.
pub open spec fn stages_of(subsystems: Seq<Subsystem>) -> Seq<Stage> {
    Seq::new(
        subsystems.len() + 1,
        |i: int|
            if i < subsystems.len() {
                Stage::Run(subsystems[i])
            } else {
                Stage::Update
            },
    )
}

/// The stages of a tick of the standard pipeline.
pub open spec fn stages() -> Seq<Stage> {
    stages_of(pipeline())
}

/// An ordered list of subsystems together with the way they are executed.
///
/// Subsystems run in the order in which they were added, and none is in the
/// list twice.
pub struct Schedule {
    executor: ExecutorKind,
    subsystems: Vec<Subsystem>,
}

impl View for Schedule {
    type V = Seq<Subsystem>;

    closed spec fn view(&self) -> Seq<Subsystem> {
        self.subsystems@
    }
}

impl Schedule {
    /// Whether no subsystem occurs twice. Every constructor establishes
    /// this and every method keeps it.
    pub open spec fn wf(&self) -> bool {
        self@.no_duplicates()
    }

    /// How the schedule is executed.
    pub closed spec fn executor_spec(&self) -> ExecutorKind {
        self.executor
    }

    /// A schedule without subsystems.
    pub fn new(executor: ExecutorKind) -> (s: Schedule)
        ensures
            s@ == Seq::<Subsystem>::empty(),
            s.executor_spec() == executor,
            s.wf(),
    {
        Schedule { executor, subsystems: Vec::new() }
    }

    pub fn executor(&self) -> (kind: ExecutorKind)
        ensures
            kind == self.executor_spec(),
    {
        self.executor
    }

    /// Number of subsystems.
    pub fn len(&self) -> (n: usize)
        ensures
            n == self@.len(),
    {
        self.subsystems.len()
    }

    /// Whether `subsystem` is part of the schedule.
    pub fn contains(&self, subsystem: Subsystem) -> (found: bool)
        ensures
            found == self@.contains(subsystem),
    {
        let mut i: usize = 0;
        while i < self.subsystems.len()
            invariant
                i <= self.subsystems.len(),
                forall|j: int| 0 <= j < i ==> self.subsystems@[j] != subsystem,
            decreases self.subsystems.len() - i,
        {
            if self.subsystems[i] == subsystem {
                return true;
            }
            i += 1;
        }
        false
    }

    /// Appends `subsystem`, which then runs after all that were added before.
    ///
    /// Fails, and changes nothing, exactly when the subsystem is already
    /// scheduled.
    pub fn add(&mut self, subsystem: Subsystem) -> (r: Result<(), ConstructionFailure>)
        requires
            old(self).wf(),
        ensures
            final(self).executor_spec() == old(self).executor_spec(),
            final(self).wf(),
            match r {
                Ok(()) => !old(self)@.contains(subsystem) && final(self)@ == old(self)@.push(
                    subsystem,
                ),
                Err(e) => old(self)@.contains(subsystem) && final(self)@ == old(self)@ && e
                    == ConstructionFailure::AlreadyScheduled(subsystem),
            },
    {
        if self.contains(subsystem) {
            return Err(ConstructionFailure::AlreadyScheduled(subsystem));
        }
        self.subsystems.push(subsystem);
        Ok(())
    }

    /// The stage at position `i` of a tick: the `i`-th subsystem, then the
    /// update pass once the subsystems are through, and nothing after that.
    pub fn stage(&self, i: usize) -> (stage: Option<Stage>)
        ensures
            stage == if i <= self@.len() {
                Some(stages_of(self@)[i as int])
            } else {
                None
            },
    {
        if i < self.subsystems.len() {
            Some(Stage::Run(self.subsystems[i]))
        } else if i == self.subsystems.len() {
            Some(Stage::Update)
        } else {
            None
        }
    }

    /// Appends a subsystem that is known not to be scheduled yet.
    fn register(&mut self, subsystem: Subsystem)
        requires
            old(self).wf(),
            !old(self)@.contains(subsystem),
        ensures
            final(self).wf(),
            final(self).executor_spec() == old(self).executor_spec(),
            final(self)@ == old(self)@.push(subsystem),
    {
        match self.add(subsystem) {
            Ok(()) => {},
            Err(_) => {
                assert(false);
            },
        }
    }

    /// The standard pipeline on a single thread: physics, entity lifecycle,
    /// movement, inventory, mining, interaction, behaviour, path planning.
    pub fn standard() -> (s: Schedule)
        ensures
            s@ == pipeline(),
            s.executor_spec() == ExecutorKind::SingleThreaded,
            s.wf(),
    {
        let mut s = Schedule::new(ExecutorKind::SingleThreaded);
        s.register(Subsystem::Physics);
        s.register(Subsystem::EntityLifecycle);
        s.register(Subsystem::Movement);
        s.register(Subsystem::Inventory);
        s.register(Subsystem::Mining);
        s.register(Subsystem::Interaction);
        s.register(Subsystem::Behavior);
        s.register(Subsystem::PathPlanning);
        assert(s@ =~= pipeline());
        s
    }
}

} // verus!
