//! The simulation environment: one agent, one world, one fixed pipeline.

use vstd::prelude::*;
use std::sync::Arc;
use crate::agent::{nil_uuid, Agent, EntityKind, MinecraftEntityId};
use crate::bundle::{BundleView, SimulatedPlayerBundle};
use crate::error::{ConstructionFailure, SubsystemFailure};
use crate::schedule::{pipeline, stages, ExecutorKind, Schedule, Stage, STAGES};
use crate::vector::Vec3;
use crate::world::{
    share, simulation_name, simulation_name_string, Instance, InstanceContainer, InstanceHolder,
    InstanceKey,
};

verus! {

/// What a stage made of the agent.
#[derive(Clone, Debug, PartialEq, Eq)]
pub enum Outcome {
    /// The stage ran through and left the agent with these components.
    Completed(SimulatedPlayerBundle),
    /// The stage failed irrecoverably.
    Failed,
}

/// The mathematical content of an [`Outcome`].
pub enum OutcomeView {
    Completed(BundleView),
    Failed,
}

impl View for Outcome {
    type V = OutcomeView;

    open spec fn view(&self) -> OutcomeView {
        match self {
            Outcome::Completed(components) => OutcomeView::Completed(components@),
            Outcome::Failed => OutcomeView::Failed,
        }
    }
}

/// The contents of the outcomes of a tick, stage by stage.
pub open spec fn views(outcomes: Seq<Outcome>) -> Seq<OutcomeView> {
    Seq::new(outcomes.len(), |i: int| outcomes[i]@)
}

/// What of an environment changes over its life.
pub struct State {
    /// The agent's components.
    pub components: BundleView,
    /// Number of ticks completed.
    pub ticks: nat,
    /// The stage at which a tick failed, once one has.
    pub failure: Option<Stage>,
}

/// The components that stage `i` of a tick starts from, when the tick began
/// with `start` and the stages before `i` ended as `outcomes` says.
pub open spec fn input_at(
    start: SimulatedPlayerBundle,
    outcomes: Seq<Outcome>,
    i: int,
) -> SimulatedPlayerBundle {
    if i == 0 {
        start
    } else {
        outcomes[i - 1]->Completed_0
    }
}

/// Whether `outcomes[i]` is something that `run` can return for stage `i` of a
/// tick in `world` that began with `start` and went on as `outcomes` says.
pub open spec fn stage_ran<T, F: Fn(Stage, &SimulatedPlayerBundle, &Instance<T>) -> Outcome>(
    run: F,
    world: Instance<T>,
    start: SimulatedPlayerBundle,
    outcomes: Seq<Outcome>,
    i: int,
) -> bool {
    call_ensures(run, (stages()[i], &input_at(start, outcomes, i), &world), outcomes[i])
}

/// Whether `outcomes` is what `run` can make of the first stages of one tick
/// in `world`, begun with the components `start`: the stages are taken in the
/// order of the pipeline, none is left out or run twice, each sees what the
/// one before it left, and only the last of them may have failed.
pub open spec fn ran<T, F: Fn(Stage, &SimulatedPlayerBundle, &Instance<T>) -> Outcome>(
    run: F,
    world: Instance<T>,
    start: SimulatedPlayerBundle,
    outcomes: Seq<Outcome>,
) -> bool {
    &&& outcomes.len() <= STAGES
    &&& forall|i: int|
        0 <= i < outcomes.len() ==> #[trigger] stage_ran(run, world, start, outcomes, i)
    &&& forall|i: int| 0 <= i < outcomes.len() - 1 ==> (#[trigger] outcomes[i]) is Completed
}

/// Whether `outcomes` ends a tick: a stage has failed, or all have run.
pub open spec fn settled(outcomes: Seq<Outcome>) -> bool {
    outcomes.len() > 0 && (outcomes.last() is Failed || outcomes.len() == STAGES)
}

impl State {
    /// The state of an environment that was just built from `player`: the
    /// agent has the components of `player`, and no tick has run or failed.
    pub open spec fn initial(player: BundleView) -> State {
        State { components: player, ticks: 0, failure: None }
    }

    /// The state after a tick whose stages ended as `outcomes` says.
    ///
    /// A failed environment stays as it is. A tick in which a stage failed
    /// leaves the agent and the tick count as they were and records the
    /// stage. A tick that ran through takes the agent as the update pass
    /// left it and counts one tick more.
    pub open spec fn after_tick(self, outcomes: Seq<OutcomeView>) -> State {
        if self.failure is Some {
            self
        } else if outcomes.last() is Failed {
            State { failure: Some(stages()[outcomes.len() - 1]), ..self }
        } else {
            State {
                components: outcomes.last()->Completed_0,
                ticks: self.ticks + 1,
                failure: None,
            }
        }
    }

    /// What such a tick reports.
    pub open spec fn tick_result(
        self,
        outcomes: Seq<OutcomeView>,
    ) -> Result<(), SubsystemFailure> {
        match self.after_tick(outcomes).failure {
            Some(stage) => Err(SubsystemFailure { stage }),
            None => Ok(()),
        }
    }
}

/// What a planner can do to an environment.
pub enum Command {
    /// Replace the agent's components.
    Insert(BundleView),
    /// Advance by one tick.
    Tick,
}

/// Whether `command` can take an environment with driver `run` and world
/// `world` from `before` to `after`.
///
/// A tick of a sound environment is whatever the driver can make of the
/// stages, begun on an agent with the components of `before`.
pub open spec fn step_allowed<T, F: Fn(Stage, &SimulatedPlayerBundle, &Instance<T>) -> Outcome>(
    run: F,
    world: Instance<T>,
    before: State,
    command: Command,
    after: State,
) -> bool {
    match command {
        Command::Insert(bundle) => after == (State { components: bundle, ..before }),
        Command::Tick => if before.failure is Some {
            after == before
        } else {
            exists|start: SimulatedPlayerBundle, outcomes: Seq<Outcome>|
                #[trigger] ran(run, world, start, outcomes) && start@ == before.components
                    && settled(outcomes) && after == before.after_tick(views(outcomes))
        },
    }
}

/// A world with one agent in it, stepped on demand.
///
/// `T` is the terrain snapshot, which the environment owns and never
/// changes. `F` is the driver: the function that does the work of a stage.
/// It is given the stage, the agent's components as the stage before left
/// them, and the world to read, and returns what the stage made of the
/// components.
pub struct Simulation<T, F: Fn(Stage, &SimulatedPlayerBundle, &Instance<T>) -> Outcome> {
    run: F,
    schedule: Schedule,
    container: InstanceContainer,
    key: InstanceKey,
    instance: Arc<Instance<T>>,
    agent: Agent<T>,
    ticks: u64,
    failure: Option<Stage>,
}

impl<T, F: Fn(Stage, &SimulatedPlayerBundle, &Instance<T>) -> Outcome> View for Simulation<T, F> {
    type V = State;

    closed spec fn view(&self) -> State {
        State {
            components: self.agent.components@,
            ticks: self.ticks as nat,
            failure: self.failure,
        }
    }
}

/// Whether `run` accepts every stage, agent and world.
pub open spec fn total<T, F: Fn(Stage, &SimulatedPlayerBundle, &Instance<T>) -> Outcome>(
    run: F,
) -> bool {
    forall|stage: Stage, components: &SimulatedPlayerBundle, world: &Instance<T>|
        call_requires(run, (stage, components, world))
}

impl<T, F: Fn(Stage, &SimulatedPlayerBundle, &Instance<T>) -> Outcome> Simulation<T, F> {
    #[verifier::type_invariant]
    spec fn inv(&self) -> bool {
        &&& total(self.run)
        &&& self.schedule@ == pipeline()
        &&& self.schedule.executor_spec() == ExecutorKind::SingleThreaded
        &&& self.container.wf()
        &&& self.key.0 < self.container@.len()
        &&& self.container@[self.key.0 as int] == simulation_name()
        &&& self.agent.is_simulated()
        &&& self.agent.is_bound_to(*self.instance)
    }

    /// The driver.
    pub closed spec fn driver(&self) -> F {
        self.run
    }

    /// The world.
    pub closed spec fn world(&self) -> Instance<T> {
        *self.instance
    }

    /// The registered world names.
    pub closed spec fn names(&self) -> Seq<Seq<char>> {
        self.container@
    }

    /// The agent. Its components are those of the state.
    pub closed spec fn agent_spec(&self) -> Agent<T> {
        self.agent
    }

    /// The agent's components hold what the state says.
    pub proof fn lemma_agent_has_the_components(&self)
        ensures
            self.agent_spec().components@ == self@.components,
    {
    }

    /// Builds an environment around `chunks` with one agent made from
    /// `player`, in a container of its own.
    ///
    /// Right after this the agent is where `player` says, with exactly the
    /// components of `player`, and no tick has run.
    pub fn new(chunks: T, player: SimulatedPlayerBundle, run: F) -> (sim: Self)
        requires
            total(run),
        ensures
            sim.driver() == run,
            sim.world()@ == chunks,
            sim@ == State::initial(player@),
            sim@.components.position == player.position.0,
            sim.names() == seq![simulation_name()],
            sim.agent_spec().is_simulated(),
            sim.agent_spec().is_bound_to(sim.world()),
    {
        let container = InstanceContainer::new();
        match Self::create(container, chunks, player, run) {
            Ok(sim) => sim,
            Err(_) => {
                assert(false);
                vstd::pervasive::unreached()
            },
        }
    }

    /// Builds an environment as [`Simulation::new`] does, registering its
    /// world in `container`, which the environment then owns.
    ///
    /// Fails exactly when `container` already holds the simulation's name.
    /// Nothing is built in that case.
    pub fn create(
        container: InstanceContainer,
        chunks: T,
        player: SimulatedPlayerBundle,
        run: F,
    ) -> (r: Result<Self, ConstructionFailure>)
        requires
            container.wf(),
            total(run),
        ensures
            match r {
                Ok(sim) => {
                    &&& !container@.contains(simulation_name())
                    &&& sim.driver() == run
                    &&& sim.world()@ == chunks
                    &&& sim@ == State::initial(player@)
                    &&& sim@.components.position == player.position.0
                    &&& sim.names() == container@.push(simulation_name())
                    &&& sim.agent_spec().is_simulated()
                    &&& sim.agent_spec().is_bound_to(sim.world())
                },
                Err(e) => container@.contains(simulation_name()) && e
                    == ConstructionFailure::NameTaken,
            },
    {
        let mut container = container;
        let instance_name = simulation_name_string();
        let key = match container.insert(instance_name.as_str()) {
            Ok(key) => key,
            Err(e) => {
                return Err(e);
            },
        };
        let instance = Arc::new(Instance::new(chunks));
        let schedule = Schedule::standard();
        let holder = InstanceHolder::new(share(&instance));
        let mut agent = Agent::spawn(
            MinecraftEntityId(0),
            nil_uuid(),
            player.position.get(),
            EntityKind::Player,
            instance_name,
            holder,
        );
        agent.insert(player);
        Ok(Simulation { run, schedule, container, key, instance, agent, ticks: 0, failure: None })
    }

    /// Where the agent is.
    pub fn position(&self) -> (pos: Vec3)
        ensures
            pos == self@.components.position,
    {
        self.agent.components.position.get()
    }

    /// The agent's components, for reading between ticks.
    pub fn components(&self) -> (components: &SimulatedPlayerBundle)
        ensures
            *components == self.agent_spec().components,
            components@ == self@.components,
    {
        &self.agent.components
    }

    /// Replaces the agent's components by `bundle`, as a planner does between
    /// ticks to steer the agent. Nothing else changes.
    pub fn insert(&mut self, bundle: SimulatedPlayerBundle)
        ensures
            final(self)@ == (State { components: bundle@, ..old(self)@ }),
            final(self).agent_spec().components == bundle,
            step_allowed(
                old(self).driver(),
                old(self).world(),
                old(self)@,
                Command::Insert(bundle@),
                final(self)@,
            ),
            final(self).driver() == old(self).driver(),
            final(self).world() == old(self).world(),
            final(self).names() == old(self).names(),
            final(self).agent_spec().same_entity(&old(self).agent_spec()),
    {
        proof {
            use_type_invariant(&*self);
        }
        self.agent.components = bundle;
    }

    /// Number of ticks completed.
    pub fn ticks(&self) -> (n: u64)
        ensures
            n == self@.ticks,
    {
        self.ticks
    }

    /// The stage at which a tick failed, if one has.
    pub fn failure(&self) -> (failure: Option<Stage>)
        ensures
            failure == self@.failure,
    {
        self.failure
    }

    /// The agent: its identity, its world and its components.
    pub fn agent(&self) -> (agent: &Agent<T>)
        ensures
            *agent == self.agent_spec(),
            agent.is_simulated(),
            agent.is_bound_to(self.world()),
            agent.components@ == self@.components,
    {
        proof {
            use_type_invariant(self);
        }
        &self.agent
    }

    /// The schedule: always the standard pipeline on a single thread.
    pub fn schedule(&self) -> (schedule: &Schedule)
        ensures
            schedule@ == pipeline(),
            schedule.executor_spec() == ExecutorKind::SingleThreaded,
    {
        proof {
            use_type_invariant(self);
        }
        &self.schedule
    }

    /// The world registered under `name`: the environment's own world for
    /// the simulation's name, and none for any other.
    pub fn resolve(&self, name: &str) -> (world: Option<&Instance<T>>)
        ensures
            match world {
                Some(w) => name@ == simulation_name() && *w == self.world(),
                None => name@ != simulation_name(),
            },
    {
        proof {
            use_type_invariant(self);
        }
        match self.container.get(name) {
            Some(key) => {
                if key.0 == self.key.0 {
                    Some(&*self.instance)
                } else {
                    None
                }
            },
            None => None,
        }
    }

    /// Runs the stages of one tick on the driver, each on what the one
    /// before left, until one fails or all are through. The world handed to
    /// the driver is the one that the agent's world name resolves to.
    fn run_stages(&self) -> (r: (Result<SimulatedPlayerBundle, Stage>, Ghost<Seq<Outcome>>))
        ensures
            ran(self.run, *self.instance, self.agent.components, r.1@),
            settled(r.1@),
            match r.0 {
                Ok(components) => r.1@.len() == STAGES && r.1@.last() == Outcome::Completed(
                    components,
                ),
                Err(stage) => r.1@.last() is Failed && stage == stages()[r.1@.len() - 1],
            },
    {
        proof {
            use_type_invariant(self);
        }
        let world = match self.resolve(self.agent.world_name.as_str()) {
            Some(world) => world,
            None => {
                assert(false);
                vstd::pervasive::unreached()
            },
        };
        let ghost start = self.agent.components;
        let ghost mut outcomes: Seq<Outcome> = Seq::empty();
        let mut working: Option<SimulatedPlayerBundle> = None;
        let n = self.schedule.len();
        let mut i: usize = 0;
        while i <= n
            invariant
                total(self.run),
                self.schedule@ == pipeline(),
                n == self.schedule@.len(),
                start == self.agent.components,
                *world == *self.instance,
                i <= n + 1,
                i == outcomes.len(),
                ran(self.run, *self.instance, start, outcomes),
                forall|j: int| 0 <= j < outcomes.len() ==> (#[trigger] outcomes[j]) is Completed,
                i == 0 ==> working is None,
                i > 0 ==> working == Some(outcomes[i - 1]->Completed_0),
            decreases n + 1 - i,
        {
            let stage = match self.schedule.stage(i) {
                Some(stage) => stage,
                None => {
                    assert(false);
                    vstd::pervasive::unreached()
                },
            };
            let outcome = match &working {
                Some(components) => (self.run)(stage, components, world),
                None => (self.run)(stage, &self.agent.components, world),
            };
            proof {
                let before = outcomes;
                outcomes = outcomes.push(outcome);
                assert forall|j: int| 0 <= j < outcomes.len() implies #[trigger] stage_ran(
                    self.run,
                    *self.instance,
                    start,
                    outcomes,
                    j,
                ) by {
                    if j < before.len() {
                        assert(stage_ran(self.run, *self.instance, start, before, j));
                        assert(outcomes[j] == before[j]);
                        assert(input_at(start, outcomes, j) == input_at(start, before, j));
                    }
                }
            }
            match outcome {
                Outcome::Failed => {
                    return (Err(stage), Ghost(outcomes));
                },
                Outcome::Completed(components) => {
                    working = Some(components);
                },
            }
            i += 1;
        }
        match working {
            Some(components) => (Ok(components), Ghost(outcomes)),
            None => {
                assert(false);
                vstd::pervasive::unreached()
            },
        }
    }

    /// Ends a tick. Given the components that the update pass left, the
    /// agent takes them and the tick is counted. Given the stage that failed,
    /// the failure is recorded and nothing else changes.
    fn settle(&mut self, verdict: Result<SimulatedPlayerBundle, Stage>) -> (result: Result<
        (),
        SubsystemFailure,
    >)
        requires
            old(self)@.failure is None,
            old(self)@.ticks < u64::MAX,
        ensures
            final(self).driver() == old(self).driver(),
            final(self).world() == old(self).world(),
            final(self).names() == old(self).names(),
            final(self).agent_spec().same_entity(&old(self).agent_spec()),
            match verdict {
                Ok(components) => final(self)@ == (State {
                    components: components@,
                    ticks: old(self)@.ticks + 1,
                    failure: None,
                }) && result == Ok::<(), SubsystemFailure>(()),
                Err(stage) => final(self)@ == (State { failure: Some(stage), ..old(self)@ })
                    && result == Err::<(), SubsystemFailure>(SubsystemFailure { stage }),
            },
    {
        proof {
            use_type_invariant(&*self);
        }
        match verdict {
            Ok(components) => {
                self.agent.components = components;
                self.ticks = self.ticks + 1;
                Ok(())
            },
            Err(stage) => {
                self.failure = Some(stage);
                Err(SubsystemFailure { stage })
            },
        }
    }

    /// Advances the simulation by one tick.
    ///
    /// Runs every subsystem once, in the order of the pipeline, and then the
    /// update pass, each on the components that the stage before left. When
    /// all of them complete, the agent takes the components that the update
    /// pass left and one more tick is counted. When a stage fails, the
    /// stages after it do not run, the agent and the tick count stay as they
    /// were before the tick, and the environment is failed from then on: it
    /// reports the same failure for every later tick and runs nothing. The
    /// world is never changed.
    pub fn tick(&mut self) -> (result: Result<(), SubsystemFailure>)
        requires
            old(self)@.failure is None ==> old(self)@.ticks < u64::MAX,
        ensures
            final(self).driver() == old(self).driver(),
            final(self).world() == old(self).world(),
            final(self).names() == old(self).names(),
            final(self).agent_spec().same_entity(&old(self).agent_spec()),
            step_allowed(
                old(self).driver(),
                old(self).world(),
                old(self)@,
                Command::Tick,
                final(self)@,
            ),
            old(self)@.failure is Some ==> final(self)@ == old(self)@ && result == Err::<
                (),
                SubsystemFailure,
            >(SubsystemFailure { stage: old(self)@.failure->0 }),
            old(self)@.failure is None ==> exists|outcomes: Seq<Outcome>|
                {
                    &&& #[trigger] ran(
                        old(self).driver(),
                        old(self).world(),
                        old(self).agent_spec().components,
                        outcomes,
                    )
                    &&& settled(outcomes)
                    &&& final(self)@ == old(self)@.after_tick(views(outcomes))
                    &&& result == old(self)@.tick_result(views(outcomes))
                },
    {
        proof {
            use_type_invariant(&*self);
        }
        if let Some(stage) = self.failure {
            return Err(SubsystemFailure { stage });
        }
        let (verdict, Ghost(outcomes)) = self.run_stages();
        let result = self.settle(verdict);
        proof {
            assert(views(outcomes).last() == outcomes.last()@);
        }
        result
    }
}

} // verus!
