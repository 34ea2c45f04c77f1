//! What holds of every history of an environment.
//!
//! A history is told in terms of [`State`]: the commands of a planner take an
//! environment from one state to the next. [`Simulation::insert`] and
//! [`Simulation::tick`] promise that each of their calls is a step that
//! [`step_allowed`] admits, so what is proved here of all histories holds of
//! every run.
//!
//! [`Simulation::insert`]: crate::environment::Simulation::insert
//! [`Simulation::tick`]: crate::environment::Simulation::tick

use vstd::prelude::*;
use crate::bundle::{BundleView, SimulatedPlayerBundle};
use crate::environment::{
    input_at, ran, settled, stage_ran, step_allowed, views, Command, Outcome, OutcomeView, State,
};
use crate::schedule::{Stage, STAGES};
use crate::world::{lemma_instance_is_its_snapshot, Instance};

verus! {

/// Whether `states` is a history of an environment under `script`: it begins
/// with `states[0]`, and each command leads from one state to the next.
pub open spec fn is_trace<T, F: Fn(Stage, &SimulatedPlayerBundle, &Instance<T>) -> Outcome>(
    run: F,
    world: Instance<T>,
    script: Seq<Command>,
    states: Seq<State>,
) -> bool {
    &&& states.len() == script.len() + 1
    &&& forall|i: int|
        0 <= i < script.len() ==> #[trigger] step_allowed(
            run,
            world,
            states[i],
            script[i],
            states[i + 1],
        )
}

/// Whether what `run` makes of a stage depends on nothing but the stage, the
/// contents of the agent's components and the world: on components with the
/// same contents, in the same world, the same stage ends with the same
/// contents.
pub open spec fn deterministic<T, F: Fn(Stage, &SimulatedPlayerBundle, &Instance<T>) -> Outcome>(
    run: F,
) -> bool {
    forall|
        stage: Stage,
        world: &Instance<T>,
        first: &SimulatedPlayerBundle,
        second: &SimulatedPlayerBundle,
        a: Outcome,
        b: Outcome,
    |
        #![trigger call_ensures(run, (stage, first, world), a), call_ensures(run, (stage, second, world), b)]
        first@ == second@ && call_ensures(run, (stage, first, world), a) && call_ensures(
            run,
            (stage, second, world),
            b,
        ) ==> a@ == b@
}

/// Number of ticks in `script`.
pub open spec fn tick_count(script: Seq<Command>) -> nat
    decreases script.len(),
{
    if script.len() == 0 {
        0
    } else {
        tick_count(script.drop_last()) + if script.last() is Tick {
            1nat
        } else {
            0nat
        }
    }
}

proof fn lemma_outcomes_agree<T, F: Fn(Stage, &SimulatedPlayerBundle, &Instance<T>) -> Outcome>(
    run: F,
    world: Instance<T>,
    first: SimulatedPlayerBundle,
    second: SimulatedPlayerBundle,
    a: Seq<Outcome>,
    b: Seq<Outcome>,
    k: int,
)
    requires
        deterministic(run),
        first@ == second@,
        ran(run, world, first, a),
        ran(run, world, second, b),
        0 <= k <= a.len(),
        k <= b.len(),
    ensures
        forall|i: int| 0 <= i < k ==> a[i]@ == b[i]@,
    decreases k,
{
    if k > 0 {
        lemma_outcomes_agree(run, world, first, second, a, b, k - 1);
        assert(stage_ran(run, world, first, a, k - 1));
        assert(stage_ran(run, world, second, b, k - 1));
        if k - 1 > 0 {
            assert(a[k - 2] is Completed);
            assert(b[k - 2] is Completed);
            assert(a[k - 2]@ == b[k - 2]@);
        }
        assert(input_at(first, a, k - 1)@ == input_at(second, b, k - 1)@);
    }
}

/// A tick of a deterministic driver can end in one way only: the stages of
/// two ticks that begin with the same contents end with the same contents,
/// one by one.
pub proof fn lemma_tick_is_deterministic<
    T,
    F: Fn(Stage, &SimulatedPlayerBundle, &Instance<T>) -> Outcome,
>(
    run: F,
    world: Instance<T>,
    first: SimulatedPlayerBundle,
    second: SimulatedPlayerBundle,
    a: Seq<Outcome>,
    b: Seq<Outcome>,
)
    requires
        deterministic(run),
        first@ == second@,
        ran(run, world, first, a),
        settled(a),
        ran(run, world, second, b),
        settled(b),
    ensures
        views(a) == views(b),
{
    let k = if a.len() <= b.len() {
        a.len() as int
    } else {
        b.len() as int
    };
    lemma_outcomes_agree(run, world, first, second, a, b, k);
    if a.len() < b.len() {
        assert(a[k - 1]@ == b[k - 1]@);
        assert(b[k - 1] is Completed);
    } else if b.len() < a.len() {
        assert(a[k - 1]@ == b[k - 1]@);
        assert(a[k - 1] is Completed);
    }
    assert(views(a) =~= views(b));
}

/// A command takes an environment with a deterministic driver to one state
/// only.
pub proof fn lemma_step_is_deterministic<
    T,
    F: Fn(Stage, &SimulatedPlayerBundle, &Instance<T>) -> Outcome,
>(run: F, world: Instance<T>, before: State, command: Command, a: State, b: State)
    requires
        deterministic(run),
        step_allowed(run, world, before, command, a),
        step_allowed(run, world, before, command, b),
    ensures
        a == b,
{
    if command is Tick && before.failure is None {
        let (sa, oa) = choose|start: SimulatedPlayerBundle, outcomes: Seq<Outcome>|
            #[trigger] ran(run, world, start, outcomes) && start@ == before.components && settled(
                outcomes,
            ) && a == before.after_tick(views(outcomes));
        let (sb, ob) = choose|start: SimulatedPlayerBundle, outcomes: Seq<Outcome>|
            #[trigger] ran(run, world, start, outcomes) && start@ == before.components && settled(
                outcomes,
            ) && b == before.after_tick(views(outcomes));
        lemma_tick_is_deterministic(run, world, sa, sb, oa, ob);
    }
}

proof fn lemma_traces_agree<T, F: Fn(Stage, &SimulatedPlayerBundle, &Instance<T>) -> Outcome>(
    run: F,
    world: Instance<T>,
    script: Seq<Command>,
    a: Seq<State>,
    b: Seq<State>,
    k: int,
)
    requires
        deterministic(run),
        is_trace(run, world, script, a),
        is_trace(run, world, script, b),
        a[0] == b[0],
        0 <= k <= script.len(),
    ensures
        forall|i: int| 0 <= i <= k ==> a[i] == b[i],
    decreases k,
{
    if k > 0 {
        lemma_traces_agree(run, world, script, a, b, k - 1);
        assert(step_allowed(run, world, a[k - 1], script[k - 1], a[k - 1 + 1]));
        assert(step_allowed(run, world, b[k - 1], script[k - 1], b[k - 1 + 1]));
        lemma_step_is_deterministic(run, world, a[k - 1], script[k - 1], a[k], b[k]);
    }
}

/// Determinism: two environments with the same deterministic driver and the
/// same world that begin in the same state and are given the same commands
/// go through the same states, and so show the same positions after every
/// command.
pub proof fn lemma_determinism<T, F: Fn(Stage, &SimulatedPlayerBundle, &Instance<T>) -> Outcome>(
    run: F,
    world: Instance<T>,
    script: Seq<Command>,
    a: Seq<State>,
    b: Seq<State>,
)
    requires
        deterministic(run),
        is_trace(run, world, script, a),
        is_trace(run, world, script, b),
        a[0] == b[0],
    ensures
        a == b,
        forall|i: int|
            0 <= i <= script.len() ==> a[i].components.position == b[i].components.position,
{
    lemma_traces_agree(run, world, script, a, b, script.len() as int);
    assert(a =~= b);
}

/// Determinism from construction on: two environments that were built from
/// the same snapshot and the same template, with the same deterministic
/// driver, and that are given the same commands, show the same position
/// after every one of them.
pub proof fn lemma_same_construction_same_positions<
    T,
    F: Fn(Stage, &SimulatedPlayerBundle, &Instance<T>) -> Outcome,
>(
    run: F,
    chunks: T,
    player: BundleView,
    first_world: Instance<T>,
    second_world: Instance<T>,
    script: Seq<Command>,
    a: Seq<State>,
    b: Seq<State>,
)
    requires
        deterministic(run),
        first_world@ == chunks,
        second_world@ == chunks,
        is_trace(run, first_world, script, a),
        is_trace(run, second_world, script, b),
        a[0] == State::initial(player),
        b[0] == State::initial(player),
    ensures
        a[0].components.position == player.position,
        forall|i: int|
            0 <= i <= script.len() ==> a[i].components.position == b[i].components.position,
{
    lemma_instance_is_its_snapshot(first_world, second_world);
    lemma_determinism(run, first_world, script, a, b);
}

/// A history cut off after its first `n` commands is a history.
pub proof fn lemma_trace_prefix<T, F: Fn(Stage, &SimulatedPlayerBundle, &Instance<T>) -> Outcome>(
    run: F,
    world: Instance<T>,
    script: Seq<Command>,
    states: Seq<State>,
    n: int,
)
    requires
        is_trace(run, world, script, states),
        0 <= n <= script.len(),
    ensures
        is_trace(run, world, script.take(n), states.take(n + 1)),
{
    let short = script.take(n);
    let seen = states.take(n + 1);
    assert forall|i: int| 0 <= i < short.len() implies #[trigger] step_allowed(
        run,
        world,
        seen[i],
        short[i],
        seen[i + 1],
    ) by {
        assert(step_allowed(run, world, states[i], script[i], states[i + 1]));
    }
}

/// Monotonic stepping: as long as no tick has failed, the tick count has
/// grown by one for each tick commanded and by nothing else. No command but
/// a tick moves it, and a tick moves it by exactly one.
pub proof fn lemma_ticks_are_counted<T, F: Fn(Stage, &SimulatedPlayerBundle, &Instance<T>) -> Outcome>(
    run: F,
    world: Instance<T>,
    script: Seq<Command>,
    states: Seq<State>,
)
    requires
        is_trace(run, world, script, states),
        states.last().failure is None,
    ensures
        states[0].failure is None,
        states.last().ticks == states[0].ticks + tick_count(script),
    decreases script.len(),
{
    if script.len() > 0 {
        let n = script.len() - 1;
        lemma_trace_prefix(run, world, script, states, n);
        assert(script.take(n) =~= script.drop_last());
        assert(states.take(n + 1) =~= states.drop_last());
        assert(step_allowed(run, world, states[n], script[n], states[n + 1]));
        assert(states.drop_last().last() == states[n]);
        lemma_ticks_are_counted(run, world, script.drop_last(), states.drop_last());
    }
}

/// The tick count never goes back, and it never grows by more than the
/// number of ticks commanded: a tick that fails, and every tick after it,
/// counts nothing.
pub proof fn lemma_ticks_never_decrease<
    T,
    F: Fn(Stage, &SimulatedPlayerBundle, &Instance<T>) -> Outcome,
>(run: F, world: Instance<T>, script: Seq<Command>, states: Seq<State>)
    requires
        is_trace(run, world, script, states),
    ensures
        states[0].ticks <= states.last().ticks <= states[0].ticks + tick_count(script),
    decreases script.len(),
{
    if script.len() > 0 {
        let n = script.len() - 1;
        lemma_trace_prefix(run, world, script, states, n);
        assert(script.take(n) =~= script.drop_last());
        assert(states.take(n + 1) =~= states.drop_last());
        assert(step_allowed(run, world, states[n], script[n], states[n + 1]));
        assert(states.drop_last().last() == states[n]);
        lemma_ticks_never_decrease(run, world, script.drop_last(), states.drop_last());
    }
}

/// A tick that runs through consists of one outcome for every stage of the
/// pipeline, in order: none is skipped and none runs twice.
pub proof fn lemma_tick_runs_every_stage<
    T,
    F: Fn(Stage, &SimulatedPlayerBundle, &Instance<T>) -> Outcome,
>(run: F, world: Instance<T>, before: State, start: SimulatedPlayerBundle, outcomes: Seq<Outcome>)
    requires
        before.failure is None,
        ran(run, world, start, outcomes),
        settled(outcomes),
        before.after_tick(views(outcomes)).failure is None,
    ensures
        outcomes.len() == STAGES,
        forall|i: int| 0 <= i < STAGES ==> (#[trigger] outcomes[i]) is Completed,
        forall|i: int| 0 <= i < STAGES ==> #[trigger] stage_ran(run, world, start, outcomes, i),
        before.after_tick(views(outcomes)).ticks == before.ticks + 1,
{
    assert(views(outcomes).last() == outcomes.last()@);
}

/// Whether an agent with the contents `rest` is at a fixed point of the
/// driver in `world`: every stage leaves it exactly as it is.
pub open spec fn is_fixed_point<T, F: Fn(Stage, &SimulatedPlayerBundle, &Instance<T>) -> Outcome>(
    run: F,
    world: Instance<T>,
    rest: BundleView,
) -> bool {
    forall|stage: Stage, components: SimulatedPlayerBundle, outcome: Outcome|
        components@ == rest && #[trigger] call_ensures(
            run,
            (stage, &components, &world),
            outcome,
        ) ==> outcome@ == OutcomeView::Completed(rest)
}

proof fn lemma_fixed_point_outcomes<T, F: Fn(Stage, &SimulatedPlayerBundle, &Instance<T>) -> Outcome>(
    run: F,
    world: Instance<T>,
    start: SimulatedPlayerBundle,
    outcomes: Seq<Outcome>,
    k: int,
)
    requires
        is_fixed_point(run, world, start@),
        ran(run, world, start, outcomes),
        0 <= k <= outcomes.len(),
    ensures
        forall|i: int| 0 <= i < k ==> outcomes[i]@ == OutcomeView::Completed(start@),
    decreases k,
{
    if k > 0 {
        lemma_fixed_point_outcomes(run, world, start, outcomes, k - 1);
        assert(stage_ran(run, world, start, outcomes, k - 1));
        if k - 1 > 0 {
            assert(outcomes[k - 2]@ == OutcomeView::Completed(start@));
        }
        assert(input_at(start, outcomes, k - 1)@ == start@);
    }
}

/// An agent at a fixed point of the driver stays there: a tick begun at such
/// a point runs through, counts, and leaves every component, the position
/// among them, as it was.
pub proof fn lemma_fixed_point_is_stable<
    T,
    F: Fn(Stage, &SimulatedPlayerBundle, &Instance<T>) -> Outcome,
>(run: F, world: Instance<T>, before: State, start: SimulatedPlayerBundle, outcomes: Seq<Outcome>)
    requires
        before.failure is None,
        start@ == before.components,
        is_fixed_point(run, world, before.components),
        ran(run, world, start, outcomes),
        settled(outcomes),
    ensures
        before.after_tick(views(outcomes)) == (State { ticks: before.ticks + 1, ..before }),
{
    lemma_fixed_point_outcomes(run, world, start, outcomes, outcomes.len() as int);
    assert(views(outcomes).last() == outcomes.last()@);
}

/// Whether every command of `script` is a tick.
pub open spec fn only_ticks(script: Seq<Command>) -> bool {
    forall|i: int| 0 <= i < script.len() ==> (#[trigger] script[i]) is Tick
}

/// Rest is stable: once the agent is at a fixed point of the driver, ticks
/// alone never move it again. After any number of them every component, the
/// position among them, is what it was, and each tick has been counted.
pub proof fn lemma_rest_is_stable<T, F: Fn(Stage, &SimulatedPlayerBundle, &Instance<T>) -> Outcome>(
    run: F,
    world: Instance<T>,
    script: Seq<Command>,
    states: Seq<State>,
)
    requires
        is_trace(run, world, script, states),
        only_ticks(script),
        states[0].failure is None,
        is_fixed_point(run, world, states[0].components),
    ensures
        forall|i: int|
            0 <= i <= script.len() ==> #[trigger] states[i] == (State {
                ticks: (states[0].ticks + i) as nat,
                ..states[0]
            }),
    decreases script.len(),
{
    if script.len() > 0 {
        let n = script.len() - 1;
        lemma_trace_prefix(run, world, script, states, n);
        lemma_rest_is_stable(run, world, script.take(n), states.take(n + 1));
        assert forall|i: int| 0 <= i <= n implies #[trigger] states[i] == (State {
            ticks: (states[0].ticks + i) as nat,
            ..states[0]
        }) by {
            assert(states.take(n + 1)[i] == states[i]);
        }
        assert(script[n] is Tick);
        assert(step_allowed(run, world, states[n], script[n], states[n + 1]));
        let (start, outcomes) = choose|start: SimulatedPlayerBundle, outcomes: Seq<Outcome>|
            #[trigger] ran(run, world, start, outcomes) && start@ == states[n].components
                && settled(outcomes) && states[n + 1] == states[n].after_tick(views(outcomes));
        lemma_fixed_point_is_stable(run, world, states[n], start, outcomes);
    }
}

/// Whether every stage of `run` in `world` keeps `good`: started on
/// components of which `good` holds, it completes only with such components.
pub open spec fn keeps<T, F: Fn(Stage, &SimulatedPlayerBundle, &Instance<T>) -> Outcome>(
    run: F,
    world: Instance<T>,
    good: spec_fn(BundleView) -> bool,
) -> bool {
    forall|stage: Stage, before: SimulatedPlayerBundle, after: SimulatedPlayerBundle|
        good(before@) && #[trigger] call_ensures(
            run,
            (stage, &before, &world),
            Outcome::Completed(after),
        ) ==> good(after@)
}

proof fn lemma_stages_keep<T, F: Fn(Stage, &SimulatedPlayerBundle, &Instance<T>) -> Outcome>(
    run: F,
    world: Instance<T>,
    good: spec_fn(BundleView) -> bool,
    start: SimulatedPlayerBundle,
    outcomes: Seq<Outcome>,
    k: int,
)
    requires
        keeps(run, world, good),
        good(start@),
        ran(run, world, start, outcomes),
        0 <= k <= outcomes.len(),
    ensures
        forall|i: int|
            0 <= i < k && (#[trigger] outcomes[i]) is Completed ==> good(
                outcomes[i]->Completed_0@,
            ),
    decreases k,
{
    if k > 0 {
        lemma_stages_keep(run, world, good, start, outcomes, k - 1);
        assert(stage_ran(run, world, start, outcomes, k - 1));
        if k - 1 > 0 {
            assert(outcomes[k - 2] is Completed);
        }
        assert(good(input_at(start, outcomes, k - 1)@));
    }
}

/// The harness moves nothing by itself: what every stage keeps, a tick
/// keeps. If `good` holds of the agent before a tick, and no stage ever leads
/// from a good agent to one that is not, then `good` holds of the agent after
/// the tick, whether the tick ran through or failed. With `good` saying that
/// the agent has not passed a wall, this is the harness's share of the fact
/// that an agent never tunnels through one.
pub proof fn lemma_tick_keeps_what_stages_keep<
    T,
    F: Fn(Stage, &SimulatedPlayerBundle, &Instance<T>) -> Outcome,
>(
    run: F,
    world: Instance<T>,
    good: spec_fn(BundleView) -> bool,
    before: State,
    start: SimulatedPlayerBundle,
    outcomes: Seq<Outcome>,
)
    requires
        keeps(run, world, good),
        good(before.components),
        start@ == before.components,
        ran(run, world, start, outcomes),
        settled(outcomes),
    ensures
        good(before.after_tick(views(outcomes)).components),
{
    lemma_stages_keep(run, world, good, start, outcomes, outcomes.len() as int);
    assert(views(outcomes).last() == outcomes.last()@);
}

/// What every stage keeps and every inserted bundle has, the agent has
/// throughout a history that began with it.
pub proof fn lemma_history_keeps_what_stages_keep<
    T,
    F: Fn(Stage, &SimulatedPlayerBundle, &Instance<T>) -> Outcome,
>(
    run: F,
    world: Instance<T>,
    good: spec_fn(BundleView) -> bool,
    script: Seq<Command>,
    states: Seq<State>,
)
    requires
        is_trace(run, world, script, states),
        keeps(run, world, good),
        good(states[0].components),
        forall|i: int|
            0 <= i < script.len() ==> ((#[trigger] script[i]) matches Command::Insert(bundle)
                ==> good(bundle)),
    ensures
        forall|i: int| 0 <= i <= script.len() ==> good((#[trigger] states[i]).components),
    decreases script.len(),
{
    if script.len() > 0 {
        let n = script.len() - 1;
        lemma_trace_prefix(run, world, script, states, n);
        assert forall|i: int| 0 <= i < n implies ((#[trigger] script.take(n)[i]) matches Command::Insert(
            bundle,
        ) ==> good(bundle)) by {
            assert(script.take(n)[i] == script[i]);
        }
        lemma_history_keeps_what_stages_keep(run, world, good, script.take(n), states.take(n + 1));
        assert forall|i: int| 0 <= i <= n implies good((#[trigger] states[i]).components) by {
            assert(states.take(n + 1)[i] == states[i]);
        }
        assert(step_allowed(run, world, states[n], script[n], states[n + 1]));
        if script[n] is Tick && states[n].failure is None {
            let (start, outcomes) = choose|start: SimulatedPlayerBundle, outcomes: Seq<Outcome>|
                #[trigger] ran(run, world, start, outcomes) && start@ == states[n].components
                    && settled(outcomes) && states[n + 1] == states[n].after_tick(
                    views(outcomes),
                );
            lemma_tick_keeps_what_stages_keep(run, world, good, states[n], start, outcomes);
        }
    }
}

/// Which of two environments a command is for.
pub enum Side {
    First,
    Second,
}

/// The states of two environments side by side.
pub struct Pair {
    pub first: State,
    pub second: State,
}

/// Whether `command`, given to the environment on `side`, can take the two
/// from `before` to `after`. The other environment is not part of the call
/// and stays as it is.
pub open spec fn pair_step_allowed<
    T,
    F: Fn(Stage, &SimulatedPlayerBundle, &Instance<T>) -> Outcome,
    G: Fn(Stage, &SimulatedPlayerBundle, &Instance<T>) -> Outcome,
>(
    first: (F, Instance<T>),
    second: (G, Instance<T>),
    before: Pair,
    side: Side,
    command: Command,
    after: Pair,
) -> bool {
    match side {
        Side::First => after.second == before.second && step_allowed(
            first.0,
            first.1,
            before.first,
            command,
            after.first,
        ),
        Side::Second => after.first == before.first && step_allowed(
            second.0,
            second.1,
            before.second,
            command,
            after.second,
        ),
    }
}

/// Whether `states` is a history of two environments under `script`.
pub open spec fn is_pair_trace<
    T,
    F: Fn(Stage, &SimulatedPlayerBundle, &Instance<T>) -> Outcome,
    G: Fn(Stage, &SimulatedPlayerBundle, &Instance<T>) -> Outcome,
>(
    first: (F, Instance<T>),
    second: (G, Instance<T>),
    script: Seq<(Side, Command)>,
    states: Seq<Pair>,
) -> bool {
    &&& states.len() == script.len() + 1
    &&& forall|i: int|
        0 <= i < script.len() ==> #[trigger] pair_step_allowed(
            first,
            second,
            states[i],
            script[i].0,
            script[i].1,
            states[i + 1],
        )
}

/// The commands of `script` that are for the second environment.
pub open spec fn for_second(script: Seq<(Side, Command)>) -> Seq<Command>
    decreases script.len(),
{
    if script.len() == 0 {
        Seq::empty()
    } else {
        match script.last().0 {
            Side::First => for_second(script.drop_last()),
            Side::Second => for_second(script.drop_last()).push(script.last().1),
        }
    }
}

/// The states that the second environment goes through in a joint history:
/// the one it began in, and the one it was in after each command of its own.
pub open spec fn second_states(script: Seq<(Side, Command)>, states: Seq<Pair>) -> Seq<State>
    decreases script.len(),
{
    if script.len() == 0 {
        seq![states[0].second]
    } else {
        let earlier = second_states(script.drop_last(), states.drop_last());
        match script.last().0 {
            Side::First => earlier,
            Side::Second => earlier.push(states.last().second),
        }
    }
}

/// Isolation: whatever is done to one environment, the other lives through a
/// history of its own. The states that the second environment shows in a
/// joint history are a history of that environment alone under the commands
/// that were for it, and it ends the joint history in the last of them. No
/// command for the first environment shows in it.
pub proof fn lemma_isolation<
    T,
    F: Fn(Stage, &SimulatedPlayerBundle, &Instance<T>) -> Outcome,
    G: Fn(Stage, &SimulatedPlayerBundle, &Instance<T>) -> Outcome,
>(first: (F, Instance<T>), second: (G, Instance<T>), script: Seq<(Side, Command)>, states: Seq<Pair>)
    requires
        is_pair_trace(first, second, script, states),
    ensures
        is_trace(second.0, second.1, for_second(script), second_states(script, states)),
        second_states(script, states)[0] == states[0].second,
        second_states(script, states).last() == states.last().second,
    decreases script.len(),
{
    if script.len() > 0 {
        let n = script.len() - 1;
        let shorter = script.drop_last();
        let seen = states.drop_last();
        assert forall|i: int| 0 <= i < shorter.len() implies #[trigger] pair_step_allowed(
            first,
            second,
            seen[i],
            shorter[i].0,
            shorter[i].1,
            seen[i + 1],
        ) by {
            assert(pair_step_allowed(
                first,
                second,
                states[i],
                script[i].0,
                script[i].1,
                states[i + 1],
            ));
        }
        assert(pair_step_allowed(
            first,
            second,
            states[n],
            script[n].0,
            script[n].1,
            states[n + 1],
        ));
        assert(seen.last() == states[n]);
        lemma_isolation(first, second, shorter, seen);
        let earlier = second_states(shorter, seen);
        let own = for_second(shorter);
        match script.last().0 {
            Side::First => {},
            Side::Second => {
                let history = second_states(script, states);
                let commands = for_second(script);
                let m = own.len() as int;
                assert forall|i: int| 0 <= i < commands.len() implies #[trigger] step_allowed(
                    second.0,
                    second.1,
                    history[i],
                    commands[i],
                    history[i + 1],
                ) by {
                    if i < m {
                        assert(step_allowed(second.0, second.1, earlier[i], own[i], earlier[i + 1]));
                    }
                }
            },
        }
    }
}

/// Isolation of a deterministic environment: whatever is done to the other
/// one, it ends where it would have ended had it been alone, in the same
/// state and so at the same position.
pub proof fn lemma_isolation_of_positions<
    T,
    F: Fn(Stage, &SimulatedPlayerBundle, &Instance<T>) -> Outcome,
    G: Fn(Stage, &SimulatedPlayerBundle, &Instance<T>) -> Outcome,
>(
    first: (F, Instance<T>),
    second: (G, Instance<T>),
    script: Seq<(Side, Command)>,
    states: Seq<Pair>,
    alone: Seq<State>,
)
    requires
        deterministic(second.0),
        is_pair_trace(first, second, script, states),
        is_trace(second.0, second.1, for_second(script), alone),
        alone[0] == states[0].second,
    ensures
        states.last().second == alone.last(),
        states.last().second.components.position == alone.last().components.position,
{
    lemma_isolation(first, second, script, states);
    lemma_determinism(
        second.0,
        second.1,
        for_second(script),
        second_states(script, states),
        alone,
    );
}

} // verus!
