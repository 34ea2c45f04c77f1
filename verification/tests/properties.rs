use std::cell::RefCell;
use std::rc::Rc;

use simulation::bundle::SimulatedPlayerBundle;
use simulation::components::WalkDirection;
use simulation::environment::{Outcome, Simulation};
use simulation::schedule::{Stage, Subsystem};
use simulation::vector::Vec3;
use simulation::world::Instance;

/// Flat ground with, perhaps, one solid block of width one standing on it.
#[derive(Clone, Debug, PartialEq)]
struct Terrain {
    ground: f64,
    block_from_x: Option<f64>,
}

const GRAVITY: f64 = 0.08;

fn at(x: f64, y: f64, z: f64) -> Vec3 {
    Vec3::new(x.to_bits(), y.to_bits(), z.to_bits())
}

fn num(bits: u64) -> f64 {
    f64::from_bits(bits)
}

fn half_height(components: &SimulatedPlayerBundle) -> f64 {
    f32::from_bits(components.physics.dimensions.height) as f64 / 2.0
}

fn half_width(components: &SimulatedPlayerBundle) -> f64 {
    f32::from_bits(components.physics.dimensions.width) as f64 / 2.0
}

/// A small stand-in for the subsystems. The position is the centre of the
/// body. Movement turns intent into horizontal velocity, physics applies
/// gravity and velocity and stops the body at the ground and at the block.
fn toy(stage: Stage, components: &SimulatedPlayerBundle, world: &Instance<Terrain>) -> Outcome {
    let mut next = components.clone();
    match stage {
        Stage::Run(Subsystem::Movement) => {
            let speed = num(components.attributes.speed.base) * 3.0;
            let vx = match components.physics_state.move_direction {
                WalkDirection::Forward => speed,
                WalkDirection::Backward => -speed,
                _ => 0.0,
            };
            next.physics.velocity.x = vx.to_bits();
        }
        Stage::Run(Subsystem::Physics) => {
            let terrain = world.chunks();
            let floor = terrain.ground + half_height(components);
            let mut vy = num(components.physics.velocity.y) - GRAVITY;
            let mut y = num(components.position.0.y) + vy;
            let mut on_ground = false;
            if y <= floor {
                y = floor;
                vy = 0.0;
                on_ground = true;
            }
            let mut vx = num(components.physics.velocity.x);
            let old_x = num(components.position.0.x);
            let mut x = old_x + vx;
            if let Some(from) = terrain.block_from_x {
                let edge = from - half_width(components);
                if old_x <= edge && x > edge {
                    x = edge;
                    vx = 0.0;
                }
            }
            next.physics.last_on_ground = components.physics.on_ground;
            next.physics.on_ground = on_ground;
            next.physics.velocity.x = vx.to_bits();
            next.physics.velocity.y = vy.to_bits();
            next.position.0.x = x.to_bits();
            next.position.0.y = y.to_bits();
        }
        _ => {}
    }
    Outcome::Completed(next)
}

fn flat(ground: f64) -> Terrain {
    Terrain { ground, block_from_x: None }
}

fn walking(direction: WalkDirection, from: &SimulatedPlayerBundle) -> SimulatedPlayerBundle {
    let mut steered = from.clone();
    steered.physics_state.move_direction = direction;
    steered
}

/// Ticks `n` times, steering forward before the ticks listed in `forward_at`
/// and standing still before the others, and returns every position seen.
fn run_script(
    terrain: Terrain,
    start: Vec3,
    n: u32,
    forward_at: &[u32],
) -> Vec<Vec3> {
    let mut sim = Simulation::new(terrain, SimulatedPlayerBundle::new(start), toy);
    let mut trace = vec![sim.position()];
    for i in 0..n {
        let direction = if forward_at.contains(&i) {
            WalkDirection::Forward
        } else {
            WalkDirection::Still
        };
        let steered = walking(direction, sim.components());
        sim.insert(steered);
        assert_eq!(sim.tick(), Ok(()));
        trace.push(sim.position());
    }
    trace
}

#[test]
fn zero_ticks_leave_the_agent_where_the_template_put_it() {
    let starts = [at(0.0, 0.0, 0.0), at(-12.5, 300.0, 7.75), at(1e300, -1e-300, f64::MAX)];
    for start in starts {
        let sim = Simulation::new(flat(64.0), SimulatedPlayerBundle::new(start), toy);
        assert_eq!(sim.position(), start);
    }
}

#[test]
fn zero_ticks_keep_even_a_nan_bit_for_bit() {
    let odd = Vec3::new(0x7FF8_0000_0000_1234, 0xFFF0_0000_0000_0000, 0x8000_0000_0000_0000);
    let sim = Simulation::new(flat(64.0), SimulatedPlayerBundle::new(odd), toy);
    assert_eq!(sim.position(), odd);
}

#[test]
fn same_inputs_give_the_same_trace() {
    let first = run_script(flat(64.0), at(0.5, 70.0, 0.5), 40, &[3, 4, 5, 20, 21]);
    let second = run_script(flat(64.0), at(0.5, 70.0, 0.5), 40, &[3, 4, 5, 20, 21]);
    assert_eq!(first.len(), 41);
    assert_eq!(first, second);
}

#[test]
fn different_intent_gives_a_different_trace() {
    let first = run_script(flat(64.0), at(0.5, 70.0, 0.5), 10, &[3, 4, 5]);
    let second = run_script(flat(64.0), at(0.5, 70.0, 0.5), 10, &[]);
    assert_ne!(first, second);
    assert_eq!(first[..4], second[..4]);
}

#[test]
fn n_ticks_are_n_steps() {
    let log: Rc<RefCell<Vec<Stage>>> = Rc::new(RefCell::new(Vec::new()));
    let seen = log.clone();
    let run = move |stage: Stage, components: &SimulatedPlayerBundle, world: &Instance<Terrain>| {
        seen.borrow_mut().push(stage);
        toy(stage, components, world)
    };
    let mut sim =
        Simulation::new(flat(64.0), SimulatedPlayerBundle::new(at(0.0, 80.0, 0.0)), run);
    for n in 1..=25u64 {
        assert_eq!(sim.tick(), Ok(()));
        assert_eq!(sim.ticks(), n);
        assert_eq!(log.borrow().len() as u64, 9 * n);
    }
    let log = log.borrow();
    for (i, stage) in log.iter().enumerate() {
        let expected = match i % 9 {
            0 => Stage::Run(Subsystem::Physics),
            1 => Stage::Run(Subsystem::EntityLifecycle),
            2 => Stage::Run(Subsystem::Movement),
            3 => Stage::Run(Subsystem::Inventory),
            4 => Stage::Run(Subsystem::Mining),
            5 => Stage::Run(Subsystem::Interaction),
            6 => Stage::Run(Subsystem::Behavior),
            7 => Stage::Run(Subsystem::PathPlanning),
            _ => Stage::Update,
        };
        assert_eq!(*stage, expected);
    }
}

#[test]
fn nothing_advances_without_a_tick() {
    let log: Rc<RefCell<Vec<Stage>>> = Rc::new(RefCell::new(Vec::new()));
    let seen = log.clone();
    let run = move |stage: Stage, components: &SimulatedPlayerBundle, world: &Instance<Terrain>| {
        seen.borrow_mut().push(stage);
        toy(stage, components, world)
    };
    let mut sim =
        Simulation::new(flat(64.0), SimulatedPlayerBundle::new(at(0.0, 80.0, 0.0)), run);
    let _ = sim.position();
    let steered = walking(WalkDirection::Forward, sim.components());
    sim.insert(steered);
    let _ = sim.resolve("azalea:simulation");
    let _ = sim.agent();
    assert_eq!(sim.ticks(), 0);
    assert!(log.borrow().is_empty());
    assert_eq!(sim.position(), at(0.0, 80.0, 0.0));
}

#[test]
fn gravity_accumulates_from_tick_to_tick() {
    let trace = run_script(flat(0.0), at(0.0, 100.0, 0.0), 3, &[]);
    assert_eq!(trace[0], at(0.0, 100.0, 0.0));
    assert_eq!(trace[1], at(0.0, 100.0 - 0.08, 0.0));
    assert_eq!(trace[2], at(0.0, 100.0 - 0.08 + (0.0 - 0.08 - 0.08), 0.0));
    let first_drop = num(trace[0].y) - num(trace[1].y);
    let second_drop = num(trace[1].y) - num(trace[2].y);
    assert!(second_drop > first_drop);
}

#[test]
fn environments_from_one_snapshot_do_not_share_the_agent() {
    let terrain = flat(64.0);
    let template = SimulatedPlayerBundle::new(at(0.5, 66.0, 0.5));
    let alone = run_script(terrain.clone(), at(0.5, 66.0, 0.5), 30, &[]);

    let mut touched = Simulation::new(terrain.clone(), template.clone(), toy);
    let mut other = Simulation::new(terrain.clone(), template.clone(), toy);
    let mut trace = vec![other.position()];
    for i in 0..30u64 {
        let mut changed = walking(WalkDirection::Forward, touched.components());
        changed.position.0.y = (200.0 + i as f64).to_bits();
        changed.inventory.selected_hotbar_slot = 3;
        touched.insert(changed);
        assert_eq!(touched.tick(), Ok(()));
        assert_eq!(other.tick(), Ok(()));
        trace.push(other.position());
    }
    assert_eq!(trace, alone);
    assert_ne!(touched.position(), other.position());
    assert_eq!(other.components().inventory.selected_hotbar_slot, 0);
    assert_eq!(touched.ticks(), 30);
    assert_eq!(other.ticks(), 30);
}

#[test]
fn failure_of_one_environment_leaves_the_other_usable() {
    let failing = |_stage: Stage, _c: &SimulatedPlayerBundle, _w: &Instance<Terrain>| {
        Outcome::Failed
    };
    let mut broken =
        Simulation::new(flat(64.0), SimulatedPlayerBundle::new(at(0.0, 70.0, 0.0)), failing);
    let mut sound = Simulation::new(flat(64.0), SimulatedPlayerBundle::new(at(0.0, 70.0, 0.0)), toy);
    assert!(broken.tick().is_err());
    assert_eq!(sound.tick(), Ok(()));
    assert_eq!(sound.ticks(), 1);
    assert_eq!(sound.failure(), None);
}

#[test]
fn agent_comes_to_rest_on_flat_ground_and_stays() {
    let ground = 64.0;
    let mut sim =
        Simulation::new(flat(ground), SimulatedPlayerBundle::new(at(0.5, 70.0, 0.5)), toy);
    let expected = ground + (1.8_f32 as f64) / 2.0;
    let mut landed_after = None;
    for n in 1..=100u32 {
        assert_eq!(sim.tick(), Ok(()));
        if sim.components().physics.on_ground {
            landed_after = Some(n);
            break;
        }
    }
    assert!(landed_after.is_some());
    assert!((num(sim.position().y) - expected).abs() < 1e-9);
    let rest = sim.components().clone();
    for _ in 0..50 {
        assert_eq!(sim.tick(), Ok(()));
        assert_eq!(sim.position().y, rest.position.0.y);
        assert_eq!(sim.position(), rest.position.0);
    }
    assert_eq!(sim.components().physics.velocity, at(0.0, 0.0, 0.0));
}

#[test]
fn agent_started_at_rest_height_is_at_a_fixed_point() {
    let ground = 10.0;
    let height = ground + (1.8_f32 as f64) / 2.0;
    let mut sim =
        Simulation::new(flat(ground), SimulatedPlayerBundle::new(at(2.0, height, 2.0)), toy);
    assert_eq!(sim.tick(), Ok(()));
    assert_eq!(sim.tick(), Ok(()));
    let rest = sim.components().clone();
    assert_eq!(rest.position.0, at(2.0, height, 2.0));
    assert!(rest.physics.on_ground && rest.physics.last_on_ground);
    for _ in 0..10 {
        assert_eq!(sim.tick(), Ok(()));
        assert_eq!(sim.components(), &rest);
    }
    assert_eq!(sim.ticks(), 12);
}

#[test]
fn agent_is_halted_at_the_block_and_never_passes_it() {
    let terrain = Terrain { ground: 64.0, block_from_x: Some(5.0) };
    let height = 64.0 + (1.8_f32 as f64) / 2.0;
    let mut sim = Simulation::new(terrain, SimulatedPlayerBundle::new(at(0.5, height, 0.5)), toy);
    let edge = 5.0 - (0.6_f32 as f64) / 2.0;
    let mut halted = false;
    for _ in 0..60 {
        let steered = walking(WalkDirection::Forward, sim.components());
        sim.insert(steered);
        let before = num(sim.position().x);
        assert_eq!(sim.tick(), Ok(()));
        let after = num(sim.position().x);
        assert!(after - before < 1.0);
        assert!(after <= edge);
        assert!(after + (0.6_f32 as f64) / 2.0 <= 5.0);
        if after == edge {
            halted = true;
        }
    }
    assert!(halted);
    assert_eq!(num(sim.position().x), edge);
}

#[test]
fn agent_walks_on_where_no_block_stands() {
    let height = 64.0 + (1.8_f32 as f64) / 2.0;
    let mut sim =
        Simulation::new(flat(64.0), SimulatedPlayerBundle::new(at(0.5, height, 0.5)), toy);
    for _ in 0..60 {
        let steered = walking(WalkDirection::Forward, sim.components());
        sim.insert(steered);
        assert_eq!(sim.tick(), Ok(()));
    }
    assert!(num(sim.position().x) > 6.0);
}

#[test]
fn snapshot_is_never_changed() {
    let terrain = Terrain { ground: 3.0, block_from_x: Some(9.0) };
    let mut sim =
        Simulation::new(terrain.clone(), SimulatedPlayerBundle::new(at(0.0, 20.0, 0.0)), toy);
    for _ in 0..20 {
        assert_eq!(sim.tick(), Ok(()));
        assert_eq!(sim.resolve("azalea:simulation").unwrap().chunks(), &terrain);
    }
}
