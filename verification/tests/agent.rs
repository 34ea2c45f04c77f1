use std::sync::Arc;

use simulation::agent::{Agent, EntityKind, MinecraftEntityId};
use simulation::bundle::SimulatedPlayerBundle;
use simulation::components::{ItemSlot, Position, WalkDirection};
use simulation::vector::Vec3;
use simulation::world::{Instance, InstanceHolder, PartialInstance};

fn at(x: f64, y: f64, z: f64) -> Vec3 {
    Vec3::new(x.to_bits(), y.to_bits(), z.to_bits())
}

fn holder(chunks: u16) -> InstanceHolder<u16> {
    InstanceHolder::new(Arc::new(Instance::new(chunks)))
}

#[test]
fn holder_points_to_the_world_it_was_given() {
    let world = Arc::new(Instance::new(31u16));
    let holder = InstanceHolder::new(world.clone());
    assert!(std::ptr::eq(holder.instance(), &*world));
    assert_eq!(*holder.instance().chunks(), 31);
    assert_eq!(*holder.partial_instance(), PartialInstance::default());
}

#[test]
fn spawn_gives_the_identity_it_was_told() {
    let agent = Agent::spawn(
        MinecraftEntityId(12),
        0xa1a2a3a4_b1b2_c1c2_d1d2_d3d4d5d6d7d8,
        at(1.0, 2.0, 3.0),
        EntityKind::Player,
        String::from("somewhere"),
        holder(9),
    );
    assert_eq!(agent.id, MinecraftEntityId(12));
    assert_eq!(agent.uuid, 0xa1a2a3a4_b1b2_c1c2_d1d2_d3d4d5d6d7d8);
    assert_eq!(agent.kind, EntityKind::Player);
    assert!(agent.local);
    assert_eq!(agent.world_name, "somewhere");
    assert_eq!(*agent.holder.instance().chunks(), 9);
    assert_eq!(*agent.holder.partial_instance(), PartialInstance { chunk_radius: 8 });
}

#[test]
fn spawn_starts_from_the_template_at_that_position() {
    let agent = Agent::spawn(
        MinecraftEntityId(0),
        0,
        at(1.0, 2.0, 3.0),
        EntityKind::Player,
        String::from("azalea:simulation"),
        holder(0),
    );
    assert_eq!(agent.components, SimulatedPlayerBundle::new(at(1.0, 2.0, 3.0)));
}

#[test]
fn insert_overrides_every_component_and_keeps_the_identity() {
    let mut agent = Agent::spawn(
        MinecraftEntityId(3),
        77,
        at(1.0, 2.0, 3.0),
        EntityKind::Player,
        String::from("azalea:simulation"),
        holder(5),
    );
    let mut bundle = SimulatedPlayerBundle::new(at(-4.0, 70.0, 8.0));
    bundle.physics.velocity = at(0.0, -0.5, 0.0);
    bundle.physics_state.move_direction = WalkDirection::Backward;
    bundle.attributes.attack_speed.base = 1.6_f64.to_bits();
    bundle.inventory.slots = vec![ItemSlot::Empty, ItemSlot::Present { kind: 1, count: 64 }];
    agent.insert(bundle.clone());
    assert_eq!(agent.components, bundle);
    assert_eq!(agent.components.position, Position(at(-4.0, 70.0, 8.0)));
    assert_eq!(agent.id, MinecraftEntityId(3));
    assert_eq!(agent.uuid, 77);
    assert!(agent.local);
    assert_eq!(agent.world_name, "azalea:simulation");
    assert_eq!(*agent.holder.instance().chunks(), 5);
}
