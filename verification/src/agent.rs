//! The single entity that an environment simulates.

use vstd::prelude::*;
use crate::bundle::SimulatedPlayerBundle;
use crate::vector::Vec3;
use crate::world::{
    simulation_name, Instance, InstanceHolder, PartialInstance, DEFAULT_CHUNK_RADIUS,
};

verus! {

/// The number by which the game knows an entity. Simulated agents use a
/// number space of their own, which starts at zero.
#[derive(Clone, Copy, Debug, PartialEq, Eq, Structural, Hash)]
pub struct MinecraftEntityId(pub u32);

/// What sort of entity an agent is. Only players are simulated.
#[derive(Clone, Copy, Debug, PartialEq, Eq, Structural, Hash)]
pub enum EntityKind {
    Player,
}

/// The nil UUID as a number.
///
/// Calls `uuid::Uuid::nil`, which the `uuid` crate documents as the UUID
/// with all 128 bits set to zero, and reads it with `Uuid::as_u128`, which
/// packs the sixteen bytes into one number. The contract says that the
/// number is zero.
#[verifier::external_body]
pub(crate) fn nil_uuid() -> (bits: u128)
    ensures
        bits == 0,
{
    uuid::Uuid::nil().as_u128()
}

/// The simulated agent: who it is, which world it is in, and its components.
pub struct Agent<T> {
    pub id: MinecraftEntityId,
    pub uuid: u128,
    pub kind: EntityKind,
    /// Whether the agent is controlled from here rather than by a server.
    pub local: bool,
    /// The name under which the agent's world is registered.
    pub world_name: String,
    pub holder: InstanceHolder<T>,
    pub components: SimulatedPlayerBundle,
}

impl<T> Agent<T> {
    /// Whether this is the agent of a simulation: locally controlled, with
    /// the first entity number, the nil UUID and the simulation's world name.
    pub open spec fn is_simulated(&self) -> bool {
        &&& self.id == MinecraftEntityId(0)
        &&& self.uuid == 0
        &&& self.kind == EntityKind::Player
        &&& self.local
        &&& self.world_name@ == simulation_name()
    }

    /// Whether the agent's handles point to `world` and to a partial
    /// instance that nobody configured.
    pub open spec fn is_bound_to(&self, world: Instance<T>) -> bool {
        &&& self.holder.world() == world
        &&& self.holder.partial() == (PartialInstance { chunk_radius: DEFAULT_CHUNK_RADIUS })
    }

    /// Whether `self` is the same entity as `other`, in the same world.
    pub open spec fn same_entity(&self, other: &Agent<T>) -> bool {
        &&& self.id == other.id
        &&& self.uuid == other.uuid
        &&& self.kind == other.kind
        &&& self.local == other.local
        &&& self.world_name@ == other.world_name@
        &&& self.holder.world() == other.holder.world()
        &&& self.holder.partial() == other.holder.partial()
    }

    /// Brings a locally controlled entity into being at `position`, with the
    /// components that every new agent starts from.
    pub fn spawn(
        id: MinecraftEntityId,
        uuid: u128,
        position: Vec3,
        kind: EntityKind,
        world_name: String,
        holder: InstanceHolder<T>,
    ) -> (agent: Agent<T>)
        ensures
            agent.id == id,
            agent.uuid == uuid,
            agent.kind == kind,
            agent.local,
            agent.world_name == world_name,
            agent.holder == holder,
            agent.components@ == SimulatedPlayerBundle::template(position),
    {
        Agent {
            id,
            uuid,
            kind,
            local: true,
            world_name,
            holder,
            components: SimulatedPlayerBundle::new(position),
        }
    }

    /// Merges `bundle` onto the agent: each of its components replaces the
    /// one the agent had. Who the agent is does not change.
    pub fn insert(&mut self, bundle: SimulatedPlayerBundle)
        ensures
            final(self).components == bundle,
            final(self).same_entity(old(self)),
    {
        self.components = bundle;
    }
}

} // verus!
