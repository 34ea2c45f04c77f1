//! The template from which the simulated agent is built.

use vstd::prelude::*;
use crate::components::{
    Attributes, EntityDimensions, InventoryComponent, InventoryView, Physics, PhysicsState,
    Position,
};
use crate::vector::Vec3;

verus! {

/// The component values of the simulated agent.
///
/// A planner builds one with [`SimulatedPlayerBundle::new`], hands it to the
/// simulation, and later reads and replaces the agent's components in this
/// same shape. It is a plain value: nothing in it refers to an environment.
#[derive(Clone, Debug, PartialEq, Eq)]
pub struct SimulatedPlayerBundle {
    pub position: Position,
    pub physics: Physics,
    pub physics_state: PhysicsState,
    pub attributes: Attributes,
    pub inventory: InventoryComponent,
}

/// The mathematical content of a [`SimulatedPlayerBundle`].
pub struct BundleView {
    pub position: Vec3,
    pub physics: Physics,
    pub physics_state: PhysicsState,
    pub attributes: Attributes,
    pub inventory: InventoryView,
}

impl View for SimulatedPlayerBundle {
    type V = BundleView;

    open spec fn view(&self) -> BundleView {
        BundleView {
            position: self.position.0,
            physics: self.physics,
            physics_state: self.physics_state,
            attributes: self.attributes,
            inventory: self.inventory@,
        }
    }
}

impl SimulatedPlayerBundle {
    /// What a fresh template at `position` holds: a body of the standard
    /// dimensions at rest, no movement intent, the standard attributes and
    /// an empty inventory.
    pub open spec fn template(position: Vec3) -> BundleView {
        BundleView {
            position,
            physics: Physics::at_rest(EntityDimensions::player_spec()),
            physics_state: PhysicsState::idle(),
            attributes: Attributes::player_spec(),
            inventory: InventoryView::empty(),
        }
    }

    /// Builds the template for an agent standing at `position`.
    ///
    /// The result depends on `position` alone.
    pub fn new(position: Vec3) -> (bundle: SimulatedPlayerBundle)
        ensures
            bundle@ == Self::template(position),
    {
        let dimensions = EntityDimensions::player();
        SimulatedPlayerBundle {
            position: Position::new(position),
            physics: Physics::new(dimensions),
            physics_state: PhysicsState::default(),
            attributes: Attributes::player(),
            inventory: InventoryComponent::default(),
        }
    }
}

} // verus!
