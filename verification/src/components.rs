//! The component values that make up the simulated agent.
//!
//! Every number that the subsystems treat as floating point is held here as
//! its bit pattern (binary32 in a `u32`, binary64 in a `u64`). The harness
//! carries these values between the planner and the subsystems and never
//! computes with them.

use vstd::prelude::*;
use crate::vector::Vec3;

verus! {

/// Width of the agent's bounding box: 0.6 as binary32.
pub const PLAYER_WIDTH: u32 = 0x3F19_999A;

/// Height of the agent's bounding box: 1.8 as binary32.
pub const PLAYER_HEIGHT: u32 = 0x3FE6_6666;

/// Base value of the movement speed attribute: 0.1 as binary64.
pub const BASE_SPEED: u64 = 0x3FB9_9999_9999_999A;

/// Base value of the attack speed attribute: 4.0 as binary64.
pub const BASE_ATTACK_SPEED: u64 = 0x4010_0000_0000_0000;

/// Where the agent is.
#[derive(Clone, Copy, Debug, PartialEq, Eq, Structural)]
pub struct Position(pub Vec3);

impl Position {
    pub fn new(pos: Vec3) -> (p: Position)
        ensures
            p == Position(pos),
    {
        Position(pos)
    }

    /// The wrapped vector.
    pub fn get(&self) -> (pos: Vec3)
        ensures
            pos == self.0,
    {
        self.0
    }
}

/// Width and height of a bounding box, as binary32 bit patterns.
#[derive(Clone, Copy, Debug, PartialEq, Eq, Structural)]
pub struct EntityDimensions {
    pub width: u32,
    pub height: u32,
}

impl EntityDimensions {
    /// The dimensions every simulated agent is built with.
    pub open spec fn player_spec() -> EntityDimensions {
        EntityDimensions { width: PLAYER_WIDTH, height: PLAYER_HEIGHT }
    }

    pub fn player() -> (d: EntityDimensions)
        ensures
            d == Self::player_spec(),
    {
        EntityDimensions { width: PLAYER_WIDTH, height: PLAYER_HEIGHT }
    }
}

/// The physics body: velocity, accelerations, ground contact and dimensions.
///
/// The bounding box itself is not stored: a subsystem derives it from the
/// position and the dimensions whenever it needs it.
#[derive(Clone, Copy, Debug, PartialEq, Eq, Structural)]
pub struct Physics {
    pub velocity: Vec3,
    /// Sideways acceleration, binary32.
    pub xxa: u32,
    /// Vertical acceleration, binary32.
    pub yya: u32,
    /// Forward acceleration, binary32.
    pub zza: u32,
    pub on_ground: bool,
    pub last_on_ground: bool,
    pub dimensions: EntityDimensions,
    pub has_impulse: bool,
}

impl Physics {
    /// A body of the given dimensions that is at rest and not yet known to
    /// touch the ground.
    pub open spec fn at_rest(dimensions: EntityDimensions) -> Physics {
        Physics {
            velocity: Vec3::origin(),
            xxa: 0,
            yya: 0,
            zza: 0,
            on_ground: false,
            last_on_ground: false,
            dimensions,
            has_impulse: false,
        }
    }

    pub fn new(dimensions: EntityDimensions) -> (p: Physics)
        ensures
            p == Self::at_rest(dimensions),
    {
        Physics {
            velocity: Vec3::zero(),
            xxa: 0,
            yya: 0,
            zza: 0,
            on_ground: false,
            last_on_ground: false,
            dimensions,
            has_impulse: false,
        }
    }
}

/// The direction the planner wants the agent to walk in.
#[derive(Clone, Copy, Debug, PartialEq, Eq, Structural)]
pub enum WalkDirection {
    Still,
    Forward,
    Backward,
    Left,
    Right,
    ForwardRight,
    ForwardLeft,
    BackwardRight,
    BackwardLeft,
}

/// Movement intent and the bookkeeping the movement subsystem keeps with it.
/// This is what a planner writes between ticks to steer the agent.
#[derive(Clone, Copy, Debug, PartialEq, Eq, Structural)]
pub struct PhysicsState {
    pub position_remainder: u32,
    pub was_sprinting: bool,
    pub trying_to_sprint: bool,
    pub move_direction: WalkDirection,
    /// Binary32.
    pub forward_impulse: u32,
    /// Binary32.
    pub left_impulse: u32,
}

impl PhysicsState {
    /// No intent at all: standing still, not sprinting.
    pub open spec fn idle() -> PhysicsState {
        PhysicsState {
            position_remainder: 0,
            was_sprinting: false,
            trying_to_sprint: false,
            move_direction: WalkDirection::Still,
            forward_impulse: 0,
            left_impulse: 0,
        }
    }
}

impl Default for PhysicsState {
    fn default() -> (s: PhysicsState)
        ensures
            s == PhysicsState::idle(),
    {
        PhysicsState {
            position_remainder: 0,
            was_sprinting: false,
            trying_to_sprint: false,
            move_direction: WalkDirection::Still,
            forward_impulse: 0,
            left_impulse: 0,
        }
    }
}

/// One named attribute: its base value as binary64.
#[derive(Clone, Copy, Debug, PartialEq, Eq, Structural)]
pub struct AttributeInstance {
    pub base: u64,
}

impl AttributeInstance {
    pub fn new(base: u64) -> (a: AttributeInstance)
        ensures
            a == (AttributeInstance { base }),
    {
        AttributeInstance { base }
    }
}

/// The attributes the movement and mining subsystems read.
#[derive(Clone, Copy, Debug, PartialEq, Eq, Structural)]
pub struct Attributes {
    pub speed: AttributeInstance,
    pub attack_speed: AttributeInstance,
}

impl Attributes {
    /// Movement speed 0.1 and attack speed 4.0.
    pub open spec fn player_spec() -> Attributes {
        Attributes {
            speed: AttributeInstance { base: BASE_SPEED },
            attack_speed: AttributeInstance { base: BASE_ATTACK_SPEED },
        }
    }

    pub fn player() -> (a: Attributes)
        ensures
            a == Self::player_spec(),
    {
        Attributes {
            speed: AttributeInstance::new(BASE_SPEED),
            attack_speed: AttributeInstance::new(BASE_ATTACK_SPEED),
        }
    }
}

/// What one inventory slot holds.
#[derive(Clone, Copy, Debug, PartialEq, Eq, Structural)]
pub enum ItemSlot {
    Empty,
    Present { kind: u32, count: i8 },
}

/// The agent's inventory.
#[derive(Clone, Debug, PartialEq, Eq)]
pub struct InventoryComponent {
    pub slots: Vec<ItemSlot>,
    pub selected_hotbar_slot: u8,
}

/// The mathematical content of an [`InventoryComponent`].
pub struct InventoryView {
    pub slots: Seq<ItemSlot>,
    pub selected_hotbar_slot: u8,
}

impl View for InventoryComponent {
    type V = InventoryView;

    open spec fn view(&self) -> InventoryView {
        InventoryView { slots: self.slots@, selected_hotbar_slot: self.selected_hotbar_slot }
    }
}

impl InventoryView {
    /// The inventory that holds no slot at all, with the first hotbar slot
    /// selected.
    pub open spec fn empty() -> InventoryView {
        InventoryView { slots: Seq::empty(), selected_hotbar_slot: 0 }
    }
}

impl Default for InventoryComponent {
    fn default() -> (inv: InventoryComponent)
        ensures
            inv@ == InventoryView::empty(),
    {
        InventoryComponent { slots: Vec::new(), selected_hotbar_slot: 0 }
    }
}

} // verus!
