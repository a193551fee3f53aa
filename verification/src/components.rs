//! The components that the physics stages read and write.

use vstd::prelude::*;
use crate::scalar::{Scalar, Vec2};

verus! {

/// Where an entity is.
#[derive(Clone, Copy, Debug, PartialEq, Eq, Structural)]
pub struct Position(pub Vec2);

/// How fast an entity moves, and in which direction.
#[derive(Clone, Copy, Debug, PartialEq, Eq, Structural)]
pub struct Velocity(pub Vec2);

/// The angle an entity is turned by, in degrees.
#[derive(Clone, Copy, Debug, PartialEq, Eq, Structural)]
pub struct Orientation(pub Scalar);

impl Position {
    /// The origin.
    pub fn new() -> (r: Position)
        ensures
            r == Position(Vec2::zero_spec()),
    {
        Position(Vec2::zero())
    }
}

impl Velocity {
    /// At rest.
    pub fn new() -> (r: Velocity)
        ensures
            r == Velocity(Vec2::zero_spec()),
    {
        Velocity(Vec2::zero())
    }
}

/// The top speed of an agent.
#[derive(Clone, Copy, Debug, PartialEq, Eq, Structural)]
pub struct Speed(pub Scalar);

/// How quickly an agent gains speed.
#[derive(Clone, Copy, Debug, PartialEq, Eq, Structural)]
pub struct Acceleration(pub Scalar);

/// A force that acts on an entity.
#[derive(Clone, Copy, Debug, PartialEq, Eq, Structural)]
pub struct Force(pub Vec2);

/// Tags an entity as a body that the backend moves.
#[derive(Clone, Copy, Debug, PartialEq, Eq, Structural)]
pub struct DynamicBody {
    pub mass: Scalar,
}

/// Tags an entity as a body that never moves.
#[derive(Clone, Copy, Debug, PartialEq, Eq, Structural)]
pub struct StaticBody;

/// Tags an entity as a body that takes no part in the simulation for now.
#[derive(Clone, Copy, Debug, PartialEq, Eq, Structural)]
pub struct DisabledBody;

/// Tags an entity as colliding like a disc.
#[derive(Clone, Copy, Debug, PartialEq, Eq, Structural)]
pub struct CircleCollider {
    pub radius: Scalar,
}

/// Tags an entity as colliding like an axis-aligned square.
#[derive(Clone, Copy, Debug, PartialEq, Eq, Structural)]
pub struct SquareCollider {
    pub side_length: Scalar,
}

/// A key into one of the backend's tables: a slot, and the generation of
/// the slot's occupant. A key whose generation is not the slot's current one
/// is stale.
#[derive(Clone, Copy, Debug, PartialEq, Eq, Hash, Structural)]
pub struct ArenaIndex {
    pub slot: usize,
    pub generation: u64,
}

/// Names the backend body that stands for an entity.
#[derive(Clone, Copy, Debug, PartialEq, Eq, Hash, Structural)]
pub struct BodyHandle(pub ArenaIndex);

/// The two shapes a collider can have.
#[derive(Clone, Copy, Debug, PartialEq, Eq, Hash, Structural)]
pub enum ShapeKind {
    Circle,
    Square,
}

/// Names the backend collider that stands for an entity, and remembers which
/// shape tag it was built from.
#[derive(Clone, Copy, Debug, PartialEq, Eq, Hash, Structural)]
pub struct ColliderHandle {
    pub index: ArenaIndex,
    pub shape: ShapeKind,
}

/// What the backend is asked to build as an entity's body.
#[derive(Clone, Copy, Debug, PartialEq, Eq, Structural)]
pub enum BodyDescriptor {
    /// A body that the backend moves. Gravity never acts on it.
    Dynamic { mass: Scalar, gravity_enabled: bool },
    /// A body fixed in place.
    Static,
    /// A body that the backend leaves alone.
    Disabled,
}

/// What the backend is asked to build as an entity's collider.
#[derive(Clone, Copy, Debug, PartialEq, Eq, Structural)]
pub enum Shape {
    /// A disc of the given radius.
    Ball { radius: Scalar },
    /// A square of the given side, centred on the body.
    Square { side_length: Scalar },
}

impl Shape {
    pub open spec fn kind_spec(self) -> ShapeKind {
        match self {
            Shape::Ball { .. } => ShapeKind::Circle,
            Shape::Square { .. } => ShapeKind::Square,
        }
    }

    #[verifier::when_used_as_spec(kind_spec)]
    pub fn kind(self) -> (r: ShapeKind)
        ensures
            r == self.kind_spec(),
    {
        match self {
            Shape::Ball { .. } => ShapeKind::Circle,
            Shape::Square { .. } => ShapeKind::Square,
        }
    }
}

/// Position, linear velocity and orientation of one body.
#[derive(Clone, Copy, Debug, PartialEq, Eq, Structural)]
pub struct KinematicState {
    pub position: Vec2,
    pub velocity: Vec2,
    pub orientation: Scalar,
}

impl KinematicState {
    /// Every number of the state is finite.
    pub open spec fn finite(self) -> bool {
        self.position.finite() && self.velocity.finite() && self.orientation.finite()
    }

    pub fn is_finite(self) -> (r: bool)
        ensures
            r == self.finite(),
    {
        self.position.is_finite() && self.velocity.is_finite() && self.orientation.is_finite()
    }
}

/// The components of one entity that matter to the physics stages.
#[derive(Clone, Copy, Debug, PartialEq, Eq, Structural)]
pub struct Components {
    pub position: Option<Position>,
    pub velocity: Option<Velocity>,
    pub orientation: Option<Orientation>,
    pub speed: Option<Speed>,
    pub acceleration: Option<Acceleration>,
    pub force: Option<Force>,
    pub dynamic_body: Option<DynamicBody>,
    pub static_body: Option<StaticBody>,
    pub disabled_body: Option<DisabledBody>,
    pub circle_collider: Option<CircleCollider>,
    pub square_collider: Option<SquareCollider>,
    pub body_handle: Option<BodyHandle>,
    pub collider_handle: Option<ColliderHandle>,
}

impl Components {
    /// An entity that carries nothing.
    pub open spec fn empty_spec() -> Components {
        Components {
            position: None,
            velocity: None,
            orientation: None,
            speed: None,
            acceleration: None,
            force: None,
            dynamic_body: None,
            static_body: None,
            disabled_body: None,
            circle_collider: None,
            square_collider: None,
            body_handle: None,
            collider_handle: None,
        }
    }

    #[verifier::when_used_as_spec(empty_spec)]
    pub fn empty() -> (r: Components)
        ensures
            r == Components::empty_spec(),
    {
        Components {
            position: None,
            velocity: None,
            orientation: None,
            speed: None,
            acceleration: None,
            force: None,
            dynamic_body: None,
            static_body: None,
            disabled_body: None,
            circle_collider: None,
            square_collider: None,
            body_handle: None,
            collider_handle: None,
        }
    }

    /// The body that the entity's tags ask for. Where an entity carries
    /// several body tags, the dynamic one counts before the static one, and
    /// the static one before the disabled one.
    pub open spec fn body_descriptor_spec(self) -> Option<BodyDescriptor> {
        if let Some(dynamic) = self.dynamic_body {
            Some(BodyDescriptor::Dynamic { mass: dynamic.mass, gravity_enabled: false })
        } else if self.static_body.is_some() {
            Some(BodyDescriptor::Static)
        } else if self.disabled_body.is_some() {
            Some(BodyDescriptor::Disabled)
        } else {
            None
        }
    }

    /// The entity takes part in physics: it carries a body tag.
    pub open spec fn has_body_tag(self) -> bool {
        self.dynamic_body.is_some() || self.static_body.is_some() || self.disabled_body.is_some()
    }

    /// The collider that the entity's tags ask for. Where an entity carries
    /// both shape tags, the circle counts.
    pub open spec fn shape_spec(self) -> Option<Shape> {
        if let Some(circle) = self.circle_collider {
            Some(Shape::Ball { radius: circle.radius })
        } else if let Some(square) = self.square_collider {
            Some(Shape::Square { side_length: square.side_length })
        } else {
            None
        }
    }

    #[verifier::when_used_as_spec(body_descriptor_spec)]
    pub fn body_descriptor(self) -> (r: Option<BodyDescriptor>)
        ensures
            r == self.body_descriptor_spec(),
            r.is_some() == self.has_body_tag(),
    {
        if let Some(dynamic) = self.dynamic_body {
            Some(BodyDescriptor::Dynamic { mass: dynamic.mass, gravity_enabled: false })
        } else if self.static_body.is_some() {
            Some(BodyDescriptor::Static)
        } else if self.disabled_body.is_some() {
            Some(BodyDescriptor::Disabled)
        } else {
            None
        }
    }

    #[verifier::when_used_as_spec(shape_spec)]
    pub fn shape(self) -> (r: Option<Shape>)
        ensures
            r == self.shape_spec(),
    {
        if let Some(circle) = self.circle_collider {
            Some(Shape::Ball { radius: circle.radius })
        } else if let Some(square) = self.square_collider {
            Some(Shape::Square { side_length: square.side_length })
        } else {
            None
        }
    }
}

} // verus!
