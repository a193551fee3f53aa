//! Keeps an entity/component world and a rigid-body simulation backend
//! consistent with each other, one fixed tick at a time.
//!
//! The component store is a `legion::World`. The backend is reached by the
//! caller, who performs the requests that the stages of a tick hand out and
//! passes the backend's answers back in. Every stage reads a snapshot of the
//! store and stages its changes as commands, which are applied at the next
//! barrier.
//!
//! A tick runs through [`tick::begin_tick`], [`tick::end_body_pass`],
//! [`tick::end_collider_pass`], [`tick::run_sweep`] and [`tick::end_tick`],
//! in that order; each hands out what the next one takes. What holds of
//! the store after each of them is proved in [`laws`].

pub mod assets;
pub mod commands;
pub mod components;
pub mod entity_builder;
pub mod gather;
pub mod laws;
pub mod lifecycle;
pub mod projector;
pub mod scalar;
pub mod scheduler;
pub mod store;
pub mod sweep;
pub mod tick;
pub mod validator;

pub use assets::{
    Asset, AssetKind, AssetManager, Extensions, ModelFile, ModelLoad, PathSettings, PlannedLoad,
};
pub use commands::Command;
pub use entity_builder::EntityBuilder;
pub use components::{
    Acceleration, ArenaIndex, BodyDescriptor, BodyHandle, CircleCollider, ColliderHandle,
    Components, DisabledBody, DynamicBody, Force, KinematicState, Orientation, Position, Shape,
    ShapeKind, Speed, SquareCollider, StaticBody, Velocity,
};
pub use lifecycle::{
    attach_body_handles, attach_collider_handles, make_body_handles, make_collider_handles,
    remove_body_handles, remove_collider_handles, BodyRequest, ColliderRequest,
};
pub use projector::{
    entity_world_to_physics_world, physics_world_to_entity_world, BodyReading, KinematicUpdate,
};
pub use scalar::{Scalar, Vec2};
pub use scheduler::{add_physics_systems, Stage};
pub use store::{flush_command_buffer, snapshot, EntityRow};
pub use sweep::{garbage, Sweep};
pub use tick::{begin_tick, end_body_pass, end_collider_pass, end_tick, run_sweep};
pub use validator::{validate_physics_entities, BodyKind, ComponentKind, Fault, Violation};
