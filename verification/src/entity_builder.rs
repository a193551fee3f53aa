//! Building a new entity, component by component.

use vstd::prelude::*;
use legion::{Entity, World};
use crate::commands::{applied, effect, lemma_effect_elsewhere, Command};
use crate::components::{Acceleration, Components, DynamicBody, Orientation, Position, Velocity};
use crate::scalar::{Scalar, Vec2};
use crate::store::{flush_command_buffer, push_empty, world_components};

verus! {

/// Builds up one new entity: the components are staged one by one and
/// reach the world when the entity is built.
pub struct EntityBuilder {
    entity: Entity,
    commands: Vec<Command>,
}

impl EntityBuilder {
    #[verifier::type_invariant]
    spec fn own(self) -> bool {
        forall|i: int|
            0 <= i < self.commands@.len() ==> (#[trigger] self.commands@[i]).entity_spec()
                == self.entity
    }

    /// The entity that is built.
    pub closed spec fn entity_spec(self) -> Entity {
        self.entity
    }

    /// The components that wait to be built, as commands for the entity.
    pub closed spec fn staged(self) -> Seq<Command> {
        self.commands@
    }

    /// Starts a new entity. The world holds it at once; it carries nothing
    /// until it is built.
    pub fn new(world: &mut World) -> (r: Self)
        ensures
            !world_components(*old(world)).contains_key(r.entity_spec()),
            world_components(*final(world)) == world_components(*old(world)).insert(
                r.entity_spec(),
                Components::empty_spec(),
            ),
            r.staged() == Seq::<Command>::empty(),
    {
        let entity = push_empty(world);
        EntityBuilder { entity, commands: Vec::new() }
    }

    /// The entity that is built.
    pub fn entity(&self) -> (r: Entity)
        ensures
            r == self.entity_spec(),
    {
        self.entity
    }

    /// Gives the entity the staged components, and returns it. No other
    /// entity changes.
    pub fn build(self, world: &mut World) -> (entity: Entity)
        ensures
            entity == self.entity_spec(),
            world_components(*final(world)) == (if world_components(*old(world)).contains_key(
                entity,
            ) {
                world_components(*old(world)).insert(
                    entity,
                    effect(self.staged(), entity, world_components(*old(world))[entity]),
                )
            } else {
                world_components(*old(world))
            }),
    {
        proof {
            use_type_invariant(&self);
            let store = world_components(*world);
            let after = applied(store, self.commands@);
            assert forall|other: Entity|
                store.contains_key(other) && other != self.entity implies #[trigger] after[other]
                == store[other] by {
                lemma_effect_elsewhere(self.commands@, other, store[other]);
            }
            if store.contains_key(self.entity) {
                assert(after =~= store.insert(
                    self.entity,
                    effect(self.commands@, self.entity, store[self.entity]),
                ));
            } else {
                assert(after =~= store);
            }
        }
        let entity = self.entity;
        let mut commands = self.commands;
        flush_command_buffer(world, &mut commands);
        entity
    }

    fn add_component(self, command: Command) -> (r: Self)
        requires
            command.entity_spec() == self.entity_spec(),
        ensures
            r.entity_spec() == self.entity_spec(),
            r.staged() == self.staged().push(command),
    {
        proof {
            use_type_invariant(&self);
        }
        let entity = self.entity;
        let mut commands = self.commands;
        commands.push(command);
        EntityBuilder { entity, commands }
    }

    /// Stages a position.
    pub fn position(self, pos: Vec2) -> (r: Self)
        ensures
            r.entity_spec() == self.entity_spec(),
            r.staged() == self.staged().push(
                Command::SetPosition(self.entity_spec(), Position(pos)),
            ),
    {
        let entity = self.entity;
        self.add_component(Command::SetPosition(entity, Position(pos)))
    }

    /// Stages a velocity.
    pub fn velocity(self, vel: Vec2) -> (r: Self)
        ensures
            r.entity_spec() == self.entity_spec(),
            r.staged() == self.staged().push(
                Command::SetVelocity(self.entity_spec(), Velocity(vel)),
            ),
    {
        let entity = self.entity;
        self.add_component(Command::SetVelocity(entity, Velocity(vel)))
    }

    /// Stages an orientation, in degrees.
    pub fn orientation(self, ori: Scalar) -> (r: Self)
        ensures
            r.entity_spec() == self.entity_spec(),
            r.staged() == self.staged().push(
                Command::SetOrientation(self.entity_spec(), Orientation(ori)),
            ),
    {
        let entity = self.entity;
        self.add_component(Command::SetOrientation(entity, Orientation(ori)))
    }

    /// Stages the tag of a dynamic body of the given mass.
    pub fn dynamic_body(self, mass: Scalar) -> (r: Self)
        ensures
            r.entity_spec() == self.entity_spec(),
            r.staged() == self.staged().push(
                Command::AddDynamicBody(self.entity_spec(), DynamicBody { mass }),
            ),
    {
        let entity = self.entity;
        self.add_component(Command::AddDynamicBody(entity, DynamicBody { mass }))
    }

    /// Stages what makes the entity an agent: how quickly it gains speed.
    pub fn agent(self, accel: Acceleration) -> (r: Self)
        ensures
            r.entity_spec() == self.entity_spec(),
            r.staged() == self.staged().push(
                Command::AddAcceleration(self.entity_spec(), accel),
            ),
    {
        let entity = self.entity;
        self.add_component(Command::AddAcceleration(entity, accel))
    }
}

} // verus!
