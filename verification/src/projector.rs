//! The two projections of kinematic state: from the store into the backend
//! before it steps, and back afterwards.

use vstd::prelude::*;
use legion::Entity;
use crate::commands::Command;
use crate::components::{
    BodyHandle, Components, KinematicState, Orientation, Position, Velocity,
};
use crate::gather::{gather, lemma_gather_take, optional};
use crate::scalar::Vec2;
use crate::store::EntityRow;

verus! {

/// The kinematic state that the backend is to give one of its bodies.
#[derive(Clone, Copy, Debug, PartialEq, Eq)]
pub struct KinematicUpdate {
    pub handle: BodyHandle,
    pub state: KinematicState,
}

/// The kinematic state that the backend reports of one of its bodies.
#[derive(Clone, Copy, Debug, PartialEq, Eq)]
pub struct BodyReading {
    pub handle: BodyHandle,
    pub state: KinematicState,
}

/// The state of the first reading that names `handle`.
pub open spec fn reading_of(readings: Seq<BodyReading>, handle: BodyHandle) -> Option<
    KinematicState,
>
    decreases readings.len(),
{
    if readings.len() == 0 {
        None
    } else if readings[0].handle == handle {
        Some(readings[0].state)
    } else {
        reading_of(readings.drop_first(), handle)
    }
}

/// Whatever a command sets, it sets to finite numbers.
pub open spec fn sets_finite(command: Command) -> bool {
    match command {
        Command::SetPosition(_, position) => position.0.finite(),
        Command::SetVelocity(_, velocity) => velocity.0.finite(),
        Command::SetOrientation(_, orientation) => orientation.0.finite(),
        _ => true,
    }
}

impl Components {
    /// What the backend reports of the entity's body, where the entity is a
    /// dynamic body with a handle. Static and disabled bodies are never read
    /// back.
    pub open spec fn pulled_state(self, readings: Seq<BodyReading>) -> Option<KinematicState> {
        match (self.dynamic_body, self.body_handle) {
            (Some(_), Some(handle)) => reading_of(readings, handle),
            _ => None,
        }
    }

    /// The components once the entity's reading is brought in. A reading of
    /// finite numbers overwrites position, velocity and orientation, each
    /// where the entity has it. Any other reading sets the velocity to zero
    /// and leaves position and orientation alone. Without a reading nothing
    /// changes.
    pub open spec fn pulled_back(self, readings: Seq<BodyReading>) -> Components {
        match self.pulled_state(readings) {
            Some(state) => if state.finite() {
                Components {
                    position: if self.position.is_some() {
                        Some(Position(state.position))
                    } else {
                        None
                    },
                    velocity: if self.velocity.is_some() {
                        Some(Velocity(state.velocity))
                    } else {
                        None
                    },
                    orientation: if self.orientation.is_some() {
                        Some(Orientation(state.orientation))
                    } else {
                        None
                    },
                    ..self
                }
            } else {
                Components {
                    velocity: if self.velocity.is_some() {
                        Some(Velocity(Vec2::zero_spec()))
                    } else {
                        None
                    },
                    ..self
                }
            },
            None => self,
        }
    }
}

impl EntityRow {
    /// What a dynamic body with a handle, a position, a velocity and an
    /// orientation pushes into the backend. Static and disabled bodies push
    /// nothing.
    pub open spec fn push_spec(self) -> Option<KinematicUpdate> {
        match (
            self.components.dynamic_body,
            self.components.body_handle,
            self.components.position,
            self.components.velocity,
            self.components.orientation,
        ) {
            (Some(_), Some(handle), Some(position), Some(velocity), Some(orientation)) => Some(
                KinematicUpdate {
                    handle,
                    state: KinematicState {
                        position: position.0,
                        velocity: velocity.0,
                        orientation: orientation.0,
                    },
                },
            ),
            _ => None,
        }
    }

    /// The commands that bring the entity's reading into its components.
    pub open spec fn pull_commands(self, readings: Seq<BodyReading>) -> Seq<Command> {
        match self.components.pulled_state(readings) {
            Some(state) => if state.finite() {
                (if self.components.position.is_some() {
                    seq![Command::SetPosition(self.entity, Position(state.position))]
                } else {
                    Seq::empty()
                }) + (if self.components.velocity.is_some() {
                    seq![Command::SetVelocity(self.entity, Velocity(state.velocity))]
                } else {
                    Seq::empty()
                }) + (if self.components.orientation.is_some() {
                    seq![Command::SetOrientation(self.entity, Orientation(state.orientation))]
                } else {
                    Seq::empty()
                })
            } else {
                if self.components.velocity.is_some() {
                    seq![Command::SetVelocity(self.entity, Velocity(Vec2::zero_spec()))]
                } else {
                    Seq::empty()
                }
            },
            None => Seq::empty(),
        }
    }

    /// The entity's reading holds a number that is not finite.
    pub open spec fn pull_warning(self, readings: Seq<BodyReading>) -> Seq<Entity> {
        match self.components.pulled_state(readings) {
            Some(state) => if state.finite() {
                Seq::empty()
            } else {
                seq![self.entity]
            },
            None => Seq::empty(),
        }
    }

    #[verifier::when_used_as_spec(push_spec)]
    pub fn push(self) -> (r: Option<KinematicUpdate>)
        ensures
            r == self.push_spec(),
    {
        match (
            self.components.dynamic_body,
            self.components.body_handle,
            self.components.position,
            self.components.velocity,
            self.components.orientation,
        ) {
            (Some(_), Some(handle), Some(position), Some(velocity), Some(orientation)) => Some(
                KinematicUpdate {
                    handle,
                    state: KinematicState {
                        position: position.0,
                        velocity: velocity.0,
                        orientation: orientation.0,
                    },
                },
            ),
            _ => None,
        }
    }
}

/// The push of a row, if it has one.
pub open spec fn push_of() -> spec_fn(EntityRow) -> Seq<KinematicUpdate> {
    |row: EntityRow| optional(row.push_spec())
}

/// The commands that bring a row's reading into the store.
pub open spec fn pull_of(readings: Seq<BodyReading>) -> spec_fn(EntityRow) -> Seq<Command> {
    |row: EntityRow| row.pull_commands(readings)
}

/// The warning for a row's reading, if it earns one.
pub open spec fn pull_warning_of(readings: Seq<BodyReading>) -> spec_fn(EntityRow) -> Seq<Entity> {
    |row: EntityRow| row.pull_warning(readings)
}

/// What a snapshot pushes into the backend, in the snapshot's order.
pub open spec fn pushes(rows: Seq<EntityRow>) -> Seq<KinematicUpdate> {
    gather(rows, push_of())
}

/// The commands that bring the readings into the store.
pub open spec fn pulls(rows: Seq<EntityRow>, readings: Seq<BodyReading>) -> Seq<Command> {
    gather(rows, pull_of(readings))
}

/// The entities whose readings hold a number that is not finite.
pub open spec fn pull_warnings(rows: Seq<EntityRow>, readings: Seq<BodyReading>) -> Seq<Entity> {
    gather(rows, pull_warning_of(readings))
}

/// Looks up what the backend reports of a body.
pub fn find_reading(readings: &Vec<BodyReading>, handle: BodyHandle) -> (r: Option<KinematicState>)
    ensures
        r == reading_of(readings@, handle),
{
    let mut i: usize = 0;
    assert(readings@.skip(0) == readings@);
    while i < readings.len()
        invariant
            0 <= i <= readings.len(),
            reading_of(readings@, handle) == reading_of(readings@.skip(i as int), handle),
        decreases readings.len() - i,
    {
        assert(readings@.skip(i as int).drop_first() == readings@.skip(i as int + 1));
        assert(readings@.skip(i as int)[0] == readings@[i as int]);
        if readings[i].handle == handle {
            return Some(readings[i].state);
        }
        i += 1;
    }
    assert(readings@.skip(i as int).len() == 0);
    None
}

/// Says which kinematic state the backend is to give each dynamic body before
/// it steps: the position, velocity and orientation that the entity has in
/// the store. Static and disabled bodies are not pushed.
pub fn entity_world_to_physics_world(rows: &Vec<EntityRow>) -> (updates: Vec<KinematicUpdate>)
    ensures
        updates@ == pushes(rows@),
{
    let mut updates: Vec<KinematicUpdate> = Vec::new();
    let mut i: usize = 0;
    while i < rows.len()
        invariant
            0 <= i <= rows.len(),
            updates@ == gather(rows@.take(i as int), push_of()),
        decreases rows.len() - i,
    {
        proof {
            lemma_gather_take(rows@, i as int, push_of());
        }
        match rows[i].push() {
            Some(update) => {
                updates.push(update);
            },
            None => {},
        }
        assert(updates@ =~= gather(rows@.take(i as int + 1), push_of()));
        i += 1;
    }
    assert(rows@.take(rows.len() as int) == rows@);
    updates
}

/// Brings what the backend reports of its bodies back into the store. For
/// each dynamic body that has a reading, stages the commands that overwrite
/// its position, velocity and orientation. A reading that holds a number that
/// is not finite is not taken over: the velocity is set to zero, position and
/// orientation stay, and the entity is returned among the warnings. Static and
/// disabled bodies are never overwritten. No staged command sets a number
/// that is not finite.
pub fn physics_world_to_entity_world(
    rows: &Vec<EntityRow>,
    readings: &Vec<BodyReading>,
    commands: &mut Vec<Command>,
) -> (warnings: Vec<Entity>)
    ensures
        final(commands)@ == old(commands)@ + pulls(rows@, readings@),
        warnings@ == pull_warnings(rows@, readings@),
        forall|i: int|
            old(commands)@.len() <= i < final(commands)@.len() ==> sets_finite(
                #[trigger] final(commands)@[i],
            ),
{
    let mut warnings: Vec<Entity> = Vec::new();
    let mut i: usize = 0;
    assert(commands@ =~= old(commands)@ + Seq::<Command>::empty());
    while i < rows.len()
        invariant
            0 <= i <= rows.len(),
            commands@ == old(commands)@ + gather(rows@.take(i as int), pull_of(readings@)),
            warnings@ == gather(rows@.take(i as int), pull_warning_of(readings@)),
            forall|n: int|
                old(commands)@.len() <= n < commands@.len() ==> sets_finite(#[trigger] commands@[n]),
        decreases rows.len() - i,
    {
        proof {
            lemma_gather_take(rows@, i as int, pull_of(readings@));
            lemma_gather_take(rows@, i as int, pull_warning_of(readings@));
        }
        let row: EntityRow = rows[i];
        let ghost before = commands@;
        let state: Option<KinematicState> = match (
            row.components.dynamic_body,
            row.components.body_handle,
        ) {
            (Some(_), Some(handle)) => find_reading(readings, handle),
            _ => None,
        };
        match state {
            Some(state) => {
                if state.is_finite() {
                    if row.components.position.is_some() {
                        commands.push(Command::SetPosition(row.entity, Position(state.position)));
                    }
                    if row.components.velocity.is_some() {
                        commands.push(Command::SetVelocity(row.entity, Velocity(state.velocity)));
                    }
                    if row.components.orientation.is_some() {
                        commands.push(
                            Command::SetOrientation(row.entity, Orientation(state.orientation)),
                        );
                    }
                } else {
                    if row.components.velocity.is_some() {
                        commands.push(Command::SetVelocity(row.entity, Velocity(Vec2::zero())));
                    }
                    warnings.push(row.entity);
                }
            },
            None => {},
        }
        assert(commands@ =~= before + row.pull_commands(readings@));
        assert(commands@ =~= old(commands)@ + gather(
            rows@.take(i as int + 1),
            pull_of(readings@),
        ));
        assert(warnings@ =~= gather(rows@.take(i as int + 1), pull_warning_of(readings@)));
        i += 1;
    }
    assert(rows@.take(rows.len() as int) == rows@);
    warnings
}

} // verus!
