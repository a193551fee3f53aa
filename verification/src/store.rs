//! The component store: snapshots of it, and the barrier, at which the
//! staged commands go through a legion command buffer into the world.

use vstd::prelude::*;
use legion::systems::CommandBuffer;
use legion::world::WorldId;
use legion::{Entity, EntityStore, IntoQuery, Resources, World};
use crate::commands::{applied, apply, effect, lemma_applied_nothing, lemma_applied_push, Command};
use crate::gather::{gather, lemma_gather_from, lemma_gather_take};
use crate::components::{
    Acceleration, BodyHandle, CircleCollider, ColliderHandle, Components, DisabledBody,
    DynamicBody, Force, Orientation, Position, Speed, SquareCollider, StaticBody, Velocity,
};

verus! {

/// `legion::Entity`: the identity of an entity. Nothing is known of it but
/// whether two of them are the same.
#[verifier::external_type_specification]
#[verifier::external_body]
pub struct ExEntity(Entity);

/// `legion::World`: the component store.
#[verifier::external_type_specification]
#[verifier::external_body]
pub struct ExWorld(World);

/// `legion::world::WorldId`: tells one world from another.
#[verifier::external_type_specification]
#[verifier::external_body]
pub struct ExWorldId(WorldId);

/// `legion::systems::CommandBuffer`: legion's queue of changes that wait
/// for a world.
#[verifier::external_type_specification]
#[verifier::external_body]
pub struct ExCommandBuffer(CommandBuffer);

/// `legion::Resources`: what legion hands to commands that are closures.
/// The library queues none, and holds no resource.
#[verifier::external_type_specification]
#[verifier::external_body]
pub struct ExResources(Resources);

/// One entity of a snapshot, with the components it carried when the
/// snapshot was taken.
#[derive(Clone, Copy, Debug, PartialEq, Eq)]
pub struct EntityRow {
    pub entity: Entity,
    pub components: Components,
}

/// No entity has two rows.
pub open spec fn distinct(rows: Seq<EntityRow>) -> bool {
    forall|i: int, j: int|
        0 <= i < rows.len() && 0 <= j < rows.len() && i != j ==> rows[i].entity != rows[j].entity
}

/// The rows list the store: each entity of the store once, with its
/// components.
pub open spec fn lists(rows: Seq<EntityRow>, store: Map<Entity, Components>) -> bool {
    &&& distinct(rows)
    &&& forall|i: int| 0 <= i < rows.len() ==> store.contains_pair(
        #[trigger] rows[i].entity,
        rows[i].components,
    )
    &&& forall|e: Entity| #[trigger]
        store.contains_key(e) ==> exists|i: int| 0 <= i < rows.len() && rows[i].entity == e
}

/// What the world holds: its entities, each with those of its components
/// that matter to the physics stages.
pub uninterp spec fn world_components(world: World) -> Map<Entity, Components>;

/// What `World::id` returns: the world's identity.
pub uninterp spec fn world_id(world: World) -> WorldId;

/// What `CommandBuffer::world` returns: the identity of the world that the
/// buffer was made for.
pub uninterp spec fn buffer_world(buffer: CommandBuffer) -> WorldId;

/// What a legion command buffer holds that the library has filled: the
/// additions and removals of components that were queued in it, oldest
/// first.
pub uninterp spec fn queued(buffer: CommandBuffer) -> Seq<Command>;

/// Walks a `legion` query for `Entity` over the world. The query has no
/// filter, so the walk meets every entity of the world, and it meets each
/// once.
#[verifier::external_body]
fn entities(world: &World) -> (r: Vec<Entity>)
    ensures
        r@.no_duplicates(),
        forall|entity: Entity| r@.contains(entity) <==> world_components(*world).contains_key(entity),
{
    let mut query = <Entity>::query();
    query.iter(world).copied().collect()
}

/// A component that the world stores for the physics stages: which part of
/// an entity's components it is.
pub(crate) trait Stored: Copy + Send + Sync + 'static {
    /// The component, where the entity carries it.
    spec fn get(components: Components) -> Option<Self>;
}

impl Stored for Position {
    open spec fn get(components: Components) -> Option<Position> {
        components.position
    }
}

impl Stored for Velocity {
    open spec fn get(components: Components) -> Option<Velocity> {
        components.velocity
    }
}

impl Stored for Orientation {
    open spec fn get(components: Components) -> Option<Orientation> {
        components.orientation
    }
}

impl Stored for Speed {
    open spec fn get(components: Components) -> Option<Speed> {
        components.speed
    }
}

impl Stored for Acceleration {
    open spec fn get(components: Components) -> Option<Acceleration> {
        components.acceleration
    }
}

impl Stored for Force {
    open spec fn get(components: Components) -> Option<Force> {
        components.force
    }
}

impl Stored for DynamicBody {
    open spec fn get(components: Components) -> Option<DynamicBody> {
        components.dynamic_body
    }
}

impl Stored for StaticBody {
    open spec fn get(components: Components) -> Option<StaticBody> {
        components.static_body
    }
}

impl Stored for DisabledBody {
    open spec fn get(components: Components) -> Option<DisabledBody> {
        components.disabled_body
    }
}

impl Stored for CircleCollider {
    open spec fn get(components: Components) -> Option<CircleCollider> {
        components.circle_collider
    }
}

impl Stored for SquareCollider {
    open spec fn get(components: Components) -> Option<SquareCollider> {
        components.square_collider
    }
}

impl Stored for BodyHandle {
    open spec fn get(components: Components) -> Option<BodyHandle> {
        components.body_handle
    }
}

impl Stored for ColliderHandle {
    open spec fn get(components: Components) -> Option<ColliderHandle> {
        components.collider_handle
    }
}

/// A component that a command adds to an entity, or sets.
pub(crate) trait Queued: Stored {
    /// The command that adds the component to the entity.
    spec fn adding(entity: Entity, component: Self) -> Command;

    /// The command names the entity, and puts the component where reading
    /// finds it.
    proof fn adding_is_read(entity: Entity, component: Self, components: Components)
        ensures
            Self::adding(entity, component).entity_spec() == entity,
            Self::get(Self::adding(entity, component).change(components)) == Some(component),
    ;
}

/// A component that a command takes off an entity.
pub(crate) trait Unqueued: Stored {
    /// The command that takes the component off the entity.
    spec fn removing(entity: Entity) -> Command;

    /// The command names the entity, and takes the component from where
    /// reading finds it.
    proof fn removing_is_read(entity: Entity, components: Components)
        ensures
            Self::removing(entity).entity_spec() == entity,
            Self::get(Self::removing(entity).change(components)).is_none(),
    ;
}

impl Queued for BodyHandle {
    open spec fn adding(entity: Entity, component: BodyHandle) -> Command {
        Command::AddBodyHandle(entity, component)
    }

    proof fn adding_is_read(entity: Entity, component: BodyHandle, components: Components) {
    }
}

impl Queued for ColliderHandle {
    open spec fn adding(entity: Entity, component: ColliderHandle) -> Command {
        Command::AddColliderHandle(entity, component)
    }

    proof fn adding_is_read(entity: Entity, component: ColliderHandle, components: Components) {
    }
}

impl Queued for Position {
    open spec fn adding(entity: Entity, component: Position) -> Command {
        Command::SetPosition(entity, component)
    }

    proof fn adding_is_read(entity: Entity, component: Position, components: Components) {
    }
}

impl Queued for Velocity {
    open spec fn adding(entity: Entity, component: Velocity) -> Command {
        Command::SetVelocity(entity, component)
    }

    proof fn adding_is_read(entity: Entity, component: Velocity, components: Components) {
    }
}

impl Queued for Orientation {
    open spec fn adding(entity: Entity, component: Orientation) -> Command {
        Command::SetOrientation(entity, component)
    }

    proof fn adding_is_read(entity: Entity, component: Orientation, components: Components) {
    }
}

impl Queued for DynamicBody {
    open spec fn adding(entity: Entity, component: DynamicBody) -> Command {
        Command::AddDynamicBody(entity, component)
    }

    proof fn adding_is_read(entity: Entity, component: DynamicBody, components: Components) {
    }
}

impl Queued for Acceleration {
    open spec fn adding(entity: Entity, component: Acceleration) -> Command {
        Command::AddAcceleration(entity, component)
    }

    proof fn adding_is_read(entity: Entity, component: Acceleration, components: Components) {
    }
}

impl Unqueued for BodyHandle {
    open spec fn removing(entity: Entity) -> Command {
        Command::RemoveBodyHandle(entity)
    }

    proof fn removing_is_read(entity: Entity, components: Components) {
    }
}

impl Unqueued for ColliderHandle {
    open spec fn removing(entity: Entity) -> Command {
        Command::RemoveColliderHandle(entity)
    }

    proof fn removing_is_read(entity: Entity, components: Components) {
    }
}

/// `EntryRef::get_component` on the entity's `World::entry_ref`. An entity
/// that the world does not hold has no entry and gives nothing; otherwise the
/// result is the entity's component of the type asked for, if it carries
/// one.
#[verifier::external_body]
fn read<C: Stored>(world: &World, entity: Entity) -> (r: Option<Option<C>>)
    ensures
        r.is_some() == world_components(*world).contains_key(entity),
        r matches Some(found) ==> found == C::get(world_components(*world)[entity]),
{
    let entry = world.entry_ref(entity).ok()?;
    Some(entry.get_component::<C>().ok().copied())
}

/// `CommandBuffer::new`: an empty buffer, made for the world.
#[verifier::external_body]
fn new_buffer(world: &World) -> (buffer: CommandBuffer)
    ensures
        queued(buffer) == Seq::<Command>::empty(),
        buffer_world(buffer) == world_id(*world),
{
    CommandBuffer::new(world)
}

/// `Resources::default`: no resources.
#[verifier::external_body]
fn no_resources() -> (resources: Resources) {
    Resources::default()
}

/// `CommandBuffer::add_component`: the change goes to the end of the queue.
/// Nothing happens to any world yet.
#[verifier::external_body]
fn queue_adding<C: Queued>(buffer: &mut CommandBuffer, entity: Entity, component: C)
    ensures
        queued(*final(buffer)) == queued(*old(buffer)).push(C::adding(entity, component)),
        buffer_world(*final(buffer)) == buffer_world(*old(buffer)),
{
    buffer.add_component(entity, component);
}

/// `CommandBuffer::remove_component`: the change goes to the end of the
/// queue. Nothing happens to any world yet.
#[verifier::external_body]
fn queue_removing<C: Unqueued>(buffer: &mut CommandBuffer, entity: Entity)
    ensures
        queued(*final(buffer)) == queued(*old(buffer)).push(C::removing(entity)),
        buffer_world(*final(buffer)) == buffer_world(*old(buffer)),
{
    buffer.remove_component::<C>(entity);
}

/// `CommandBuffer::flush`: the queued changes are written to the world,
/// oldest first, and the queue is empty afterwards. A component that is added
/// replaces the one of its type that was there; one that is taken off need
/// not have been there. legion refuses a buffer that was made for another
/// world, and a change to an entity that the world does not hold.
#[verifier::external_body]
fn flush(buffer: &mut CommandBuffer, world: &mut World, resources: &mut Resources)
    requires
        buffer_world(*old(buffer)) == world_id(*old(world)),
        forall|i: int|
            0 <= i < queued(*old(buffer)).len() ==> world_components(*old(world)).contains_key(
                (#[trigger] queued(*old(buffer))[i]).entity_spec(),
            ),
    ensures
        world_components(*final(world)) == applied(
            world_components(*old(world)),
            queued(*old(buffer)),
        ),
        queued(*final(buffer)) == Seq::<Command>::empty(),
{
    buffer.flush(world, resources);
}

/// `World::push` with no components: the world holds one entity more, which
/// it did not hold before and which carries nothing.
#[verifier::external_body]
pub(crate) fn push_empty(world: &mut World) -> (entity: Entity)
    ensures
        !world_components(*old(world)).contains_key(entity),
        world_components(*final(world)) == world_components(*old(world)).insert(
            entity,
            Components::empty_spec(),
        ),
{
    world.push(())
}

/// Reads the components of one entity, if the world holds it.
pub fn read_components(world: &World, entity: Entity) -> (r: Option<Components>)
    ensures
        r == (if world_components(*world).contains_key(entity) {
            Some(world_components(*world)[entity])
        } else {
            None
        }),
{
    let position = match read::<Position>(world, entity) {
        Some(position) => position,
        None => {
            return None;
        },
    };
    let velocity = match read::<Velocity>(world, entity) {
        Some(velocity) => velocity,
        None => {
            return None;
        },
    };
    let orientation = match read::<Orientation>(world, entity) {
        Some(orientation) => orientation,
        None => {
            return None;
        },
    };
    let speed = match read::<Speed>(world, entity) {
        Some(speed) => speed,
        None => {
            return None;
        },
    };
    let acceleration = match read::<Acceleration>(world, entity) {
        Some(acceleration) => acceleration,
        None => {
            return None;
        },
    };
    let force = match read::<Force>(world, entity) {
        Some(force) => force,
        None => {
            return None;
        },
    };
    let dynamic_body = match read::<DynamicBody>(world, entity) {
        Some(dynamic_body) => dynamic_body,
        None => {
            return None;
        },
    };
    let static_body = match read::<StaticBody>(world, entity) {
        Some(static_body) => static_body,
        None => {
            return None;
        },
    };
    let disabled_body = match read::<DisabledBody>(world, entity) {
        Some(disabled_body) => disabled_body,
        None => {
            return None;
        },
    };
    let circle_collider = match read::<CircleCollider>(world, entity) {
        Some(circle_collider) => circle_collider,
        None => {
            return None;
        },
    };
    let square_collider = match read::<SquareCollider>(world, entity) {
        Some(square_collider) => square_collider,
        None => {
            return None;
        },
    };
    let body_handle = match read::<BodyHandle>(world, entity) {
        Some(body_handle) => body_handle,
        None => {
            return None;
        },
    };
    let collider_handle = match read::<ColliderHandle>(world, entity) {
        Some(collider_handle) => collider_handle,
        None => {
            return None;
        },
    };
    Some(
        Components {
            position,
            velocity,
            orientation,
            speed,
            acceleration,
            force,
            dynamic_body,
            static_body,
            disabled_body,
            circle_collider,
            square_collider,
            body_handle,
            collider_handle,
        },
    )
}

/// Takes a snapshot of the world: one row for each entity, with the
/// components it carries now. The stages of a tick read such a snapshot, so
/// that none of them sees the changes it stages.
pub fn snapshot(world: &World) -> (rows: Vec<EntityRow>)
    ensures
        lists(rows@, world_components(*world)),
{
    let found = entities(world);
    let ghost store = world_components(*world);
    let mut rows: Vec<EntityRow> = Vec::new();
    let mut i: usize = 0;
    while i < found.len()
        invariant
            0 <= i <= found.len(),
            store == world_components(*world),
            found@.no_duplicates(),
            forall|entity: Entity| found@.contains(entity) <==> store.contains_key(entity),
            rows@.len() == i,
            forall|j: int|
                0 <= j < i ==> (#[trigger] rows@[j]).entity == found@[j] && store.contains_pair(
                    found@[j],
                    rows@[j].components,
                ),
        decreases found.len() - i,
    {
        let entity: Entity = found[i];
        assert(found@.contains(entity));
        match read_components(world, entity) {
            Some(components) => {
                rows.push(EntityRow { entity, components });
            },
            None => {
                assert(false);
            },
        }
        i += 1;
    }
    proof {
        assert forall|entity: Entity| #[trigger] store.contains_key(entity) implies exists|i: int|
            0 <= i < rows@.len() && rows@[i].entity == entity by {
            let j = choose|j: int| 0 <= j < found@.len() && found@[j] == entity;
            assert(rows@[j].entity == entity);
        }
    }
    rows
}

/// The command, where the store holds its entity.
pub open spec fn present_of(store: Map<Entity, Components>) -> spec_fn(Command) -> Seq<Command> {
    |command: Command|
        if store.contains_key(command.entity_spec()) {
            seq![command]
        } else {
            Seq::empty()
        }
}

/// Those of the commands whose entity the store holds, in their order.
pub open spec fn present(store: Map<Entity, Components>, commands: Seq<Command>) -> Seq<Command> {
    gather(commands, present_of(store))
}

/// Leaving out the commands for entities that the store does not hold
/// changes nothing of what the commands make of the store.
pub proof fn lemma_applied_present(store: Map<Entity, Components>, commands: Seq<Command>)
    ensures
        applied(store, present(store, commands)) == applied(store, commands),
{
    assert forall|entity: Entity| store.contains_key(entity) implies effect(
        present(store, commands),
        entity,
        store[entity],
    ) == effect(commands, entity, store[entity]) by {
        lemma_effect_present(store, commands, entity, store[entity]);
    }
    assert(applied(store, present(store, commands)) =~= applied(store, commands));
}

proof fn lemma_effect_present(
    store: Map<Entity, Components>,
    commands: Seq<Command>,
    entity: Entity,
    components: Components,
)
    requires
        store.contains_key(entity),
    ensures
        effect(present(store, commands), entity, components) == effect(
            commands,
            entity,
            components,
        ),
    decreases commands.len(),
{
    if commands.len() > 0 {
        let rest = commands.drop_last();
        let last = commands.last();
        lemma_effect_present(store, rest, entity, components);
        crate::commands::lemma_effect_append(
            present(store, rest),
            present_of(store)(last),
            entity,
            components,
        );
        if store.contains_key(last.entity_spec()) {
            crate::commands::lemma_effect_one(
                last,
                entity,
                effect(present(store, rest), entity, components),
            );
        }
    }
}

/// Puts one command at the end of legion's queue.
fn queue(buffer: &mut CommandBuffer, command: Command)
    ensures
        queued(*final(buffer)) == queued(*old(buffer)).push(command),
        buffer_world(*final(buffer)) == buffer_world(*old(buffer)),
{
    match command {
        Command::AddBodyHandle(entity, handle) => queue_adding(buffer, entity, handle),
        Command::RemoveBodyHandle(entity) => queue_removing::<BodyHandle>(buffer, entity),
        Command::AddColliderHandle(entity, handle) => queue_adding(buffer, entity, handle),
        Command::RemoveColliderHandle(entity) => queue_removing::<ColliderHandle>(buffer, entity),
        Command::SetPosition(entity, position) => queue_adding(buffer, entity, position),
        Command::SetVelocity(entity, velocity) => queue_adding(buffer, entity, velocity),
        Command::SetOrientation(entity, orientation) => queue_adding(buffer, entity, orientation),
        Command::AddDynamicBody(entity, body) => queue_adding(buffer, entity, body),
        Command::AddAcceleration(entity, acceleration) => queue_adding(
            buffer,
            entity,
            acceleration,
        ),
    }
}

/// Whether the world holds the entity.
fn holds(world: &World, entity: Entity) -> (r: bool)
    ensures
        r == world_components(*world).contains_key(entity),
{
    read::<BodyHandle>(world, entity).is_some()
}

/// The barrier between two stages: hands the staged commands to a legion
/// command buffer in the order in which they were staged, has legion flush
/// it into the world, and empties the staged commands. A command for an
/// entity that the world no longer holds is left out. The world holds the
/// same entities afterwards, each changed by the commands that name it.
pub fn flush_command_buffer(world: &mut World, commands: &mut Vec<Command>)
    ensures
        world_components(*final(world)) == applied(
            world_components(*old(world)),
            old(commands)@,
        ),
        final(commands)@ == Seq::<Command>::empty(),
{
    let ghost store = world_components(*world);
    let mut buffer = new_buffer(world);
    let mut i: usize = 0;
    assert(commands@.take(0) == Seq::<Command>::empty());
    while i < commands.len()
        invariant
            0 <= i <= commands.len(),
            commands@ == old(commands)@,
            store == world_components(*world),
            buffer_world(buffer) == world_id(*world),
            queued(buffer) == present(store, commands@.take(i as int)),
        decreases commands.len() - i,
    {
        proof {
            lemma_gather_take(commands@, i as int, present_of(store));
        }
        let command: Command = commands[i];
        if holds(world, command.entity()) {
            queue(&mut buffer, command);
        }
        assert(queued(buffer) =~= present(store, commands@.take(i as int + 1)));
        i += 1;
    }
    proof {
        assert(commands@.take(commands.len() as int) == commands@);
        assert forall|n: int| 0 <= n < queued(buffer).len() implies store.contains_key(
            (#[trigger] queued(buffer)[n]).entity_spec(),
        ) by {
            lemma_gather_from(commands@, present_of(store), n);
        }
        lemma_applied_present(store, commands@);
    }
    let mut resources = no_resources();
    flush(&mut buffer, world, &mut resources);
    commands.clear();
}

/// Applies one command to the world, through the barrier.
pub fn apply_command(world: &mut World, command: Command)
    ensures
        world_components(*final(world)) == apply(world_components(*old(world)), command),
{
    let mut commands: Vec<Command> = Vec::new();
    commands.push(command);
    proof {
        let store = world_components(*world);
        lemma_applied_nothing(store);
        lemma_applied_push(store, Seq::<Command>::empty(), command);
        assert(commands@ =~= Seq::<Command>::empty().push(command));
    }
    flush_command_buffer(world, &mut commands);
}

} // verus!
