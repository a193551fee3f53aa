//! The changes that stages stage for the store, and what applying them means.

use vstd::prelude::*;
use legion::Entity;
use crate::components::{
    Acceleration, BodyHandle, ColliderHandle, Components, DynamicBody, Orientation, Position,
    Velocity,
};
use crate::gather::gather;

verus! {

/// A change to one entity's components, staged by a stage and applied at the
/// next barrier.
#[derive(Clone, Copy, Debug, PartialEq, Eq)]
pub enum Command {
    AddBodyHandle(Entity, BodyHandle),
    RemoveBodyHandle(Entity),
    AddColliderHandle(Entity, ColliderHandle),
    RemoveColliderHandle(Entity),
    SetPosition(Entity, Position),
    SetVelocity(Entity, Velocity),
    SetOrientation(Entity, Orientation),
    AddDynamicBody(Entity, DynamicBody),
    AddAcceleration(Entity, Acceleration),
}

impl Command {
    /// The entity that the command changes.
    pub open spec fn entity_spec(self) -> Entity {
        match self {
            Command::AddBodyHandle(entity, _) => entity,
            Command::RemoveBodyHandle(entity) => entity,
            Command::AddColliderHandle(entity, _) => entity,
            Command::RemoveColliderHandle(entity) => entity,
            Command::SetPosition(entity, _) => entity,
            Command::SetVelocity(entity, _) => entity,
            Command::SetOrientation(entity, _) => entity,
            Command::AddDynamicBody(entity, _) => entity,
            Command::AddAcceleration(entity, _) => entity,
        }
    }

    /// The components of the command's entity once the command is applied. A
    /// component that is added or set replaces the one that was there.
    pub open spec fn change(self, components: Components) -> Components {
        match self {
            Command::AddBodyHandle(_, handle) => Components {
                body_handle: Some(handle),
                ..components
            },
            Command::RemoveBodyHandle(_) => Components { body_handle: None, ..components },
            Command::AddColliderHandle(_, handle) => Components {
                collider_handle: Some(handle),
                ..components
            },
            Command::RemoveColliderHandle(_) => Components { collider_handle: None, ..components },
            Command::SetPosition(_, position) => Components {
                position: Some(position),
                ..components
            },
            Command::SetVelocity(_, velocity) => Components {
                velocity: Some(velocity),
                ..components
            },
            Command::SetOrientation(_, orientation) => Components {
                orientation: Some(orientation),
                ..components
            },
            Command::AddDynamicBody(_, body) => Components {
                dynamic_body: Some(body),
                ..components
            },
            Command::AddAcceleration(_, acceleration) => Components {
                acceleration: Some(acceleration),
                ..components
            },
        }
    }

    /// The command adds or takes off a handle, and touches nothing else.
    pub open spec fn settles_handle(self) -> bool {
        match self {
            Command::AddBodyHandle(_, _)
            | Command::RemoveBodyHandle(_)
            | Command::AddColliderHandle(_, _)
            | Command::RemoveColliderHandle(_) => true,
            _ => false,
        }
    }

    #[verifier::when_used_as_spec(entity_spec)]
    pub fn entity(self) -> (r: Entity)
        ensures
            r == self.entity_spec(),
    {
        match self {
            Command::AddBodyHandle(entity, _) => entity,
            Command::RemoveBodyHandle(entity) => entity,
            Command::AddColliderHandle(entity, _) => entity,
            Command::RemoveColliderHandle(entity) => entity,
            Command::SetPosition(entity, _) => entity,
            Command::SetVelocity(entity, _) => entity,
            Command::SetOrientation(entity, _) => entity,
            Command::AddDynamicBody(entity, _) => entity,
            Command::AddAcceleration(entity, _) => entity,
        }
    }
}

/// What the commands, applied in order, make of the components of `entity`.
/// A command for another entity changes nothing.
pub open spec fn effect(commands: Seq<Command>, entity: Entity, components: Components)
    -> Components
    decreases commands.len(),
{
    if commands.len() == 0 {
        components
    } else {
        let before = effect(commands.drop_last(), entity, components);
        if commands.last().entity_spec() == entity {
            commands.last().change(before)
        } else {
            before
        }
    }
}

/// The store once one command is applied. A command for an entity that the
/// store does not hold changes nothing.
pub open spec fn apply(store: Map<Entity, Components>, command: Command) -> Map<
    Entity,
    Components,
> {
    if store.contains_key(command.entity_spec()) {
        store.insert(command.entity_spec(), command.change(store[command.entity_spec()]))
    } else {
        store
    }
}

/// The store once the commands are applied in order: it holds the same
/// entities, each changed by the commands that name it.
pub open spec fn applied(store: Map<Entity, Components>, commands: Seq<Command>) -> Map<
    Entity,
    Components,
> {
    Map::new(
        |entity: Entity| store.contains_key(entity),
        |entity: Entity| effect(commands, entity, store[entity]),
    )
}

/// Applying no command changes nothing.
pub proof fn lemma_applied_nothing(store: Map<Entity, Components>)
    ensures
        applied(store, Seq::empty()) == store,
{
    assert(applied(store, Seq::empty()) =~= store);
}

/// Applying one more command is applying it to what the others left.
pub proof fn lemma_applied_push(store: Map<Entity, Components>, commands: Seq<Command>, last: Command)
    ensures
        applied(store, commands.push(last)) == apply(applied(store, commands), last),
{
    assert(commands.push(last).drop_last() == commands);
    assert(applied(store, commands.push(last)) =~= apply(applied(store, commands), last));
}

/// The effect of two runs of commands is the effect of the second on what
/// the first left.
pub proof fn lemma_effect_append(
    first: Seq<Command>,
    second: Seq<Command>,
    entity: Entity,
    components: Components,
)
    ensures
        effect(first + second, entity, components) == effect(
            second,
            entity,
            effect(first, entity, components),
        ),
    decreases second.len(),
{
    if second.len() == 0 {
        assert(first + second == first);
    } else {
        assert((first + second).drop_last() == first + second.drop_last());
        lemma_effect_append(first, second.drop_last(), entity, components);
    }
}

/// The effect of a single command.
pub proof fn lemma_effect_one(command: Command, entity: Entity, components: Components)
    ensures
        effect(seq![command], entity, components) == (if command.entity_spec() == entity {
            command.change(components)
        } else {
            components
        }),
{
    assert(seq![command].drop_last() == Seq::<Command>::empty());
    assert(effect(Seq::<Command>::empty(), entity, components) == components);
}

/// Commands that only settle handles change nothing of an entity but its
/// handles, whichever entities they name.
pub proof fn lemma_effect_on_handles_only(
    commands: Seq<Command>,
    entity: Entity,
    components: Components,
)
    requires
        forall|i: int| 0 <= i < commands.len() ==> (#[trigger] commands[i]).settles_handle(),
    ensures
        effect(commands, entity, components) == (Components {
            body_handle: effect(commands, entity, components).body_handle,
            collider_handle: effect(commands, entity, components).collider_handle,
            ..components
        }),
    decreases commands.len(),
{
    if commands.len() > 0 {
        lemma_effect_on_handles_only(commands.drop_last(), entity, components);
        assert(commands[commands.len() - 1].settles_handle());
    }
}

/// Commands that all name other entities leave an entity as it is.
pub proof fn lemma_effect_elsewhere(commands: Seq<Command>, entity: Entity, components: Components)
    requires
        forall|i: int| 0 <= i < commands.len() ==> (#[trigger] commands[i]).entity_spec() != entity,
    ensures
        effect(commands, entity, components) == components,
    decreases commands.len(),
{
    if commands.len() > 0 {
        lemma_effect_elsewhere(commands.drop_last(), entity, components);
    }
}

/// Where each item's commands name only the item's own entity, and no two
/// items share an entity, the gathered commands change an item's entity as
/// the item's own commands do.
pub proof fn lemma_effect_gather<T>(
    items: Seq<T>,
    per_item: spec_fn(T) -> Seq<Command>,
    owner: spec_fn(T) -> Entity,
    k: int,
    components: Components,
)
    requires
        0 <= k < items.len(),
        forall|i: int, j: int|
            0 <= i < items.len() && 0 <= j < items.len() && i != j ==> owner(items[i]) != owner(
                items[j],
            ),
        forall|i: int, n: int|
            0 <= i < items.len() && 0 <= n < per_item(items[i]).len() ==> (#[trigger] per_item(
                items[i],
            )[n]).entity_spec() == owner(items[i]),
    ensures
        effect(gather(items, per_item), owner(items[k]), components) == effect(
            per_item(items[k]),
            owner(items[k]),
            components,
        ),
    decreases items.len(),
{
    let entity = owner(items[k]);
    let rest = items.drop_last();
    let last = per_item(items.last());
    lemma_effect_append(gather(rest, per_item), last, entity, components);
    if k == items.len() - 1 {
        lemma_effect_gather_elsewhere(rest, per_item, owner, entity, components);
    } else {
        lemma_effect_gather(rest, per_item, owner, k, components);
        assert(rest[k] == items[k]);
        assert(owner(items[items.len() - 1]) != entity);
        lemma_effect_elsewhere(last, entity, effect(gather(rest, per_item), entity, components));
    }
}

/// Where each item's commands name only the item's own entity, the gathered
/// commands leave an entity that no item owns as it is.
pub proof fn lemma_effect_gather_elsewhere<T>(
    items: Seq<T>,
    per_item: spec_fn(T) -> Seq<Command>,
    owner: spec_fn(T) -> Entity,
    entity: Entity,
    components: Components,
)
    requires
        forall|i: int| 0 <= i < items.len() ==> owner(#[trigger] items[i]) != entity,
        forall|i: int, n: int|
            0 <= i < items.len() && 0 <= n < per_item(items[i]).len() ==> (#[trigger] per_item(
                items[i],
            )[n]).entity_spec() == owner(items[i]),
    ensures
        effect(gather(items, per_item), entity, components) == components,
    decreases items.len(),
{
    if items.len() > 0 {
        let rest = items.drop_last();
        let last = per_item(items.last());
        lemma_effect_append(gather(rest, per_item), last, entity, components);
        lemma_effect_gather_elsewhere(rest, per_item, owner, entity, components);
        assert(owner(items[items.len() - 1]) != entity);
        lemma_effect_elsewhere(last, entity, components);
    }
}

} // verus!
