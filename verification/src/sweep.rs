//! The defensive sweep: what the backend holds for no entity, and which
//! handles name nothing.

use vstd::prelude::*;
use legion::Entity;
use crate::commands::Command;
use crate::components::{ArenaIndex, BodyHandle, Components};
use crate::gather::{gather, lemma_gather_take};
use crate::store::EntityRow;

verus! {

/// What the sweep asks the backend to release: bodies and colliders that no
/// entity holds on to.
#[derive(Clone, Debug, PartialEq, Eq)]
pub struct Sweep {
    pub bodies: Vec<ArenaIndex>,
    pub colliders: Vec<ArenaIndex>,
}

impl Components {
    /// The entity's body handle names a body that the backend still has.
    pub open spec fn body_backed(self, live_bodies: Seq<ArenaIndex>) -> bool {
        match self.body_handle {
            Some(handle) => live_bodies.contains(handle.0),
            None => false,
        }
    }

    /// The entity's collider handle names a collider that the backend still
    /// has, and the entity's body is still there to anchor it.
    pub open spec fn collider_backed(
        self,
        live_bodies: Seq<ArenaIndex>,
        live_colliders: Seq<ArenaIndex>,
    ) -> bool {
        match self.collider_handle {
            Some(handle) => live_colliders.contains(handle.index) && self.body_backed(live_bodies),
            None => false,
        }
    }

    /// The components once the handles that nothing backs are taken off.
    pub open spec fn swept(
        self,
        live_bodies: Seq<ArenaIndex>,
        live_colliders: Seq<ArenaIndex>,
    ) -> Components {
        Components {
            body_handle: if self.body_backed(live_bodies) {
                self.body_handle
            } else {
                None
            },
            collider_handle: if self.collider_backed(live_bodies, live_colliders) {
                self.collider_handle
            } else {
                None
            },
            ..self
        }
    }
}

impl EntityRow {
    /// The commands that take the entity's handles off where nothing backs
    /// them.
    pub open spec fn sweep_commands(
        self,
        live_bodies: Seq<ArenaIndex>,
        live_colliders: Seq<ArenaIndex>,
    ) -> Seq<Command> {
        (if self.components.body_handle.is_some() && !self.components.body_backed(live_bodies) {
            seq![Command::RemoveBodyHandle(self.entity)]
        } else {
            Seq::empty()
        }) + (if self.components.collider_handle.is_some() && !self.components.collider_backed(
            live_bodies,
            live_colliders,
        ) {
            seq![Command::RemoveColliderHandle(self.entity)]
        } else {
            Seq::empty()
        })
    }
}

/// Some entity's body handle names the body.
pub open spec fn owns_body(rows: Seq<EntityRow>, body: ArenaIndex) -> bool {
    exists|k: int|
        0 <= k < rows.len() && (#[trigger] rows[k]).components.body_handle == Some(
            BodyHandle(body),
        )
}

/// Some entity's collider handle names the collider, and that entity's body
/// is still there to anchor it.
pub open spec fn keeps_collider(
    rows: Seq<EntityRow>,
    live_bodies: Seq<ArenaIndex>,
    collider: ArenaIndex,
) -> bool {
    exists|k: int|
        0 <= k < rows.len() && (#[trigger] rows[k]).components.body_backed(live_bodies) && (
        match rows[k].components.collider_handle {
            Some(handle) => handle.index == collider,
            None => false,
        })
}

/// Some entity of the store has a body handle that names the body.
pub open spec fn store_owns_body(store: Map<Entity, Components>, body: ArenaIndex) -> bool {
    exists|entity: Entity| #[trigger]
        store.contains_key(entity) && store[entity].body_handle == Some(BodyHandle(body))
}

/// Some entity of the store has a collider handle that names the collider,
/// and a body that is still there to anchor it.
pub open spec fn store_keeps_collider(
    store: Map<Entity, Components>,
    live_bodies: Seq<ArenaIndex>,
    collider: ArenaIndex,
) -> bool {
    exists|entity: Entity| #[trigger]
        store.contains_key(entity) && store[entity].body_backed(live_bodies) && (
        match store[entity].collider_handle {
            Some(handle) => handle.index == collider,
            None => false,
        })
}

/// A body of the backend, if no entity of the store owns it.
pub open spec fn unowned_body_of(store: Map<Entity, Components>) -> spec_fn(ArenaIndex) -> Seq<
    ArenaIndex,
> {
    |body: ArenaIndex|
        if store_owns_body(store, body) {
            Seq::empty()
        } else {
            seq![body]
        }
}

/// A collider of the backend, if no entity of the store keeps it.
pub open spec fn unkept_collider_of(
    store: Map<Entity, Components>,
    live_bodies: Seq<ArenaIndex>,
) -> spec_fn(ArenaIndex) -> Seq<ArenaIndex> {
    |collider: ArenaIndex|
        if store_keeps_collider(store, live_bodies, collider) {
            Seq::empty()
        } else {
            seq![collider]
        }
}

/// The live bodies that no entity of the store owns, in the order of the
/// backend's table.
pub open spec fn unowned_bodies(store: Map<Entity, Components>, live_bodies: Seq<ArenaIndex>) -> Seq<
    ArenaIndex,
> {
    gather(live_bodies, unowned_body_of(store))
}

/// The live colliders that no entity of the store keeps, in the order of the
/// backend's table.
pub open spec fn unkept_colliders(
    store: Map<Entity, Components>,
    live_bodies: Seq<ArenaIndex>,
    live_colliders: Seq<ArenaIndex>,
) -> Seq<ArenaIndex> {
    gather(live_colliders, unkept_collider_of(store, live_bodies))
}

/// The commands that take a row's handles off where nothing backs them.
pub open spec fn sweep_of(live_bodies: Seq<ArenaIndex>, live_colliders: Seq<ArenaIndex>) -> spec_fn(
    EntityRow,
) -> Seq<Command> {
    |row: EntityRow| row.sweep_commands(live_bodies, live_colliders)
}

/// A body of the backend, if no entity owns it.
pub open spec fn orphan_body_of(rows: Seq<EntityRow>) -> spec_fn(ArenaIndex) -> Seq<ArenaIndex> {
    |body: ArenaIndex|
        if owns_body(rows, body) {
            Seq::empty()
        } else {
            seq![body]
        }
}

/// A collider of the backend, if no entity keeps it.
pub open spec fn orphan_collider_of(rows: Seq<EntityRow>, live_bodies: Seq<ArenaIndex>) -> spec_fn(
    ArenaIndex,
) -> Seq<ArenaIndex> {
    |collider: ArenaIndex|
        if keeps_collider(rows, live_bodies, collider) {
            Seq::empty()
        } else {
            seq![collider]
        }
}

/// The commands that take every handle off that nothing backs.
pub open spec fn sweep_commands(
    rows: Seq<EntityRow>,
    live_bodies: Seq<ArenaIndex>,
    live_colliders: Seq<ArenaIndex>,
) -> Seq<Command> {
    gather(rows, sweep_of(live_bodies, live_colliders))
}

/// The bodies of the backend that no entity owns.
pub open spec fn orphan_bodies(rows: Seq<EntityRow>, live_bodies: Seq<ArenaIndex>) -> Seq<
    ArenaIndex,
> {
    gather(live_bodies, orphan_body_of(rows))
}

/// The colliders of the backend that no entity keeps.
pub open spec fn orphan_colliders(
    rows: Seq<EntityRow>,
    live_bodies: Seq<ArenaIndex>,
    live_colliders: Seq<ArenaIndex>,
) -> Seq<ArenaIndex> {
    gather(live_colliders, orphan_collider_of(rows, live_bodies))
}

/// Whether a key is among the keys of a table.
pub fn is_live(table: &Vec<ArenaIndex>, key: ArenaIndex) -> (r: bool)
    ensures
        r == table@.contains(key),
{
    let mut i: usize = 0;
    while i < table.len()
        invariant
            0 <= i <= table.len(),
            forall|j: int| 0 <= j < i ==> table@[j] != key,
        decreases table.len() - i,
    {
        if table[i] == key {
            return true;
        }
        i += 1;
    }
    false
}

/// Whether some entity of the snapshot owns the body.
pub fn has_owner(rows: &Vec<EntityRow>, body: ArenaIndex) -> (r: bool)
    ensures
        r == owns_body(rows@, body),
{
    let mut i: usize = 0;
    while i < rows.len()
        invariant
            0 <= i <= rows.len(),
            forall|j: int|
                0 <= j < i ==> (#[trigger] rows@[j]).components.body_handle != Some(
                    BodyHandle(body),
                ),
        decreases rows.len() - i,
    {
        match rows[i].components.body_handle {
            Some(handle) => {
                if handle.0 == body {
                    return true;
                }
            },
            None => {},
        }
        i += 1;
    }
    false
}

/// Whether some entity of the snapshot keeps the collider.
pub fn has_keeper(rows: &Vec<EntityRow>, live_bodies: &Vec<ArenaIndex>, collider: ArenaIndex) -> (r:
    bool)
    ensures
        r == keeps_collider(rows@, live_bodies@, collider),
{
    let mut i: usize = 0;
    while i < rows.len()
        invariant
            0 <= i <= rows.len(),
            forall|j: int|
                0 <= j < i ==> !((#[trigger] rows@[j]).components.body_backed(live_bodies@) && (
                match rows@[j].components.collider_handle {
                    Some(handle) => handle.index == collider,
                    None => false,
                })),
        decreases rows.len() - i,
    {
        match (rows[i].components.collider_handle, rows[i].components.body_handle) {
            (Some(handle), Some(body)) => {
                if handle.index == collider && is_live(live_bodies, body.0) {
                    return true;
                }
            },
            _ => {},
        }
        i += 1;
    }
    false
}

/// The defensive sweep. `live_bodies` and `live_colliders` are the keys of
/// what the backend holds. A body that no entity's handle names, and a
/// collider that no entity keeps, are returned: the backend is to release
/// them. A body handle that names no live body is staged for removal, and so
/// is a collider handle that names no live collider or whose entity's body is
/// not live.
pub fn garbage(
    rows: &Vec<EntityRow>,
    live_bodies: &Vec<ArenaIndex>,
    live_colliders: &Vec<ArenaIndex>,
    commands: &mut Vec<Command>,
) -> (sweep: Sweep)
    ensures
        sweep.bodies@ == orphan_bodies(rows@, live_bodies@),
        sweep.colliders@ == orphan_colliders(rows@, live_bodies@, live_colliders@),
        final(commands)@ == old(commands)@ + sweep_commands(rows@, live_bodies@, live_colliders@),
{
    let mut bodies: Vec<ArenaIndex> = Vec::new();
    let mut i: usize = 0;
    while i < live_bodies.len()
        invariant
            0 <= i <= live_bodies.len(),
            bodies@ == gather(live_bodies@.take(i as int), orphan_body_of(rows@)),
        decreases live_bodies.len() - i,
    {
        proof {
            lemma_gather_take(live_bodies@, i as int, orphan_body_of(rows@));
        }
        if !has_owner(rows, live_bodies[i]) {
            bodies.push(live_bodies[i]);
        }
        assert(bodies@ =~= gather(live_bodies@.take(i as int + 1), orphan_body_of(rows@)));
        i += 1;
    }
    assert(live_bodies@.take(live_bodies.len() as int) == live_bodies@);

    let mut colliders: Vec<ArenaIndex> = Vec::new();
    let mut i: usize = 0;
    while i < live_colliders.len()
        invariant
            0 <= i <= live_colliders.len(),
            colliders@ == gather(
                live_colliders@.take(i as int),
                orphan_collider_of(rows@, live_bodies@),
            ),
        decreases live_colliders.len() - i,
    {
        proof {
            lemma_gather_take(live_colliders@, i as int, orphan_collider_of(rows@, live_bodies@));
        }
        if !has_keeper(rows, live_bodies, live_colliders[i]) {
            colliders.push(live_colliders[i]);
        }
        assert(colliders@ =~= gather(
            live_colliders@.take(i as int + 1),
            orphan_collider_of(rows@, live_bodies@),
        ));
        i += 1;
    }
    assert(live_colliders@.take(live_colliders.len() as int) == live_colliders@);

    let mut i: usize = 0;
    assert(commands@ =~= old(commands)@ + Seq::<Command>::empty());
    while i < rows.len()
        invariant
            0 <= i <= rows.len(),
            commands@ == old(commands)@ + gather(
                rows@.take(i as int),
                sweep_of(live_bodies@, live_colliders@),
            ),
        decreases rows.len() - i,
    {
        proof {
            lemma_gather_take(rows@, i as int, sweep_of(live_bodies@, live_colliders@));
        }
        let row: EntityRow = rows[i];
        let ghost before = commands@;
        let body_backed: bool = match row.components.body_handle {
            Some(handle) => is_live(live_bodies, handle.0),
            None => false,
        };
        if row.components.body_handle.is_some() && !body_backed {
            commands.push(Command::RemoveBodyHandle(row.entity));
        }
        match row.components.collider_handle {
            Some(handle) => {
                if !(body_backed && is_live(live_colliders, handle.index)) {
                    commands.push(Command::RemoveColliderHandle(row.entity));
                }
            },
            None => {},
        }
        assert(commands@ =~= before + row.sweep_commands(live_bodies@, live_colliders@));
        assert(commands@ =~= old(commands)@ + gather(
            rows@.take(i as int + 1),
            sweep_of(live_bodies@, live_colliders@),
        ));
        i += 1;
    }
    assert(rows@.take(rows.len() as int) == rows@);
    Sweep { bodies, colliders }
}

} // verus!
