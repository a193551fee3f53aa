//! What holds of the store after each stage of a tick, and after whole ticks.

use vstd::prelude::*;
use legion::Entity;
use crate::commands::{
    applied, effect, lemma_effect_append, lemma_effect_gather, lemma_effect_gather_elsewhere,
    lemma_effect_on_handles_only, lemma_effect_one,
    Command,
};
use crate::components::{ArenaIndex, BodyHandle, ColliderHandle, Components};
use crate::gather::{
    gather, lemma_gather_from, lemma_gather_has, lemma_gather_nothing, lemma_gather_order,
    lemma_gather_same,
};
use crate::lifecycle::{
    answer, answered, body_attachment_of, body_attachments, body_removal_of, body_removals,
    body_request_of, body_requests, collider_attachment_of, collider_attachments,
    collider_removal_of, collider_removals, collider_request_of, collider_requests, stale_bodies,
    stale_body_of, stale_collider_of, stale_colliders, BodyRequest, ColliderRequest,
};
use crate::components::{Orientation, Position, Velocity};
use crate::projector::{pull_of, pulls, BodyReading};
use crate::scalar::Vec2;
use crate::store::{distinct, lists, EntityRow};
use crate::sweep::{
    keeps_collider, orphan_bodies, orphan_body_of, orphan_collider_of, orphan_colliders, owns_body,
    store_keeps_collider, store_owns_body, sweep_commands, sweep_of, unkept_collider_of,
    unkept_colliders, unowned_bodies, unowned_body_of,
};

verus! {

/// Every request was granted.
pub open spec fn all_granted<Q>(requests: Seq<Q>, replies: Seq<Option<ArenaIndex>>) -> bool {
    forall|j: int| 0 <= j < requests.len() ==> (#[trigger] answer(replies, j)).is_some()
}

/// The store after the body pass and its barrier: the answers to the body
/// requests are recorded, the stale handles are taken off, and both are
/// applied.
pub open spec fn after_body_pass(
    store: Map<Entity, Components>,
    rows: Seq<EntityRow>,
    replies: Seq<Option<ArenaIndex>>,
) -> Map<Entity, Components> {
    applied(store, body_attachments(body_requests(rows), replies) + body_removals(rows))
}

/// The row of an entity that a snapshot lists.
proof fn lemma_row_of(rows: Seq<EntityRow>, store: Map<Entity, Components>, entity: Entity) -> (k:
    int)
    requires
        lists(rows, store),
        store.contains_key(entity),
    ensures
        0 <= k < rows.len(),
        rows[k].entity == entity,
        rows[k].components == store[entity],
{
    let k = choose|k: int| 0 <= k < rows.len() && rows[k].entity == entity;
    assert(store.contains_pair(rows[k].entity, rows[k].components));
    k
}

/// The commands that a stage gathers from the rows change a row's entity as
/// that row's own commands do, where each row's commands name its own entity.
proof fn lemma_rows_effect(
    rows: Seq<EntityRow>,
    per_row: spec_fn(EntityRow) -> Seq<Command>,
    k: int,
    components: Components,
)
    requires
        distinct(rows),
        0 <= k < rows.len(),
        forall|i: int, n: int|
            0 <= i < rows.len() && 0 <= n < per_row(rows[i]).len() ==> (#[trigger] per_row(
                rows[i],
            )[n]).entity_spec() == rows[i].entity,
    ensures
        effect(gather(rows, per_row), rows[k].entity, components) == effect(
            per_row(rows[k]),
            rows[k].entity,
            components,
        ),
{
    lemma_effect_gather(rows, per_row, |row: EntityRow| row.entity, k, components);
}

/// Each request comes from a row that has exactly that request.
proof fn lemma_request_origin<Q>(
    rows: Seq<EntityRow>,
    request_of: spec_fn(EntityRow) -> Seq<Q>,
    j: int,
) -> (a: int)
    requires
        forall|i: int| 0 <= i < rows.len() ==> request_of(#[trigger] rows[i]).len() <= 1,
        0 <= j < gather(rows, request_of).len(),
    ensures
        0 <= a < rows.len(),
        request_of(rows[a]).len() == 1,
        gather(rows, request_of)[j] == request_of(rows[a])[0],
{
    lemma_gather_from(rows, request_of, j);
    let (a, n) = choose|a: int, n: int|
        0 <= a < rows.len() && 0 <= n < request_of(rows[a]).len() && gather(rows, request_of)[j]
            == #[trigger] request_of(rows[a])[n];
    assert(request_of(rows[a]).len() <= 1);
    a
}

/// The commands that record the answers to the rows' requests change a row's
/// entity as the answer to that row's own request does, and leave the entity
/// of a row without a request as it is.
proof fn lemma_answers_effect<Q>(
    rows: Seq<EntityRow>,
    request_of: spec_fn(EntityRow) -> Seq<Q>,
    entity_of: spec_fn(Q) -> Entity,
    record: spec_fn((Q, Option<ArenaIndex>)) -> Seq<Command>,
    replies: Seq<Option<ArenaIndex>>,
    k: int,
    components: Components,
) -> (j: int)
    requires
        distinct(rows),
        0 <= k < rows.len(),
        forall|i: int| 0 <= i < rows.len() ==> request_of(#[trigger] rows[i]).len() <= 1,
        forall|i: int|
            0 <= i < rows.len() && request_of(rows[i]).len() == 1 ==> entity_of(
                request_of(#[trigger] rows[i])[0],
            ) == rows[i].entity,
        forall|pair: (Q, Option<ArenaIndex>), n: int|
            0 <= n < record(pair).len() ==> (#[trigger] record(pair)[n]).entity_spec() == entity_of(
                pair.0,
            ),
    ensures
        request_of(rows[k]).len() == 0 ==> effect(
            gather(answered(gather(rows, request_of), replies), record),
            rows[k].entity,
            components,
        ) == components,
        request_of(rows[k]).len() == 1 ==> 0 <= j < gather(rows, request_of).len() && gather(
            rows,
            request_of,
        )[j] == request_of(rows[k])[0] && effect(
            gather(answered(gather(rows, request_of), replies), record),
            rows[k].entity,
            components,
        ) == effect(
            record((request_of(rows[k])[0], answer(replies, j))),
            rows[k].entity,
            components,
        ),
{
    let requests = gather(rows, request_of);
    let pairs = answered(requests, replies);
    let owner = |pair: (Q, Option<ArenaIndex>)| entity_of(pair.0);
    let entity = rows[k].entity;
    // No two requests bear the same entity.
    assert forall|i: int, j: int|
        0 <= i < pairs.len() && 0 <= j < pairs.len() && i != j implies owner(pairs[i]) != owner(
        pairs[j],
    ) by {
        let (lo, hi) = if i < j {
            (i, j)
        } else {
            (j, i)
        };
        lemma_gather_order(rows, request_of, lo, hi);
        let (a, b) = choose|a: int, b: int|
            0 <= a < b < rows.len() && request_of(rows[a]).len() == 1 && request_of(rows[b]).len()
                == 1 && requests[lo] == #[trigger] request_of(rows[a])[0] && requests[hi]
                == #[trigger] request_of(rows[b])[0];
        assert(entity_of(requests[lo]) == rows[a].entity);
        assert(entity_of(requests[hi]) == rows[b].entity);
    }
    assert forall|i: int, n: int|
        0 <= i < pairs.len() && 0 <= n < record(pairs[i]).len() implies (#[trigger] record(
        pairs[i],
    )[n]).entity_spec() == owner(pairs[i]) by {}
    if request_of(rows[k]).len() == 0 {
        assert forall|j: int| 0 <= j < pairs.len() implies owner(#[trigger] pairs[j]) != entity by {
            let a = lemma_request_origin(rows, request_of, j);
            assert(entity_of(requests[j]) == rows[a].entity);
            assert(a != k);
        }
        lemma_effect_gather_elsewhere(pairs, record, owner, entity, components);
        0
    } else {
        lemma_gather_has(rows, request_of, k, 0);
        let j = choose|j: int|
            0 <= j < requests.len() && #[trigger] requests[j] == request_of(rows[k])[0];
        assert(pairs[j] == (requests[j], answer(replies, j)));
        assert(owner(pairs[j]) == entity);
        lemma_effect_gather(pairs, record, owner, j, components);
        j
    }
}

/// The body handle that an answer stands for.
pub open spec fn granted_body(reply: Option<ArenaIndex>) -> Option<BodyHandle> {
    match reply {
        Some(index) => Some(BodyHandle(index)),
        None => None,
    }
}

/// After the body pass and its barrier, whether an entity has a body handle
/// follows from whether it has a body tag. An entity without a body tag has
/// no handle. An entity with a body tag keeps the handle it had; where it had
/// none, a request was made for it, and it has the handle that the backend
/// granted, or none where the request failed. So it has a handle whenever the
/// backend granted every request. Nothing but the body handle changes.
pub proof fn body_handles_follow_tags(
    store: Map<Entity, Components>,
    rows: Seq<EntityRow>,
    replies: Seq<Option<ArenaIndex>>,
    entity: Entity,
)
    requires
        lists(rows, store),
        store.contains_key(entity),
    ensures
        ({
            let before = store[entity];
            let after = after_body_pass(store, rows, replies)[entity];
            &&& after == Components { body_handle: after.body_handle, ..before }
            &&& !before.has_body_tag() ==> after.body_handle.is_none()
            &&& before.has_body_tag() && before.body_handle.is_some() ==> after.body_handle
                == before.body_handle
            &&& before.has_body_tag() && before.body_handle.is_none() ==> exists|j: int|
                0 <= j < body_requests(rows).len() && (#[trigger] body_requests(rows)[j]).entity
                    == entity && after.body_handle == granted_body(answer(replies, j))
            &&& before.has_body_tag() && all_granted(body_requests(rows), replies)
                ==> after.body_handle.is_some()
        }),
{
    let k = lemma_row_of(rows, store, entity);
    let before = store[entity];
    let attachments = body_attachments(body_requests(rows), replies);
    let removals = body_removals(rows);
    lemma_effect_append(attachments, removals, entity, before);
    let attached = effect(attachments, entity, before);
    let j = lemma_answers_effect(
        rows,
        body_request_of(),
        |request: BodyRequest| request.entity,
        body_attachment_of(),
        replies,
        k,
        before,
    );
    lemma_rows_effect(rows, body_removal_of(), k, attached);
    lemma_effect_one(Command::RemoveBodyHandle(entity), entity, attached);
    match rows[k].body_request_spec() {
        Some(request) => {
            match answer(replies, j) {
                Some(index) => {
                    lemma_effect_one(
                        Command::AddBodyHandle(entity, BodyHandle(index)),
                        entity,
                        before,
                    );
                },
                None => {},
            }
            assert(body_requests(rows)[j].entity == entity);
        },
        None => {},
    }
}

/// No two entities have the same body handle.
pub open spec fn body_handles_differ(store: Map<Entity, Components>) -> bool {
    forall|one: Entity, other: Entity|
        #![trigger store.contains_key(one), store.contains_key(other)]
        store.contains_key(one) && store.contains_key(other) && one != other
            && store[one].body_handle.is_some() ==> store[one].body_handle
            != store[other].body_handle
}

/// The keys that the backend granted to the first `requests` requests are
/// new: none of them is the key of a body that an entity of the store
/// already owns, and no two of them are the same.
pub open spec fn granted_keys_are_new(
    store: Map<Entity, Components>,
    requests: int,
    replies: Seq<Option<ArenaIndex>>,
) -> bool {
    &&& forall|j: int|
        0 <= j < requests ==> match #[trigger] answer(replies, j) {
            Some(key) => !store_owns_body(store, key),
            None => true,
        }
    &&& forall|i: int, j: int|
        0 <= i < j < requests && answer(replies, i).is_some() ==> #[trigger] answer(replies, i)
            != #[trigger] answer(replies, j)
}

/// A body handle is never duplicated. Where no two entities share a body
/// handle before the body pass, and the backend grants keys that are new, no
/// two entities share a body handle after the pass and its barrier.
pub proof fn body_handles_are_never_shared(
    store: Map<Entity, Components>,
    rows: Seq<EntityRow>,
    replies: Seq<Option<ArenaIndex>>,
)
    requires
        lists(rows, store),
        body_handles_differ(store),
        granted_keys_are_new(store, body_requests(rows).len() as int, replies),
    ensures
        body_handles_differ(after_body_pass(store, rows, replies)),
{
    let after = after_body_pass(store, rows, replies);
    let requests = body_requests(rows);
    assert forall|one: Entity, other: Entity|
        #![trigger after.contains_key(one), after.contains_key(other)]
        after.contains_key(one) && after.contains_key(other) && one != other
            && after[one].body_handle.is_some() implies after[one].body_handle
        != after[other].body_handle by {
        body_handles_follow_tags(store, rows, replies, one);
        body_handles_follow_tags(store, rows, replies, other);
        assert(store.contains_key(one) && store.contains_key(other));
        if after[other].body_handle.is_some() {
            if store[one].body_handle.is_some() {
                if store[other].body_handle.is_none() {
                    let j = choose|j: int|
                        0 <= j < requests.len() && (#[trigger] requests[j]).entity == other
                            && after[other].body_handle == granted_body(answer(replies, j));
                    if after[one].body_handle == after[other].body_handle {
                        assert(store_owns_body(store, answer(replies, j).unwrap()));
                    }
                }
            } else {
                let i = choose|i: int|
                    0 <= i < requests.len() && (#[trigger] requests[i]).entity == one
                        && after[one].body_handle == granted_body(answer(replies, i));
                if store[other].body_handle.is_some() {
                    if after[one].body_handle == after[other].body_handle {
                        assert(store_owns_body(store, answer(replies, i).unwrap()));
                    }
                } else {
                    let j = choose|j: int|
                        0 <= j < requests.len() && (#[trigger] requests[j]).entity == other
                            && after[other].body_handle == granted_body(answer(replies, j));
                    assert(i != j);
                    if i < j {
                        assert(answer(replies, i) != answer(replies, j));
                    } else {
                        assert(answer(replies, j) != answer(replies, i));
                    }
                }
            }
        }
    }
}

/// Running the body pass again, on a store that has not changed since the
/// pass and its barrier, does nothing, where the backend granted every
/// request of the first run: no body is asked for, and no handle is taken
/// off.
pub proof fn body_pass_is_idempotent(
    store: Map<Entity, Components>,
    rows: Seq<EntityRow>,
    replies: Seq<Option<ArenaIndex>>,
    again: Seq<EntityRow>,
)
    requires
        lists(rows, store),
        all_granted(body_requests(rows), replies),
        lists(again, after_body_pass(store, rows, replies)),
    ensures
        body_requests(again) == Seq::<BodyRequest>::empty(),
        stale_bodies(again) == Seq::<BodyHandle>::empty(),
        body_removals(again) == Seq::<Command>::empty(),
{
    let after = after_body_pass(store, rows, replies);
    assert forall|i: int| 0 <= i < again.len() implies body_request_of()(#[trigger] again[i]).len()
        == 0 && stale_body_of()(again[i]).len() == 0 && body_removal_of()(again[i]).len() == 0 by {
        assert(after.contains_pair(again[i].entity, again[i].components));
        body_handles_follow_tags(store, rows, replies, again[i].entity);
    }
    lemma_gather_nothing(again, body_request_of());
    lemma_gather_nothing(again, stale_body_of());
    lemma_gather_nothing(again, body_removal_of());
}

/// The store after the collider pass and its barrier: the answers to the
/// collider requests are recorded, the stale handles are taken off, and both
/// are applied.
pub open spec fn after_collider_pass(
    store: Map<Entity, Components>,
    rows: Seq<EntityRow>,
    replies: Seq<Option<ArenaIndex>>,
) -> Map<Entity, Components> {
    applied(store, collider_attachments(collider_requests(rows), replies) + collider_removals(rows))
}

/// After the collider pass and its barrier, an entity has a collider handle
/// only where it has a shape tag and a body handle, and the handle is of the
/// tagged shape. An entity that is owed no collider has no handle. An entity
/// whose handle is of its tagged shape keeps it. An entity that had no
/// handle, or one of the other shape, has the one that the backend granted
/// it, never the old one, so that it has a handle of its shape whenever the
/// backend granted every request. Nothing but the collider handle changes.
pub proof fn collider_handles_follow_shapes(
    store: Map<Entity, Components>,
    rows: Seq<EntityRow>,
    replies: Seq<Option<ArenaIndex>>,
    entity: Entity,
)
    requires
        lists(rows, store),
        store.contains_key(entity),
    ensures
        ({
            let before = store[entity];
            let after = after_collider_pass(store, rows, replies)[entity];
            let due = (EntityRow { entity, components: before }).due_collider();
            &&& after == Components { collider_handle: after.collider_handle, ..before }
            &&& after.collider_handle.is_some() ==> after.body_handle.is_some()
            &&& due.is_none() ==> after.collider_handle.is_none()
            &&& match (after.collider_handle, due) {
                (Some(handle), Some((shape, _))) => handle.shape == shape.kind_spec(),
                (Some(_), None) => false,
                (None, _) => true,
            }
            &&& match (before.collider_handle, due) {
                (Some(handle), Some((shape, _))) => if handle.shape == shape.kind_spec() {
                    after.collider_handle == before.collider_handle
                } else {
                    after.collider_handle != before.collider_handle
                },
                _ => true,
            }
            &&& due.is_some() && all_granted(collider_requests(rows), replies)
                ==> after.collider_handle.is_some()
        }),
{
    let k = lemma_row_of(rows, store, entity);
    let before = store[entity];
    assert(rows[k] == EntityRow { entity, components: before });
    let attachments = collider_attachments(collider_requests(rows), replies);
    let removals = collider_removals(rows);
    lemma_effect_append(attachments, removals, entity, before);
    let attached = effect(attachments, entity, before);
    let j = lemma_answers_effect(
        rows,
        collider_request_of(),
        |request: ColliderRequest| request.entity,
        collider_attachment_of(),
        replies,
        k,
        before,
    );
    lemma_rows_effect(rows, collider_removal_of(), k, attached);
    lemma_effect_one(Command::RemoveColliderHandle(entity), entity, attached);
    lemma_effect_one(Command::RemoveColliderHandle(entity), entity, before);
    match rows[k].collider_request_spec() {
        Some(request) => {
            match answer(replies, j) {
                Some(index) => {
                    lemma_effect_one(
                        Command::AddColliderHandle(
                            entity,
                            ColliderHandle { index, shape: request.shape.kind_spec() },
                        ),
                        entity,
                        before,
                    );
                },
                None => {},
            }
        },
        None => {},
    }
}

/// Running the collider pass again, on a store that has not changed since
/// the pass and its barrier, does nothing, where the backend granted every
/// request of the first run: no collider is asked for, and no handle is taken
/// off.
pub proof fn collider_pass_is_idempotent(
    store: Map<Entity, Components>,
    rows: Seq<EntityRow>,
    replies: Seq<Option<ArenaIndex>>,
    again: Seq<EntityRow>,
)
    requires
        lists(rows, store),
        all_granted(collider_requests(rows), replies),
        lists(again, after_collider_pass(store, rows, replies)),
    ensures
        collider_requests(again) == Seq::<ColliderRequest>::empty(),
        stale_colliders(again) == Seq::<ColliderHandle>::empty(),
        collider_removals(again) == Seq::<Command>::empty(),
{
    let after = after_collider_pass(store, rows, replies);
    assert forall|i: int| 0 <= i < again.len() implies collider_request_of()(
        #[trigger] again[i],
    ).len() == 0 && stale_collider_of()(again[i]).len() == 0 && collider_removal_of()(
        again[i],
    ).len() == 0 by {
        assert(after.contains_pair(again[i].entity, again[i].components));
        collider_handles_follow_shapes(store, rows, replies, again[i].entity);
    }
    lemma_gather_nothing(again, collider_request_of());
    lemma_gather_nothing(again, stale_collider_of());
    lemma_gather_nothing(again, collider_removal_of());
}

/// The store after the sweep has applied what it staged.
pub open spec fn after_sweep(
    store: Map<Entity, Components>,
    rows: Seq<EntityRow>,
    live_bodies: Seq<ArenaIndex>,
    live_colliders: Seq<ArenaIndex>,
) -> Map<Entity, Components> {
    applied(store, sweep_commands(rows, live_bodies, live_colliders))
}

/// The store with every entity swept.
pub open spec fn swept_store(
    store: Map<Entity, Components>,
    live_bodies: Seq<ArenaIndex>,
    live_colliders: Seq<ArenaIndex>,
) -> Map<Entity, Components> {
    Map::new(
        |entity: Entity| store.contains_key(entity),
        |entity: Entity| store[entity].swept(live_bodies, live_colliders),
    )
}

/// Every entity that has a collider handle has a body handle.
pub open spec fn anchored(store: Map<Entity, Components>) -> bool {
    forall|entity: Entity| #[trigger]
        store.contains_key(entity) && store[entity].collider_handle.is_some()
            ==> store[entity].body_handle.is_some()
}

/// After the sweep has applied what it staged, an entity keeps exactly the
/// handles that something backs: a body handle that names a live body, and a
/// collider handle that names a live collider on an entity whose body is
/// live. So an entity with a collider handle has a body handle, whatever the
/// store was before. Nothing but the handles changes.
pub proof fn sweep_leaves_backed_handles(
    store: Map<Entity, Components>,
    rows: Seq<EntityRow>,
    live_bodies: Seq<ArenaIndex>,
    live_colliders: Seq<ArenaIndex>,
)
    requires
        lists(rows, store),
    ensures
        after_sweep(store, rows, live_bodies, live_colliders) == swept_store(
            store,
            live_bodies,
            live_colliders,
        ),
        anchored(swept_store(store, live_bodies, live_colliders)),
{
    assert forall|entity: Entity| store.contains_key(entity) implies effect(
        sweep_commands(rows, live_bodies, live_colliders),
        entity,
        store[entity],
    ) == store[entity].swept(live_bodies, live_colliders) by {
        let k = lemma_row_of(rows, store, entity);
        let before = store[entity];
        let row = rows[k];
        assert(row == EntityRow { entity, components: before });
        lemma_rows_effect(rows, sweep_of(live_bodies, live_colliders), k, before);
        let first = if before.body_handle.is_some() && !before.body_backed(live_bodies) {
            seq![Command::RemoveBodyHandle(entity)]
        } else {
            Seq::empty()
        };
        let second = if before.collider_handle.is_some() && !before.collider_backed(
            live_bodies,
            live_colliders,
        ) {
            seq![Command::RemoveColliderHandle(entity)]
        } else {
            Seq::empty()
        };
        assert(row.sweep_commands(live_bodies, live_colliders) == first + second);
        lemma_effect_append(first, second, entity, before);
        lemma_effect_one(Command::RemoveBodyHandle(entity), entity, before);
        lemma_effect_one(
            Command::RemoveColliderHandle(entity),
            entity,
            effect(first, entity, before),
        );
    }
    assert(after_sweep(store, rows, live_bodies, live_colliders) =~= swept_store(
        store,
        live_bodies,
        live_colliders,
    ));
}

/// What the sweep releases does not depend on the order of the snapshot:
/// the orphans are the live bodies that no entity of the store owns and the
/// live colliders that no entity of the store keeps, in the order of the
/// backend's tables.
pub proof fn sweep_releases_orphans(
    store: Map<Entity, Components>,
    rows: Seq<EntityRow>,
    live_bodies: Seq<ArenaIndex>,
    live_colliders: Seq<ArenaIndex>,
)
    requires
        lists(rows, store),
    ensures
        orphan_bodies(rows, live_bodies) == unowned_bodies(store, live_bodies),
        orphan_colliders(rows, live_bodies, live_colliders) == unkept_colliders(
            store,
            live_bodies,
            live_colliders,
        ),
{
    assert forall|body: ArenaIndex| owns_body(rows, body) == store_owns_body(store, body) by {
        if owns_body(rows, body) {
            let k = choose|k: int|
                0 <= k < rows.len() && (#[trigger] rows[k]).components.body_handle == Some(
                    BodyHandle(body),
                );
            assert(store.contains_pair(rows[k].entity, rows[k].components));
            assert(store.contains_key(rows[k].entity));
        }
        if store_owns_body(store, body) {
            let entity = choose|entity: Entity| #[trigger]
                store.contains_key(entity) && store[entity].body_handle == Some(BodyHandle(body));
            let k = lemma_row_of(rows, store, entity);
            assert(rows[k].components.body_handle == Some(BodyHandle(body)));
        }
    }
    assert forall|collider: ArenaIndex|
        keeps_collider(rows, live_bodies, collider) == store_keeps_collider(
            store,
            live_bodies,
            collider,
        ) by {
        if keeps_collider(rows, live_bodies, collider) {
            let k = choose|k: int|
                0 <= k < rows.len() && (#[trigger] rows[k]).components.body_backed(live_bodies) && (
                match rows[k].components.collider_handle {
                    Some(handle) => handle.index == collider,
                    None => false,
                });
            assert(store.contains_pair(rows[k].entity, rows[k].components));
            assert(store.contains_key(rows[k].entity));
        }
        if store_keeps_collider(store, live_bodies, collider) {
            let entity = choose|entity: Entity| #[trigger]
                store.contains_key(entity) && store[entity].body_backed(live_bodies) && (
                match store[entity].collider_handle {
                    Some(handle) => handle.index == collider,
                    None => false,
                });
            let k = lemma_row_of(rows, store, entity);
            assert(rows[k].components.body_backed(live_bodies));
        }
    }
    lemma_gather_same(live_bodies, orphan_body_of(rows), unowned_body_of(store));
    lemma_gather_same(
        live_colliders,
        orphan_collider_of(rows, live_bodies),
        unkept_collider_of(store, live_bodies),
    );
}

/// The sweep releases exactly the backend's orphans: a key is released
/// where it is the key of a live body that no entity owns, or of a live
/// collider that no entity keeps.
pub proof fn sweep_releases_only_orphans(
    store: Map<Entity, Components>,
    live_bodies: Seq<ArenaIndex>,
    live_colliders: Seq<ArenaIndex>,
    key: ArenaIndex,
)
    ensures
        unowned_bodies(store, live_bodies).contains(key) <==> live_bodies.contains(key)
            && !store_owns_body(store, key),
        unkept_colliders(store, live_bodies, live_colliders).contains(key)
            <==> live_colliders.contains(key) && !store_keeps_collider(store, live_bodies, key),
{
    lemma_gathered_kept(live_bodies, unowned_body_of(store), key);
    lemma_gathered_kept(live_colliders, unkept_collider_of(store, live_bodies), key);
}

/// Where each item gives itself or nothing, what is gathered holds an item
/// exactly when the item is among the items and gives itself.
proof fn lemma_gathered_kept(
    items: Seq<ArenaIndex>,
    keep: spec_fn(ArenaIndex) -> Seq<ArenaIndex>,
    key: ArenaIndex,
)
    requires
        forall|item: ArenaIndex| #[trigger]
            keep(item) == Seq::<ArenaIndex>::empty() || keep(item) == seq![item],
    ensures
        gather(items, keep).contains(key) <==> items.contains(key) && keep(key) == seq![key],
{
    let gathered = gather(items, keep);
    if gathered.contains(key) {
        let j = choose|j: int| 0 <= j < gathered.len() && gathered[j] == key;
        lemma_gather_from(items, keep, j);
        let (k, n) = choose|k: int, n: int|
            0 <= k < items.len() && 0 <= n < keep(items[k]).len() && gathered[j]
                == #[trigger] keep(items[k])[n];
        assert(keep(items[k]) == seq![items[k]]);
        assert(items[k] == key);
    }
    if items.contains(key) && keep(key) == seq![key] {
        let k = choose|k: int| 0 <= k < items.len() && items[k] == key;
        lemma_gather_has(items, keep, k, 0);
    }
}

/// What a stage gathers from a snapshot holds a thing exactly when some
/// entity of the store gives it, whatever the order of the snapshot.
pub proof fn gathered_from_the_store<B>(
    store: Map<Entity, Components>,
    rows: Seq<EntityRow>,
    per_row: spec_fn(EntityRow) -> Seq<B>,
    item: B,
)
    requires
        lists(rows, store),
    ensures
        gather(rows, per_row).contains(item) <==> exists|entity: Entity| #[trigger]
            store.contains_key(entity) && per_row(
                EntityRow { entity, components: store[entity] },
            ).contains(item),
{
    let gathered = gather(rows, per_row);
    if gathered.contains(item) {
        let j = choose|j: int| 0 <= j < gathered.len() && gathered[j] == item;
        lemma_gather_from(rows, per_row, j);
        let (k, n) = choose|k: int, n: int|
            0 <= k < rows.len() && 0 <= n < per_row(rows[k]).len() && gathered[j]
                == #[trigger] per_row(rows[k])[n];
        assert(store.contains_pair(rows[k].entity, rows[k].components));
        assert(rows[k] == EntityRow { entity: rows[k].entity, components: store[rows[k].entity] });
        let given = per_row(rows[k]);
        assert(given[n] == item);
        assert(store.contains_key(rows[k].entity));
    }
    if exists|entity: Entity| #[trigger]
        store.contains_key(entity) && per_row(
            EntityRow { entity, components: store[entity] },
        ).contains(item) {
        let entity = choose|entity: Entity| #[trigger]
            store.contains_key(entity) && per_row(
                EntityRow { entity, components: store[entity] },
            ).contains(item);
        let k = lemma_row_of(rows, store, entity);
        assert(rows[k] == EntityRow { entity, components: store[entity] });
        let given = per_row(rows[k]);
        let n = choose|n: int| 0 <= n < given.len() && given[n] == item;
        lemma_gather_has(rows, per_row, k, n);
    }
}

/// The store after the pull-back has applied what it staged.
pub open spec fn after_pull_back(
    store: Map<Entity, Components>,
    rows: Seq<EntityRow>,
    readings: Seq<BodyReading>,
) -> Map<Entity, Components> {
    applied(store, pulls(rows, readings))
}

/// The store with every entity's reading brought in.
pub open spec fn pulled_store(store: Map<Entity, Components>, readings: Seq<BodyReading>) -> Map<
    Entity,
    Components,
> {
    Map::new(
        |entity: Entity| store.contains_key(entity),
        |entity: Entity| store[entity].pulled_back(readings),
    )
}

/// After the pull-back has applied what it staged, each entity is as its
/// own reading makes it: a dynamic body with a reading of finite numbers has
/// its position, velocity and orientation overwritten; one with a reading
/// that holds a number that is not finite has its velocity set to zero;
/// every other entity is as it was.
pub proof fn pull_back_overwrites_dynamic_bodies(
    store: Map<Entity, Components>,
    rows: Seq<EntityRow>,
    readings: Seq<BodyReading>,
)
    requires
        lists(rows, store),
    ensures
        after_pull_back(store, rows, readings) == pulled_store(store, readings),
{
    assert forall|entity: Entity| store.contains_key(entity) implies effect(
        pulls(rows, readings),
        entity,
        store[entity],
    ) == store[entity].pulled_back(readings) by {
        let k = lemma_row_of(rows, store, entity);
        let before = store[entity];
        let row = rows[k];
        assert(row == EntityRow { entity, components: before });
        lemma_rows_effect(rows, pull_of(readings), k, before);
        match before.pulled_state(readings) {
            Some(state) => {
                if state.finite() {
                    let first = if before.position.is_some() {
                        seq![Command::SetPosition(entity, Position(state.position))]
                    } else {
                        Seq::empty()
                    };
                    let second = if before.velocity.is_some() {
                        seq![Command::SetVelocity(entity, Velocity(state.velocity))]
                    } else {
                        Seq::empty()
                    };
                    let third = if before.orientation.is_some() {
                        seq![Command::SetOrientation(entity, Orientation(state.orientation))]
                    } else {
                        Seq::empty()
                    };
                    assert(row.pull_commands(readings) == first + second + third);
                    lemma_effect_append(first + second, third, entity, before);
                    lemma_effect_append(first, second, entity, before);
                    let one = effect(first, entity, before);
                    let two = effect(second, entity, one);
                    lemma_effect_one(
                        Command::SetPosition(entity, Position(state.position)),
                        entity,
                        before,
                    );
                    lemma_effect_one(
                        Command::SetVelocity(entity, Velocity(state.velocity)),
                        entity,
                        one,
                    );
                    lemma_effect_one(
                        Command::SetOrientation(entity, Orientation(state.orientation)),
                        entity,
                        two,
                    );
                } else {
                    lemma_effect_one(
                        Command::SetVelocity(entity, Velocity(Vec2::zero_spec())),
                        entity,
                        before,
                    );
                }
            },
            None => {},
        }
    }
    assert(after_pull_back(store, rows, readings) =~= pulled_store(store, readings));
}

/// The pull-back never touches an entity that is not a dynamic body:
/// static and disabled bodies keep their position, and everything else,
/// whatever the backend reports.
pub proof fn pull_back_spares_static_bodies(components: Components, readings: Seq<BodyReading>)
    requires
        components.dynamic_body.is_none(),
    ensures
        components.pulled_back(readings) == components,
{
}

/// The pull-back brings no number into the store that is not finite: a
/// position, velocity or orientation that was finite, or absent, is so
/// afterwards. Handles and tags stay as they are.
pub proof fn pull_back_keeps_the_store_finite(components: Components, readings: Seq<BodyReading>)
    ensures
        ({
            let after = components.pulled_back(readings);
            &&& after == Components {
                position: after.position,
                velocity: after.velocity,
                orientation: after.orientation,
                ..components
            }
            &&& after.position.is_some() == components.position.is_some()
            &&& after.velocity.is_some() == components.velocity.is_some()
            &&& after.orientation.is_some() == components.orientation.is_some()
            &&& (components.position matches Some(p) ==> p.0.finite()) ==> (
            after.position matches Some(p) ==> p.0.finite())
            &&& (components.velocity matches Some(v) ==> v.0.finite()) ==> (
            after.velocity matches Some(v) ==> v.0.finite())
            &&& (components.orientation matches Some(o) ==> o.0.finite()) ==> (
            after.orientation matches Some(o) ==> o.0.finite())
        }),
{
}

/// What one tick observes: the snapshots that its two handle passes were
/// planned on, the backend's answers to their requests, the keys of what the
/// backend holds when the tick sweeps, and what the backend reports after
/// its step.
pub struct TickRecord {
    pub body_rows: Seq<EntityRow>,
    pub body_replies: Seq<Option<ArenaIndex>>,
    pub collider_rows: Seq<EntityRow>,
    pub collider_replies: Seq<Option<ArenaIndex>>,
    pub live_bodies: Seq<ArenaIndex>,
    pub live_colliders: Seq<ArenaIndex>,
    pub readings: Seq<BodyReading>,
}

/// The store after a whole tick: body pass, collider pass, sweep, and
/// pull-back, each with its changes applied.
pub open spec fn after_tick(store: Map<Entity, Components>, tick: TickRecord) -> Map<
    Entity,
    Components,
> {
    pulled_store(
        swept_store(
            after_collider_pass(
                after_body_pass(store, tick.body_rows, tick.body_replies),
                tick.collider_rows,
                tick.collider_replies,
            ),
            tick.live_bodies,
            tick.live_colliders,
        ),
        tick.readings,
    )
}

/// The tick's snapshots list the store as it is when they are taken.
pub open spec fn observes(store: Map<Entity, Components>, tick: TickRecord) -> bool {
    &&& lists(tick.body_rows, store)
    &&& lists(
        tick.collider_rows,
        after_body_pass(store, tick.body_rows, tick.body_replies),
    )
}

/// What the two handle passes stage only settles handles, whatever snapshot
/// they were planned on and whatever the backend answered.
pub proof fn handle_passes_settle_handles_only(
    rows: Seq<EntityRow>,
    replies: Seq<Option<ArenaIndex>>,
)
    ensures
        forall|i: int|
            0 <= i < (body_attachments(body_requests(rows), replies) + body_removals(rows)).len()
                ==> (#[trigger] (body_attachments(body_requests(rows), replies) + body_removals(
                rows,
            ))[i]).settles_handle(),
        forall|i: int|
            0 <= i < (collider_attachments(collider_requests(rows), replies) + collider_removals(
                rows,
            )).len() ==> (#[trigger] (collider_attachments(collider_requests(rows), replies)
                + collider_removals(rows))[i]).settles_handle(),
{
    let body_answers = answered(body_requests(rows), replies);
    let collider_answers = answered(collider_requests(rows), replies);
    let bodies = body_attachments(body_requests(rows), replies);
    let colliders = collider_attachments(collider_requests(rows), replies);
    assert forall|i: int| 0 <= i < bodies.len() implies (#[trigger] bodies[i]).settles_handle() by {
        lemma_gather_from(body_answers, body_attachment_of(), i);
    }
    assert forall|i: int| 0 <= i < body_removals(rows).len() implies (#[trigger] body_removals(
        rows,
    )[i]).settles_handle() by {
        lemma_gather_from(rows, body_removal_of(), i);
    }
    assert forall|i: int| 0 <= i < colliders.len() implies (#[trigger] colliders[i])
        .settles_handle() by {
        lemma_gather_from(collider_answers, collider_attachment_of(), i);
    }
    assert forall|i: int| 0 <= i < collider_removals(rows).len() implies (
    #[trigger] collider_removals(rows)[i]).settles_handle() by {
        lemma_gather_from(rows, collider_removal_of(), i);
    }
}

/// A tick changes nothing of an entity but its handles and, where it is a
/// dynamic body, its position, velocity and orientation. This holds whatever
/// the tick's snapshots, the backend's answers, its tables and its readings
/// are.
pub proof fn tick_changes_handles_and_kinematics(
    store: Map<Entity, Components>,
    tick: TickRecord,
    entity: Entity,
)
    requires
        store.contains_key(entity),
    ensures
        after_tick(store, tick).contains_key(entity),
        ({
            let before = store[entity];
            let after = after_tick(store, tick)[entity];
            &&& after == Components {
                position: after.position,
                velocity: after.velocity,
                orientation: after.orientation,
                body_handle: after.body_handle,
                collider_handle: after.collider_handle,
                ..before
            }
            &&& before.dynamic_body.is_none() ==> after.position == before.position
                && after.velocity == before.velocity && after.orientation == before.orientation
        }),
{
    let bodies = after_body_pass(store, tick.body_rows, tick.body_replies);
    let colliders = after_collider_pass(bodies, tick.collider_rows, tick.collider_replies);
    let swept = swept_store(colliders, tick.live_bodies, tick.live_colliders);
    handle_passes_settle_handles_only(tick.body_rows, tick.body_replies);
    handle_passes_settle_handles_only(tick.collider_rows, tick.collider_replies);
    lemma_effect_on_handles_only(
        body_attachments(body_requests(tick.body_rows), tick.body_replies) + body_removals(
            tick.body_rows,
        ),
        entity,
        store[entity],
    );
    lemma_effect_on_handles_only(
        collider_attachments(collider_requests(tick.collider_rows), tick.collider_replies)
            + collider_removals(tick.collider_rows),
        entity,
        bodies[entity],
    );
    pull_back_keeps_the_store_finite(swept[entity], tick.readings);
}

/// After a whole tick an entity has the body handle that the body pass
/// left it, where the backend still holds that body when the tick sweeps, and
/// none otherwise. So it has a body handle only where it has a body tag; and
/// an entity with a body tag has one where the backend granted every request
/// of the body pass and has not lost the entity's body since.
pub proof fn tick_settles_body_handles(
    store: Map<Entity, Components>,
    tick: TickRecord,
    entity: Entity,
)
    requires
        observes(store, tick),
        store.contains_key(entity),
    ensures
        ({
            let settled = after_body_pass(store, tick.body_rows, tick.body_replies)[entity];
            let after = after_tick(store, tick)[entity];
            &&& after.body_handle == (if settled.body_backed(tick.live_bodies) {
                settled.body_handle
            } else {
                None
            })
            &&& !store[entity].has_body_tag() ==> after.body_handle.is_none()
            &&& store[entity].has_body_tag() && all_granted(
                body_requests(tick.body_rows),
                tick.body_replies,
            ) && (match settled.body_handle {
                Some(handle) => tick.live_bodies.contains(handle.0),
                None => true,
            }) ==> after.body_handle.is_some()
        }),
{
    let bodies = after_body_pass(store, tick.body_rows, tick.body_replies);
    let colliders = after_collider_pass(bodies, tick.collider_rows, tick.collider_replies);
    let swept = swept_store(colliders, tick.live_bodies, tick.live_colliders);
    body_handles_follow_tags(store, tick.body_rows, tick.body_replies, entity);
    collider_handles_follow_shapes(bodies, tick.collider_rows, tick.collider_replies, entity);
    pull_back_keeps_the_store_finite(swept[entity], tick.readings);
}

/// A body handle is never duplicated by a tick. Where no two entities share
/// a body handle when the tick begins, and the backend grants keys that are
/// new, no two entities share a body handle when the tick ends: the body pass
/// gives out the new keys, and no later stage gives an entity a body handle.
pub proof fn tick_never_shares_a_body_handle(store: Map<Entity, Components>, tick: TickRecord)
    requires
        observes(store, tick),
        body_handles_differ(store),
        granted_keys_are_new(store, body_requests(tick.body_rows).len() as int, tick.body_replies),
    ensures
        body_handles_differ(after_tick(store, tick)),
{
    let bodies = after_body_pass(store, tick.body_rows, tick.body_replies);
    let colliders = after_collider_pass(bodies, tick.collider_rows, tick.collider_replies);
    let swept = swept_store(colliders, tick.live_bodies, tick.live_colliders);
    let after = after_tick(store, tick);
    body_handles_are_never_shared(store, tick.body_rows, tick.body_replies);
    assert forall|one: Entity, other: Entity|
        #![trigger after.contains_key(one), after.contains_key(other)]
        after.contains_key(one) && after.contains_key(other) && one != other
            && after[one].body_handle.is_some() implies after[one].body_handle
        != after[other].body_handle by {
        assert(bodies.contains_key(one) && bodies.contains_key(other));
        collider_handles_follow_shapes(bodies, tick.collider_rows, tick.collider_replies, one);
        collider_handles_follow_shapes(bodies, tick.collider_rows, tick.collider_replies, other);
        pull_back_keeps_the_store_finite(swept[one], tick.readings);
        pull_back_keeps_the_store_finite(swept[other], tick.readings);
    }
}

/// After a whole tick, every entity that has a collider handle has a body
/// handle.
pub proof fn tick_leaves_colliders_anchored(store: Map<Entity, Components>, tick: TickRecord)
    ensures
        anchored(after_tick(store, tick)),
{
    let settled = after_collider_pass(
        after_body_pass(store, tick.body_rows, tick.body_replies),
        tick.collider_rows,
        tick.collider_replies,
    );
    let swept = swept_store(settled, tick.live_bodies, tick.live_colliders);
    assert forall|entity: Entity| #[trigger]
        after_tick(store, tick).contains_key(entity) && after_tick(
            store,
            tick,
        )[entity].collider_handle.is_some() implies after_tick(
        store,
        tick,
    )[entity].body_handle.is_some() by {
        pull_back_keeps_the_store_finite(swept[entity], tick.readings);
    }
}

/// One tick of a run: the store as the tick finds it, and what the tick
/// observes.
pub struct TickRun {
    pub found: Map<Entity, Components>,
    pub tick: TickRecord,
}

/// Every tick of the run finds the entity, and nothing outside the ticks
/// has written its position: each tick finds the position that the tick
/// before it left. Anything else of the store may have changed between two
/// ticks.
pub open spec fn position_left_alone(run: Seq<TickRun>, entity: Entity) -> bool {
    &&& forall|i: int| 0 <= i < run.len() ==> (#[trigger] run[i]).found.contains_key(entity)
    &&& forall|i: int|
        0 < i < run.len() ==> (#[trigger] run[i]).found[entity].position == after_tick(
            run[i - 1].found,
            run[i - 1].tick,
        )[entity].position
}

/// Every tick of the run finds the entity tagged as a static body that
/// keeps the rule of dynamic bodies, as it does where it passes validation.
pub open spec fn stays_static(run: Seq<TickRun>, entity: Entity) -> bool {
    forall|i: int|
        0 <= i < run.len() ==> (#[trigger] run[i]).found[entity].static_body.is_some()
            && run[i].found[entity].dynamic_rule()
}

/// A static body keeps its position through any run of ticks, whatever the
/// backend answers and reports and whatever else changes the store between
/// the ticks, as long as nothing outside the ticks writes its position:
/// after each tick of the run it is where the first tick found it.
pub proof fn static_bodies_stay_put(run: Seq<TickRun>, entity: Entity, n: int)
    requires
        position_left_alone(run, entity),
        stays_static(run, entity),
        0 <= n < run.len(),
    ensures
        after_tick(run[n].found, run[n].tick).contains_key(entity),
        after_tick(run[n].found, run[n].tick)[entity].position == run[0].found[entity].position,
    decreases n,
{
    assert(run[n].found.contains_key(entity));
    assert(run[n].found[entity].static_body.is_some() && run[n].found[entity].dynamic_rule());
    tick_changes_handles_and_kinematics(run[n].found, run[n].tick, entity);
    if n > 0 {
        static_bodies_stay_put(run, entity, n - 1);
    }
}

/// The round trip of a body handle. An entity that carries a body tag has a
/// body handle after the body pass of a tick in which the backend granted
/// every request; and once the tag is gone, however the store has changed
/// otherwise, the entity has no body handle after the body pass of the next
/// tick.
pub proof fn body_handle_round_trip(
    store: Map<Entity, Components>,
    rows: Seq<EntityRow>,
    replies: Seq<Option<ArenaIndex>>,
    later: Map<Entity, Components>,
    later_rows: Seq<EntityRow>,
    later_replies: Seq<Option<ArenaIndex>>,
    entity: Entity,
)
    requires
        lists(rows, store),
        store.contains_key(entity),
        store[entity].has_body_tag(),
        all_granted(body_requests(rows), replies),
        lists(later_rows, later),
        later.contains_key(entity),
        !later[entity].has_body_tag(),
    ensures
        after_body_pass(store, rows, replies)[entity].body_handle.is_some(),
        after_body_pass(later, later_rows, later_replies)[entity].body_handle.is_none(),
{
    body_handles_follow_tags(store, rows, replies, entity);
    body_handles_follow_tags(later, later_rows, later_replies, entity);
}

} // verus!
