//! The handle passes: which bodies and colliders the backend is to build and
//! to release, so that an entity has a handle exactly while its tags ask for
//! one.

use vstd::prelude::*;
use legion::Entity;
use crate::commands::Command;
use crate::components::{
    ArenaIndex, BodyDescriptor, BodyHandle, ColliderHandle, Orientation, Position, Shape,
};
use crate::gather::{gather, lemma_gather_take, optional};
use crate::store::EntityRow;

verus! {

/// Asks the backend for a body for an entity. The body is to be put where
/// the store has the entity, as far as the store says where that is. For a
/// static or disabled body this is the only time that the backend is told.
#[derive(Clone, Copy, Debug, PartialEq, Eq)]
pub struct BodyRequest {
    pub entity: Entity,
    pub descriptor: BodyDescriptor,
    pub position: Option<Position>,
    pub orientation: Option<Orientation>,
}

/// Asks the backend for a collider for an entity, anchored to the entity's
/// body. Where `replaces` names a collider, the backend is to release that
/// one first.
#[derive(Clone, Copy, Debug, PartialEq, Eq)]
pub struct ColliderRequest {
    pub entity: Entity,
    pub shape: Shape,
    pub body: BodyHandle,
    pub replaces: Option<ColliderHandle>,
}

impl EntityRow {
    /// The entity carries a body tag and no body handle yet: it is owed a
    /// body.
    pub open spec fn body_request_spec(self) -> Option<BodyRequest> {
        if self.components.body_handle.is_none() {
            match self.components.body_descriptor_spec() {
                Some(descriptor) => Some(
                    BodyRequest {
                        entity: self.entity,
                        descriptor,
                        position: self.components.position,
                        orientation: self.components.orientation,
                    },
                ),
                None => None,
            }
        } else {
            None
        }
    }

    /// The entity carries a body handle and no body tag any more: the handle
    /// has outlived its reason.
    pub open spec fn stale_body_spec(self) -> Option<BodyHandle> {
        if self.components.has_body_tag() {
            None
        } else {
            self.components.body_handle
        }
    }

    /// The collider that the entity is owed: the shape it is tagged with,
    /// once it has a body to anchor it to.
    pub open spec fn due_collider(self) -> Option<(Shape, BodyHandle)> {
        match (self.components.shape_spec(), self.components.body_handle) {
            (Some(shape), Some(body)) => Some((shape, body)),
            _ => None,
        }
    }

    /// The entity is owed a collider and has none, or has one that was built
    /// from the other shape tag. In the second case the request names the
    /// collider to release first.
    pub open spec fn collider_request_spec(self) -> Option<ColliderRequest> {
        match self.due_collider() {
            Some((shape, body)) => match self.components.collider_handle {
                Some(handle) => if handle.shape == shape.kind_spec() {
                    None
                } else {
                    Some(
                        ColliderRequest { entity: self.entity, shape, body, replaces: Some(handle) },
                    )
                },
                None => Some(ColliderRequest { entity: self.entity, shape, body, replaces: None }),
            },
            None => None,
        }
    }

    /// The entity carries a collider handle and is owed no collider: its
    /// shape tag is gone, or the body that anchored the collider is.
    pub open spec fn stale_collider_spec(self) -> Option<ColliderHandle> {
        if self.due_collider().is_some() {
            None
        } else {
            self.components.collider_handle
        }
    }

    #[verifier::when_used_as_spec(body_request_spec)]
    pub fn body_request(self) -> (r: Option<BodyRequest>)
        ensures
            r == self.body_request_spec(),
    {
        if self.components.body_handle.is_none() {
            match self.components.body_descriptor() {
                Some(descriptor) => Some(
                    BodyRequest {
                        entity: self.entity,
                        descriptor,
                        position: self.components.position,
                        orientation: self.components.orientation,
                    },
                ),
                None => None,
            }
        } else {
            None
        }
    }

    #[verifier::when_used_as_spec(stale_body_spec)]
    pub fn stale_body(self) -> (r: Option<BodyHandle>)
        ensures
            r == self.stale_body_spec(),
    {
        if self.components.body_descriptor().is_some() {
            None
        } else {
            self.components.body_handle
        }
    }

    #[verifier::when_used_as_spec(collider_request_spec)]
    pub fn collider_request(self) -> (r: Option<ColliderRequest>)
        ensures
            r == self.collider_request_spec(),
    {
        match (self.components.shape(), self.components.body_handle) {
            (Some(shape), Some(body)) => match self.components.collider_handle {
                Some(handle) => if handle.shape == shape.kind() {
                    None
                } else {
                    Some(
                        ColliderRequest { entity: self.entity, shape, body, replaces: Some(handle) },
                    )
                },
                None => Some(ColliderRequest { entity: self.entity, shape, body, replaces: None }),
            },
            _ => None,
        }
    }

    #[verifier::when_used_as_spec(stale_collider_spec)]
    pub fn stale_collider(self) -> (r: Option<ColliderHandle>)
        ensures
            r == self.stale_collider_spec(),
    {
        match (self.components.shape(), self.components.body_handle) {
            (Some(_), Some(_)) => None,
            _ => self.components.collider_handle,
        }
    }
}

/// The body request of a row, if it has one.
pub open spec fn body_request_of() -> spec_fn(EntityRow) -> Seq<BodyRequest> {
    |row: EntityRow| optional(row.body_request_spec())
}

/// The stale body handle of a row, if it has one.
pub open spec fn stale_body_of() -> spec_fn(EntityRow) -> Seq<BodyHandle> {
    |row: EntityRow| optional(row.stale_body_spec())
}

/// The command that takes a row's stale body handle off its entity.
pub open spec fn body_removal_of() -> spec_fn(EntityRow) -> Seq<Command> {
    |row: EntityRow|
        if row.stale_body_spec().is_some() {
            seq![Command::RemoveBodyHandle(row.entity)]
        } else {
            Seq::empty()
        }
}

/// The collider request of a row, if it has one.
pub open spec fn collider_request_of() -> spec_fn(EntityRow) -> Seq<ColliderRequest> {
    |row: EntityRow| optional(row.collider_request_spec())
}

/// The stale collider handle of a row, if it has one.
pub open spec fn stale_collider_of() -> spec_fn(EntityRow) -> Seq<ColliderHandle> {
    |row: EntityRow| optional(row.stale_collider_spec())
}

/// The command that takes a row's stale collider handle off its entity.
pub open spec fn collider_removal_of() -> spec_fn(EntityRow) -> Seq<Command> {
    |row: EntityRow|
        if row.stale_collider_spec().is_some() {
            seq![Command::RemoveColliderHandle(row.entity)]
        } else {
            Seq::empty()
        }
}

/// The bodies that a snapshot's entities are owed, in the snapshot's order.
pub open spec fn body_requests(rows: Seq<EntityRow>) -> Seq<BodyRequest> {
    gather(rows, body_request_of())
}

/// The body handles of a snapshot that have outlived their tags.
pub open spec fn stale_bodies(rows: Seq<EntityRow>) -> Seq<BodyHandle> {
    gather(rows, stale_body_of())
}

/// The commands that take the stale body handles off their entities.
pub open spec fn body_removals(rows: Seq<EntityRow>) -> Seq<Command> {
    gather(rows, body_removal_of())
}

/// The colliders that a snapshot's entities are owed, in the snapshot's
/// order.
pub open spec fn collider_requests(rows: Seq<EntityRow>) -> Seq<ColliderRequest> {
    gather(rows, collider_request_of())
}

/// The collider handles of a snapshot that have outlived their reason.
pub open spec fn stale_colliders(rows: Seq<EntityRow>) -> Seq<ColliderHandle> {
    gather(rows, stale_collider_of())
}

/// The commands that take the stale collider handles off their entities.
pub open spec fn collider_removals(rows: Seq<EntityRow>) -> Seq<Command> {
    gather(rows, collider_removal_of())
}

/// The backend's answer to request `i`: the key of what it built, or nothing
/// where it failed. A request that got no reply counts as failed.
pub open spec fn answer(replies: Seq<Option<ArenaIndex>>, i: int) -> Option<ArenaIndex> {
    if 0 <= i < replies.len() {
        replies[i]
    } else {
        None
    }
}

/// Each request with the backend's answer to it.
pub open spec fn answered<Q>(requests: Seq<Q>, replies: Seq<Option<ArenaIndex>>) -> Seq<
    (Q, Option<ArenaIndex>),
> {
    Seq::new(requests.len(), |i: int| (requests[i], answer(replies, i)))
}

/// The command that records an answered body request: the new handle goes
/// onto the entity. A failed request leaves the entity as it is.
pub open spec fn body_attachment_of() -> spec_fn((BodyRequest, Option<ArenaIndex>)) -> Seq<
    Command,
> {
    |pair: (BodyRequest, Option<ArenaIndex>)|
        match pair.1 {
            Some(index) => seq![Command::AddBodyHandle(pair.0.entity, BodyHandle(index))],
            None => Seq::empty(),
        }
}

/// The entity of a body request that failed.
pub open spec fn body_failure_of() -> spec_fn((BodyRequest, Option<ArenaIndex>)) -> Seq<Entity> {
    |pair: (BodyRequest, Option<ArenaIndex>)|
        match pair.1 {
            Some(_) => Seq::empty(),
            None => seq![pair.0.entity],
        }
}

/// The command that records an answered collider request. The new handle,
/// which remembers the shape it was built from, goes onto the entity in place
/// of any old one. Where the request failed after the old collider was
/// released, the old handle comes off.
pub open spec fn collider_attachment_of() -> spec_fn(
    (ColliderRequest, Option<ArenaIndex>),
) -> Seq<Command> {
    |pair: (ColliderRequest, Option<ArenaIndex>)|
        match pair.1 {
            Some(index) => seq![
                Command::AddColliderHandle(
                    pair.0.entity,
                    ColliderHandle { index, shape: pair.0.shape.kind_spec() },
                ),
            ],
            None => if pair.0.replaces.is_some() {
                seq![Command::RemoveColliderHandle(pair.0.entity)]
            } else {
                Seq::empty()
            },
        }
}

/// The entity of a collider request that failed.
pub open spec fn collider_failure_of() -> spec_fn((ColliderRequest, Option<ArenaIndex>)) -> Seq<
    Entity,
> {
    |pair: (ColliderRequest, Option<ArenaIndex>)|
        match pair.1 {
            Some(_) => Seq::empty(),
            None => seq![pair.0.entity],
        }
}

/// The commands that record the backend's answers to the body requests.
pub open spec fn body_attachments(
    requests: Seq<BodyRequest>,
    replies: Seq<Option<ArenaIndex>>,
) -> Seq<Command> {
    gather(answered(requests, replies), body_attachment_of())
}

/// The entities whose body requests failed.
pub open spec fn body_failures(requests: Seq<BodyRequest>, replies: Seq<Option<ArenaIndex>>) -> Seq<
    Entity,
> {
    gather(answered(requests, replies), body_failure_of())
}

/// The commands that record the backend's answers to the collider requests.
pub open spec fn collider_attachments(
    requests: Seq<ColliderRequest>,
    replies: Seq<Option<ArenaIndex>>,
) -> Seq<Command> {
    gather(answered(requests, replies), collider_attachment_of())
}

/// The entities whose collider requests failed.
pub open spec fn collider_failures(
    requests: Seq<ColliderRequest>,
    replies: Seq<Option<ArenaIndex>>,
) -> Seq<Entity> {
    gather(answered(requests, replies), collider_failure_of())
}

/// Finds the entities that carry a body tag and no body handle, and says
/// which body the backend is to build for each, and where: a dynamic body of
/// the tag's mass with gravity off, a static body, or a disabled one.
pub fn make_body_handles(rows: &Vec<EntityRow>) -> (requests: Vec<BodyRequest>)
    ensures
        requests@ == body_requests(rows@),
{
    let mut requests: Vec<BodyRequest> = Vec::new();
    let mut i: usize = 0;
    while i < rows.len()
        invariant
            0 <= i <= rows.len(),
            requests@ == gather(rows@.take(i as int), body_request_of()),
        decreases rows.len() - i,
    {
        proof {
            lemma_gather_take(rows@, i as int, body_request_of());
        }
        match rows[i].body_request() {
            Some(request) => {
                requests.push(request);
            },
            None => {},
        }
        assert(requests@ =~= gather(rows@.take(i as int + 1), body_request_of()));
        i += 1;
    }
    assert(rows@.take(rows.len() as int) == rows@);
    requests
}

/// Records what the backend answered to the body requests: stages, for each
/// request that was granted, the command that puts the new handle onto the
/// entity. Returns the entities whose requests failed or went unanswered;
/// they stay without a handle and are asked for again on the next tick.
/// `replies[i]` answers `requests[i]`.
pub fn attach_body_handles(
    requests: &Vec<BodyRequest>,
    replies: &Vec<Option<ArenaIndex>>,
    commands: &mut Vec<Command>,
) -> (failed: Vec<Entity>)
    ensures
        final(commands)@ == old(commands)@ + body_attachments(requests@, replies@),
        failed@ == body_failures(requests@, replies@),
{
    let ghost pairs = answered(requests@, replies@);
    let mut failed: Vec<Entity> = Vec::new();
    let mut i: usize = 0;
    assert(commands@ =~= old(commands)@ + Seq::<Command>::empty());
    while i < requests.len()
        invariant
            0 <= i <= requests.len(),
            pairs == answered(requests@, replies@),
            commands@ == old(commands)@ + gather(pairs.take(i as int), body_attachment_of()),
            failed@ == gather(pairs.take(i as int), body_failure_of()),
        decreases requests.len() - i,
    {
        proof {
            lemma_gather_take(pairs, i as int, body_attachment_of());
            lemma_gather_take(pairs, i as int, body_failure_of());
        }
        let reply: Option<ArenaIndex> = if i < replies.len() {
            replies[i]
        } else {
            None
        };
        match reply {
            Some(index) => {
                commands.push(Command::AddBodyHandle(requests[i].entity, BodyHandle(index)));
            },
            None => {
                failed.push(requests[i].entity);
            },
        }
        assert(commands@ =~= old(commands)@ + gather(
            pairs.take(i as int + 1),
            body_attachment_of(),
        ));
        assert(failed@ =~= gather(pairs.take(i as int + 1), body_failure_of()));
        i += 1;
    }
    assert(pairs.take(requests.len() as int) == pairs);
    failed
}

/// Finds the entities that carry a body handle and no body tag. Stages, for
/// each, the command that takes the handle off, and returns the handles: the
/// backend is to release their bodies.
pub fn remove_body_handles(rows: &Vec<EntityRow>, commands: &mut Vec<Command>) -> (released: Vec<
    BodyHandle,
>)
    ensures
        released@ == stale_bodies(rows@),
        final(commands)@ == old(commands)@ + body_removals(rows@),
{
    let mut released: Vec<BodyHandle> = Vec::new();
    let mut i: usize = 0;
    assert(commands@ =~= old(commands)@ + Seq::<Command>::empty());
    while i < rows.len()
        invariant
            0 <= i <= rows.len(),
            released@ == gather(rows@.take(i as int), stale_body_of()),
            commands@ == old(commands)@ + gather(rows@.take(i as int), body_removal_of()),
        decreases rows.len() - i,
    {
        proof {
            lemma_gather_take(rows@, i as int, stale_body_of());
            lemma_gather_take(rows@, i as int, body_removal_of());
        }
        match rows[i].stale_body() {
            Some(handle) => {
                released.push(handle);
                commands.push(Command::RemoveBodyHandle(rows[i].entity));
            },
            None => {},
        }
        assert(released@ =~= gather(rows@.take(i as int + 1), stale_body_of()));
        assert(commands@ =~= old(commands)@ + gather(rows@.take(i as int + 1), body_removal_of()));
        i += 1;
    }
    assert(rows@.take(rows.len() as int) == rows@);
    released
}

/// Finds the entities that carry a shape tag and a body handle, and either
/// no collider handle or one built from the other shape tag. Says which
/// collider the backend is to build for each, anchored to the entity's body:
/// a ball of the tag's radius, or a square of the tag's side. Where the
/// entity has changed its shape, the request names the old collider, which is
/// released before the new one is built.
pub fn make_collider_handles(rows: &Vec<EntityRow>) -> (requests: Vec<ColliderRequest>)
    ensures
        requests@ == collider_requests(rows@),
{
    let mut requests: Vec<ColliderRequest> = Vec::new();
    let mut i: usize = 0;
    while i < rows.len()
        invariant
            0 <= i <= rows.len(),
            requests@ == gather(rows@.take(i as int), collider_request_of()),
        decreases rows.len() - i,
    {
        proof {
            lemma_gather_take(rows@, i as int, collider_request_of());
        }
        match rows[i].collider_request() {
            Some(request) => {
                requests.push(request);
            },
            None => {},
        }
        assert(requests@ =~= gather(rows@.take(i as int + 1), collider_request_of()));
        i += 1;
    }
    assert(rows@.take(rows.len() as int) == rows@);
    requests
}

/// Records what the backend answered to the collider requests: stages, for
/// each request that was granted, the command that puts the new handle onto
/// the entity, in place of the one it replaces. Where a request failed,
/// the handle of a collider that was released for it is taken off. Returns
/// the entities whose requests failed or went unanswered. `replies[i]`
/// answers `requests[i]`.
pub fn attach_collider_handles(
    requests: &Vec<ColliderRequest>,
    replies: &Vec<Option<ArenaIndex>>,
    commands: &mut Vec<Command>,
) -> (failed: Vec<Entity>)
    ensures
        final(commands)@ == old(commands)@ + collider_attachments(requests@, replies@),
        failed@ == collider_failures(requests@, replies@),
{
    let ghost pairs = answered(requests@, replies@);
    let mut failed: Vec<Entity> = Vec::new();
    let mut i: usize = 0;
    assert(commands@ =~= old(commands)@ + Seq::<Command>::empty());
    while i < requests.len()
        invariant
            0 <= i <= requests.len(),
            pairs == answered(requests@, replies@),
            commands@ == old(commands)@ + gather(pairs.take(i as int), collider_attachment_of()),
            failed@ == gather(pairs.take(i as int), collider_failure_of()),
        decreases requests.len() - i,
    {
        proof {
            lemma_gather_take(pairs, i as int, collider_attachment_of());
            lemma_gather_take(pairs, i as int, collider_failure_of());
        }
        let request: ColliderRequest = requests[i];
        let reply: Option<ArenaIndex> = if i < replies.len() {
            replies[i]
        } else {
            None
        };
        match reply {
            Some(index) => {
                commands.push(
                    Command::AddColliderHandle(
                        request.entity,
                        ColliderHandle { index, shape: request.shape.kind() },
                    ),
                );
            },
            None => {
                failed.push(request.entity);
                if request.replaces.is_some() {
                    commands.push(Command::RemoveColliderHandle(request.entity));
                }
            },
        }
        assert(commands@ =~= old(commands)@ + gather(
            pairs.take(i as int + 1),
            collider_attachment_of(),
        ));
        assert(failed@ =~= gather(pairs.take(i as int + 1), collider_failure_of()));
        i += 1;
    }
    assert(pairs.take(requests.len() as int) == pairs);
    failed
}

/// Finds the entities that carry a collider handle and are owed no collider:
/// the shape tag is gone, or the body handle is. Stages, for each, the command
/// that takes the handle off, and returns the handles: the backend is to
/// release their colliders.
pub fn remove_collider_handles(rows: &Vec<EntityRow>, commands: &mut Vec<Command>) -> (released:
    Vec<ColliderHandle>)
    ensures
        released@ == stale_colliders(rows@),
        final(commands)@ == old(commands)@ + collider_removals(rows@),
{
    let mut released: Vec<ColliderHandle> = Vec::new();
    let mut i: usize = 0;
    assert(commands@ =~= old(commands)@ + Seq::<Command>::empty());
    while i < rows.len()
        invariant
            0 <= i <= rows.len(),
            released@ == gather(rows@.take(i as int), stale_collider_of()),
            commands@ == old(commands)@ + gather(rows@.take(i as int), collider_removal_of()),
        decreases rows.len() - i,
    {
        proof {
            lemma_gather_take(rows@, i as int, stale_collider_of());
            lemma_gather_take(rows@, i as int, collider_removal_of());
        }
        match rows[i].stale_collider() {
            Some(handle) => {
                released.push(handle);
                commands.push(Command::RemoveColliderHandle(rows[i].entity));
            },
            None => {},
        }
        assert(released@ =~= gather(rows@.take(i as int + 1), stale_collider_of()));
        assert(commands@ =~= old(commands)@ + gather(
            rows@.take(i as int + 1),
            collider_removal_of(),
        ));
        i += 1;
    }
    assert(rows@.take(rows.len() as int) == rows@);
    released
}

} // verus!
