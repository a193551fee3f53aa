//! One tick, step by step. Each step takes what the step before handed out,
//! so that the steps can only be run in their order, and each performs its
//! share of the stages of the pipeline:
//!
//! 1. `begin_tick` validates the store and plans the body pass. The caller
//!    has the backend build the bodies.
//! 2. `end_body_pass` records the answers, takes stale body handles off,
//!    passes the barrier, and plans the collider pass. The caller releases the
//!    stale bodies and has the backend build the colliders.
//! 3. `end_collider_pass` records the answers, takes stale collider handles
//!    off, and passes the barrier. The caller releases the stale colliders and
//!    lists what the backend holds.
//! 4. `run_sweep` sweeps, applies that, and plans the push. The caller
//!    releases the orphans, pushes the kinematic state, steps the backend, and
//!    reads it.
//! 5. `end_tick` pulls the readings back and applies them.

use vstd::prelude::*;
use legion::{Entity, World};
use crate::commands::Command;
use crate::components::{ArenaIndex, BodyHandle, ColliderHandle, Components};
use crate::laws::{
    after_body_pass, after_collider_pass, all_granted, anchored, body_handles_follow_tags,
    collider_handles_follow_shapes, gathered_from_the_store, pull_back_keeps_the_store_finite,
    pull_back_overwrites_dynamic_bodies, pulled_store, sweep_leaves_backed_handles,
    sweep_releases_orphans, swept_store,
};
use crate::lifecycle::{
    attach_body_handles, attach_collider_handles, body_failures, body_requests,
    collider_failures, collider_requests, make_body_handles, make_collider_handles,
    remove_body_handles, remove_collider_handles, stale_bodies, stale_colliders, BodyRequest,
    ColliderRequest,
};
use crate::projector::{
    entity_world_to_physics_world, physics_world_to_entity_world, pull_warning_of, pull_warnings,
    push_of, pushes, BodyReading, KinematicUpdate,
};
use crate::scheduler::{physics_pipeline, Stage};
use crate::store::{flush_command_buffer, lists, snapshot, world_components, EntityRow};
use crate::sweep::{garbage, unkept_colliders, unowned_bodies, Sweep};
use crate::validator::{first_violation_is_first, validate_physics_entities, BodyKind, Violation};

verus! {

/// Every entity of the store keeps the rules of the body tags it carries.
pub open spec fn rules_kept(store: Map<Entity, Components>) -> bool {
    forall|entity: Entity| #[trigger]
        store.contains_key(entity) ==> store[entity].dynamic_rule() && store[entity].static_rule()
}

/// The stages that `begin_tick` performs.
pub open spec fn begin_tick_stages() -> Seq<Stage> {
    seq![Stage::ValidatePhysicsEntities, Stage::MakeBodyHandles]
}

/// The stages that `end_body_pass` performs.
pub open spec fn end_body_pass_stages() -> Seq<Stage> {
    seq![Stage::RemoveBodyHandles, Stage::FlushCommandBuffer, Stage::MakeColliderHandles]
}

/// The stages that `end_collider_pass` performs.
pub open spec fn end_collider_pass_stages() -> Seq<Stage> {
    seq![Stage::RemoveColliderHandles, Stage::FlushCommandBuffer]
}

/// The stages that `run_sweep` performs.
pub open spec fn run_sweep_stages() -> Seq<Stage> {
    seq![Stage::Garbage, Stage::EntityWorldToPhysicsWorld]
}

/// The stage that the caller performs between `run_sweep` and `end_tick`.
pub open spec fn step_stages() -> Seq<Stage> {
    seq![Stage::StepPhysicsWorld]
}

/// The stage that `end_tick` performs.
pub open spec fn end_tick_stages() -> Seq<Stage> {
    seq![Stage::PhysicsWorldToEntityWorld]
}

/// The steps of a tick, run in their order, perform the stages of the
/// pipeline in the pipeline's order, each stage once.
pub proof fn tick_performs_the_pipeline()
    ensures
        begin_tick_stages() + end_body_pass_stages() + end_collider_pass_stages()
            + run_sweep_stages() + step_stages() + end_tick_stages() == physics_pipeline(),
{
    assert(begin_tick_stages() + end_body_pass_stages() + end_collider_pass_stages()
        + run_sweep_stages() + step_stages() + end_tick_stages() =~= physics_pipeline());
}

/// A tick that has validated the store and waits for the backend's answers
/// to its body requests.
pub struct BodyPass {
    rows: Vec<EntityRow>,
    requests: Vec<BodyRequest>,
}

/// A tick whose body handles are settled, and which waits for the backend's
/// answers to its collider requests.
pub struct ColliderPass {
    rows: Vec<EntityRow>,
    requests: Vec<ColliderRequest>,
}

/// A tick whose handles are settled, and which waits for the keys of what
/// the backend holds.
pub struct SweepPass {
    settled: (),
}

/// A tick that has pushed its kinematic state, and which waits for the
/// backend to step and report.
pub struct StepPass {
    pushed: (),
}

/// What the body pass leaves to do: the entities whose requests failed are
/// to be reported, and the bodies of the released handles are to be released.
pub struct BodyOutcome {
    pub failed: Vec<Entity>,
    pub released: Vec<BodyHandle>,
    pub next: ColliderPass,
}

/// What the collider pass leaves to do: the entities whose requests failed
/// are to be reported, and the colliders of the released handles are to be
/// released.
pub struct ColliderOutcome {
    pub failed: Vec<Entity>,
    pub released: Vec<ColliderHandle>,
    pub next: SweepPass,
}

/// What the sweep leaves to do: the orphans are to be released, and the
/// updates are to be given to the backend before it steps.
pub struct SweepOutcome {
    pub release: Sweep,
    pub updates: Vec<KinematicUpdate>,
    pub next: StepPass,
}

impl BodyPass {
    #[verifier::type_invariant]
    spec fn planned(self) -> bool {
        self.requests@ == body_requests(self.rows@)
    }

    /// The stages that the tick has performed when it hands this pass out.
    pub open spec fn performed(self) -> Seq<Stage> {
        begin_tick_stages()
    }

    /// The snapshot that the pass was planned on.
    pub closed spec fn rows(self) -> Seq<EntityRow> {
        self.rows@
    }

    /// The bodies that the pass asks the backend for.
    pub closed spec fn requested(self) -> Seq<BodyRequest> {
        self.requests@
    }

    /// The bodies that the backend is to build, in the order in which the
    /// answers are expected.
    pub fn requests(&self) -> (r: &Vec<BodyRequest>)
        ensures
            r@ == self.requested(),
    {
        &self.requests
    }
}

impl ColliderPass {
    #[verifier::type_invariant]
    spec fn planned(self) -> bool {
        self.requests@ == collider_requests(self.rows@)
    }

    /// The stages that the tick has performed when it hands this pass out.
    pub open spec fn performed(self) -> Seq<Stage> {
        begin_tick_stages() + end_body_pass_stages()
    }

    /// The snapshot that the pass was planned on.
    pub closed spec fn rows(self) -> Seq<EntityRow> {
        self.rows@
    }

    /// The colliders that the pass asks the backend for.
    pub closed spec fn requested(self) -> Seq<ColliderRequest> {
        self.requests@
    }

    /// The colliders that the backend is to build, in the order in which the
    /// answers are expected. The collider that a request replaces is to be
    /// released before the new one is built.
    pub fn requests(&self) -> (r: &Vec<ColliderRequest>)
        ensures
            r@ == self.requested(),
    {
        &self.requests
    }
}

impl SweepPass {
    /// The stages that the tick has performed when it hands this pass out.
    pub open spec fn performed(self) -> Seq<Stage> {
        begin_tick_stages() + end_body_pass_stages() + end_collider_pass_stages()
    }
}

impl StepPass {
    /// The stages that the tick has performed when it hands this pass out.
    pub open spec fn performed(self) -> Seq<Stage> {
        begin_tick_stages() + end_body_pass_stages() + end_collider_pass_stages()
            + run_sweep_stages()
    }
}

/// A snapshot keeps the rules exactly when the store it lists does.
proof fn lemma_rules_of_snapshot(rows: Seq<EntityRow>, store: Map<Entity, Components>)
    requires
        lists(rows, store),
    ensures
        crate::validator::well_formed(rows) <==> rules_kept(store),
{
    if crate::validator::well_formed(rows) {
        assert forall|entity: Entity| #[trigger] store.contains_key(entity) implies store[entity]
            .dynamic_rule() && store[entity].static_rule() by {
            let k = choose|k: int| 0 <= k < rows.len() && rows[k].entity == entity;
            assert(store.contains_pair(rows[k].entity, rows[k].components));
        }
    }
    if rules_kept(store) {
        assert forall|i: int| 0 <= i < rows.len() implies (#[trigger] rows[i])
            .components.dynamic_rule() && rows[i].components.static_rule() by {
            assert(store.contains_pair(rows[i].entity, rows[i].components));
            assert(store.contains_key(rows[i].entity));
        }
    }
}

/// Begins a tick: validates the store and plans the body pass. Fails, before
/// anything is asked of the backend, where an entity breaks the rule of its
/// body tag; the violation names such an entity and what is wrong with it.
pub fn begin_tick(world: &World) -> (r: Result<BodyPass, Violation>)
    ensures
        r.is_ok() <==> rules_kept(world_components(*world)),
        r matches Ok(pass) ==> lists(pass.rows(), world_components(*world)) && pass.requested()
            == body_requests(pass.rows()) && pass.performed() == begin_tick_stages(),
        r matches Err(violation) ==> world_components(*world).contains_key(violation.entity)
            && world_components(*world)[violation.entity].fault_spec(violation.body) == Some(
            violation.fault,
        ),
{
    let rows = snapshot(world);
    proof {
        lemma_rules_of_snapshot(rows@, world_components(*world));
        first_violation_is_first(rows@, BodyKind::Dynamic);
        first_violation_is_first(rows@, BodyKind::Static);
    }
    match validate_physics_entities(&rows) {
        Ok(()) => {
            let requests = make_body_handles(&rows);
            Ok(BodyPass { rows, requests })
        },
        Err(violation) => {
            proof {
                let i = choose|i: int|
                    0 <= i < rows@.len() && (#[trigger] rows@[i]).entity == violation.entity
                        && rows@[i].components.fault_spec(violation.body) == Some(violation.fault);
                assert(world_components(*world).contains_pair(
                    rows@[i].entity,
                    rows@[i].components,
                ));
            }
            Err(violation)
        },
    }
}

/// Ends the body pass. `replies[i]` is the backend's answer to request `i`
/// of the pass: the key of the body it built, or nothing where it failed.
/// Records the answers, takes the stale body handles off, applies both at the
/// barrier, and plans the collider pass on the store as it is then.
///
/// Where the store has not changed since the tick began, each entity without
/// a body tag has no body handle afterwards, and each entity with a body tag
/// has one, provided that the backend granted every request.
pub fn end_body_pass(pass: BodyPass, world: &mut World, replies: &Vec<Option<ArenaIndex>>) -> (r:
    BodyOutcome)
    ensures
        world_components(*final(world)) == after_body_pass(
            world_components(*old(world)),
            pass.rows(),
            replies@,
        ),
        r.failed@ == body_failures(body_requests(pass.rows()), replies@),
        r.released@ == stale_bodies(pass.rows()),
        lists(r.next.rows(), world_components(*final(world))),
        r.next.requested() == collider_requests(r.next.rows()),
        r.next.performed() == pass.performed() + end_body_pass_stages(),
        lists(pass.rows(), world_components(*old(world))) ==> forall|entity: Entity| #[trigger]
            world_components(*final(world)).contains_key(entity) ==> {
                let after = world_components(*final(world))[entity];
                &&& !after.has_body_tag() ==> after.body_handle.is_none()
                &&& after.has_body_tag() && all_granted(body_requests(pass.rows()), replies@)
                    ==> after.body_handle.is_some()
            },
{
    proof {
        use_type_invariant(&pass);
    }
    let mut commands: Vec<Command> = Vec::new();
    let failed = attach_body_handles(&pass.requests, replies, &mut commands);
    let released = remove_body_handles(&pass.rows, &mut commands);
    proof {
        let store = world_components(*world);
        if lists(pass.rows(), store) {
            assert forall|entity: Entity| #[trigger]
                after_body_pass(store, pass.rows(), replies@).contains_key(entity) implies {
                let after = after_body_pass(store, pass.rows(), replies@)[entity];
                &&& !after.has_body_tag() ==> after.body_handle.is_none()
                &&& after.has_body_tag() && all_granted(body_requests(pass.rows()), replies@)
                    ==> after.body_handle.is_some()
            } by {
                body_handles_follow_tags(store, pass.rows(), replies@, entity);
            }
        }
        assert(commands@ =~= crate::lifecycle::body_attachments(
            body_requests(pass.rows()),
            replies@,
        ) + crate::lifecycle::body_removals(pass.rows()));
    }
    flush_command_buffer(world, &mut commands);
    let rows = snapshot(world);
    let requests = make_collider_handles(&rows);
    BodyOutcome { failed, released, next: ColliderPass { rows, requests } }
}

/// Ends the collider pass. `replies[i]` is the backend's answer to request
/// `i` of the pass: the key of the collider it built, or nothing where it
/// failed. Records the answers, takes the stale collider handles off, and
/// applies both at the barrier.
///
/// Where the store has not changed since the pass was planned, each entity
/// with a collider handle has a body handle afterwards, and a shape tag that
/// the handle was built from; and each entity with a shape tag and a body
/// handle has a collider handle, provided that the backend granted every
/// request.
pub fn end_collider_pass(
    pass: ColliderPass,
    world: &mut World,
    replies: &Vec<Option<ArenaIndex>>,
) -> (r: ColliderOutcome)
    ensures
        world_components(*final(world)) == after_collider_pass(
            world_components(*old(world)),
            pass.rows(),
            replies@,
        ),
        r.failed@ == collider_failures(collider_requests(pass.rows()), replies@),
        r.released@ == stale_colliders(pass.rows()),
        r.next.performed() == pass.performed() + end_collider_pass_stages(),
        lists(pass.rows(), world_components(*old(world))) ==> anchored(
            world_components(*final(world)),
        ) && forall|entity: Entity| #[trigger]
            world_components(*final(world)).contains_key(entity) ==> {
                let after = world_components(*final(world))[entity];
                let due = (EntityRow { entity, components: after }).due_collider();
                &&& match (after.collider_handle, due) {
                    (Some(handle), Some((shape, _))) => handle.shape == shape.kind_spec(),
                    (Some(_), None) => false,
                    (None, _) => true,
                }
                &&& due.is_some() && all_granted(collider_requests(pass.rows()), replies@)
                    ==> after.collider_handle.is_some()
            },
{
    proof {
        use_type_invariant(&pass);
    }
    let mut commands: Vec<Command> = Vec::new();
    let failed = attach_collider_handles(&pass.requests, replies, &mut commands);
    let released = remove_collider_handles(&pass.rows, &mut commands);
    proof {
        let store = world_components(*world);
        if lists(pass.rows(), store) {
            let settled = after_collider_pass(store, pass.rows(), replies@);
            assert forall|entity: Entity| #[trigger] settled.contains_key(entity) implies {
                let after = settled[entity];
                let due = (EntityRow { entity, components: after }).due_collider();
                &&& after.collider_handle.is_some() ==> after.body_handle.is_some()
                &&& match (after.collider_handle, due) {
                    (Some(handle), Some((shape, _))) => handle.shape == shape.kind_spec(),
                    (Some(_), None) => false,
                    (None, _) => true,
                }
                &&& due.is_some() && all_granted(collider_requests(pass.rows()), replies@)
                    ==> after.collider_handle.is_some()
            } by {
                collider_handles_follow_shapes(store, pass.rows(), replies@, entity);
            }
        }
        assert(commands@ =~= crate::lifecycle::collider_attachments(
            collider_requests(pass.rows()),
            replies@,
        ) + crate::lifecycle::collider_removals(pass.rows()));
    }
    flush_command_buffer(world, &mut commands);
    ColliderOutcome { failed, released, next: SweepPass { settled: () } }
}

/// Sweeps, then plans the push. `live_bodies` and `live_colliders` are the
/// keys of what the backend holds. Takes off every handle that nothing backs
/// and applies that itself, so that afterwards each body handle names a live
/// body and each entity with a collider handle has a body handle.
/// Returns the orphans that the backend is to release, and the kinematic
/// state that it is to give to each dynamic body before it steps.
pub fn run_sweep(
    pass: SweepPass,
    world: &mut World,
    live_bodies: &Vec<ArenaIndex>,
    live_colliders: &Vec<ArenaIndex>,
) -> (r: SweepOutcome)
    ensures
        world_components(*final(world)) == swept_store(
            world_components(*old(world)),
            live_bodies@,
            live_colliders@,
        ),
        anchored(world_components(*final(world))),
        r.next.performed() == pass.performed() + run_sweep_stages(),
        r.release.bodies@ == unowned_bodies(world_components(*old(world)), live_bodies@),
        r.release.colliders@ == unkept_colliders(
            world_components(*old(world)),
            live_bodies@,
            live_colliders@,
        ),
        exists|rows: Seq<EntityRow>| #[trigger]
            lists(rows, world_components(*final(world))) && r.updates@ == pushes(rows),
        forall|update: KinematicUpdate|
            r.updates@.contains(update) <==> exists|entity: Entity| #[trigger]
                world_components(*final(world)).contains_key(entity) && (EntityRow {
                    entity,
                    components: world_components(*final(world))[entity],
                }).push_spec() == Some(update),
{
    let rows = snapshot(world);
    let mut commands: Vec<Command> = Vec::new();
    let release = garbage(&rows, live_bodies, live_colliders, &mut commands);
    proof {
        sweep_leaves_backed_handles(
            world_components(*world),
            rows@,
            live_bodies@,
            live_colliders@,
        );
        sweep_releases_orphans(world_components(*world), rows@, live_bodies@, live_colliders@);
        assert(commands@ =~= crate::sweep::sweep_commands(rows@, live_bodies@, live_colliders@));
        assert(lists(rows@, world_components(*world)));
    }
    flush_command_buffer(world, &mut commands);
    let swept = snapshot(world);
    let updates = entity_world_to_physics_world(&swept);
    assert(lists(swept@, world_components(*world)));
    proof {
        let store = world_components(*world);
        assert forall|update: KinematicUpdate|
            updates@.contains(update) <==> exists|entity: Entity| #[trigger]
                store.contains_key(entity) && (EntityRow {
                    entity,
                    components: store[entity],
                }).push_spec() == Some(update) by {
            gathered_from_the_store(store, swept@, push_of(), update);
            assert forall|entity: Entity|
                push_of()(EntityRow { entity, components: store[entity] }).contains(update) == ((
                EntityRow { entity, components: store[entity] }).push_spec() == Some(update)) by {
                let given = push_of()(EntityRow { entity, components: store[entity] });
                if given.contains(update) {
                    let n = choose|n: int| 0 <= n < given.len() && given[n] == update;
                }
                if (EntityRow { entity, components: store[entity] }).push_spec() == Some(update) {
                    assert(given[0] == update);
                }
            }
        }
    }
    SweepOutcome { release, updates, next: StepPass { pushed: () } }
}

/// Ends the tick, once the backend has stepped. `readings` is what the
/// backend reports of the bodies that the step touched. Brings each dynamic
/// body's reading into the store and applies that itself. A reading that
/// holds a number that is not finite is not taken over: the velocity is set
/// to zero and the entity is returned among the warnings. Entities that are
/// not dynamic bodies stay as they are, and no handle changes.
pub fn end_tick(pass: StepPass, world: &mut World, readings: &Vec<BodyReading>) -> (warnings: Vec<
    Entity,
>)
    ensures
        world_components(*final(world)) == pulled_store(world_components(*old(world)), readings@),
        anchored(world_components(*old(world))) ==> anchored(world_components(*final(world))),
        pass.performed() + step_stages() + end_tick_stages() == physics_pipeline(),
        exists|rows: Seq<EntityRow>| #[trigger]
            lists(rows, world_components(*old(world))) && warnings@ == pull_warnings(
                rows,
                readings@,
            ),
        forall|entity: Entity|
            warnings@.contains(entity) <==> world_components(*old(world)).contains_key(entity) && (
            match world_components(*old(world))[entity].pulled_state(readings@) {
                Some(state) => !state.finite(),
                None => false,
            }),
{
    let rows = snapshot(world);
    let mut commands: Vec<Command> = Vec::new();
    let warnings = physics_world_to_entity_world(&rows, readings, &mut commands);
    proof {
        tick_performs_the_pipeline();
        let store = world_components(*world);
        pull_back_overwrites_dynamic_bodies(store, rows@, readings@);
        assert(commands@ =~= crate::projector::pulls(rows@, readings@));
        assert(lists(rows@, store));
        assert forall|entity: Entity|
            warnings@.contains(entity) <==> store.contains_key(entity) && (
            match store[entity].pulled_state(readings@) {
                Some(state) => !state.finite(),
                None => false,
            }) by {
            gathered_from_the_store(store, rows@, pull_warning_of(readings@), entity);
            assert forall|other: Entity|
                pull_warning_of(readings@)(
                    EntityRow { entity: other, components: store[other] },
                ).contains(entity) == (other == entity && (
                match store[other].pulled_state(readings@) {
                    Some(state) => !state.finite(),
                    None => false,
                })) by {
                let given = pull_warning_of(readings@)(
                    EntityRow { entity: other, components: store[other] },
                );
                if given.contains(entity) {
                    let n = choose|n: int| 0 <= n < given.len() && given[n] == entity;
                }
                if other == entity && (match store[other].pulled_state(readings@) {
                    Some(state) => !state.finite(),
                    None => false,
                }) {
                    assert(given[0] == entity);
                }
            }
        }
        assert forall|entity: Entity| #[trigger]
            pulled_store(store, readings@).contains_key(entity) implies pulled_store(
            store,
            readings@,
        )[entity].body_handle == store[entity].body_handle && pulled_store(
            store,
            readings@,
        )[entity].collider_handle == store[entity].collider_handle by {
            pull_back_keeps_the_store_finite(store[entity], readings@);
        }
    }
    flush_command_buffer(world, &mut commands);
    warnings
}

} // verus!
