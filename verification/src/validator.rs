//! The rules that physics entities are held to before a tick touches the
//! backend.

use vstd::prelude::*;
use vstd::string::StringExecFns;
use legion::Entity;
use crate::components::Components;
use crate::store::EntityRow;

verus! {

/// The body tags whose entities the validator holds to a rule.
#[derive(Clone, Copy, Debug, PartialEq, Eq, Structural)]
pub enum BodyKind {
    Dynamic,
    Static,
}

/// The components that a rule can speak of.
#[derive(Clone, Copy, Debug, PartialEq, Eq, Structural)]
pub enum ComponentKind {
    Position,
    Velocity,
    Orientation,
    Speed,
    Acceleration,
    Force,
    StaticBody,
    DisabledBody,
}

/// How an entity breaks the rule of its body tag.
#[derive(Clone, Copy, Debug, PartialEq, Eq, Structural)]
pub enum Fault {
    /// A component that the body needs is not there.
    Missing(ComponentKind),
    /// A component is there that the body must not have.
    Forbidden(ComponentKind),
}

/// A malformed physics entity: which one, under which body tag, and what is
/// wrong with it.
#[derive(Clone, Copy, Debug, PartialEq, Eq)]
pub struct Violation {
    pub entity: Entity,
    pub body: BodyKind,
    pub fault: Fault,
}

impl BodyKind {
    /// The name of the body tag.
    pub open spec fn name_spec(self) -> Seq<char> {
        match self {
            BodyKind::Dynamic => "DynamicBody"@,
            BodyKind::Static => "StaticBody"@,
        }
    }

    pub fn name(self) -> (r: &'static str)
        ensures
            r@ == self.name_spec(),
    {
        match self {
            BodyKind::Dynamic => "DynamicBody",
            BodyKind::Static => "StaticBody",
        }
    }
}

impl ComponentKind {
    /// The name of the component.
    pub open spec fn name_spec(self) -> Seq<char> {
        match self {
            ComponentKind::Position => "Position"@,
            ComponentKind::Velocity => "Velocity"@,
            ComponentKind::Orientation => "Orientation"@,
            ComponentKind::Speed => "Speed"@,
            ComponentKind::Acceleration => "Acceleration"@,
            ComponentKind::Force => "Force"@,
            ComponentKind::StaticBody => "StaticBody"@,
            ComponentKind::DisabledBody => "DisabledBody"@,
        }
    }

    pub fn name(self) -> (r: &'static str)
        ensures
            r@ == self.name_spec(),
    {
        match self {
            ComponentKind::Position => "Position",
            ComponentKind::Velocity => "Velocity",
            ComponentKind::Orientation => "Orientation",
            ComponentKind::Speed => "Speed",
            ComponentKind::Acceleration => "Acceleration",
            ComponentKind::Force => "Force",
            ComponentKind::StaticBody => "StaticBody",
            ComponentKind::DisabledBody => "DisabledBody",
        }
    }
}

impl Violation {
    /// What the violation says: which component is missing in which body,
    /// or which component the body cannot have.
    pub open spec fn message_spec(self) -> Seq<char> {
        match self.fault {
            Fault::Missing(component) => "missing "@ + component.name_spec() + " in "@
                + self.body.name_spec(),
            Fault::Forbidden(component) => self.body.name_spec() + " can't have a "@
                + component.name_spec() + " component"@,
        }
    }

    /// The violation in words. The entity is not part of the text: it is the
    /// violation's `entity`.
    pub fn message(&self) -> (r: String)
        ensures
            r@ == self.message_spec(),
    {
        match self.fault {
            Fault::Missing(component) => {
                let mut text = String::from_str("missing ");
                text.append(component.name());
                text.append(" in ");
                text.append(self.body.name());
                text
            },
            Fault::Forbidden(component) => {
                let mut text = String::from_str(self.body.name());
                text.append(" can't have a ");
                text.append(component.name());
                text.append(" component");
                text
            },
        }
    }
}

impl Components {
    /// A dynamic body has a position, a velocity and an orientation, and is
    /// neither static nor disabled.
    pub open spec fn dynamic_rule(self) -> bool {
        self.dynamic_body.is_some() ==> {
            &&& self.position.is_some()
            &&& self.velocity.is_some()
            &&& self.orientation.is_some()
            &&& self.static_body.is_none()
            &&& self.disabled_body.is_none()
        }
    }

    /// A static body has a position, and nothing that would move it.
    pub open spec fn static_rule(self) -> bool {
        self.static_body.is_some() ==> {
            &&& self.position.is_some()
            &&& self.velocity.is_none()
            &&& self.speed.is_none()
            &&& self.acceleration.is_none()
            &&& self.force.is_none()
        }
    }

    /// The first thing wrong with the entity as a dynamic body, if any.
    pub open spec fn dynamic_fault_spec(self) -> Option<Fault> {
        if self.dynamic_body.is_none() {
            None
        } else if self.position.is_none() {
            Some(Fault::Missing(ComponentKind::Position))
        } else if self.velocity.is_none() {
            Some(Fault::Missing(ComponentKind::Velocity))
        } else if self.orientation.is_none() {
            Some(Fault::Missing(ComponentKind::Orientation))
        } else if self.static_body.is_some() {
            Some(Fault::Forbidden(ComponentKind::StaticBody))
        } else if self.disabled_body.is_some() {
            Some(Fault::Forbidden(ComponentKind::DisabledBody))
        } else {
            None
        }
    }

    /// The first thing wrong with the entity as a static body, if any.
    pub open spec fn static_fault_spec(self) -> Option<Fault> {
        if self.static_body.is_none() {
            None
        } else if self.position.is_none() {
            Some(Fault::Missing(ComponentKind::Position))
        } else if self.velocity.is_some() {
            Some(Fault::Forbidden(ComponentKind::Velocity))
        } else if self.speed.is_some() {
            Some(Fault::Forbidden(ComponentKind::Speed))
        } else if self.acceleration.is_some() {
            Some(Fault::Forbidden(ComponentKind::Acceleration))
        } else if self.force.is_some() {
            Some(Fault::Forbidden(ComponentKind::Force))
        } else {
            None
        }
    }

    /// The first thing wrong with the entity under the rule of `body`.
    pub open spec fn fault_spec(self, body: BodyKind) -> Option<Fault> {
        match body {
            BodyKind::Dynamic => self.dynamic_fault_spec(),
            BodyKind::Static => self.static_fault_spec(),
        }
    }

    #[verifier::when_used_as_spec(dynamic_fault_spec)]
    pub fn dynamic_fault(self) -> (r: Option<Fault>)
        ensures
            r == self.dynamic_fault_spec(),
            r.is_none() == self.dynamic_rule(),
    {
        if self.dynamic_body.is_none() {
            None
        } else if self.position.is_none() {
            Some(Fault::Missing(ComponentKind::Position))
        } else if self.velocity.is_none() {
            Some(Fault::Missing(ComponentKind::Velocity))
        } else if self.orientation.is_none() {
            Some(Fault::Missing(ComponentKind::Orientation))
        } else if self.static_body.is_some() {
            Some(Fault::Forbidden(ComponentKind::StaticBody))
        } else if self.disabled_body.is_some() {
            Some(Fault::Forbidden(ComponentKind::DisabledBody))
        } else {
            None
        }
    }

    #[verifier::when_used_as_spec(static_fault_spec)]
    pub fn static_fault(self) -> (r: Option<Fault>)
        ensures
            r == self.static_fault_spec(),
            r.is_none() == self.static_rule(),
    {
        if self.static_body.is_none() {
            None
        } else if self.position.is_none() {
            Some(Fault::Missing(ComponentKind::Position))
        } else if self.velocity.is_some() {
            Some(Fault::Forbidden(ComponentKind::Velocity))
        } else if self.speed.is_some() {
            Some(Fault::Forbidden(ComponentKind::Speed))
        } else if self.acceleration.is_some() {
            Some(Fault::Forbidden(ComponentKind::Acceleration))
        } else if self.force.is_some() {
            Some(Fault::Forbidden(ComponentKind::Force))
        } else {
            None
        }
    }

    #[verifier::when_used_as_spec(fault_spec)]
    pub fn fault(self, body: BodyKind) -> (r: Option<Fault>)
        ensures
            r == self.fault_spec(body),
    {
        match body {
            BodyKind::Dynamic => self.dynamic_fault(),
            BodyKind::Static => self.static_fault(),
        }
    }
}

/// The violation of the first row, in the snapshot's order, that breaks the
/// rule of `body`.
pub open spec fn first_violation(rows: Seq<EntityRow>, body: BodyKind) -> Option<Violation>
    decreases rows.len(),
{
    if rows.len() == 0 {
        None
    } else {
        match rows[0].components.fault_spec(body) {
            Some(fault) => Some(Violation { entity: rows[0].entity, body, fault }),
            None => first_violation(rows.drop_first(), body),
        }
    }
}

/// What validation makes of a snapshot: the dynamic bodies are looked at
/// first, all of them, and then the static ones.
pub open spec fn validation(rows: Seq<EntityRow>) -> Result<(), Violation> {
    match first_violation(rows, BodyKind::Dynamic) {
        Some(violation) => Err(violation),
        None => match first_violation(rows, BodyKind::Static) {
            Some(violation) => Err(violation),
            None => Ok(()),
        },
    }
}

/// Every row keeps the rules of the body tags it carries.
pub open spec fn well_formed(rows: Seq<EntityRow>) -> bool {
    forall|i: int|
        0 <= i < rows.len() ==> (#[trigger] rows[i]).components.dynamic_rule()
            && rows[i].components.static_rule()
}

/// No row breaks the rule of `body` exactly when `first_violation` finds
/// nothing; and what it finds is the fault of a row with no faulty row before
/// it.
pub proof fn first_violation_is_first(rows: Seq<EntityRow>, body: BodyKind)
    ensures
        first_violation(rows, body).is_none() <==> forall|i: int|
            0 <= i < rows.len() ==> (#[trigger] rows[i]).components.fault_spec(body).is_none(),
        first_violation(rows, body) matches Some(v) ==> exists|i: int|
            0 <= i < rows.len() && (#[trigger] rows[i]).entity == v.entity && v.body == body
                && rows[i].components.fault_spec(body) == Some(v.fault) && forall|j: int|
                0 <= j < i ==> (#[trigger] rows[j]).components.fault_spec(body).is_none(),
    decreases rows.len(),
{
    if rows.len() > 0 {
        let rest = rows.drop_first();
        first_violation_is_first(rest, body);
        assert forall|i: int| 0 <= i < rest.len() implies rest[i] == rows[i + 1] by {}
        if rows[0].components.fault_spec(body).is_none() {
            if first_violation(rest, body).is_none() {
                assert forall|i: int| 0 <= i < rows.len() implies (#[trigger] rows[i])
                    .components.fault_spec(body).is_none() by {
                    if i > 0 {
                        assert(rest[i - 1] == rows[i]);
                    }
                }
            } else {
                let v = first_violation(rest, body).unwrap();
                let k = choose|i: int|
                    0 <= i < rest.len() && (#[trigger] rest[i]).entity == v.entity && v.body
                        == body && rest[i].components.fault_spec(body) == Some(v.fault)
                        && forall|j: int|
                        0 <= j < i ==> (#[trigger] rest[j]).components.fault_spec(body).is_none();
                assert(rows[k + 1] == rest[k]);
                assert forall|j: int| 0 <= j < k + 1 implies (#[trigger] rows[j])
                    .components.fault_spec(body).is_none() by {
                    if j > 0 {
                        assert(rest[j - 1] == rows[j]);
                    }
                }
                assert(rows[k + 1].components.fault_spec(body).is_some());
            }
        } else {
            assert(rows[0].components.fault_spec(body).is_some());
        }
    }
}

/// Looks for the first row that breaks the rule of `body`.
pub fn find_violation(rows: &Vec<EntityRow>, body: BodyKind) -> (r: Option<Violation>)
    ensures
        r == first_violation(rows@, body),
{
    let mut i: usize = 0;
    assert(rows@.skip(0) == rows@);
    while i < rows.len()
        invariant
            0 <= i <= rows.len(),
            first_violation(rows@, body) == first_violation(rows@.skip(i as int), body),
        decreases rows.len() - i,
    {
        assert(rows@.skip(i as int).drop_first() == rows@.skip(i as int + 1));
        assert(rows@.skip(i as int)[0] == rows@[i as int]);
        match rows[i].components.fault(body) {
            Some(fault) => {
                return Some(Violation { entity: rows[i].entity, body, fault });
            },
            None => {},
        }
        i += 1;
    }
    assert(rows@.skip(i as int).len() == 0);
    None
}

/// Checks every physics entity of the snapshot against the rule of its body
/// tag, the dynamic bodies first. Fails on the first entity that breaks its
/// rule, and names it.
pub fn validate_physics_entities(rows: &Vec<EntityRow>) -> (r: Result<(), Violation>)
    ensures
        r == validation(rows@),
        r.is_ok() <==> well_formed(rows@),
{
    proof {
        first_violation_is_first(rows@, BodyKind::Dynamic);
        first_violation_is_first(rows@, BodyKind::Static);
        if well_formed(rows@) {
            assert forall|i: int| 0 <= i < rows@.len() implies (#[trigger] rows@[i])
                .components.fault_spec(BodyKind::Dynamic).is_none() && rows@[i]
                .components.fault_spec(BodyKind::Static).is_none() by {}
        }
        if validation(rows@).is_ok() {
            assert forall|i: int| 0 <= i < rows@.len() implies (#[trigger] rows@[i])
                .components.dynamic_rule() && rows@[i].components.static_rule() by {
                assert(rows@[i].components.fault_spec(BodyKind::Dynamic).is_none());
                assert(rows@[i].components.fault_spec(BodyKind::Static).is_none());
            }
        }
    }
    match find_violation(rows, BodyKind::Dynamic) {
        Some(violation) => Err(violation),
        None => match find_violation(rows, BodyKind::Static) {
            Some(violation) => Err(violation),
            None => Ok(()),
        },
    }
}

} // verus!
