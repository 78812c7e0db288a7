//! Error values of component storage and of the entity table.
use vstd::prelude::*;
use vstd::string::StringExecFns;

use crate::{EntityId, TypeKey};

verus! {

/// The requested component kind is not attached to the entity.
#[derive(Debug, Clone, Copy, PartialEq, Eq, Structural)]
pub struct ComponentNotFounded(pub TypeKey);

/// A component of this kind is already attached to the entity.
#[derive(Debug, Clone, Copy, PartialEq, Eq, Structural)]
pub struct ComponentAlreadyExists(pub TypeKey);

/// The component is held in a conflicting access mode.
#[derive(Debug, Clone, Copy, PartialEq, Eq, Structural)]
pub struct ComponentAlreadyBorrowed(pub TypeKey);

/// The stored value does not have the kind it is filed under.
#[derive(Debug, Clone, Copy, PartialEq, Eq, Structural)]
pub struct ComponentUnableDowncast(pub TypeKey);

#[derive(Debug, Clone, Copy, PartialEq, Eq, Structural)]
pub enum ComponentError {
    ComponentNotFoundedError(ComponentNotFounded),
    ComponentAlreadyExistsError(ComponentAlreadyExists),
    ComponentAlreadyBorrowedError(ComponentAlreadyBorrowed),
    ComponentUnableDowncastError(ComponentUnableDowncast),
}

impl ComponentAlreadyExists {
    pub fn new(component: TypeKey) -> (r: Self)
        ensures
            r.0 == component,
    {
        Self(component)
    }
}

impl ComponentNotFounded {
    pub fn new(component: TypeKey) -> (r: Self)
        ensures
            r.0 == component,
    {
        Self(component)
    }
}

impl ComponentAlreadyBorrowed {
    pub fn new(component: TypeKey) -> (r: Self)
        ensures
            r.0 == component,
    {
        Self(component)
    }
}

impl ComponentUnableDowncast {
    pub fn new(component: TypeKey) -> (r: Self)
        ensures
            r.0 == component,
    {
        Self(component)
    }
}

/// The entity id names no live entity.
#[derive(Debug, Clone, Copy, PartialEq, Eq, Structural)]
pub struct EntityNotFounded(pub EntityId);

/// The entity already carries a component of the given kind.
#[derive(Debug, Clone, Copy, PartialEq, Eq, Structural)]
pub struct EntityAlreadyHaveComponent(pub EntityId, pub TypeKey);

#[derive(Debug, Clone, Copy, PartialEq, Eq, Structural)]
pub enum ArchetypeError {
    EntityNotFoundedError(EntityNotFounded),
    EntityAlreadyHaveComponentError(EntityAlreadyHaveComponent),
}

impl EntityNotFounded {
    pub fn new(entity_id: EntityId) -> (r: Self)
        ensures
            r.0 == entity_id,
    {
        Self(entity_id)
    }
}

impl EntityAlreadyHaveComponent {
    pub fn new(entity_id: EntityId, component: TypeKey) -> (r: Self)
        ensures
            r.0 == entity_id,
            r.1 == component,
    {
        Self(entity_id, component)
    }
}

impl ArchetypeError {
    pub fn entity_not_founded(entity_id: EntityId) -> (r: Self)
        ensures
            r == ArchetypeError::EntityNotFoundedError(EntityNotFounded(entity_id)),
    {
        Self::EntityNotFoundedError(EntityNotFounded::new(entity_id))
    }
}

/// The text of a decimal digit.
pub open spec fn digit_text(d: nat) -> Seq<char> {
    if d == 0 {
        "0"@
    } else if d == 1 {
        "1"@
    } else if d == 2 {
        "2"@
    } else if d == 3 {
        "3"@
    } else if d == 4 {
        "4"@
    } else if d == 5 {
        "5"@
    } else if d == 6 {
        "6"@
    } else if d == 7 {
        "7"@
    } else if d == 8 {
        "8"@
    } else {
        "9"@
    }
}

/// `n` written in decimal, without leading zeros.
pub open spec fn decimal(n: nat) -> Seq<char>
    decreases n,
{
    if n < 10 {
        digit_text(n)
    } else {
        decimal(n / 10) + digit_text(n % 10)
    }
}

fn append_digit(out: &mut String, d: u64)
    requires
        d < 10,
    ensures
        final(out)@ == old(out)@ + digit_text(d as nat),
{
    if d == 0 {
        out.append("0");
    } else if d == 1 {
        out.append("1");
    } else if d == 2 {
        out.append("2");
    } else if d == 3 {
        out.append("3");
    } else if d == 4 {
        out.append("4");
    } else if d == 5 {
        out.append("5");
    } else if d == 6 {
        out.append("6");
    } else if d == 7 {
        out.append("7");
    } else if d == 8 {
        out.append("8");
    } else {
        out.append("9");
    }
}

/// Appends `n` in decimal to `out`.
pub fn append_decimal(out: &mut String, n: u64)
    ensures
        final(out)@ == old(out)@ + decimal(n as nat),
    decreases n,
{
    if n < 10 {
        append_digit(out, n);
    } else {
        let ghost start = out@;
        append_decimal(out, n / 10);
        append_digit(out, n % 10);
        assert(out@ =~= start + (decimal((n / 10) as nat) + digit_text((n % 10) as nat)));
    }
}

/// The message of a component error.
pub open spec fn component_error_text(e: ComponentError) -> Seq<char> {
    match e {
        ComponentError::ComponentNotFoundedError(ComponentNotFounded(k)) => "Component "@ + decimal(k as nat)
            + " not founded"@,
        ComponentError::ComponentAlreadyExistsError(ComponentAlreadyExists(k)) => "Component "@ + decimal(
            k as nat,
        ) + " already exists"@,
        ComponentError::ComponentAlreadyBorrowedError(ComponentAlreadyBorrowed(k)) => "Component "@ + decimal(
            k as nat,
        ) + " already borrowed"@,
        ComponentError::ComponentUnableDowncastError(ComponentUnableDowncast(k)) => "Unable downcast component "@
            + decimal(k as nat),
    }
}

/// The message of a table error.
pub open spec fn archetype_error_text(e: ArchetypeError) -> Seq<char> {
    match e {
        ArchetypeError::EntityNotFoundedError(EntityNotFounded(id)) => "Entity "@ + decimal(id as nat)
            + " not founded"@,
        ArchetypeError::EntityAlreadyHaveComponentError(EntityAlreadyHaveComponent(id, k)) => "Entity "@
            + decimal(id as nat) + " already have component "@ + decimal(k as nat),
    }
}

impl ComponentError {
    /// The error as a sentence, naming the component kind.
    pub fn message(&self) -> (r: String)
        ensures
            r@ == component_error_text(*self),
    {
        let mut out = String::new();
        match self {
            ComponentError::ComponentNotFoundedError(e) => {
                out.append("Component ");
                append_decimal(&mut out, e.0);
                out.append(" not founded");
            },
            ComponentError::ComponentAlreadyExistsError(e) => {
                out.append("Component ");
                append_decimal(&mut out, e.0);
                out.append(" already exists");
            },
            ComponentError::ComponentAlreadyBorrowedError(e) => {
                out.append("Component ");
                append_decimal(&mut out, e.0);
                out.append(" already borrowed");
            },
            ComponentError::ComponentUnableDowncastError(e) => {
                out.append("Unable downcast component ");
                append_decimal(&mut out, e.0);
            },
        }
        assert(out@ =~= component_error_text(*self));
        out
    }
}

impl ArchetypeError {
    /// The error as a sentence, naming the entity and component kind.
    pub fn message(&self) -> (r: String)
        ensures
            r@ == archetype_error_text(*self),
    {
        let mut out = String::new();
        match self {
            ArchetypeError::EntityNotFoundedError(e) => {
                out.append("Entity ");
                append_decimal(&mut out, e.0 as u64);
                out.append(" not founded");
            },
            ArchetypeError::EntityAlreadyHaveComponentError(e) => {
                out.append("Entity ");
                append_decimal(&mut out, e.0 as u64);
                out.append(" already have component ");
                append_decimal(&mut out, e.1);
            },
        }
        assert(out@ =~= archetype_error_text(*self));
        out
    }
}

} // verus!
