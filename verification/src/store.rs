//! The entity store: owns every entity's components and hands out stable
//! entity identifiers. Component kinds must be registered before entities
//! can be created; an entity, once created, is never destroyed.

use crate::components::{move_to_wf, pos_wf, MoveTo, Pos};
use vstd::prelude::*;

verus! {

/// Why the store refused an operation.
#[derive(Clone, Copy, Debug, PartialEq, Eq, Structural)]
pub enum StoreError {
    /// A component kind was used before being registered.
    NotRegistered,
}

/// A stable entity identifier handed out by the store at creation.
#[derive(Clone, Copy, Debug, PartialEq, Eq, Structural)]
pub struct Entity {
    pub id: usize,
}

/// The component store. Every entity has both a position and a movement
/// target, held in parallel columns indexed by entity id.
pub struct EntityStore {
    pub pos_registered: bool,
    pub target_registered: bool,
    pub positions: Vec<Pos>,
    pub targets: Vec<MoveTo>,
}

impl EntityStore {
    /// Both columns cover the same entities and every component is well formed.
    pub open spec fn wf(self) -> bool {
        &&& self.positions@.len() == self.targets@.len()
        &&& forall|i: int|
            0 <= i < self.positions@.len() ==> pos_wf(#[trigger] self.positions@[i])
        &&& forall|i: int|
            0 <= i < self.targets@.len() ==> move_to_wf(#[trigger] self.targets@[i])
    }

    /// Number of entities in the store.
    pub open spec fn spec_len(self) -> nat {
        self.positions@.len()
    }

    /// Both component kinds have been registered.
    pub open spec fn registered(self) -> bool {
        self.pos_registered && self.target_registered
    }

    /// The identifier names an entity of this store.
    pub open spec fn valid_entity(self, e: Entity) -> bool {
        e.id < self.spec_len()
    }

    /// An empty store with no component kind registered yet.
    pub fn new() -> (s: Self)
        ensures
            s.wf(),
            s.spec_len() == 0,
            !s.pos_registered,
            !s.target_registered,
    {
        EntityStore {
            pos_registered: false,
            target_registered: false,
            positions: Vec::new(),
            targets: Vec::new(),
        }
    }

    /// Registers the position component kind.
    pub fn register_pos(&mut self)
        ensures
            *final(self) == (EntityStore { pos_registered: true, ..*old(self) }),
    {
        self.pos_registered = true;
    }

    /// Registers the movement-target component kind.
    pub fn register_move_to(&mut self)
        ensures
            *final(self) == (EntityStore { target_registered: true, ..*old(self) }),
    {
        self.target_registered = true;
    }

    /// Creates an entity with an initial position and movement target.
    /// Fails exactly when a component kind has not been registered.
    pub fn create(&mut self, pos: Pos, target: MoveTo) -> (r: Result<Entity, StoreError>)
        requires
            old(self).wf(),
            pos_wf(pos),
            move_to_wf(target),
        ensures
            final(self).wf(),
            r is Ok <==> old(self).registered(),
            r is Err ==> *final(self) == *old(self) && r == Err::<Entity, StoreError>(
                StoreError::NotRegistered,
            ),
            r matches Ok(e) ==> {
                &&& e.id == old(self).spec_len()
                &&& final(self).positions@ == old(self).positions@.push(pos)
                &&& final(self).targets@ == old(self).targets@.push(target)
                &&& final(self).pos_registered == old(self).pos_registered
                &&& final(self).target_registered == old(self).target_registered
            },
    {
        if !(self.pos_registered && self.target_registered) {
            return Err(StoreError::NotRegistered);
        }
        let e = Entity { id: self.positions.len() };
        self.positions.push(pos);
        self.targets.push(target);
        Ok(e)
    }

    /// Number of entities.
    pub fn len(&self) -> (n: usize)
        ensures
            n == self.spec_len(),
    {
        self.positions.len()
    }

    /// Read access to an entity's position.
    pub fn position(&self, e: Entity) -> (p: Pos)
        requires
            self.valid_entity(e),
        ensures
            p == self.positions@[e.id as int],
    {
        self.positions[e.id]
    }

    /// Read access to an entity's movement target.
    pub fn move_target(&self, e: Entity) -> (m: MoveTo)
        requires
            self.wf(),
            self.valid_entity(e),
        ensures
            m == self.targets@[e.id as int],
    {
        self.targets[e.id]
    }
}

} // verus!
