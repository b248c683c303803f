//! The registry of live entities, in the order in which they were registered.

use vstd::prelude::*;
use crate::game::components::{Action, Drawable, Entity, EntityId, GameError, Position, Role};

verus! {

/// Whether some entity of `entities` is named `id`.
pub open spec fn holds(entities: Seq<Entity>, id: EntityId) -> bool {
    exists|i: int| 0 <= i < entities.len() && (#[trigger] entities[i]).id == id
}

/// Where the entity named `id` stands in `entities`, if `holds(entities, id)`.
pub open spec fn index_of(entities: Seq<Entity>, id: EntityId) -> int {
    choose|i: int| 0 <= i < entities.len() && (#[trigger] entities[i]).id == id
}

/// Whether some entity of `entities` stands on the cell `c`.
pub open spec fn occupied(entities: Seq<Entity>, c: (int, int)) -> bool {
    exists|i: int| 0 <= i < entities.len() && (#[trigger] entities[i]).position.cell() == c
}

/// Where an entity that stands on `c` is found in `entities`, if
/// `occupied(entities, c)`.
pub open spec fn index_at(entities: Seq<Entity>, c: (int, int)) -> int {
    choose|i: int| 0 <= i < entities.len() && (#[trigger] entities[i]).position.cell() == c
}

/// Whether `role` passes `filter`; `None` lets every role pass.
pub open spec fn passes(filter: Option<Role>, role: Role) -> bool {
    match filter {
        None => true,
        Some(wanted) => wanted == role,
    }
}

/// Whether every entity whose role passes `filter` has decided.
pub open spec fn all_decided(entities: Seq<Entity>, filter: Option<Role>) -> bool {
    forall|i: int|
        0 <= i < entities.len() && passes(filter, (#[trigger] entities[i]).role)
            ==> entities[i].action is Some
}

/// Whether no entity has a decision left to resolve.
pub open spec fn all_resolved(entities: Seq<Entity>) -> bool {
    forall|i: int| 0 <= i < entities.len() ==> (#[trigger] entities[i]).action is None
}

/// Whether a new entity may be placed on `position`: the position is a cell
/// of the `width` by `height` grid and no entity of `entities` stands on it.
pub open spec fn admits(entities: Seq<Entity>, width: int, height: int, position: Position)
    -> bool {
    &&& position.x < width
    &&& position.y < height
    &&& !occupied(entities, position.cell())
}

/// Two rosters whose entities stand on the same cells, place by place, occupy
/// the same cells.
pub proof fn lemma_same_cells(left: Seq<Entity>, right: Seq<Entity>)
    requires
        left.len() == right.len(),
        forall|i: int| 0 <= i < left.len() ==> (#[trigger] left[i]).position == right[i].position,
    ensures
        forall|c: (int, int)| occupied(left, c) == occupied(right, c),
{
    assert forall|c: (int, int)| occupied(left, c) == occupied(right, c) by {
        if occupied(left, c) {
            let i = index_at(left, c);
            assert(left[i].position == right[i].position);
            assert(right[i].position.cell() == c);
        }
        if occupied(right, c) {
            let i = index_at(right, c);
            assert(left[i].position == right[i].position);
            assert(left[i].position.cell() == c);
        }
    }
}

/// What a valid roster for a `width` by `height` grid looks like: names
/// ascend in registration order, no two entities share a cell, and every
/// entity stands on the grid.
pub open spec fn roster_wf(entities: Seq<Entity>, width: int, height: int) -> bool {
    &&& forall|i: int, j: int|
        0 <= i < j < entities.len() ==> (#[trigger] entities[i]).id.0
            < (#[trigger] entities[j]).id.0
    &&& forall|i: int, j: int|
        0 <= i < j < entities.len() ==> (#[trigger] entities[i]).position
            != (#[trigger] entities[j]).position
    &&& forall|i: int|
        0 <= i < entities.len() ==> (#[trigger] entities[i]).position.x < width
            && entities[i].position.y < height
}

/// In a valid roster a name belongs to one entity only.
pub proof fn lemma_index_of(entities: Seq<Entity>, width: int, height: int, i: int)
    requires
        roster_wf(entities, width, height),
        0 <= i < entities.len(),
    ensures
        holds(entities, entities[i].id),
        index_of(entities, entities[i].id) == i,
{
}

/// In a valid roster a cell belongs to one entity only.
pub proof fn lemma_index_at(entities: Seq<Entity>, width: int, height: int, i: int)
    requires
        roster_wf(entities, width, height),
        0 <= i < entities.len(),
    ensures
        occupied(entities, entities[i].position.cell()),
        index_at(entities, entities[i].position.cell()) == i,
{
}

/// The live entities of one grid.
pub struct EntityRegistry {
    width: u32,
    height: u32,
    entities: Vec<Entity>,
    next_id: u64,
}

impl View for EntityRegistry {
    type V = Seq<Entity>;

    /// The live entities in registration order.
    closed spec fn view(&self) -> Seq<Entity> {
        self.entities@
    }
}

impl EntityRegistry {
    /// Number of columns of the grid that the entities live on.
    pub closed spec fn spec_width(&self) -> int {
        self.width as int
    }

    /// Number of rows of the grid that the entities live on.
    pub closed spec fn spec_height(&self) -> int {
        self.height as int
    }

    /// How many names were issued so far. The next entity gets this number as
    /// its name.
    pub closed spec fn issued(&self) -> int {
        self.next_id as int
    }

    /// The roster is valid and every name in it was issued.
    pub open spec fn wf(&self) -> bool {
        &&& roster_wf(self@, self.spec_width(), self.spec_height())
        &&& 0 <= self.issued() <= u64::MAX
        &&& forall|i: int| 0 <= i < self@.len() ==> (#[trigger] self@[i]).id.0 < self.issued()
    }

    /// Same grid size and same number of names issued.
    pub open spec fn same_frame(&self, other: &EntityRegistry) -> bool {
        &&& self.spec_width() == other.spec_width()
        &&& self.spec_height() == other.spec_height()
        &&& self.issued() == other.issued()
    }

    /// An empty registry for a `width` by `height` grid.
    pub fn new(width: u32, height: u32) -> (made: EntityRegistry)
        ensures
            made.wf(),
            made@ == Seq::<Entity>::empty(),
            made.spec_width() == width,
            made.spec_height() == height,
            made.issued() == 0,
    {
        EntityRegistry { width, height, entities: Vec::new(), next_id: 0 }
    }

    /// Number of columns of the grid that the entities live on.
    pub fn width(&self) -> (w: u32)
        ensures
            w == self.spec_width(),
    {
        self.width
    }

    /// Number of rows of the grid that the entities live on.
    pub fn height(&self) -> (h: u32)
        ensures
            h == self.spec_height(),
    {
        self.height
    }

    /// Number of live entities.
    pub fn len(&self) -> (n: usize)
        ensures
            n == self@.len(),
    {
        self.entities.len()
    }

    /// Place of the entity named `id`.
    fn find(&self, id: EntityId) -> (found: Option<usize>)
        requires
            self.wf(),
        ensures
            found is Some <==> holds(self@, id),
            found matches Some(k) ==> k == index_of(self@, id) && k < self@.len()
                && self@[k as int].id == id,
    {
        let mut k: usize = 0;
        while k < self.entities.len()
            invariant
                k <= self.entities@.len(),
                self.wf(),
                forall|i: int| 0 <= i < k ==> (#[trigger] self.entities@[i]).id != id,
            decreases self.entities@.len() - k,
        {
            if self.entities[k].id == id {
                return Some(k);
            }
            k += 1;
        }
        None
    }

    /// Place of the entity that stands on `position`.
    fn find_at(&self, position: Position) -> (found: Option<usize>)
        requires
            self.wf(),
        ensures
            found is Some <==> occupied(self@, position.cell()),
            found matches Some(k) ==> k == index_at(self@, position.cell()) && k < self@.len()
                && self@[k as int].position == position,
    {
        let mut k: usize = 0;
        while k < self.entities.len()
            invariant
                k <= self.entities@.len(),
                self.wf(),
                forall|i: int|
                    0 <= i < k ==> (#[trigger] self.entities@[i]).position.cell()
                        != position.cell(),
            decreases self.entities@.len() - k,
        {
            if self.entities[k].position == position {
                return Some(k);
            }
            k += 1;
        }
        None
    }

    /// Whether a live entity is named `id`.
    pub fn contains(&self, id: EntityId) -> (found: bool)
        requires
            self.wf(),
        ensures
            found == holds(self@, id),
    {
        self.find(id).is_some()
    }

    /// The entity named `id`; `UnknownEntity` where no live entity has that
    /// name.
    pub fn get(&self, id: EntityId) -> (found: Result<Entity, GameError>)
        requires
            self.wf(),
        ensures
            found == if holds(self@, id) {
                Ok::<Entity, GameError>(self@[index_of(self@, id)])
            } else {
                Err::<Entity, GameError>(GameError::UnknownEntity)
            },
    {
        match self.find(id) {
            Some(k) => Ok(self.entities[k]),
            None => Err(GameError::UnknownEntity),
        }
    }

    /// The entity that stands on `position`, if one does.
    pub fn occupant_at(&self, position: Position) -> (found: Option<Entity>)
        requires
            self.wf(),
        ensures
            found == if occupied(self@, position.cell()) {
                Some(self@[index_at(self@, position.cell())])
            } else {
                None::<Entity>
            },
    {
        match self.find_at(position) {
            Some(k) => Some(self.entities[k]),
            None => None,
        }
    }

    /// Registers a new entity at `position` that has not decided yet, and
    /// gives it a name that no entity had before.
    ///
    /// `OutOfBounds` where `position` is no cell of the grid; otherwise
    /// `PositionOccupied` where a live entity stands there. Nothing changes on
    /// an error.
    pub fn spawn(&mut self, position: Position, role: Role, texture: Drawable) -> (spawned: Result<
        EntityId,
        GameError,
    >)
        requires
            old(self).wf(),
            old(self).issued() < u64::MAX,
        ensures
            final(self).wf(),
            final(self).spec_width() == old(self).spec_width(),
            final(self).spec_height() == old(self).spec_height(),
            spawned == if !(position.x < old(self).spec_width() && position.y < old(
                self,
            ).spec_height()) {
                Err::<EntityId, GameError>(GameError::OutOfBounds)
            } else if occupied(old(self)@, position.cell()) {
                Err::<EntityId, GameError>(GameError::PositionOccupied)
            } else {
                Ok::<EntityId, GameError>(EntityId(old(self).issued() as u64))
            },
            spawned is Ok <==> admits(
                old(self)@,
                old(self).spec_width(),
                old(self).spec_height(),
                position,
            ),
            spawned matches Ok(id) ==> {
                &&& final(self)@ == old(self)@.push(
                    (Entity { id, position, role, drawable: texture, action: None }),
                )
                &&& final(self).issued() == old(self).issued() + 1
            },
            spawned is Err ==> final(self)@ == old(self)@ && final(self).issued() == old(
                self,
            ).issued(),
            forall|id: EntityId|
                id.0 < old(self).issued() ==> holds(final(self)@, id) == holds(old(self)@, id),
    {
        if !(position.x < self.width && position.y < self.height) {
            return Err(GameError::OutOfBounds);
        }
        if self.find_at(position).is_some() {
            return Err(GameError::PositionOccupied);
        }
        let id = EntityId(self.next_id);
        let entity = Entity { id, position, role, drawable: texture, action: None };
        self.entities.push(entity);
        self.next_id = self.next_id + 1;
        proof {
            let before = old(self)@;
            let after = self@;
            assert forall|id: EntityId| id.0 < old(self).issued() implies holds(after, id) == holds(
                before,
                id,
            ) by {
                if holds(after, id) {
                    let i = index_of(after, id);
                    assert(before[i].id == id);
                }
                if holds(before, id) {
                    let i = index_of(before, id);
                    assert(after[i].id == id);
                }
            }
        }
        Ok(id)
    }

    /// Removes the entity named `id`; the others keep their order.
    /// `UnknownEntity`, and no change, where no live entity has that name.
    pub fn despawn(&mut self, id: EntityId) -> (done: Result<(), GameError>)
        requires
            old(self).wf(),
        ensures
            final(self).wf(),
            final(self).same_frame(old(self)),
            done == if holds(old(self)@, id) {
                Ok::<(), GameError>(())
            } else {
                Err::<(), GameError>(GameError::UnknownEntity)
            },
            final(self)@ == if holds(old(self)@, id) {
                old(self)@.remove(index_of(old(self)@, id))
            } else {
                old(self)@
            },
            !holds(final(self)@, id),
    {
        match self.find(id) {
            None => Err(GameError::UnknownEntity),
            Some(k) => {
                let _ = self.entities.remove(k);
                Ok(())
            },
        }
    }

    /// Records `action` as the decision of the entity named `id`, in place of
    /// an earlier one. `UnknownEntity`, and no change, where no live entity
    /// has that name.
    pub fn set_action(&mut self, id: EntityId, action: Action) -> (done: Result<(), GameError>)
        requires
            old(self).wf(),
        ensures
            final(self).wf(),
            final(self).same_frame(old(self)),
            done == if holds(old(self)@, id) {
                Ok::<(), GameError>(())
            } else {
                Err::<(), GameError>(GameError::UnknownEntity)
            },
            final(self)@ == if holds(old(self)@, id) {
                let k = index_of(old(self)@, id);
                old(self)@.update(k, (Entity { action: Some(action), ..old(self)@[k] }))
            } else {
                old(self)@
            },
    {
        self.put_action(id, Some(action))
    }

    /// Forgets the decision of the entity named `id`. `UnknownEntity`, and no
    /// change, where no live entity has that name.
    pub fn clear_action(&mut self, id: EntityId) -> (done: Result<(), GameError>)
        requires
            old(self).wf(),
        ensures
            final(self).wf(),
            final(self).same_frame(old(self)),
            done == if holds(old(self)@, id) {
                Ok::<(), GameError>(())
            } else {
                Err::<(), GameError>(GameError::UnknownEntity)
            },
            final(self)@ == if holds(old(self)@, id) {
                let k = index_of(old(self)@, id);
                old(self)@.update(k, (Entity { action: None, ..old(self)@[k] }))
            } else {
                old(self)@
            },
    {
        self.put_action(id, None)
    }

    /// Writes the decision slot of the entity named `id`.
    fn put_action(&mut self, id: EntityId, action: Option<Action>) -> (done: Result<(), GameError>)
        requires
            old(self).wf(),
        ensures
            final(self).wf(),
            final(self).same_frame(old(self)),
            done == if holds(old(self)@, id) {
                Ok::<(), GameError>(())
            } else {
                Err::<(), GameError>(GameError::UnknownEntity)
            },
            final(self)@ == if holds(old(self)@, id) {
                let k = index_of(old(self)@, id);
                old(self)@.update(k, (Entity { action, ..old(self)@[k] }))
            } else {
                old(self)@
            },
    {
        match self.find(id) {
            None => Err(GameError::UnknownEntity),
            Some(k) => {
                let mut entity = self.entities[k];
                entity.action = action;
                self.entities[k] = entity;
                Ok(())
            },
        }
    }

    /// Moves the entity named `id` to the cell `to`.
    ///
    /// `UnknownEntity` where no live entity has that name; otherwise
    /// `OutOfBounds` where `to` is no cell of the grid; otherwise
    /// `PositionOccupied` where another live entity stands on `to`. Nothing
    /// changes on an error.
    pub fn relocate(&mut self, id: EntityId, to: Position) -> (done: Result<(), GameError>)
        requires
            old(self).wf(),
        ensures
            final(self).wf(),
            final(self).same_frame(old(self)),
            done == if !holds(old(self)@, id) {
                Err::<(), GameError>(GameError::UnknownEntity)
            } else if !(to.x < old(self).spec_width() && to.y < old(self).spec_height()) {
                Err::<(), GameError>(GameError::OutOfBounds)
            } else if occupied(old(self)@, to.cell()) && index_at(old(self)@, to.cell())
                != index_of(old(self)@, id) {
                Err::<(), GameError>(GameError::PositionOccupied)
            } else {
                Ok::<(), GameError>(())
            },
            final(self)@ == if done is Ok {
                let k = index_of(old(self)@, id);
                old(self)@.update(k, (Entity { position: to, ..old(self)@[k] }))
            } else {
                old(self)@
            },
    {
        let k = match self.find(id) {
            None => {
                return Err(GameError::UnknownEntity);
            },
            Some(k) => k,
        };
        if !(to.x < self.width && to.y < self.height) {
            return Err(GameError::OutOfBounds);
        }
        match self.find_at(to) {
            Some(other) => {
                if other != k {
                    return Err(GameError::PositionOccupied);
                }
            },
            None => {},
        }
        let mut entity = self.entities[k];
        entity.position = to;
        self.entities[k] = entity;
        Ok(())
    }

    /// Whether every live entity whose role passes `role_filter` has decided;
    /// `None` asks it of every entity.
    pub fn all_decided(&self, role_filter: Option<Role>) -> (decided: bool)
        ensures
            decided == all_decided(self@, role_filter),
    {
        let mut k: usize = 0;
        while k < self.entities.len()
            invariant
                k <= self.entities@.len(),
                forall|i: int|
                    0 <= i < k && passes(role_filter, (#[trigger] self.entities@[i]).role)
                        ==> self.entities@[i].action is Some,
            decreases self.entities@.len() - k,
        {
            let entity = self.entities[k];
            let wanted = match role_filter {
                None => true,
                Some(role) => role == entity.role,
            };
            if wanted && entity.action.is_none() {
                return false;
            }
            k += 1;
        }
        true
    }

    /// Whether no live entity has a decision left to resolve.
    pub fn all_resolved(&self) -> (resolved: bool)
        ensures
            resolved == all_resolved(self@),
    {
        let mut k: usize = 0;
        while k < self.entities.len()
            invariant
                k <= self.entities@.len(),
                forall|i: int| 0 <= i < k ==> (#[trigger] self.entities@[i]).action is None,
            decreases self.entities@.len() - k,
        {
            if self.entities[k].action.is_some() {
                return false;
            }
            k += 1;
        }
        true
    }

    /// Name, position and decision of every live entity, in registration
    /// order.
    pub fn positions_and_actions(&self) -> (snapshot: Vec<(EntityId, Position, Option<Action>)>)
        ensures
            snapshot@.len() == self@.len(),
            forall|i: int|
                0 <= i < self@.len() ==> #[trigger] snapshot@[i] == (
                    self@[i].id,
                    self@[i].position,
                    self@[i].action,
                ),
    {
        let mut snapshot: Vec<(EntityId, Position, Option<Action>)> = Vec::new();
        let mut k: usize = 0;
        while k < self.entities.len()
            invariant
                k <= self.entities@.len(),
                snapshot@.len() == k,
                forall|i: int|
                    0 <= i < k ==> #[trigger] snapshot@[i] == (
                        self.entities@[i].id,
                        self.entities@[i].position,
                        self.entities@[i].action,
                    ),
            decreases self.entities@.len() - k,
        {
            let entity = self.entities[k];
            snapshot.push((entity.id, entity.position, entity.action));
            k += 1;
        }
        snapshot
    }

    /// Every live entity, in registration order.
    pub fn entities(&self) -> (all: Vec<Entity>)
        ensures
            all@ == self@,
    {
        self.entities.clone()
    }
}

/// A valid roster stays valid when one entity leaves it, and every other
/// entity is found under its name as before.
pub proof fn lemma_remove_keeps_roster(entities: Seq<Entity>, width: int, height: int, k: int)
    requires
        roster_wf(entities, width, height),
        0 <= k < entities.len(),
    ensures
        roster_wf(entities.remove(k), width, height),
        !holds(entities.remove(k), entities[k].id),
        !occupied(entities.remove(k), entities[k].position.cell()),
        forall|id: EntityId|
            id != entities[k].id ==> holds(entities.remove(k), id) == holds(entities, id),
        forall|id: EntityId|
            id != entities[k].id && holds(entities, id) ==> entities.remove(k)[index_of(
                entities.remove(k),
                id,
            )] == entities[index_of(entities, id)],
{
    let rest = entities.remove(k);
    assert forall|id: EntityId| id != entities[k].id implies holds(rest, id) == holds(
        entities,
        id,
    ) by {
        if holds(rest, id) {
            let i = index_of(rest, id);
            let a = if i < k { i } else { i + 1 };
            assert(entities[a].id == id);
        }
        if holds(entities, id) {
            let a = index_of(entities, id);
            let i = if a < k { a } else { a - 1 };
            assert(rest[i].id == id);
        }
    }
}

/// A valid roster stays valid when one entity is replaced by an entity of the
/// same name on a cell of the grid that no other entity holds, and every
/// entity is found under its name in the same place as before.
pub proof fn lemma_update_keeps_roster(
    entities: Seq<Entity>,
    width: int,
    height: int,
    k: int,
    changed: Entity,
)
    requires
        roster_wf(entities, width, height),
        0 <= k < entities.len(),
        changed.id == entities[k].id,
        changed.position.x < width,
        changed.position.y < height,
        forall|i: int|
            0 <= i < entities.len() && i != k ==> (#[trigger] entities[i]).position
                != changed.position,
    ensures
        roster_wf(entities.update(k, changed), width, height),
        forall|id: EntityId| holds(entities.update(k, changed), id) == holds(entities, id),
        forall|id: EntityId|
            holds(entities, id) ==> index_of(entities.update(k, changed), id) == index_of(
                entities,
                id,
            ),
        index_of(entities, changed.id) == k,
{
    let after = entities.update(k, changed);
    assert forall|id: EntityId| holds(after, id) == holds(entities, id) by {
        if holds(after, id) {
            let i = index_of(after, id);
            assert(entities[i].id == id);
        }
        if holds(entities, id) {
            let i = index_of(entities, id);
            assert(after[i].id == id);
        }
    }
}

} // verus!
