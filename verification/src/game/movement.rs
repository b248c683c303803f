//! Resolution: turning the decision of an entity into a change of the board.

use vstd::prelude::*;
use crate::game::components::{Action, Entity, EntityId, GameError, Position};
use crate::game::registry::{
    all_resolved,
    holds,
    index_at,
    index_of,
    lemma_index_of,
    lemma_remove_keeps_roster,
    lemma_update_keeps_roster,
    occupied,
    roster_wf,
    EntityRegistry,
};
use crate::game::tilemap::TilemapGrid;

verus! {

/// What the rules of a turn read and change: the size of the grid, its walls,
/// and the live entities in registration order.
pub struct Board {
    pub width: int,
    pub height: int,
    pub walls: Set<(int, int)>,
    pub entities: Seq<Entity>,
}

/// The board that a registry and a grid stand for.
pub open spec fn board(registry: &EntityRegistry, grid: &TilemapGrid) -> Board {
    Board {
        width: grid.spec_width(),
        height: grid.spec_height(),
        walls: grid.walls(),
        entities: registry@,
    }
}

/// The registry was made for a grid of the size of `grid`.
pub open spec fn fits(registry: &EntityRegistry, grid: &TilemapGrid) -> bool {
    &&& registry.spec_width() == grid.spec_width()
    &&& registry.spec_height() == grid.spec_height()
}

/// How the decision of one entity was resolved.
#[derive(Clone, Copy, Debug, PartialEq, Eq, Structural)]
pub enum Outcome {
    /// The entity chose to stay where it is.
    Stayed,
    /// The destination is no cell of the grid: nothing moved.
    OffGrid,
    /// A wall stood at the destination. The wall is gone and the entity has
    /// not moved.
    WallDestroyed,
    /// An entity of the same role stands at the destination: nothing moved.
    Blocked,
    /// An entity of the other role stood at the destination. It was
    /// eliminated and the mover has taken its cell.
    Eliminated(EntityId),
    /// The entity moved to the destination, which was free.
    Moved,
}

/// How the decision of the entity in place `i` of the board is resolved.
///
/// The rules apply in this order: staying changes nothing; a destination
/// outside the grid changes nothing; a wall at the destination is destroyed in
/// place of the move; an entity of the other role at the destination is
/// eliminated and the mover takes its cell; an entity of the same role there
/// blocks the move; otherwise the mover takes the free cell.
pub open spec fn outcome(b: Board, i: int) -> Outcome
    recommends
        0 <= i < b.entities.len(),
        b.entities[i].action is Some,
{
    let mover = b.entities[i];
    let action = mover.action.unwrap();
    let to = action.target(mover.position);
    if action == Action::Stay {
        Outcome::Stayed
    } else if !(0 <= to.0 < b.width && 0 <= to.1 < b.height) {
        Outcome::OffGrid
    } else if b.walls.contains(to) {
        Outcome::WallDestroyed
    } else if occupied(b.entities, to) {
        let other = b.entities[index_at(b.entities, to)];
        if other.role != mover.role {
            Outcome::Eliminated(other.id)
        } else {
            Outcome::Blocked
        }
    } else {
        Outcome::Moved
    }
}

/// The board after the decision of the entity in place `i` is resolved. In
/// every case the entity has no decision left.
pub open spec fn step(b: Board, i: int) -> Board
    recommends
        0 <= i < b.entities.len(),
        b.entities[i].action is Some,
{
    let mover = b.entities[i];
    let to = mover.action.unwrap().target(mover.position);
    let rested = Entity { action: None, ..mover };
    let arrived = Entity {
        position: Position { x: to.0 as u32, y: to.1 as u32 },
        action: None,
        ..mover
    };
    match outcome(b, i) {
        Outcome::Stayed | Outcome::OffGrid | Outcome::Blocked => Board {
            entities: b.entities.update(i, rested),
            ..b
        },
        Outcome::WallDestroyed => Board {
            walls: b.walls.remove(to),
            entities: b.entities.update(i, rested),
            ..b
        },
        Outcome::Eliminated(_) => Board {
            entities: b.entities.update(i, arrived).remove(index_at(b.entities, to)),
            ..b
        },
        Outcome::Moved => Board { entities: b.entities.update(i, arrived), ..b },
    }
}

/// Whether a live entity is named `id` and has a decision to resolve.
pub open spec fn ready(b: Board, id: EntityId) -> bool {
    holds(b.entities, id) && b.entities[index_of(b.entities, id)].action is Some
}

/// The board after the decisions of the entities named in `ids` are resolved
/// one after the other, first name first. A name whose entity is gone by the
/// time its turn comes, or has no decision, is passed over.
pub open spec fn pass(b: Board, ids: Seq<EntityId>) -> Board
    decreases ids.len(),
{
    if ids.len() == 0 {
        b
    } else {
        let next = if ready(b, ids[0]) {
            step(b, index_of(b.entities, ids[0]))
        } else {
            b
        };
        pass(next, ids.drop_first())
    }
}

/// The names of `entities`, in order.
pub open spec fn names(entities: Seq<Entity>) -> Seq<EntityId> {
    Seq::new(entities.len(), |i: int| entities[i].id)
}

/// The sides of the board fit in `u32` and its roster is valid.
pub open spec fn board_wf(b: Board) -> bool {
    &&& b.width <= u32::MAX
    &&& b.height <= u32::MAX
    &&& roster_wf(b.entities, b.width, b.height)
}

/// Updating the mover and removing another entity can be done in either
/// order.
proof fn lemma_update_then_remove(s: Seq<Entity>, i: int, j: int, arrived: Entity)
    requires
        0 <= i < s.len(),
        0 <= j < s.len(),
        i != j,
    ensures
        s.remove(j)[if j < i { i - 1 } else { i }] == s[i],
        s.remove(j).update(if j < i { i - 1 } else { i }, arrived) == s.update(i, arrived).remove(
            j,
        ),
{
}

/// Resolving a decision keeps the board well formed, adds no entity, removes
/// none but an eliminated one, sets no wall, and changes no entity but the
/// mover, which is left without a decision.
pub proof fn lemma_step(b: Board, i: int)
    requires
        board_wf(b),
        0 <= i < b.entities.len(),
        b.entities[i].action is Some,
    ensures
        board_wf(step(b, i)),
        step(b, i).width == b.width,
        step(b, i).height == b.height,
        step(b, i).walls.subset_of(b.walls),
        holds(step(b, i).entities, b.entities[i].id),
        step(b, i).entities[index_of(step(b, i).entities, b.entities[i].id)].action is None,
        forall|id: EntityId| holds(step(b, i).entities, id) ==> holds(b.entities, id),
        forall|id: EntityId|
            holds(step(b, i).entities, id) && id != b.entities[i].id ==> step(
                b,
                i,
            ).entities[index_of(step(b, i).entities, id)] == b.entities[index_of(b.entities, id)],
{
    let s = b.entities;
    let mover = s[i];
    let to = mover.action.unwrap().target(mover.position);
    let rested = Entity { action: None, ..mover };
    let arrived = Entity {
        position: Position { x: to.0 as u32, y: to.1 as u32 },
        action: None,
        ..mover
    };
    let after = step(b, i).entities;
    match outcome(b, i) {
        Outcome::Stayed | Outcome::OffGrid | Outcome::Blocked | Outcome::WallDestroyed => {
            assert(after == s.update(i, rested));
            lemma_update_keeps_roster(s, b.width, b.height, i, rested);
        },
        Outcome::Moved => {
            assert(after == s.update(i, arrived));
            assert forall|x: int| 0 <= x < s.len() && x != i implies (#[trigger] s[x]).position
                != arrived.position by {
                if s[x].position == arrived.position {
                    assert(s[x].position.cell() == to);
                }
            }
            lemma_update_keeps_roster(s, b.width, b.height, i, arrived);
        },
        Outcome::Eliminated(_) => {
            let j = index_at(s, to);
            assert(0 <= j < s.len() && s[j].position.cell() == to);
            let k1 = if j < i { i - 1 } else { i };
            lemma_update_then_remove(s, i, j, arrived);
            let rest = s.remove(j);
            lemma_remove_keeps_roster(s, b.width, b.height, j);
            assert(after == rest.update(k1, arrived));
            assert forall|x: int| 0 <= x < rest.len() && x != k1 implies (#[trigger] rest[x])
                .position != arrived.position by {
                if rest[x].position == arrived.position {
                    assert(rest[x].position.cell() == s[j].position.cell());
                }
            }
            lemma_update_keeps_roster(rest, b.width, b.height, k1, arrived);
        },
    }
}

/// A resolution pass keeps the board well formed, adds no entity, sets no
/// wall, and leaves the size of the grid alone. A name that is gone stays
/// gone.
pub proof fn lemma_pass(b: Board, ids: Seq<EntityId>)
    requires
        board_wf(b),
    ensures
        board_wf(pass(b, ids)),
        pass(b, ids).width == b.width,
        pass(b, ids).height == b.height,
        pass(b, ids).walls.subset_of(b.walls),
        forall|id: EntityId| holds(pass(b, ids).entities, id) ==> holds(b.entities, id),
    decreases ids.len(),
{
    if ids.len() > 0 {
        let next = if ready(b, ids[0]) {
            step(b, index_of(b.entities, ids[0]))
        } else {
            b
        };
        if ready(b, ids[0]) {
            lemma_step(b, index_of(b.entities, ids[0]));
        }
        lemma_pass(next, ids.drop_first());
    }
}

/// A resolution pass leaves no decision to an entity that it names or that
/// had none before.
proof fn lemma_pass_clears(b: Board, ids: Seq<EntityId>)
    requires
        board_wf(b),
    ensures
        forall|k: int|
            #![trigger pass(b, ids).entities[k]]
            0 <= k < pass(b, ids).entities.len() && (ids.contains(pass(b, ids).entities[k].id)
                || b.entities[index_of(b.entities, pass(b, ids).entities[k].id)].action is None)
                ==> pass(b, ids).entities[k].action is None,
    decreases ids.len(),
{
    if ids.len() == 0 {
        assert forall|k: int|
            #![trigger b.entities[k]]
            0 <= k < b.entities.len() implies index_of(b.entities, b.entities[k].id) == k by {
            lemma_index_of(b.entities, b.width, b.height, k);
        }
    } else {
        let rest = ids.drop_first();
        let next = if ready(b, ids[0]) {
            step(b, index_of(b.entities, ids[0]))
        } else {
            b
        };
        if ready(b, ids[0]) {
            lemma_step(b, index_of(b.entities, ids[0]));
        }
        lemma_pass(next, rest);
        lemma_pass_clears(next, rest);
        let end = pass(b, ids).entities;
        assert forall|k: int|
            #![trigger end[k]]
            0 <= k < end.len() && (ids.contains(end[k].id) || b.entities[index_of(
                b.entities,
                end[k].id,
            )].action is None) implies end[k].action is None by {
            let id = end[k].id;
            lemma_index_of(end, b.width, b.height, k);
            assert(holds(next.entities, id));
            if id != ids[0] && ids.contains(id) {
                let at = choose|at: int| 0 <= at < ids.len() && ids[at] == id;
                assert(rest[at - 1] == id);
            }
        }
    }
}

/// A resolution pass over the names of all entities leaves no entity with a
/// decision, so resolution is over after one pass.
pub proof fn lemma_pass_resolves_all(b: Board)
    requires
        board_wf(b),
    ensures
        all_resolved(pass(b, names(b.entities)).entities),
{
    let ids = names(b.entities);
    let end = pass(b, ids).entities;
    lemma_pass(b, ids);
    assert forall|k: int| 0 <= k < end.len() implies ids.contains((#[trigger] end[k]).id) by {
        lemma_index_of(end, b.width, b.height, k);
        assert(holds(b.entities, end[k].id));
        let at = index_of(b.entities, end[k].id);
        assert(ids[at] == end[k].id);
    }
    lemma_pass_clears(b, ids);
}

/// Resolution is a function of the board: two boards of the same size with
/// the same walls and the same entities in the same order, decisions
/// included, come out of a resolution pass with the same entities on the
/// same cells and with the same walls.
pub proof fn lemma_resolution_deterministic(first: Board, second: Board)
    requires
        first.width == second.width,
        first.height == second.height,
        first.walls =~= second.walls,
        first.entities =~= second.entities,
    ensures
        pass(first, names(first.entities)).entities == pass(
            second,
            names(second.entities),
        ).entities,
        pass(first, names(first.entities)).walls == pass(second, names(second.entities)).walls,
{
}

/// The board `b` with `direction` as the decision of the entity in place
/// `i`.
pub open spec fn with_decision(b: Board, i: int, direction: Action) -> Board {
    Board {
        entities: b.entities.update(i, (Entity { action: Some(direction), ..b.entities[i] })),
        ..b
    }
}

/// A wall is destroyed by one move: moving into a cell with a wall clears
/// the wall and leaves the mover where it was; where no entity stands on
/// that cell, the same move made again takes the mover there.
pub proof fn lemma_wall_destroyed_once(b: Board, i: int, direction: Action)
    requires
        board_wf(b),
        0 <= i < b.entities.len(),
        b.entities[i].action == Some(direction),
        direction != Action::Stay,
        0 <= direction.target(b.entities[i].position).0 < b.width,
        0 <= direction.target(b.entities[i].position).1 < b.height,
        b.walls.contains(direction.target(b.entities[i].position)),
        !occupied(b.entities, direction.target(b.entities[i].position)),
    ensures
        outcome(b, i) == Outcome::WallDestroyed,
        step(b, i).walls == b.walls.remove(direction.target(b.entities[i].position)),
        step(b, i).entities == b.entities.update(i, (Entity { action: None, ..b.entities[i] })),
        outcome(with_decision(step(b, i), i, direction), i) == Outcome::Moved,
        step(with_decision(step(b, i), i, direction), i).entities[i].position.cell()
            == direction.target(b.entities[i].position),
        step(with_decision(step(b, i), i, direction), i).walls == step(b, i).walls,
{
}

/// Moving into a cell without a wall on which an entity of the other role
/// stands eliminates that entity and takes the mover to its cell. The name of
/// the eliminated entity belongs to no entity from then on, so every
/// operation on that name reports `UnknownEntity`.
pub proof fn lemma_elimination(b: Board, i: int, later: Seq<EntityId>)
    requires
        board_wf(b),
        0 <= i < b.entities.len(),
        b.entities[i].action is Some,
        b.entities[i].action != Some(Action::Stay),
        0 <= b.entities[i].action.unwrap().target(b.entities[i].position).0 < b.width,
        0 <= b.entities[i].action.unwrap().target(b.entities[i].position).1 < b.height,
        !b.walls.contains(b.entities[i].action.unwrap().target(b.entities[i].position)),
        occupied(b.entities, b.entities[i].action.unwrap().target(b.entities[i].position)),
        b.entities[index_at(
            b.entities,
            b.entities[i].action.unwrap().target(b.entities[i].position),
        )].role != b.entities[i].role,
    ensures
        ({
            let to = b.entities[i].action.unwrap().target(b.entities[i].position);
            let victim = b.entities[index_at(b.entities, to)];
            let after = step(b, i);
            &&& outcome(b, i) == Outcome::Eliminated(victim.id)
            &&& after.entities.len() == b.entities.len() - 1
            &&& !holds(after.entities, victim.id)
            &&& holds(after.entities, b.entities[i].id)
            &&& after.entities[index_of(after.entities, b.entities[i].id)].position.cell() == to
            &&& after.walls == b.walls
            &&& !holds(pass(after, later).entities, victim.id)
        }),
{
    let mover = b.entities[i];
    let to = mover.action.unwrap().target(mover.position);
    let j = index_at(b.entities, to);
    let after = step(b, i);
    let arrived = Entity {
        position: Position { x: to.0 as u32, y: to.1 as u32 },
        action: None,
        ..mover
    };
    lemma_remove_keeps_roster(b.entities, b.width, b.height, j);
    lemma_update_then_remove(b.entities, i, j, arrived);
    let k1 = if j < i { i - 1 } else { i };
    lemma_update_keeps_roster(b.entities.remove(j), b.width, b.height, k1, arrived);
    lemma_pass(after, later);
}

/// Resolves the decision of the entity named `id` by the rules of
/// [`outcome`], and leaves the entity without a decision.
///
/// `UnknownEntity` where no live entity has that name; `NotReady` where the
/// entity has not decided. Nothing changes on an error. The object tiles of
/// the grid are not touched.
pub fn resolve(registry: &mut EntityRegistry, grid: &mut TilemapGrid, id: EntityId) -> (resolved:
    Result<Outcome, GameError>)
    requires
        old(registry).wf(),
        old(grid).wf(),
        fits(old(registry), old(grid)),
    ensures
        final(registry).wf(),
        final(grid).wf(),
        final(registry).same_frame(old(registry)),
        final(grid).same_shape(old(grid)),
        final(grid).occupants() == old(grid).occupants(),
        resolved == if !holds(old(registry)@, id) {
            Err::<Outcome, GameError>(GameError::UnknownEntity)
        } else if !ready(board(old(registry), old(grid)), id) {
            Err::<Outcome, GameError>(GameError::NotReady)
        } else {
            Ok::<Outcome, GameError>(
                outcome(board(old(registry), old(grid)), index_of(old(registry)@, id)),
            )
        },
        board(final(registry), final(grid)) == if resolved is Ok {
            step(board(old(registry), old(grid)), index_of(old(registry)@, id))
        } else {
            board(old(registry), old(grid))
        },
{
    let ghost before = board(registry, grid);
    let ghost s = registry@;
    let ghost i = index_of(s, id);
    let mover = match registry.get(id) {
        Err(e) => {
            return Err(e);
        },
        Ok(mover) => mover,
    };
    let action = match mover.action {
        None => {
            return Err(GameError::NotReady);
        },
        Some(action) => action,
    };
    proof {
        grid.lemma_wf();
    }
    let (dx, dy) = action.delta();
    let tx: i64 = mover.position.x as i64 + dx;
    let ty: i64 = mover.position.y as i64 + dy;
    let result = if action == Action::Stay {
        Outcome::Stayed
    } else if !grid.in_bounds(tx, ty) {
        Outcome::OffGrid
    } else if grid.is_wall(tx, ty) {
        let _ = grid.clear_wall(tx, ty);
        Outcome::WallDestroyed
    } else {
        let to = Position { x: tx as u32, y: ty as u32 };
        match registry.occupant_at(to) {
            None => {
                let _ = registry.relocate(id, to);
                Outcome::Moved
            },
            Some(other) => {
                if other.role != mover.role {
                    proof {
                        lemma_remove_keeps_roster(
                            s,
                            before.width,
                            before.height,
                            index_at(s, to.cell()),
                        );
                    }
                    let _ = registry.despawn(other.id);
                    let _ = registry.relocate(id, to);
                    Outcome::Eliminated(other.id)
                } else {
                    Outcome::Blocked
                }
            },
        }
    };
    let _ = registry.clear_action(id);
    proof {
        let after = step(before, i);
        assert(registry@ =~= after.entities);
    }
    Ok(result)
}

/// Resolves the decisions of all entities, in registration order. An entity
/// that an earlier move of the same pass eliminated is passed over, and so
/// is one that has not decided. Afterwards no entity has a decision left.
pub fn take_action(registry: &mut EntityRegistry, grid: &mut TilemapGrid)
    requires
        old(registry).wf(),
        old(grid).wf(),
        fits(old(registry), old(grid)),
    ensures
        final(registry).wf(),
        final(grid).wf(),
        final(registry).same_frame(old(registry)),
        final(grid).same_shape(old(grid)),
        final(grid).occupants() == old(grid).occupants(),
        board(final(registry), final(grid)) == pass(
            board(old(registry), old(grid)),
            names(old(registry)@),
        ),
        all_resolved(final(registry)@),
{
    let snapshot = registry.positions_and_actions();
    let ghost start = board(registry, grid);
    let ghost s0 = registry@;
    let ghost ids = names(s0);
    let n = snapshot.len();
    let mut k: usize = 0;
    proof {
        grid.lemma_wf();
        assert(ids.subrange(0, n as int) =~= ids);
    }
    while k < n
        invariant
            k <= n,
            n == snapshot@.len(),
            n == s0.len(),
            ids == names(s0),
            forall|m: int| 0 <= m < n ==> (#[trigger] snapshot@[m]).0 == s0[m].id,
            roster_wf(s0, start.width, start.height),
            registry.wf(),
            grid.wf(),
            fits(registry, grid),
            registry.same_frame(old(registry)),
            grid.same_shape(old(grid)),
            grid.occupants() == old(grid).occupants(),
            start.width == grid.spec_width(),
            start.height == grid.spec_height(),
            start.width <= u32::MAX,
            start.height <= u32::MAX,
            pass(board(registry, grid), ids.subrange(k as int, n as int)) == pass(start, ids),
            forall|m: int| 0 <= m < registry@.len() ==> holds(s0, (#[trigger] registry@[m]).id),
            forall|m: int|
                0 <= m < registry@.len() && index_of(s0, (#[trigger] registry@[m]).id) < k
                    ==> registry@[m].action is None,
        decreases n - k,
    {
        let id = snapshot[k].0;
        let ghost rest = ids.subrange(k as int, n as int);
        proof {
            assert(rest.drop_first() =~= ids.subrange(k + 1, n as int));
        }
        let _ = resolve(registry, grid, id);
        k += 1;
    }
}

} // verus!
