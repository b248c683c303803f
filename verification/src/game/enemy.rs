//! The autonomous entities: how they enter the game and how they decide.

use vstd::prelude::*;
use rand::seq::SliceRandom;
use crate::game::components::{Action, Drawable, Entity, EntityId, Position, Role};
use crate::game::config::ENEMY_TEXTURE_INDEX;
use crate::game::movement::{board, outcome, step, Board, Outcome};
use crate::game::registry::{
    admits,
    all_decided,
    index_at,
    lemma_index_of,
    lemma_same_cells,
    occupied,
    EntityRegistry,
};
use crate::game::tilemap::{neighbor_entry, neighbors, TilemapGrid};

verus! {

/// Whether the policy may send an entity from `from` in direction
/// `direction`: the destination is a cell of the grid, holds no wall, and no
/// live entity stands on it.
pub open spec fn legal(b: Board, from: Position, direction: Action) -> bool {
    let to = direction.target(from);
    &&& 0 <= to.0 < b.width
    &&& 0 <= to.1 < b.height
    &&& !b.walls.contains(to)
    &&& !occupied(b.entities, to)
}

/// `direction` as a one-entry list where it is legal, else the empty list.
pub open spec fn legal_entry(b: Board, from: Position, direction: Action) -> Seq<Action> {
    if legal(b, from, direction) {
        seq![direction]
    } else {
        Seq::<Action>::empty()
    }
}

/// The legal directions from `from`, in the order north, south, west, east.
pub open spec fn legal_moves(b: Board, from: Position) -> Seq<Action> {
    legal_entry(b, from, Action::North) + legal_entry(b, from, Action::South) + legal_entry(
        b,
        from,
        Action::West,
    ) + legal_entry(b, from, Action::East)
}

/// Whether the policy may decide on `action` for an entity at `from`: one of
/// the legal directions where there is one, and staying where there is none.
pub open spec fn allowed(b: Board, from: Position, action: Action) -> bool {
    if legal_moves(b, from).len() == 0 {
        action == Action::Stay
    } else {
        legal_moves(b, from).contains(action)
    }
}

/// Whether the cell `c` holds no wall and no entity.
spec fn free(b: Board, c: Position) -> bool {
    !b.walls.contains(c.cell()) && !occupied(b.entities, c.cell())
}

/// The directions of those of `cells` that are free, in the order of
/// `cells`.
spec fn free_of(b: Board, cells: Seq<(Action, Position)>) -> Seq<Action>
    decreases cells.len(),
{
    if cells.len() == 0 {
        Seq::<Action>::empty()
    } else {
        free_of(b, cells.drop_last()) + if free(b, cells.last().1) {
            seq![cells.last().0]
        } else {
            Seq::<Action>::empty()
        }
    }
}

/// `free_of` goes through a concatenation part by part.
proof fn lemma_free_of_concat(
    b: Board,
    left: Seq<(Action, Position)>,
    right: Seq<(Action, Position)>,
)
    ensures
        free_of(b, left + right) == free_of(b, left) + free_of(b, right),
    decreases right.len(),
{
    if right.len() == 0 {
        assert(left + right =~= left);
        assert(free_of(b, left) + free_of(b, right) =~= free_of(b, left));
    } else {
        assert((left + right).drop_last() =~= left + right.drop_last());
        assert((left + right).last() == right.last());
        lemma_free_of_concat(b, left, right.drop_last());
        let tail = if free(b, right.last().1) {
            seq![right.last().0]
        } else {
            Seq::<Action>::empty()
        };
        assert(free_of(b, left + right) =~= free_of(b, left) + (free_of(b, right.drop_last())
            + tail));
    }
}

/// Of the one neighbour in a direction, `free_of` keeps the direction
/// exactly where it is legal.
proof fn lemma_free_of_entry(b: Board, from: Position, direction: Action)
    requires
        b.width <= u32::MAX,
        b.height <= u32::MAX,
    ensures
        free_of(b, neighbor_entry(b.width, b.height, from.x as int, from.y as int, direction))
            == legal_entry(b, from, direction),
{
    let entry = neighbor_entry(b.width, b.height, from.x as int, from.y as int, direction);
    if entry.len() > 0 {
        assert(entry.drop_last() =~= Seq::<(Action, Position)>::empty());
        assert(free_of(b, entry.drop_last()) =~= Seq::<Action>::empty());
        assert(entry.last().1.cell() == direction.target(from));
        assert(free_of(b, entry) =~= legal_entry(b, from, direction));
    }
}

/// The free cardinal neighbours are the legal moves.
proof fn lemma_free_neighbors(b: Board, from: Position)
    requires
        b.width <= u32::MAX,
        b.height <= u32::MAX,
    ensures
        free_of(b, neighbors(b.width, b.height, from.x as int, from.y as int)) == legal_moves(
            b,
            from,
        ),
{
    let x = from.x as int;
    let y = from.y as int;
    let north = neighbor_entry(b.width, b.height, x, y, Action::North);
    let south = neighbor_entry(b.width, b.height, x, y, Action::South);
    let west = neighbor_entry(b.width, b.height, x, y, Action::West);
    let east = neighbor_entry(b.width, b.height, x, y, Action::East);
    lemma_free_of_concat(b, north + south + west, east);
    lemma_free_of_concat(b, north + south, west);
    lemma_free_of_concat(b, north, south);
    lemma_free_of_entry(b, from, Action::North);
    lemma_free_of_entry(b, from, Action::South);
    lemma_free_of_entry(b, from, Action::West);
    lemma_free_of_entry(b, from, Action::East);
}

/// A legal move is a step to a cell of the grid without wall or entity, and
/// every such step is a legal move.
pub proof fn lemma_legal_moves(b: Board, from: Position, action: Action)
    ensures
        legal_moves(b, from).contains(action) <==> action != Action::Stay && legal(b, from, action),
        legal_moves(b, from).len() <= 4,
{
    let north = legal_entry(b, from, Action::North);
    let south = legal_entry(b, from, Action::South);
    let west = legal_entry(b, from, Action::West);
    let all = legal_moves(b, from);
    if action != Action::Stay && legal(b, from, action) {
        let i: int = match action {
            Action::North => 0,
            Action::South => north.len() as int,
            Action::West => (north.len() + south.len()) as int,
            _ => (north.len() + south.len() + west.len()) as int,
        };
        assert(all[i] == action);
    }
}

/// A decision that the policy allows never runs into a wall or off the grid,
/// however the board has changed since, as long as the entity stands where it
/// stood and no wall was set: resolved on such a board, the decision destroys
/// no wall.
pub proof fn lemma_policy_spares_walls(b: Board, later: Board, i: int)
    requires
        0 <= i < later.entities.len(),
        later.entities[i].action is Some,
        allowed(b, later.entities[i].position, later.entities[i].action.unwrap()),
        later.width == b.width,
        later.height == b.height,
        later.walls.subset_of(b.walls),
    ensures
        outcome(later, i) != Outcome::WallDestroyed,
        outcome(later, i) != Outcome::OffGrid,
        step(later, i).walls == later.walls,
{
}

/// The directions that the policy may send an entity at `position` in: the
/// cardinal neighbours that hold no wall and no entity, in the order north,
/// south, west, east.
pub fn legal_directions(
    registry: &EntityRegistry,
    grid: &TilemapGrid,
    position: Position,
) -> (found: Vec<Action>)
    requires
        registry.wf(),
        grid.wf(),
    ensures
        found@ == legal_moves(board(registry, grid), position),
{
    let ghost b = board(registry, grid);
    let cells = grid.cardinal_neighbors(position.x as i64, position.y as i64);
    let mut found: Vec<Action> = Vec::new();
    let mut k: usize = 0;
    proof {
        grid.lemma_wf();
    }
    while k < cells.len()
        invariant
            k <= cells@.len(),
            registry.wf(),
            grid.wf(),
            b == board(registry, grid),
            found@ == free_of(b, cells@.take(k as int)),
        decreases cells@.len() - k,
    {
        let (direction, cell) = cells[k];
        let ghost part = cells@.take(k as int + 1);
        proof {
            assert(part.drop_last() =~= cells@.take(k as int));
        }
        if !grid.is_wall(cell.x as i64, cell.y as i64) && registry.occupant_at(cell).is_none() {
            found.push(direction);
        }
        k += 1;
    }
    proof {
        assert(cells@.take(cells@.len() as int) =~= cells@);
        lemma_free_neighbors(b, position);
    }
    found
}

/// Draws one of `candidates` with `rand::seq::SliceRandom::choose`, handing it
/// the generator of `rand::thread_rng`.
///
/// For a slice `choose` returns `None` where the slice is empty and a
/// reference to one of its elements otherwise. Which element is up to the
/// generator, so nothing more is claimed. The generator is seeded from the
/// operating system when a thread first asks for it; should the system have
/// no randomness to give, `rand` panics there.
#[verifier::external_body]
fn pick_at_random(candidates: &Vec<Action>) -> (picked: Option<Action>)
    ensures
        candidates@.len() == 0 ==> picked is None,
        candidates@.len() > 0 ==> picked is Some && candidates@.contains(picked.unwrap()),
{
    candidates.choose(&mut rand::thread_rng()).copied()
}

/// The decision that a draw stands for: the drawn direction, or staying
/// where nothing was drawn.
pub fn decision(picked: Option<Action>) -> (action: Action)
    ensures
        action == match picked {
            Some(direction) => direction,
            None => Action::Stay,
        },
{
    match picked {
        Some(direction) => direction,
        None => Action::Stay,
    }
}

/// Decides for an entity that may go in the directions `candidates`: one of
/// them, drawn at random, or staying where there is none.
pub fn choose_action(candidates: &Vec<Action>) -> (action: Action)
    ensures
        candidates@.len() == 0 ==> action == Action::Stay,
        candidates@.len() > 0 ==> candidates@.contains(action),
{
    decision(pick_at_random(candidates))
}

/// How the policy leaves one entity: an autonomous entity that had not
/// decided has a decision that the policy allows at its position on the board
/// `b`, and is otherwise unchanged; any other entity is unchanged.
pub open spec fn decided(b: Board, before: Entity, after: Entity) -> bool {
    if before.role == Role::Autonomous && before.action is None {
        &&& after.action is Some
        &&& allowed(b, before.position, after.action.unwrap())
        &&& after == Entity { action: after.action, ..before }
    } else {
        after == before
    }
}

/// Lets every autonomous entity that has not decided yet decide: it goes to
/// a cardinal neighbour without wall or entity, drawn at random, or stays
/// where it has no such neighbour. Nothing moves yet.
pub fn movement(registry: &mut EntityRegistry, grid: &TilemapGrid)
    requires
        old(registry).wf(),
        grid.wf(),
    ensures
        final(registry).wf(),
        final(registry).same_frame(old(registry)),
        final(registry)@.len() == old(registry)@.len(),
        forall|i: int|
            0 <= i < old(registry)@.len() ==> decided(
                board(old(registry), grid),
                old(registry)@[i],
                #[trigger] final(registry)@[i],
            ),
        all_decided(final(registry)@, Some(Role::Autonomous)),
{
    let ghost b0 = board(registry, grid);
    let ghost s0 = registry@;
    let snapshot = registry.entities();
    let n = snapshot.len();
    let mut k: usize = 0;
    while k < n
        invariant
            k <= n,
            snapshot@ == s0,
            n == s0.len(),
            registry@.len() == n,
            registry.wf(),
            grid.wf(),
            registry.same_frame(old(registry)),
            b0 == board(old(registry), grid),
            b0.entities == s0,
            forall|i: int| 0 <= i < k ==> decided(b0, s0[i], #[trigger] registry@[i]),
            forall|i: int| k <= i < n ==> #[trigger] registry@[i] == s0[i],
        decreases n - k,
    {
        let entity = snapshot[k];
        if entity.role == Role::Autonomous && entity.action.is_none() {
            let ghost now = registry@;
            let candidates = legal_directions(registry, grid, entity.position);
            let action = choose_action(&candidates);
            proof {
                lemma_same_cells(now, s0);
                lemma_index_of(now, registry.spec_width(), registry.spec_height(), k as int);
            }
            let _ = registry.set_action(entity.id, action);
        }
        k += 1;
    }
}

/// Column in which the autonomous entities enter the game.
pub const ENEMY_COLUMN: u32 = 4;

/// First row in which an autonomous entity enters the game.
pub const ENEMY_FIRST_ROW: u32 = 2;

/// Row after the last in which an autonomous entity enters the game.
pub const ENEMY_END_ROW: u32 = 10;

/// The autonomous entity that enters the game in row `row` under the name
/// `name`.
pub open spec fn enemy(name: int, row: int) -> Entity {
    Entity {
        id: EntityId(name as u64),
        position: Position { x: ENEMY_COLUMN, y: row as u32 },
        role: Role::Autonomous,
        drawable: Drawable { texture_index: ENEMY_TEXTURE_INDEX },
        action: None,
    }
}

/// The roster after one autonomous entity was placed in each of the rows
/// `row..ENEMY_END_ROW` that admits it, going up; `name` is the name that the
/// first of them gets, and each one after it gets the next name.
pub open spec fn with_enemies(
    entities: Seq<Entity>,
    width: int,
    height: int,
    name: int,
    row: int,
) -> Seq<Entity>
    decreases ENEMY_END_ROW - row,
{
    if row >= ENEMY_END_ROW {
        entities
    } else if admits(entities, width, height, enemy(name, row).position) {
        with_enemies(entities.push(enemy(name, row)), width, height, name + 1, row + 1)
    } else {
        with_enemies(entities, width, height, name, row + 1)
    }
}

/// Where column `ENEMY_COLUMN` lies on the grid, with all its rows from `row`
/// up to `ENEMY_END_ROW`, and no entity stands in those rows of it, every
/// one of the rows gets its entity.
pub proof fn lemma_all_enemies_placed(
    entities: Seq<Entity>,
    width: int,
    height: int,
    name: int,
    row: int,
)
    requires
        ENEMY_COLUMN < width,
        ENEMY_END_ROW <= height,
        0 <= row <= ENEMY_END_ROW,
        0 <= name,
        name + (ENEMY_END_ROW - row) <= u64::MAX,
        forall|r: int| row <= r < ENEMY_END_ROW ==> !occupied(entities, (ENEMY_COLUMN as int, r)),
    ensures
        with_enemies(entities, width, height, name, row) == entities + Seq::new(
            (ENEMY_END_ROW - row) as nat,
            |i: int| enemy(name + i, row + i),
        ),
    decreases ENEMY_END_ROW - row,
{
    let placed = Seq::new((ENEMY_END_ROW - row) as nat, |i: int| enemy(name + i, row + i));
    if row >= ENEMY_END_ROW {
        assert(entities + placed =~= entities);
    } else {
        let first = enemy(name, row);
        let more = entities.push(first);
        assert(admits(entities, width, height, first.position));
        assert forall|r: int| row + 1 <= r < ENEMY_END_ROW implies !occupied(
            more,
            (ENEMY_COLUMN as int, r),
        ) by {
            if occupied(more, (ENEMY_COLUMN as int, r)) {
                let i = index_at(more, (ENEMY_COLUMN as int, r));
                assert(more[i].position.cell() == (ENEMY_COLUMN as int, r));
                if i < entities.len() {
                    assert(entities[i].position.cell() == (ENEMY_COLUMN as int, r));
                    assert(occupied(entities, (ENEMY_COLUMN as int, r)));
                } else {
                    assert(more[i] == first);
                }
            }
        }
        lemma_all_enemies_placed(more, width, height, name + 1, row + 1);
        let later = Seq::new(
            (ENEMY_END_ROW - row - 1) as nat,
            |i: int| enemy(name + 1 + i, row + 1 + i),
        );
        assert(more + later =~= entities + placed);
    }
}

/// Places the autonomous entities: one in each row from `ENEMY_FIRST_ROW` up
/// to, not including, `ENEMY_END_ROW` of column `ENEMY_COLUMN`. A row whose
/// cell is no cell of the grid, or is taken, gets none.
pub fn add(registry: &mut EntityRegistry)
    requires
        old(registry).wf(),
        old(registry).issued() + (ENEMY_END_ROW - ENEMY_FIRST_ROW) <= u64::MAX,
    ensures
        final(registry).wf(),
        final(registry).spec_width() == old(registry).spec_width(),
        final(registry).spec_height() == old(registry).spec_height(),
        final(registry)@ == with_enemies(
            old(registry)@,
            old(registry).spec_width(),
            old(registry).spec_height(),
            old(registry).issued(),
            ENEMY_FIRST_ROW as int,
        ),
        final(registry).issued() - old(registry).issued() == final(registry)@.len() - old(
            registry,
        )@.len(),
{
    let mut row: u32 = ENEMY_FIRST_ROW;
    while row < ENEMY_END_ROW
        invariant
            ENEMY_FIRST_ROW <= row <= ENEMY_END_ROW,
            registry.wf(),
            registry.spec_width() == old(registry).spec_width(),
            registry.spec_height() == old(registry).spec_height(),
            registry.issued() + (ENEMY_END_ROW - row) <= u64::MAX,
            registry.issued() - old(registry).issued() == registry@.len() - old(registry)@.len(),
            with_enemies(
                registry@,
                registry.spec_width(),
                registry.spec_height(),
                registry.issued(),
                row as int,
            ) == with_enemies(
                old(registry)@,
                old(registry).spec_width(),
                old(registry).spec_height(),
                old(registry).issued(),
                ENEMY_FIRST_ROW as int,
            ),
        decreases ENEMY_END_ROW - row,
    {
        let _ = registry.spawn(
            Position { x: ENEMY_COLUMN, y: row },
            Role::Autonomous,
            Drawable { texture_index: ENEMY_TEXTURE_INDEX },
        );
        row += 1;
    }
}

} // verus!
