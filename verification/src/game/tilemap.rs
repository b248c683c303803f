//! The tile grid: a static layer of walls under a dynamic layer that shows
//! where the entities stand.

use vstd::prelude::*;
use crate::game::components::{Action, Entity, GameError, Position, Tile};
use crate::game::noise_field::NoiseField;
use crate::game::registry::{index_at, occupied, roster_wf, EntityRegistry};
use crate::game::config::{CHUNK_SIZE, N_CHUNKS_X, N_CHUNKS_Y, WALL_TEXTURE_INDEX};
use crate::game::layer::{valid_dims, Layer};

verus! {

/// A bounded rectangle of cells with two layers of tiles.
///
/// The walls are terrain: they change only where a wall is set, cleared or
/// destroyed. The objects are a picture of the entities, drawn anew from the
/// registry once per turn.
pub struct TilemapGrid {
    walls: Layer,
    objects: Layer,
}

/// What a cell shows where `occupants` holds the object tiles and `walls` the
/// wall cells: an occupant hides a wall.
pub open spec fn shown(walls: Set<(int, int)>, occupants: Map<(int, int), u16>, c: (int, int))
    -> Tile {
    if occupants.contains_key(c) {
        Tile::Occupant(occupants[c])
    } else if walls.contains(c) {
        Tile::Wall
    } else {
        Tile::Empty
    }
}

/// The neighbour of `(x, y)` in direction `direction` as a one-entry list, or
/// the empty list where that neighbour is no cell of a `width` by `height`
/// grid.
pub open spec fn neighbor_entry(width: int, height: int, x: int, y: int, direction: Action)
    -> Seq<(Action, Position)> {
    let nx = x + direction.dx();
    let ny = y + direction.dy();
    if 0 <= nx < width && 0 <= ny < height {
        seq![(direction, Position { x: nx as u32, y: ny as u32 })]
    } else {
        Seq::<(Action, Position)>::empty()
    }
}

/// The neighbours of `(x, y)` that are cells of a `width` by `height` grid, in
/// the order north, south, west, east.
pub open spec fn neighbors(width: int, height: int, x: int, y: int) -> Seq<(Action, Position)> {
    neighbor_entry(width, height, x, y, Action::North) + neighbor_entry(
        width,
        height,
        x,
        y,
        Action::South,
    ) + neighbor_entry(width, height, x, y, Action::West) + neighbor_entry(
        width,
        height,
        x,
        y,
        Action::East,
    )
}

/// The cells of a `width` by `height` grid whose sample in `noise` is greater
/// than `threshold`.
pub open spec fn noisy_cells(noise: &NoiseField, threshold: int, width: int, height: int) -> Set<
    (int, int),
> {
    Set::new(
        |c: (int, int)| 0 <= c.0 < width && 0 <= c.1 < height && noise.at(c.0, c.1) > threshold,
    )
}

/// The picture of `entities` on a `width` by `height` grid: each cell of the
/// grid on which an entity stands, with the texture of that entity.
pub open spec fn overlay(entities: Seq<Entity>, width: int, height: int) -> Map<(int, int), u16> {
    Map::new(
        |c: (int, int)| 0 <= c.0 < width && 0 <= c.1 < height && occupied(entities, c),
        |c: (int, int)| entities[index_at(entities, c)].drawable.texture_index,
    )
}

/// The picture of the first `k + 1` entities is the picture of the first `k`
/// with entity `k` drawn on top, if it stands on the grid.
proof fn lemma_overlay_grows(
    entities: Seq<Entity>,
    roster_width: int,
    roster_height: int,
    width: int,
    height: int,
    k: int,
)
    requires
        roster_wf(entities, roster_width, roster_height),
        0 <= k < entities.len(),
    ensures
        overlay(entities.take(k + 1), width, height) == if entities[k].position.x < width
            && entities[k].position.y < height {
            overlay(entities.take(k), width, height).insert(
                entities[k].position.cell(),
                entities[k].drawable.texture_index,
            )
        } else {
            overlay(entities.take(k), width, height)
        },
{
    let long = entities.take(k + 1);
    assert(long[k] == entities[k]);
}

/// After the object tiles were drawn from a valid roster of the grid, every
/// entity's cell shows that entity's texture, and every cell without an
/// entity shows its wall, or nothing where it has none.
pub proof fn lemma_overlay_fidelity(
    entities: Seq<Entity>,
    walls: Set<(int, int)>,
    width: int,
    height: int,
)
    requires
        roster_wf(entities, width, height),
    ensures
        forall|i: int|
            0 <= i < entities.len() ==> shown(
                walls,
                overlay(entities, width, height),
                (#[trigger] entities[i]).position.cell(),
            ) == Tile::Occupant(entities[i].drawable.texture_index),
        forall|c: (int, int)|
            !occupied(entities, c) ==> #[trigger] shown(walls, overlay(entities, width, height), c)
                == if walls.contains(c) {
                Tile::Wall
            } else {
                Tile::Empty
            },
{
}

impl TilemapGrid {
    /// Side of a storage chunk, in cells.
    pub closed spec fn spec_chunk_size(&self) -> int {
        self.walls.spec_chunk_size()
    }

    /// Number of columns.
    pub closed spec fn spec_width(&self) -> int {
        self.walls.spec_width()
    }

    /// Number of rows.
    pub closed spec fn spec_height(&self) -> int {
        self.walls.spec_height()
    }

    /// Whether `(x, y)` is a cell of the grid.
    pub open spec fn covers(&self, x: int, y: int) -> bool {
        0 <= x < self.spec_width() && 0 <= y < self.spec_height()
    }

    /// The cells that hold a wall.
    pub closed spec fn walls(&self) -> Set<(int, int)> {
        self.walls@.dom()
    }

    /// The cells that show an entity, each with the texture shown.
    pub closed spec fn occupants(&self) -> Map<(int, int), u16> {
        self.objects@
    }

    /// What the cell `(x, y)` shows.
    pub open spec fn tile(&self, x: int, y: int) -> Tile {
        shown(self.walls(), self.occupants(), (x, y))
    }

    /// Both layers are well formed and lie over the same rectangle.
    pub closed spec fn wf(&self) -> bool {
        &&& self.walls.wf()
        &&& self.objects.wf()
        &&& self.objects.same_shape(&self.walls)
    }

    /// Same rectangle, cut into the same chunks.
    pub open spec fn same_shape(&self, other: &TilemapGrid) -> bool {
        &&& self.spec_chunk_size() == other.spec_chunk_size()
        &&& self.spec_width() == other.spec_width()
        &&& self.spec_height() == other.spec_height()
    }

    /// A well-formed grid has at least one cell, sides that fit in `u32`, and
    /// walls and occupants only on its own cells.
    pub proof fn lemma_wf(&self)
        requires
            self.wf(),
        ensures
            0 < self.spec_chunk_size(),
            0 < self.spec_width() <= u32::MAX,
            0 < self.spec_height() <= u32::MAX,
            forall|c: (int, int)| #[trigger] self.walls().contains(c) ==> self.covers(c.0, c.1),
            forall|c: (int, int)| #[trigger]
                self.occupants().contains_key(c) ==> self.covers(c.0, c.1),
    {
        self.walls.lemma_wf();
        self.objects.lemma_wf();
    }

    /// A grid of `chunks_x` by `chunks_y` chunks of side `chunk_size` without
    /// walls or occupants; `None` where the dimensions are not valid.
    pub fn new(chunk_size: u32, chunks_x: u32, chunks_y: u32) -> (made: Option<TilemapGrid>)
        ensures
            made is Some <==> valid_dims(chunk_size as int, chunks_x as int, chunks_y as int),
            made matches Some(grid) ==> {
                &&& grid.wf()
                &&& grid.spec_chunk_size() == chunk_size
                &&& grid.spec_width() == chunk_size * chunks_x
                &&& grid.spec_height() == chunk_size * chunks_y
                &&& grid.walls() == Set::<(int, int)>::empty()
                &&& grid.occupants() == Map::<(int, int), u16>::empty()
            },
    {
        let walls = Layer::new(chunk_size, chunks_x, chunks_y);
        let objects = Layer::new(chunk_size, chunks_x, chunks_y);
        match (walls, objects) {
            (Some(walls), Some(objects)) => {
                let grid = TilemapGrid { walls, objects };
                Some(grid)
            },
            _ => None,
        }
    }

    /// Side of a storage chunk, in cells.
    pub fn chunk_size(&self) -> (side: u32)
        ensures
            side == self.spec_chunk_size(),
    {
        self.walls.chunk_size()
    }

    /// Number of columns.
    pub fn width(&self) -> (w: u32)
        requires
            self.wf(),
        ensures
            w == self.spec_width(),
    {
        self.walls.width()
    }

    /// Number of rows.
    pub fn height(&self) -> (h: u32)
        requires
            self.wf(),
        ensures
            h == self.spec_height(),
    {
        self.walls.height()
    }

    /// Whether `(x, y)` is a cell of the grid.
    pub fn in_bounds(&self, x: i64, y: i64) -> (inside: bool)
        requires
            self.wf(),
        ensures
            inside == (0 <= x < self.spec_width() && 0 <= y < self.spec_height()),
    {
        self.walls.in_bounds(x, y)
    }

    /// What the cell `(x, y)` shows; `OutOfBounds` where `(x, y)` is no cell
    /// of the grid.
    pub fn tile_at(&self, x: i64, y: i64) -> (found: Result<Tile, GameError>)
        requires
            self.wf(),
        ensures
            found == if self.covers(x as int, y as int) {
                Ok::<Tile, GameError>(self.tile(x as int, y as int))
            } else {
                Err::<Tile, GameError>(GameError::OutOfBounds)
            },
    {
        match self.objects.get_tile(x, y) {
            Err(e) => Err(e),
            Ok(Some(texture)) => Ok(Tile::Occupant(texture)),
            Ok(None) => match self.walls.get_tile(x, y) {
                Err(e) => Err(e),
                Ok(Some(_)) => Ok(Tile::Wall),
                Ok(None) => Ok(Tile::Empty),
            },
        }
    }

    /// Whether `(x, y)` is a cell of the grid that holds a wall, whatever
    /// stands on it.
    pub fn is_wall(&self, x: i64, y: i64) -> (wall: bool)
        requires
            self.wf(),
        ensures
            wall == self.walls().contains((x as int, y as int)),
    {
        proof {
            self.walls.lemma_wf();
        }
        match self.walls.get_tile(x, y) {
            Ok(Some(_)) => true,
            _ => false,
        }
    }

    /// Puts a wall at `(x, y)`; `OutOfBounds`, and no change, where `(x, y)`
    /// is no cell of the grid.
    pub fn set_wall(&mut self, x: i64, y: i64) -> (done: Result<(), GameError>)
        requires
            old(self).wf(),
        ensures
            final(self).wf(),
            final(self).same_shape(old(self)),
            final(self).occupants() == old(self).occupants(),
            done == if old(self).covers(x as int, y as int) {
                Ok::<(), GameError>(())
            } else {
                Err::<(), GameError>(GameError::OutOfBounds)
            },
            final(self).walls() == if old(self).covers(x as int, y as int) {
                old(self).walls().insert((x as int, y as int))
            } else {
                old(self).walls()
            },
    {
        let done = self.walls.set_tile(x, y, WALL_TEXTURE_INDEX);
        done
    }

    /// Takes the wall at `(x, y)` away, if there is one; `OutOfBounds`, and
    /// no change, where `(x, y)` is no cell of the grid.
    pub fn clear_wall(&mut self, x: i64, y: i64) -> (done: Result<(), GameError>)
        requires
            old(self).wf(),
        ensures
            final(self).wf(),
            final(self).same_shape(old(self)),
            final(self).occupants() == old(self).occupants(),
            done == if old(self).covers(x as int, y as int) {
                Ok::<(), GameError>(())
            } else {
                Err::<(), GameError>(GameError::OutOfBounds)
            },
            final(self).walls() == old(self).walls().remove((x as int, y as int)),
    {
        let done = self.walls.despawn_tile(x, y);
        done
    }

    /// Sets the walls of a new map from `noise_field`: a cell holds a wall
    /// where its sample is greater than `threshold`, and none elsewhere.
    pub fn generate_walls(&mut self, noise_field: &NoiseField, threshold: i64)
        requires
            old(self).wf(),
            noise_field.wf(),
        ensures
            final(self).wf(),
            final(self).same_shape(old(self)),
            final(self).occupants() == old(self).occupants(),
            final(self).walls() == noisy_cells(
                noise_field,
                threshold as int,
                old(self).spec_width(),
                old(self).spec_height(),
            ),
    {
        let width = self.width();
        let height = self.height();
        let mut y: u32 = 0;
        while y < height
            invariant
                y <= height,
                width == self.spec_width(),
                height == self.spec_height(),
                self.wf(),
                noise_field.wf(),
                self.same_shape(old(self)),
                self.occupants() == old(self).occupants(),
                forall|c: (int, int)|
                    0 <= c.0 < width && 0 <= c.1 < y ==> (#[trigger] self.walls().contains(c)
                        <==> noise_field.at(c.0, c.1) > threshold),
            decreases height - y,
        {
            let mut x: u32 = 0;
            while x < width
                invariant
                    x <= width,
                    y < height,
                    width == self.spec_width(),
                    height == self.spec_height(),
                    self.wf(),
                    noise_field.wf(),
                    self.same_shape(old(self)),
                    self.occupants() == old(self).occupants(),
                    forall|c: (int, int)|
                        0 <= c.0 < width && 0 <= c.1 < y ==> (#[trigger] self.walls().contains(c)
                            <==> noise_field.at(c.0, c.1) > threshold),
                    forall|c: (int, int)|
                        0 <= c.0 < x && c.1 == y ==> (#[trigger] self.walls().contains(c)
                            <==> noise_field.at(c.0, c.1) > threshold),
                decreases width - x,
            {
                if noise_field.get_value(x as i64, y as i64) > threshold {
                    let _ = self.set_wall(x as i64, y as i64);
                } else {
                    let _ = self.clear_wall(x as i64, y as i64);
                }
                x += 1;
            }
            y += 1;
        }
        proof {
            self.lemma_wf();
        }
    }

    /// Draws the object tiles anew from `entities`: afterwards a cell shows
    /// an occupant exactly where a live entity stands on it, with the texture
    /// of that entity. The walls are not touched.
    pub fn rebuild_overlay(&mut self, entities: &EntityRegistry)
        requires
            old(self).wf(),
            entities.wf(),
        ensures
            final(self).wf(),
            final(self).same_shape(old(self)),
            final(self).walls() == old(self).walls(),
            final(self).occupants() == overlay(
                entities@,
                old(self).spec_width(),
                old(self).spec_height(),
            ),
    {
        let ghost w = self.spec_width();
        let ghost h = self.spec_height();
        let all = entities.entities();
        self.objects.clear();
        let mut k: usize = 0;
        while k < all.len()
            invariant
                k <= all@.len(),
                all@ == entities@,
                entities.wf(),
                self.wf(),
                self.same_shape(old(self)),
                self.walls() == old(self).walls(),
                w == self.spec_width(),
                h == self.spec_height(),
                self.occupants() == overlay(all@.take(k as int), w, h),
            decreases all@.len() - k,
        {
            let entity = all[k];
            proof {
                lemma_overlay_grows(
                    all@,
                    entities.spec_width(),
                    entities.spec_height(),
                    w,
                    h,
                    k as int,
                );
            }
            let _ = self.objects.set_tile(
                entity.position.x as i64,
                entity.position.y as i64,
                entity.drawable.texture_index,
            );
            k += 1;
        }
        proof {
            assert(all@.take(all@.len() as int) =~= all@);
        }
    }

    /// The neighbours of `(x, y)` in the four cardinal directions, each with
    /// its direction, in the order north, south, west, east. A neighbour that
    /// is no cell of the grid is left out.
    pub fn cardinal_neighbors(&self, x: i64, y: i64) -> (found: Vec<(Action, Position)>)
        requires
            self.wf(),
        ensures
            found@ == neighbors(self.spec_width(), self.spec_height(), x as int, y as int),
    {
        let directions = [Action::North, Action::South, Action::West, Action::East];
        let mut found: Vec<(Action, Position)> = Vec::new();
        let ghost w = self.spec_width();
        let ghost h = self.spec_height();
        proof {
            self.lemma_wf();
        }
        let mut i: usize = 0;
        while i < 4
            invariant
                i <= 4,
                self.wf(),
                w == self.spec_width(),
                h == self.spec_height(),
                w <= u32::MAX,
                h <= u32::MAX,
                directions@ == seq![Action::North, Action::South, Action::West, Action::East],
                i == 0 ==> found@ == Seq::<(Action, Position)>::empty(),
                i == 1 ==> found@ == neighbor_entry(w, h, x as int, y as int, Action::North),
                i == 2 ==> found@ == neighbor_entry(w, h, x as int, y as int, Action::North)
                    + neighbor_entry(w, h, x as int, y as int, Action::South),
                i == 3 ==> found@ == neighbor_entry(w, h, x as int, y as int, Action::North)
                    + neighbor_entry(w, h, x as int, y as int, Action::South) + neighbor_entry(
                    w,
                    h,
                    x as int,
                    y as int,
                    Action::West,
                ),
                i == 4 ==> found@ == neighbors(w, h, x as int, y as int),
            decreases 4 - i,
        {
            let direction = directions[i];
            let (dx, dy) = direction.delta();
            if -1 <= x && x <= u32::MAX as i64 && -1 <= y && y <= u32::MAX as i64 {
                let nx: i64 = x + dx;
                let ny: i64 = y + dy;
                if self.in_bounds(nx, ny) {
                    found.push((direction, Position { x: nx as u32, y: ny as u32 }));
                }
            }
            i += 1;
        }
        found
    }
}

/// Whether `(x, y)` is a cell of the configured map.
pub fn is_in_bounds(x: i64, y: i64) -> (inside: bool)
    ensures
        inside == (0 <= x < CHUNK_SIZE * N_CHUNKS_X && 0 <= y < CHUNK_SIZE * N_CHUNKS_Y),
{
    0 <= x && x < (CHUNK_SIZE * N_CHUNKS_X) as i64 && 0 <= y && y < (CHUNK_SIZE * N_CHUNKS_Y) as i64
}

/// Destroys the wall at `tile_position`, if there is one; `OutOfBounds`, and
/// no change, where the position is no cell of the grid.
pub fn destroy_tile(tile_position: Position, grid: &mut TilemapGrid) -> (done: Result<
    (),
    GameError,
>)
    requires
        old(grid).wf(),
    ensures
        final(grid).wf(),
        final(grid).same_shape(old(grid)),
        final(grid).occupants() == old(grid).occupants(),
        done == if old(grid).covers(tile_position.x as int, tile_position.y as int) {
            Ok::<(), GameError>(())
        } else {
            Err::<(), GameError>(GameError::OutOfBounds)
        },
        final(grid).walls() == old(grid).walls().remove(tile_position.cell()),
{
    grid.clear_wall(tile_position.x as i64, tile_position.y as i64)
}

/// Moves the object tile at `from` to `to`, where it shows `texture_index`
/// in place of whatever `to` showed.
///
/// `OutOfBounds` where `from` or `to` is no cell of the grid; otherwise
/// `UnknownEntity` where `from` shows no object. Nothing changes on an error.
pub fn move_tile(
    from: &Position,
    to: &Position,
    grid: &mut TilemapGrid,
    texture_index: u16,
) -> (done: Result<(), GameError>)
    requires
        old(grid).wf(),
    ensures
        final(grid).wf(),
        final(grid).same_shape(old(grid)),
        final(grid).walls() == old(grid).walls(),
        done == if !old(grid).covers(from.x as int, from.y as int) || !old(grid).covers(
            to.x as int,
            to.y as int,
        ) {
            Err::<(), GameError>(GameError::OutOfBounds)
        } else if !old(grid).occupants().contains_key(from.cell()) {
            Err::<(), GameError>(GameError::UnknownEntity)
        } else {
            Ok::<(), GameError>(())
        },
        final(grid).occupants() == if done is Ok {
            old(grid).occupants().remove(from.cell()).insert(to.cell(), texture_index)
        } else {
            old(grid).occupants()
        },
{
    if !grid.in_bounds(from.x as i64, from.y as i64) || !grid.in_bounds(to.x as i64, to.y as i64) {
        return Err(GameError::OutOfBounds);
    }
    match grid.objects.get_tile(from.x as i64, from.y as i64) {
        Ok(Some(_)) => {},
        _ => {
            return Err(GameError::UnknownEntity);
        },
    }
    let _ = grid.objects.despawn_tile(from.x as i64, from.y as i64);
    let _ = grid.objects.set_tile(to.x as i64, to.y as i64, texture_index);
    Ok(())
}

} // verus!
