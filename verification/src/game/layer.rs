//! One layer of tiles over a bounded rectangle of cells.
//!
//! The rectangle is cut into square chunks, and each chunk keeps its tiles
//! together. A chunk gets storage when the first tile is put on it, so a large
//! layer with few tiles stays small. Callers address a tile by its absolute
//! cell and never see the chunks.

use vstd::prelude::*;
use vstd::arithmetic::div_mod::lemma_fundamental_div_mod;
use vstd::arithmetic::div_mod::lemma_fundamental_div_mod_converse;
use vstd::arithmetic::div_mod::lemma_multiply_divide_lt;
use crate::game::components::GameError;

verus! {

/// A layer of tiles; a tile is the index of its texture.
pub struct Layer {
    chunk_size: u32,
    chunks_x: u32,
    chunks_y: u32,
    /// The chunks, row by row. A chunk that never held a tile has no storage;
    /// one that has storage holds its cells row by row.
    chunks: Vec<Option<Vec<Option<u16>>>>,
}

/// Whether a layer of `chunks_x` by `chunks_y` chunks of side `chunk_size`
/// can be built: no side is zero, width and height fit in `u32`, and both
/// the number of chunks and the number of cells of a chunk fit in `usize`.
pub open spec fn valid_dims(chunk_size: int, chunks_x: int, chunks_y: int) -> bool {
    &&& 0 < chunk_size
    &&& 0 < chunks_x
    &&& 0 < chunks_y
    &&& chunk_size * chunks_x <= u32::MAX
    &&& chunk_size * chunks_y <= u32::MAX
    &&& chunks_x * chunks_y <= usize::MAX
    &&& chunk_size * chunk_size <= usize::MAX
}

/// Place of the chunk of the cell `(x, y)` among the chunks.
pub open spec fn chunk_slot(chunk_size: int, chunks_x: int, x: int, y: int) -> int {
    (y / chunk_size) * chunks_x + x / chunk_size
}

/// Place of the cell `(x, y)` inside its chunk.
pub open spec fn local_slot(chunk_size: int, x: int, y: int) -> int {
    (y % chunk_size) * chunk_size + x % chunk_size
}

/// Every cell of the rectangle lies in one of the chunks and has a place
/// inside it.
pub proof fn lemma_slots_in_range(cs: int, cx: int, cy: int, x: int, y: int)
    requires
        0 < cs,
        0 < cx,
        0 < cy,
        0 <= x < cs * cx,
        0 <= y < cs * cy,
    ensures
        0 <= x / cs < cx,
        0 <= y / cs < cy,
        0 <= x % cs < cs,
        0 <= y % cs < cs,
        0 <= (y / cs) * cx <= chunk_slot(cs, cx, x, y) < cx * cy,
        0 <= (y % cs) * cs <= local_slot(cs, x, y) < cs * cs,
{
    lemma_multiply_divide_lt(x, cs, cx);
    lemma_multiply_divide_lt(y, cs, cy);
    let a = x / cs;
    let b = y / cs;
    let r = x % cs;
    let s = y % cs;
    assert(0 <= b * cx && b * cx + a < cx * cy) by (nonlinear_arith)
        requires
            0 <= a < cx,
            0 <= b < cy,
    ;
    assert(0 <= s * cs && s * cs + r < cs * cs) by (nonlinear_arith)
        requires
            0 <= r < cs,
            0 <= s < cs,
    ;
}

/// Two numbers written as `q * n + r` with `0 <= r < n` agree only if both
/// digits agree.
proof fn lemma_digits_agree(n: int, q1: int, r1: int, q2: int, r2: int)
    requires
        0 < n,
        0 <= r1 < n,
        0 <= r2 < n,
        q1 * n + r1 == q2 * n + r2,
    ensures
        q1 == q2,
        r1 == r2,
{
    lemma_fundamental_div_mod_converse(q1 * n + r1, n, q1, r1);
    lemma_fundamental_div_mod_converse(q2 * n + r2, n, q2, r2);
}

/// Different cells of the rectangle differ in their chunk or in their place
/// inside it.
pub proof fn lemma_slots_injective(
    cs: int,
    cx: int,
    cy: int,
    x1: int,
    y1: int,
    x2: int,
    y2: int,
)
    requires
        0 < cs,
        0 < cx,
        0 < cy,
        0 <= x1 < cs * cx,
        0 <= y1 < cs * cy,
        0 <= x2 < cs * cx,
        0 <= y2 < cs * cy,
        chunk_slot(cs, cx, x1, y1) == chunk_slot(cs, cx, x2, y2),
        local_slot(cs, x1, y1) == local_slot(cs, x2, y2),
    ensures
        x1 == x2,
        y1 == y2,
{
    lemma_slots_in_range(cs, cx, cy, x1, y1);
    lemma_slots_in_range(cs, cx, cy, x2, y2);
    lemma_digits_agree(cx, y1 / cs, x1 / cs, y2 / cs, x2 / cs);
    lemma_digits_agree(cs, y1 % cs, x1 % cs, y2 % cs, x2 % cs);
    lemma_fundamental_div_mod(x1, cs);
    lemma_fundamental_div_mod(x2, cs);
    lemma_fundamental_div_mod(y1, cs);
    lemma_fundamental_div_mod(y2, cs);
}

impl View for Layer {
    type V = Map<(int, int), u16>;

    /// The tiles of the layer, by cell. A cell without a tile is not a key.
    closed spec fn view(&self) -> Map<(int, int), u16> {
        Map::new(
            |c: (int, int)| self.covers(c.0, c.1) && self.stored(c.0, c.1) is Some,
            |c: (int, int)| self.stored(c.0, c.1).unwrap(),
        )
    }
}

impl Layer {
    /// Side of a chunk, in cells.
    pub closed spec fn spec_chunk_size(&self) -> int {
        self.chunk_size as int
    }

    /// Number of columns.
    pub closed spec fn spec_width(&self) -> int {
        self.chunk_size * self.chunks_x
    }

    /// Number of rows.
    pub closed spec fn spec_height(&self) -> int {
        self.chunk_size * self.chunks_y
    }

    /// Whether `(x, y)` is a cell of the layer.
    pub open spec fn covers(&self, x: int, y: int) -> bool {
        0 <= x < self.spec_width() && 0 <= y < self.spec_height()
    }

    /// What storage holds for the cell `(x, y)`.
    spec fn stored(&self, x: int, y: int) -> Option<u16> {
        match self.chunks@[chunk_slot(self.chunk_size as int, self.chunks_x as int, x, y)] {
            Some(tiles) => tiles@[local_slot(self.chunk_size as int, x, y)],
            None => None,
        }
    }

    /// The tile at `(x, y)`, if the cell has one.
    pub open spec fn tile(&self, x: int, y: int) -> Option<u16> {
        if self@.contains_key((x, y)) {
            Some(self@[(x, y)])
        } else {
            None
        }
    }

    /// The dimensions are valid, there is one entry for each chunk, and a
    /// chunk with storage has a place for each of its cells.
    pub closed spec fn wf(&self) -> bool {
        &&& valid_dims(self.chunk_size as int, self.chunks_x as int, self.chunks_y as int)
        &&& self.chunks@.len() == self.chunks_x * self.chunks_y
        &&& forall|c: int|
            0 <= c < self.chunks@.len() ==> match #[trigger] self.chunks@[c] {
                Some(tiles) => tiles@.len() == self.chunk_size * self.chunk_size,
                None => true,
            }
    }

    /// Both layers are cut into the same chunks over the same rectangle.
    pub open spec fn same_shape(&self, other: &Layer) -> bool {
        &&& self.spec_chunk_size() == other.spec_chunk_size()
        &&& self.spec_width() == other.spec_width()
        &&& self.spec_height() == other.spec_height()
    }

    /// A well-formed layer has at least one cell, sides that fit in `u32`
    /// and are multiples of the chunk size, and tiles only on its own cells.
    pub proof fn lemma_wf(&self)
        requires
            self.wf(),
        ensures
            0 < self.spec_chunk_size(),
            0 < self.spec_width() <= u32::MAX,
            0 < self.spec_height() <= u32::MAX,
            self.spec_width() % self.spec_chunk_size() == 0,
            self.spec_height() % self.spec_chunk_size() == 0,
            forall|c: (int, int)| #[trigger] self@.contains_key(c) ==> self.covers(c.0, c.1),
    {
        let cs = self.chunk_size as int;
        let cx = self.chunks_x as int;
        let cy = self.chunks_y as int;
        assert(0 < cs * cx && 0 < cs * cy) by (nonlinear_arith)
            requires
                0 < cs,
                0 < cx,
                0 < cy,
        ;
        lemma_fundamental_div_mod_converse(cs * cx, cs, cx, 0);
        lemma_fundamental_div_mod_converse(cs * cy, cs, cy, 0);
    }

    /// A layer of `chunks_x` by `chunks_y` chunks of side `chunk_size`, with
    /// no tile on it; `None` where the dimensions are not valid.
    pub fn new(chunk_size: u32, chunks_x: u32, chunks_y: u32) -> (made: Option<Layer>)
        ensures
            made is Some <==> valid_dims(chunk_size as int, chunks_x as int, chunks_y as int),
            made matches Some(layer) ==> {
                &&& layer.wf()
                &&& layer.spec_chunk_size() == chunk_size
                &&& layer.spec_width() == chunk_size * chunks_x
                &&& layer.spec_height() == chunk_size * chunks_y
                &&& layer@ == Map::<(int, int), u16>::empty()
            },
    {
        if chunk_size == 0 || chunks_x == 0 || chunks_y == 0 {
            return None;
        }
        assert(chunk_size * chunks_x <= 0xFFFF_FFFF * 0xFFFF_FFFF && chunk_size * chunks_y
            <= 0xFFFF_FFFF * 0xFFFF_FFFF && chunks_x * chunks_y <= 0xFFFF_FFFF * 0xFFFF_FFFF
            && chunk_size * chunk_size <= 0xFFFF_FFFF * 0xFFFF_FFFF) by (nonlinear_arith)
            requires
                chunk_size <= 0xFFFF_FFFF,
                chunks_x <= 0xFFFF_FFFF,
                chunks_y <= 0xFFFF_FFFF,
        ;
        let width: u64 = chunk_size as u64 * chunks_x as u64;
        let height: u64 = chunk_size as u64 * chunks_y as u64;
        let count: u64 = chunks_x as u64 * chunks_y as u64;
        let cells: u64 = chunk_size as u64 * chunk_size as u64;
        if width > u32::MAX as u64 || height > u32::MAX as u64 || count > usize::MAX as u64
            || cells > usize::MAX as u64 {
            return None;
        }
        let count: usize = count as usize;
        let mut chunks: Vec<Option<Vec<Option<u16>>>> = Vec::new();
        while chunks.len() < count
            invariant
                chunks@.len() <= count,
                forall|c: int| 0 <= c < chunks@.len() ==> chunks@[c] is None,
            decreases count - chunks@.len(),
        {
            chunks.push(None);
        }
        let layer = Layer { chunk_size, chunks_x, chunks_y, chunks };
        proof {
            layer.lemma_empty();
        }
        Some(layer)
    }

    /// A layer none of whose chunks has storage has no tile.
    proof fn lemma_empty(&self)
        requires
            self.wf(),
            forall|c: int| 0 <= c < self.chunks@.len() ==> self.chunks@[c] is None,
        ensures
            self@ == Map::<(int, int), u16>::empty(),
    {
        assert forall|c: (int, int)| !self@.contains_key(c) by {
            if self.covers(c.0, c.1) {
                lemma_slots_in_range(
                    self.chunk_size as int,
                    self.chunks_x as int,
                    self.chunks_y as int,
                    c.0,
                    c.1,
                );
            }
        }
    }

    /// Side of a chunk, in cells.
    pub fn chunk_size(&self) -> (side: u32)
        ensures
            side == self.spec_chunk_size(),
    {
        self.chunk_size
    }

    /// Number of columns.
    pub fn width(&self) -> (w: u32)
        requires
            self.wf(),
        ensures
            w == self.spec_width(),
    {
        self.chunk_size * self.chunks_x
    }

    /// Number of rows.
    pub fn height(&self) -> (h: u32)
        requires
            self.wf(),
        ensures
            h == self.spec_height(),
    {
        self.chunk_size * self.chunks_y
    }

    /// Whether `(x, y)` is a cell of the layer.
    pub fn in_bounds(&self, x: i64, y: i64) -> (inside: bool)
        requires
            self.wf(),
        ensures
            inside == self.covers(x as int, y as int),
    {
        0 <= x && x < self.width() as i64 && 0 <= y && y < self.height() as i64
    }

    /// Place of the chunk of a cell of the layer, and of the cell inside it.
    fn slots(&self, x: i64, y: i64) -> (at: (usize, usize))
        requires
            self.wf(),
            self.covers(x as int, y as int),
        ensures
            at.0 == chunk_slot(self.chunk_size as int, self.chunks_x as int, x as int, y as int),
            at.1 == local_slot(self.chunk_size as int, x as int, y as int),
            at.0 < self.chunks@.len(),
            at.1 < self.chunk_size * self.chunk_size,
    {
        let cs: usize = self.chunk_size as usize;
        let cx: usize = self.chunks_x as usize;
        let col: usize = x as usize;
        let row: usize = y as usize;
        proof {
            lemma_slots_in_range(
                cs as int,
                cx as int,
                self.chunks_y as int,
                x as int,
                y as int,
            );
        }
        ((row / cs) * cx + col / cs, (row % cs) * cs + col % cs)
    }

    /// The tile at `(x, y)`; `OutOfBounds` where `(x, y)` is no cell of the
    /// layer.
    pub fn get_tile(&self, x: i64, y: i64) -> (found: Result<Option<u16>, GameError>)
        requires
            self.wf(),
        ensures
            found == if self.covers(x as int, y as int) {
                Ok::<Option<u16>, GameError>(self.tile(x as int, y as int))
            } else {
                Err::<Option<u16>, GameError>(GameError::OutOfBounds)
            },
    {
        if !self.in_bounds(x, y) {
            return Err(GameError::OutOfBounds);
        }
        let (chunk, local) = self.slots(x, y);
        match &self.chunks[chunk] {
            Some(tiles) => Ok(tiles[local]),
            None => Ok(None),
        }
    }

    /// Writes the place of the cell `(x, y)` in storage, giving its chunk
    /// storage first where it has none and a tile is to be written.
    fn put(&mut self, x: i64, y: i64, tile: Option<u16>)
        requires
            old(self).wf(),
            old(self).covers(x as int, y as int),
        ensures
            final(self).wf(),
            final(self).same_shape(old(self)),
            final(self).stored(x as int, y as int) == tile,
            forall|c: (int, int)|
                final(self).covers(c.0, c.1) && c != (x as int, y as int) ==> #[trigger] final(
                    self
                ).stored(c.0, c.1) == old(self).stored(c.0, c.1),
    {
        let (chunk, local) = self.slots(x, y);
        let mut taken: Option<Vec<Option<u16>>> = None;
        core::mem::swap(&mut taken, &mut self.chunks[chunk]);
        let tiles = match taken {
            Some(mut tiles) => {
                tiles[local] = tile;
                Some(tiles)
            },
            None => match tile {
                None => None,
                Some(texture) => {
                    let cells: usize = self.chunk_size as usize * self.chunk_size as usize;
                    let mut tiles: Vec<Option<u16>> = Vec::new();
                    while tiles.len() < cells
                        invariant
                            tiles@.len() <= cells,
                            forall|k: int| 0 <= k < tiles@.len() ==> tiles@[k] is None,
                        decreases cells - tiles@.len(),
                    {
                        tiles.push(None);
                    }
                    tiles[local] = Some(texture);
                    Some(tiles)
                },
            },
        };
        self.chunks[chunk] = tiles;
        proof {
            let cs = self.chunk_size as int;
            let cx = self.chunks_x as int;
            let cy = self.chunks_y as int;
            assert forall|c: (int, int)|
                self.covers(c.0, c.1) && c != (x as int, y as int) implies #[trigger] self.stored(
                c.0,
                c.1,
            ) == old(self).stored(c.0, c.1) by {
                lemma_slots_in_range(cs, cx, cy, c.0, c.1);
                if chunk_slot(cs, cx, c.0, c.1) == chunk && local_slot(cs, c.0, c.1) == local {
                    lemma_slots_injective(cs, cx, cy, c.0, c.1, x as int, y as int);
                }
            }
        }
    }

    /// Puts a tile with `texture` at `(x, y)`, in place of the tile there, if
    /// any; `OutOfBounds`, and no change, where `(x, y)` is no cell of the
    /// layer.
    pub fn set_tile(&mut self, x: i64, y: i64, texture: u16) -> (done: Result<(), GameError>)
        requires
            old(self).wf(),
        ensures
            final(self).wf(),
            final(self).same_shape(old(self)),
            done == if old(self).covers(x as int, y as int) {
                Ok::<(), GameError>(())
            } else {
                Err::<(), GameError>(GameError::OutOfBounds)
            },
            final(self)@ == if old(self).covers(x as int, y as int) {
                old(self)@.insert((x as int, y as int), texture)
            } else {
                old(self)@
            },
    {
        if !self.in_bounds(x, y) {
            return Err(GameError::OutOfBounds);
        }
        self.put(x, y, Some(texture));
        Ok(())
    }

    /// Takes the tile at `(x, y)` away, if there is one; `OutOfBounds`, and
    /// no change, where `(x, y)` is no cell of the layer.
    pub fn despawn_tile(&mut self, x: i64, y: i64) -> (done: Result<(), GameError>)
        requires
            old(self).wf(),
        ensures
            final(self).wf(),
            final(self).same_shape(old(self)),
            done == if old(self).covers(x as int, y as int) {
                Ok::<(), GameError>(())
            } else {
                Err::<(), GameError>(GameError::OutOfBounds)
            },
            final(self)@ == old(self)@.remove((x as int, y as int)),
    {
        if !self.in_bounds(x, y) {
            return Err(GameError::OutOfBounds);
        }
        self.put(x, y, None);
        Ok(())
    }

    /// Takes every tile away and gives the storage of all chunks back.
    pub fn clear(&mut self)
        requires
            old(self).wf(),
        ensures
            final(self).wf(),
            final(self).same_shape(old(self)),
            final(self)@ == Map::<(int, int), u16>::empty(),
    {
        let n = self.chunks.len();
        let mut c: usize = 0;
        while c < n
            invariant
                c <= n,
                n == self.chunks@.len(),
                self.wf(),
                self.same_shape(old(self)),
                forall|k: int| 0 <= k < c ==> self.chunks@[k] is None,
            decreases n - c,
        {
            self.chunks[c] = None;
            c += 1;
        }
        proof {
            self.lemma_empty();
        }
    }
}

} // verus!
