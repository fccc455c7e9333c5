//! Materialization: the tiles of a chunk and the visuals that show
//! them.

use crate::hex::{
    tile_to_world, world_point, ChunkIndex, TileCoordinate, WorldPoint, CHUNK_SIZE, TILES_PER_CHUNK,
};
use vstd::prelude::*;

verus! {

/// The two visuals of a tile.
#[derive(Clone, Copy, Debug, PartialEq, Eq, Structural)]
pub enum Layer {
    /// The full-size cell behind the tile.
    Background,
    /// The inset fill drawn on top of the cell.
    Fill,
}

/// One visual to place: where, for which tile, and owned by which
/// chunk.
#[derive(Clone, Copy, Debug, PartialEq, Eq, Structural)]
pub struct TileVisual {
    pub tile: TileCoordinate,
    pub chunk: ChunkIndex,
    pub position: WorldPoint,
    pub layer: Layer,
}

/// First coordinate, along one axis, of the tiles of chunk `c`.
pub open spec fn axis_first(c: int) -> int {
    if c * CHUNK_SIZE < i32::MIN {
        i32::MIN as int
    } else {
        c * CHUNK_SIZE
    }
}

/// Last coordinate, along one axis, of the tiles of chunk `c`.
pub open spec fn axis_last(c: int) -> int {
    if c * CHUNK_SIZE + CHUNK_SIZE - 1 > i32::MAX {
        i32::MAX as int
    } else {
        c * CHUNK_SIZE + CHUNK_SIZE - 1
    }
}

/// Number of tile coordinates that chunk `c` spans along one axis:
/// `CHUNK_SIZE`, but for the chunks at the two ends of the coordinate
/// range, which are cut short.
pub open spec fn axis_count(c: int) -> nat {
    if axis_last(c) >= axis_first(c) {
        (axis_last(c) - axis_first(c) + 1) as nat
    } else {
        0
    }
}

/// The tiles of a chunk, column by column: `q` ascending, and `r`
/// ascending within each `q`.
pub open spec fn chunk_tiles(index: ChunkIndex) -> Seq<TileCoordinate> {
    let rows = axis_count(index.cr as int);
    Seq::new(
        axis_count(index.cq as int) * rows,
        |k: int|
            TileCoordinate {
                q: (axis_first(index.cq as int) + k / (rows as int)) as i32,
                r: (axis_first(index.cr as int) + k % (rows as int)) as i32,
            },
    )
}

/// The visual of `tile` on `layer`, owned by chunk `index`.
pub open spec fn visual_of(index: ChunkIndex, tile: TileCoordinate, layer: Layer) -> TileVisual {
    TileVisual { tile, chunk: index, position: world_point(tile), layer }
}

/// The visuals of a chunk: for each of its tiles in turn, the
/// background cell and then the fill.
pub open spec fn chunk_visuals(index: ChunkIndex) -> Seq<TileVisual> {
    let tiles = chunk_tiles(index);
    Seq::new(
        2 * tiles.len(),
        |i: int|
            visual_of(
                index,
                tiles[i / 2],
                if i % 2 == 0 {
                    Layer::Background
                } else {
                    Layer::Fill
                },
            ),
    )
}

fn axis_bounds(c: i32) -> (bounds: (i64, i64))
    ensures
        bounds.0 == axis_first(c as int),
        bounds.1 == axis_last(c as int),
        i32::MIN <= bounds.0,
        bounds.1 <= i32::MAX,
{
    let low: i64 = c as i64 * CHUNK_SIZE as i64;
    let high: i64 = low + (CHUNK_SIZE as i64 - 1);
    let first: i64 = if low < i32::MIN as i64 {
        i32::MIN as i64
    } else {
        low
    };
    let last: i64 = if high > i32::MAX as i64 {
        i32::MAX as i64
    } else {
        high
    };
    (first, last)
}

/// Enumerates the tiles of chunk `index` and, for each, the two
/// visuals to place: the background cell, then the fill, both at the
/// tile's world position and tagged with the tile and the chunk.
pub fn load_chunk(index: ChunkIndex) -> (visuals: Vec<TileVisual>)
    ensures
        visuals@ == chunk_visuals(index),
{
    let (first_q, last_q) = axis_bounds(index.cq);
    let (first_r, last_r) = axis_bounds(index.cr);
    let ghost rows = axis_count(index.cr as int) as int;
    let ghost tiles = chunk_tiles(index);
    let ghost target = chunk_visuals(index);
    let mut visuals: Vec<TileVisual> = Vec::new();
    let ghost mut done: int = 0;
    let mut q: i64 = first_q;
    assert((q - first_q) * rows == 0) by (nonlinear_arith)
        requires
            q == first_q,
    ;
    while q <= last_q
        invariant
            first_q == axis_first(index.cq as int),
            last_q == axis_last(index.cq as int),
            first_r == axis_first(index.cr as int),
            last_r == axis_last(index.cr as int),
            i32::MIN <= first_q,
            i32::MIN <= first_r,
            last_q <= i32::MAX,
            last_r <= i32::MAX,
            rows == axis_count(index.cr as int),
            tiles == chunk_tiles(index),
            target == chunk_visuals(index),
            first_q <= q,
            q <= last_q + 1 || q == first_q,
            done == (q - first_q) * rows,
            0 <= done <= tiles.len(),
            visuals@ == target.take(2 * done),
        decreases last_q + 1 - q,
    {
        assert((q + 1 - first_q) * rows == (q - first_q) * rows + rows && (q + 1 - first_q) * rows
            <= (last_q + 1 - first_q) * rows) by (nonlinear_arith)
            requires
                first_q <= q <= last_q,
                0 <= rows,
        ;
        let mut r: i64 = first_r;
        while r <= last_r
            invariant
                first_q == axis_first(index.cq as int),
                first_r == axis_first(index.cr as int),
                last_r == axis_last(index.cr as int),
                i32::MIN <= first_q <= q <= last_q <= i32::MAX,
                i32::MIN <= first_r,
                last_r <= i32::MAX,
                last_q == axis_last(index.cq as int),
                rows == axis_count(index.cr as int),
                tiles == chunk_tiles(index),
                target == chunk_visuals(index),
                first_r <= r,
                r <= last_r + 1 || r == first_r,
                done == (q - first_q) * rows + (r - first_r),
                (q + 1 - first_q) * rows == (q - first_q) * rows + rows,
                (q + 1 - first_q) * rows <= tiles.len(),
                0 <= (q - first_q) * rows,
                0 <= done <= tiles.len(),
                visuals@ == target.take(2 * done),
            decreases last_r + 1 - r,
        {
            let tile = TileCoordinate { q: q as i32, r: r as i32 };
            let position = tile_to_world(tile.q, tile.r);
            proof {
                vstd::arithmetic::div_mod::lemma_fundamental_div_mod_converse(
                    done,
                    rows,
                    q - first_q,
                    r - first_r,
                );
            }
            visuals.push(TileVisual { tile, chunk: index, position, layer: Layer::Background });
            visuals.push(TileVisual { tile, chunk: index, position, layer: Layer::Fill });
            r += 1;
            proof {
                done = done + 1;
            }
        }
        q += 1;
    }
    proof {
        if first_q > last_q {
            assert(tiles.len() == 0) by (nonlinear_arith)
                requires
                    tiles.len() == axis_count(index.cq as int) * axis_count(index.cr as int),
                    axis_count(index.cq as int) == 0,
            ;
        }
    }
    visuals
}

/// The tiles that `chunk_tiles` lists for a chunk are the tiles that
/// `tile_to_chunk` puts in it, each listed once.
pub proof fn lemma_chunk_tiles_are_its_tiles(index: ChunkIndex, t: TileCoordinate)
    ensures
        chunk_tiles(index).contains(t) <==> t.chunk_index() == index,
        chunk_tiles(index).no_duplicates(),
{
    let tiles = chunk_tiles(index);
    let cols = axis_count(index.cq as int) as int;
    let rows = axis_count(index.cr as int) as int;
    let first_q = axis_first(index.cq as int);
    let first_r = axis_first(index.cr as int);
    if tiles.contains(t) {
        let k = choose|k: int| 0 <= k < tiles.len() && tiles[k] == t;
        lemma_cell(k, cols, rows);
    }
    if t.chunk_index() == index {
        let a = t.q - first_q;
        let b = t.r - first_r;
        let k = a * rows + b;
        lemma_cell_index(a, b, cols, rows);
        assert(tiles[k] == t);
    }
    assert forall|i: int, j: int| 0 <= i < j < tiles.len() implies tiles[i] != tiles[j] by {
        lemma_cell(i, cols, rows);
        lemma_cell(j, cols, rows);
        if tiles[i] == tiles[j] {
            vstd::arithmetic::div_mod::lemma_fundamental_div_mod(i, rows);
            vstd::arithmetic::div_mod::lemma_fundamental_div_mod(j, rows);
        }
    }
}

/// A chunk whose tiles all have representable coordinates holds
/// `CHUNK_SIZE * CHUNK_SIZE` of them; tile `k` stands at local column
/// `k / CHUNK_SIZE` and local row `k % CHUNK_SIZE`, counted from the
/// chunk's offset `index * CHUNK_SIZE`.
pub proof fn lemma_whole_chunk(index: ChunkIndex, k: int)
    requires
        i32::MIN <= index.cq * CHUNK_SIZE,
        index.cq * CHUNK_SIZE + CHUNK_SIZE - 1 <= i32::MAX,
        i32::MIN <= index.cr * CHUNK_SIZE,
        index.cr * CHUNK_SIZE + CHUNK_SIZE - 1 <= i32::MAX,
        0 <= k < TILES_PER_CHUNK,
    ensures
        TILES_PER_CHUNK == CHUNK_SIZE * CHUNK_SIZE,
        chunk_tiles(index).len() == TILES_PER_CHUNK,
        chunk_visuals(index).len() == 2 * TILES_PER_CHUNK,
        chunk_tiles(index)[k].q == index.cq * CHUNK_SIZE + k / (CHUNK_SIZE as int),
        chunk_tiles(index)[k].r == index.cr * CHUNK_SIZE + k % (CHUNK_SIZE as int),
{
    assert(CHUNK_SIZE * CHUNK_SIZE == 49) by (nonlinear_arith)
        requires
            CHUNK_SIZE == 7,
    ;
    assert(axis_count(index.cq as int) * axis_count(index.cr as int) == 49) by (nonlinear_arith)
        requires
            axis_count(index.cq as int) == 7,
            axis_count(index.cr as int) == 7,
    ;
}

proof fn lemma_cell(k: int, cols: int, rows: int)
    requires
        0 <= cols,
        0 <= rows,
        0 <= k < cols * rows,
    ensures
        0 < rows,
        0 <= k / rows < cols,
        0 <= k % rows < rows,
{
    assert(0 < rows) by (nonlinear_arith)
        requires
            0 <= rows,
            0 <= k < cols * rows,
    ;
    vstd::arithmetic::div_mod::lemma_fundamental_div_mod(k, rows);
    vstd::arithmetic::div_mod::lemma_mod_bound(k, rows);
    assert(0 <= k / rows < cols) by (nonlinear_arith)
        requires
            0 < rows,
            0 <= k < cols * rows,
            k == rows * (k / rows) + k % rows,
            0 <= k % rows < rows,
    ;
}

proof fn lemma_cell_index(a: int, b: int, cols: int, rows: int)
    requires
        0 <= a < cols,
        0 <= b < rows,
    ensures
        0 <= a * rows + b < cols * rows,
        (a * rows + b) / rows == a,
        (a * rows + b) % rows == b,
{
    assert(0 <= a * rows + b < cols * rows) by (nonlinear_arith)
        requires
            0 <= a < cols,
            0 <= b < rows,
    ;
    vstd::arithmetic::div_mod::lemma_fundamental_div_mod_converse(a * rows + b, rows, a, b);
}

} // verus!
