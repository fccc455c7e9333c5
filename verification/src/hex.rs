//! Axial hex coordinates: tiles, chunks, directions, distances and the
//! flat-top projection into world space.

use vstd::prelude::*;

verus! {

/// Radius of one hex tile, in world units.
pub const HEX_RADIUS: u32 = 40;

/// Number of tiles along each axis of a chunk.
pub const CHUNK_SIZE: i32 = 7;

/// Number of tiles in a chunk: `CHUNK_SIZE` squared.
pub const TILES_PER_CHUNK: usize = 49;

/// Radius, in chunks, of the region kept loaded around the player.
pub const VIEW_DISTANCE: u32 = 2;

/// Absolute value of a mathematical integer.
pub open spec fn abs(x: int) -> int {
    if x < 0 {
        -x
    } else {
        x
    }
}

/// The third cube coordinate that goes with the axial pair `(q, r)`.
pub open spec fn cube_s(q: int, r: int) -> int {
    -q - r
}

/// Distance between two hexes that differ by `(dq, dr)`:
/// `max(|dq|, |dr|, |dq + dr|)`.
pub open spec fn hex_norm(dq: int, dr: int) -> int {
    let a = abs(dq);
    let b = abs(dr);
    let c = abs(dq + dr);
    if a >= b && a >= c {
        a
    } else if b >= c {
        b
    } else {
        c
    }
}

/// Whether `(q, r)` can be held by a `TileCoordinate` or a `ChunkIndex`.
pub open spec fn representable(q: int, r: int) -> bool {
    i32::MIN <= q <= i32::MAX && i32::MIN <= r <= i32::MAX
}

/// Index, along one axis, of the chunk that holds tile coordinate `a`:
/// the quotient rounded toward negative infinity.
pub open spec fn chunk_of(a: int) -> int {
    a / (CHUNK_SIZE as int)
}

/// A hex tile in axial coordinates.
#[derive(Clone, Copy, Debug, PartialEq, Eq, Hash, Structural)]
pub struct TileCoordinate {
    pub q: i32,
    pub r: i32,
}

/// A block of `CHUNK_SIZE` by `CHUNK_SIZE` tiles.
#[derive(Clone, Copy, Debug, PartialEq, Eq, Hash, Structural)]
pub struct ChunkIndex {
    pub cq: i32,
    pub cr: i32,
}

/// One of the six steps a player can take.
#[derive(Clone, Copy, Debug, PartialEq, Eq, Hash, Structural)]
pub enum Direction {
    North,
    South,
    West,
    East,
    NorthWest,
    SouthEast,
}

/// Which tiles exist.
#[derive(Clone, Copy, Debug, PartialEq, Eq, Structural)]
pub enum WorldBounds {
    /// Every tile exists.
    Infinite,
    /// Only the tiles within this hex distance of the origin exist.
    Radius(u32),
}

/// A point of the lattice on which all tile centres lie. With `R` the
/// tile radius, the point stands at `x = col * R / 2` and
/// `y = row * R * sqrt(3) / 2`.
#[derive(Clone, Copy, Debug, PartialEq, Eq, Structural)]
pub struct WorldPoint {
    pub col: i64,
    pub row: i64,
}

impl Direction {
    /// Change of `q` made by one step.
    pub open spec fn dq(self) -> int {
        match self {
            Direction::North => 0,
            Direction::South => 0,
            Direction::West => -1,
            Direction::East => 1,
            Direction::NorthWest => -1,
            Direction::SouthEast => 1,
        }
    }

    /// Change of `r` made by one step.
    pub open spec fn dr(self) -> int {
        match self {
            Direction::North => 1,
            Direction::South => -1,
            Direction::West => 0,
            Direction::East => 0,
            Direction::NorthWest => 1,
            Direction::SouthEast => -1,
        }
    }

    /// Rank of the direction when several keys go down at once; the
    /// lowest rank wins.
    pub open spec fn rank(self) -> int {
        match self {
            Direction::North => 0,
            Direction::South => 1,
            Direction::West => 2,
            Direction::East => 3,
            Direction::NorthWest => 4,
            Direction::SouthEast => 5,
        }
    }

    /// The axial vector of one step in this direction.
    pub fn offset(self) -> (d: (i32, i32))
        ensures
            d.0 == self.dq(),
            d.1 == self.dr(),
    {
        match self {
            Direction::North => (0, 1),
            Direction::South => (0, -1),
            Direction::West => (-1, 0),
            Direction::East => (1, 0),
            Direction::NorthWest => (-1, 1),
            Direction::SouthEast => (1, -1),
        }
    }
}

/// The six directions, by rank.
pub fn neighbor_offsets() -> (table: Vec<(Direction, (i32, i32))>)
    ensures
        table.len() == 6,
        forall|i: int|
            0 <= i < 6 ==> (#[trigger] table[i]).0.rank() == i && table[i].1.0 == table[i].0.dq()
                && table[i].1.1 == table[i].0.dr(),
{
    let mut table: Vec<(Direction, (i32, i32))> = Vec::new();
    table.push((Direction::North, Direction::North.offset()));
    table.push((Direction::South, Direction::South.offset()));
    table.push((Direction::West, Direction::West.offset()));
    table.push((Direction::East, Direction::East.offset()));
    table.push((Direction::NorthWest, Direction::NorthWest.offset()));
    table.push((Direction::SouthEast, Direction::SouthEast.offset()));
    table
}

/// Quotient of `a` by `CHUNK_SIZE`, rounded toward negative infinity.
pub fn chunk_coordinate(a: i32) -> (c: i32)
    ensures
        c == chunk_of(a as int),
        c * CHUNK_SIZE <= a < c * CHUNK_SIZE + CHUNK_SIZE,
{
    if a >= 0 {
        a / CHUNK_SIZE
    } else {
        -((-(a + 1)) / CHUNK_SIZE) - 1
    }
}

/// The chunk that holds tile `(q, r)`: each coordinate is divided by
/// `CHUNK_SIZE` and rounded toward negative infinity, not toward zero.
pub fn tile_to_chunk(q: i32, r: i32) -> (c: ChunkIndex)
    ensures
        c == (TileCoordinate { q, r }).chunk_index(),
        c.cq == chunk_of(q as int),
        c.cr == chunk_of(r as int),
        c.cq * CHUNK_SIZE <= q < (c.cq + 1) * CHUNK_SIZE,
        c.cr * CHUNK_SIZE <= r < (c.cr + 1) * CHUNK_SIZE,
{
    ChunkIndex { cq: chunk_coordinate(q), cr: chunk_coordinate(r) }
}

/// Centre of tile `(q, r)` under the flat-top projection
/// `x = R * 3/2 * q`, `y = R * (sqrt(3)/2 * q + sqrt(3) * r)`, that is
/// `x = (R / 2) * 3q` and `y = (R * sqrt(3) / 2) * (q + 2r)`.
pub fn tile_to_world(q: i32, r: i32) -> (p: WorldPoint)
    ensures
        p.col == 3 * q,
        p.row == q + 2 * r,
        p == world_point(TileCoordinate { q, r }),
{
    let qw: i64 = q as i64;
    let rw: i64 = r as i64;
    WorldPoint { col: 3 * qw, row: qw + 2 * rw }
}

/// Hex distance between two tiles.
pub fn hex_distance(a: TileCoordinate, b: TileCoordinate) -> (d: i64)
    ensures
        d == hex_norm(a.q - b.q, a.r - b.r),
{
    let dq: i64 = a.q as i64 - b.q as i64;
    let dr: i64 = a.r as i64 - b.r as i64;
    let ds: i64 = dq + dr;
    let x: i64 = if dq < 0 { -dq } else { dq };
    let y: i64 = if dr < 0 { -dr } else { dr };
    let z: i64 = if ds < 0 { -ds } else { ds };
    if x >= y && x >= z {
        x
    } else if y >= z {
        y
    } else {
        z
    }
}

impl WorldBounds {
    /// Whether tile `(q, r)` exists in a world with these bounds.
    pub open spec fn admits(self, q: int, r: int) -> bool {
        match self {
            WorldBounds::Infinite => true,
            WorldBounds::Radius(limit) => hex_norm(q, r) <= limit,
        }
    }
}

/// Whether tile `(q, r)` exists: always in an infinite world; in a
/// bounded one, when `max(|q|, |r|, |s|)` is within the radius.
pub fn is_valid_hex(bounds: WorldBounds, q: i32, r: i32) -> (valid: bool)
    ensures
        valid == bounds.admits(q as int, r as int),
{
    match bounds {
        WorldBounds::Infinite => true,
        WorldBounds::Radius(limit) => {
            let origin = TileCoordinate { q: 0, r: 0 };
            hex_distance(TileCoordinate { q, r }, origin) <= limit as i64
        },
    }
}

impl TileCoordinate {
    /// The tile with axial coordinates `(q, r)`.
    pub fn new(q: i32, r: i32) -> (t: TileCoordinate)
        ensures
            t.q == q,
            t.r == r,
    {
        TileCoordinate { q, r }
    }

    /// The third cube coordinate, `-q - r`.
    pub fn s(self) -> (s: i64)
        ensures
            s == cube_s(self.q as int, self.r as int),
            self.q + self.r + s == 0,
    {
        -(self.q as i64) - (self.r as i64)
    }

    /// The chunk that holds this tile.
    pub open spec fn chunk_index(self) -> ChunkIndex {
        ChunkIndex { cq: chunk_of(self.q as int) as i32, cr: chunk_of(self.r as int) as i32 }
    }

    /// The chunk that holds this tile.
    pub fn chunk(self) -> (c: ChunkIndex)
        ensures
            c == self.chunk_index(),
    {
        tile_to_chunk(self.q, self.r)
    }

    /// The tile one step away in direction `d`, if its coordinates can
    /// be represented.
    pub fn neighbor(self, d: Direction) -> (n: Option<TileCoordinate>)
        ensures
            n is Some <==> representable(self.q + d.dq(), self.r + d.dr()),
            n matches Some(t) ==> t.q == self.q + d.dq() && t.r == self.r + d.dr(),
    {
        let (dq, dr) = d.offset();
        match (self.q.checked_add(dq), self.r.checked_add(dr)) {
            (Some(q), Some(r)) => Some(TileCoordinate { q, r }),
            _ => None,
        }
    }

    /// World position of the tile's centre.
    pub fn world_position(self) -> (p: WorldPoint)
        ensures
            p == world_point(self),
    {
        tile_to_world(self.q, self.r)
    }
}

/// Centre of a tile in world space.
pub open spec fn world_point(t: TileCoordinate) -> WorldPoint {
    WorldPoint { col: (3 * t.q) as i64, row: (t.q + 2 * t.r) as i64 }
}

/// The cube coordinates of every hex sum to zero.
pub proof fn lemma_cube_sum_zero(q: int, r: int)
    ensures
        q + r + cube_s(q, r) == 0,
{
}

/// `chunk_of` is the floor of the quotient: it is the one integer `c`
/// with `c * CHUNK_SIZE <= a < (c + 1) * CHUNK_SIZE`.
pub proof fn lemma_chunk_of_is_floor(a: int, c: int)
    ensures
        c == chunk_of(a) <==> c * CHUNK_SIZE <= a < (c + 1) * CHUNK_SIZE,
{
}

/// The centres of two adjacent tiles are `sqrt(3) * R` apart, whatever
/// the direction: the squared distance `(R / 2)^2 * (dc^2 + 3 * dr^2)`
/// is `3 * R^2` for all six neighbours.
pub proof fn lemma_neighbors_equidistant(t: TileCoordinate, d: Direction, n: TileCoordinate)
    requires
        n.q == t.q + d.dq(),
        n.r == t.r + d.dr(),
    ensures
        ({
            let dc = world_point(n).col - world_point(t).col;
            let dr = world_point(n).row - world_point(t).row;
            dc * dc + 3 * (dr * dr) == 12
        }),
{
    let dc = world_point(n).col - world_point(t).col;
    let dr = world_point(n).row - world_point(t).row;
    assert(dc == 3 * d.dq() && dr == d.dq() + 2 * d.dr());
    assert(dc * dc + 3 * (dr * dr) == 12) by (nonlinear_arith)
        requires
            (dc == 0 && (dr == 2 || dr == -2)) || ((dc == 3 || dc == -3) && (dr == 1 || dr == -1)),
    ;
}

/// Hex distance is symmetric, and zero only between a tile and itself.
pub proof fn lemma_hex_norm_properties(dq: int, dr: int)
    ensures
        hex_norm(dq, dr) >= 0,
        hex_norm(dq, dr) == hex_norm(-dq, -dr),
        hex_norm(dq, dr) == 0 <==> dq == 0 && dr == 0,
{
}

/// A single step moves to hex distance one.
pub proof fn lemma_step_has_norm_one(d: Direction)
    ensures
        hex_norm(d.dq(), d.dr()) == 1,
{
}

} // verus!
