//! The hexagon meshes: their corners on the lattice, and their index
//! buffers.

use crate::hex::{world_point, Direction, TileCoordinate, WorldPoint};
use vstd::prelude::*;

verus! {

/// Number of corners of a tile.
pub const HEX_CORNERS: u32 = 6;

/// Width of the dark border that the background cell shows around the
/// fill, in world units.
pub const BORDER_WIDTH: u32 = 2;

/// The corner that follows corner `i` around the hexagon; vertex 0 is
/// the centre and the corners are vertices 1 to 6.
pub open spec fn next_corner(i: int) -> int {
    if i == HEX_CORNERS - 1 {
        1
    } else {
        i + 2
    }
}

/// Whether triangle `i` of the index list joins the centre, corner
/// `i + 1` and the corner after it.
pub open spec fn is_fan_triangle(indices: Seq<u32>, i: int) -> bool {
    &&& indices[3 * i] == 0
    &&& indices[3 * i + 1] == i + 1
    &&& indices[3 * i + 2] == next_corner(i)
}

/// The triangle list of a hexagon drawn as a fan around its centre:
/// triangle `i` joins the centre, corner `i + 1` and the corner after
/// it, and the last triangle closes the fan on corner 1.
pub fn hexagon_indices() -> (indices: Vec<u32>)
    ensures
        indices.len() == 3 * HEX_CORNERS,
        forall|i: int| 0 <= i < HEX_CORNERS ==> #[trigger] is_fan_triangle(indices@, i),
{
    let mut indices: Vec<u32> = Vec::new();
    let mut i: u32 = 0;
    while i < HEX_CORNERS
        invariant
            i <= HEX_CORNERS,
            indices.len() == 3 * i,
            forall|j: int| 0 <= j < i ==> #[trigger] is_fan_triangle(indices@, j),
        decreases HEX_CORNERS - i,
    {
        let current: u32 = i + 1;
        let next: u32 = if i == HEX_CORNERS - 1 {
            1
        } else {
            i + 2
        };
        let ghost before = indices@;
        indices.push(0);
        indices.push(current);
        indices.push(next);
        proof {
            assert forall|j: int| 0 <= j < i + 1 implies #[trigger] is_fan_triangle(
                indices@,
                j,
            ) by {
                if j < i {
                    assert(is_fan_triangle(before, j));
                }
            }
        }
        i += 1;
    }
    indices
}

/// Where corner `i` of a flat-top hexagon stands, seen from its centre,
/// on the lattice of a hexagon of the same radius: the corners go
/// counter-clockwise from the one on the positive x axis, sixty degrees
/// apart.
pub open spec fn corner_offset(i: int) -> WorldPoint {
    if i == 0 {
        WorldPoint { col: 2, row: 0 }
    } else if i == 1 {
        WorldPoint { col: 1, row: 1 }
    } else if i == 2 {
        WorldPoint { col: -1i64, row: 1 }
    } else if i == 3 {
        WorldPoint { col: -2i64, row: 0 }
    } else if i == 4 {
        WorldPoint { col: -1i64, row: -1i64 }
    } else {
        WorldPoint { col: 1, row: -1i64 }
    }
}

/// The six corners of a hexagon, seen from its centre.
pub fn hexagon_corners() -> (corners: Vec<WorldPoint>)
    ensures
        corners.len() == HEX_CORNERS,
        forall|i: int| 0 <= i < HEX_CORNERS ==> #[trigger] corners[i] == corner_offset(i),
{
    let mut corners: Vec<WorldPoint> = Vec::new();
    corners.push(WorldPoint { col: 2, row: 0 });
    corners.push(WorldPoint { col: 1, row: 1 });
    corners.push(WorldPoint { col: -1, row: 1 });
    corners.push(WorldPoint { col: -2, row: 0 });
    corners.push(WorldPoint { col: -1, row: -1 });
    corners.push(WorldPoint { col: 1, row: -1 });
    corners
}

/// The hexagon is regular: every corner is one radius away from the
/// centre and one radius away from the next corner. With `R` the
/// radius, a lattice step `(dc, dr)` has the squared length
/// `(R / 2)^2 * (dc^2 + 3 * dr^2)`.
pub proof fn lemma_hexagon_is_regular(i: int)
    requires
        0 <= i < HEX_CORNERS,
    ensures
        ({
            let here = corner_offset(i);
            let next = corner_offset(next_corner(i) - 1);
            &&& here.col * here.col + 3 * (here.row * here.row) == 4
            &&& (next.col - here.col) * (next.col - here.col) + 3 * ((next.row - here.row) * (
            next.row - here.row)) == 4
        }),
{
    let here = corner_offset(i);
    let next = corner_offset(next_corner(i) - 1);
    lemma_unit_step(here.col as int, here.row as int);
    lemma_unit_step(next.col - here.col, next.row - here.row);
}

/// Where corner `i` of the hexagon of tile `t` stands in world space,
/// as column and row on the lattice.
pub open spec fn corner_of(t: TileCoordinate, i: int) -> (int, int) {
    (world_point(t).col + corner_offset(i).col, world_point(t).row + corner_offset(i).row)
}

/// The corner at which the edge towards the neighbour in direction `d`
/// begins; the edge ends at the next corner.
pub open spec fn edge_towards(d: Direction) -> int {
    match d {
        Direction::East => 0,
        Direction::North => 1,
        Direction::NorthWest => 2,
        Direction::West => 3,
        Direction::South => 4,
        Direction::SouthEast => 5,
    }
}

/// The hexagons of two adjacent tiles share an edge: the two corners
/// of the edge that looks towards the neighbour are corners of the
/// neighbour's hexagon too. So the hexagons tile the plane without gap
/// or overlap.
pub proof fn lemma_neighbors_share_an_edge(t: TileCoordinate, d: Direction, n: TileCoordinate)
    requires
        n.q == t.q + d.dq(),
        n.r == t.r + d.dr(),
    ensures
        ({
            let i = edge_towards(d);
            &&& corner_of(t, i) == corner_of(n, (i + 4) % 6)
            &&& corner_of(t, (i + 1) % 6) == corner_of(n, (i + 3) % 6)
        }),
{
}

proof fn lemma_unit_step(dc: int, dr: int)
    by (nonlinear_arith)
    requires
        ((dc == 2 || dc == -2) && dr == 0) || ((dc == 1 || dc == -1) && (dr == 1 || dr == -1)),
    ensures
        dc * dc + 3 * (dr * dr) == 4,
{
}

} // verus!
