use hex_world::hex::{
    chunk_coordinate, hex_distance, tile_to_world, is_valid_hex, neighbor_offsets, tile_to_chunk,
    ChunkIndex, Direction, TileCoordinate, WorldBounds, WorldPoint, CHUNK_SIZE, HEX_RADIUS,
    TILES_PER_CHUNK, VIEW_DISTANCE,
};

const DIRECTIONS: [Direction; 6] = [
    Direction::North,
    Direction::South,
    Direction::West,
    Direction::East,
    Direction::NorthWest,
    Direction::SouthEast,
];

#[test]
fn constants_have_their_values() {
    assert_eq!(HEX_RADIUS, 40);
    assert_eq!(CHUNK_SIZE, 7);
    assert_eq!(VIEW_DISTANCE, 2);
    assert_eq!(TILES_PER_CHUNK, 49);
    assert_eq!(TILES_PER_CHUNK as i32, CHUNK_SIZE * CHUNK_SIZE);
}

#[test]
fn cube_coordinates_sum_to_zero() {
    let samples = [
        (0, 0),
        (3, -5),
        (-12, 7),
        (i32::MAX, i32::MAX),
        (i32::MIN, i32::MIN),
        (i32::MIN, i32::MAX),
    ];
    for (q, r) in samples {
        let s = TileCoordinate::new(q, r).s();
        assert_eq!(q as i64 + r as i64 + s, 0);
    }
    assert_eq!(TileCoordinate::new(3, -5).s(), 2);
    assert_eq!(TileCoordinate::new(i32::MIN, i32::MIN).s(), 4294967296);
}

#[test]
fn tile_to_chunk_floors_negative_coordinates() {
    assert_eq!(tile_to_chunk(-1, 0), ChunkIndex { cq: -1, cr: 0 });
    assert_ne!(tile_to_chunk(-1, 0), ChunkIndex { cq: 0, cr: 0 });
}

#[test]
fn tile_to_chunk_on_both_sides_of_each_boundary() {
    assert_eq!(tile_to_chunk(0, 0), ChunkIndex { cq: 0, cr: 0 });
    assert_eq!(tile_to_chunk(6, 6), ChunkIndex { cq: 0, cr: 0 });
    assert_eq!(tile_to_chunk(7, 13), ChunkIndex { cq: 1, cr: 1 });
    assert_eq!(tile_to_chunk(14, -1), ChunkIndex { cq: 2, cr: -1 });
    assert_eq!(tile_to_chunk(-7, -8), ChunkIndex { cq: -1, cr: -2 });
    assert_eq!(tile_to_chunk(-14, -15), ChunkIndex { cq: -2, cr: -3 });
}

#[test]
fn chunk_coordinate_is_the_floor_of_the_quotient() {
    assert_eq!(chunk_coordinate(-CHUNK_SIZE + 1), -1);
    assert_eq!(chunk_coordinate(-CHUNK_SIZE), -1);
    assert_eq!(chunk_coordinate(-CHUNK_SIZE - 1), -2);
    assert_eq!(chunk_coordinate(CHUNK_SIZE - 1), 0);
    assert_eq!(chunk_coordinate(CHUNK_SIZE), 1);
    assert_eq!(chunk_coordinate(i32::MAX), 306783378);
    assert_eq!(chunk_coordinate(i32::MIN), -306783379);
    for a in -100..100 {
        let c = chunk_coordinate(a);
        assert!(c * CHUNK_SIZE <= a && a < (c + 1) * CHUNK_SIZE);
        assert_eq!(c, a.div_euclid(CHUNK_SIZE));
    }
}

#[test]
fn tile_chunk_agrees_with_tile_to_chunk() {
    let tile = TileCoordinate::new(-20, 20);
    assert_eq!(tile.chunk(), tile_to_chunk(-20, 20));
    assert_eq!(tile.chunk(), ChunkIndex { cq: -3, cr: 2 });
}

#[test]
fn tile_to_world_gives_lattice_points() {
    assert_eq!(tile_to_world(0, 0), WorldPoint { col: 0, row: 0 });
    assert_eq!(tile_to_world(1, 0), WorldPoint { col: 3, row: 1 });
    assert_eq!(tile_to_world(0, 1), WorldPoint { col: 0, row: 2 });
    assert_eq!(tile_to_world(2, -3), WorldPoint { col: 6, row: -4 });
    assert_eq!(tile_to_world(-5, 4), WorldPoint { col: -15, row: 3 });
    assert_eq!(
        tile_to_world(i32::MAX, i32::MAX),
        WorldPoint { col: 6442450941, row: 6442450941 }
    );
    assert_eq!(
        tile_to_world(i32::MIN, i32::MIN),
        WorldPoint { col: -6442450944, row: -6442450944 }
    );
    assert_eq!(TileCoordinate::new(2, -3).world_position(), tile_to_world(2, -3));
}

#[test]
fn lattice_points_stand_for_the_flat_top_projection() {
    let radius = HEX_RADIUS as f64;
    let root3 = 3.0_f64.sqrt();
    for q in -9..10 {
        for r in -9..10 {
            let p = tile_to_world(q, r);
            let x = radius * (3.0 / 2.0 * q as f64);
            let y = radius * (root3 / 2.0 * q as f64 + root3 * r as f64);
            assert!((p.col as f64 * radius / 2.0 - x).abs() < 1e-9);
            assert!((p.row as f64 * radius * root3 / 2.0 - y).abs() < 1e-9);
        }
    }
}

#[test]
fn offsets_are_the_six_axial_vectors() {
    assert_eq!(Direction::North.offset(), (0, 1));
    assert_eq!(Direction::South.offset(), (0, -1));
    assert_eq!(Direction::West.offset(), (-1, 0));
    assert_eq!(Direction::East.offset(), (1, 0));
    assert_eq!(Direction::NorthWest.offset(), (-1, 1));
    assert_eq!(Direction::SouthEast.offset(), (1, -1));
}

#[test]
fn neighbor_offsets_lists_the_directions_by_rank() {
    let table = neighbor_offsets();
    assert_eq!(
        table,
        vec![
            (Direction::North, (0, 1)),
            (Direction::South, (0, -1)),
            (Direction::West, (-1, 0)),
            (Direction::East, (1, 0)),
            (Direction::NorthWest, (-1, 1)),
            (Direction::SouthEast, (1, -1)),
        ]
    );
}

#[test]
fn neighbors_are_one_step_away() {
    let tile = TileCoordinate::new(4, -9);
    for d in DIRECTIONS {
        let (dq, dr) = d.offset();
        let n = tile.neighbor(d).unwrap();
        assert_eq!(n, TileCoordinate::new(4 + dq, -9 + dr));
        assert_eq!(hex_distance(tile, n), 1);
        assert_eq!(hex_distance(n, tile), 1);
    }
}

#[test]
fn neighbors_are_equidistant_in_world_space() {
    let tile = TileCoordinate::new(-3, 8);
    let here = tile.world_position();
    for d in DIRECTIONS {
        let there = tile.neighbor(d).unwrap().world_position();
        let dc = there.col - here.col;
        let dr = there.row - here.row;
        assert_eq!(dc * dc + 3 * dr * dr, 12);
    }
}

#[test]
fn no_neighbor_beyond_the_coordinate_range() {
    let corner = TileCoordinate::new(i32::MAX, i32::MIN);
    assert_eq!(corner.neighbor(Direction::East), None);
    assert_eq!(corner.neighbor(Direction::South), None);
    assert_eq!(corner.neighbor(Direction::SouthEast), None);
    assert_eq!(corner.neighbor(Direction::West), Some(TileCoordinate::new(i32::MAX - 1, i32::MIN)));
    assert_eq!(corner.neighbor(Direction::North), Some(TileCoordinate::new(i32::MAX, i32::MIN + 1)));
    assert_eq!(
        corner.neighbor(Direction::NorthWest),
        Some(TileCoordinate::new(i32::MAX - 1, i32::MIN + 1))
    );
    let other = TileCoordinate::new(i32::MIN, i32::MAX);
    assert_eq!(other.neighbor(Direction::West), None);
    assert_eq!(other.neighbor(Direction::North), None);
    assert_eq!(other.neighbor(Direction::NorthWest), None);
}

#[test]
fn hex_distance_is_the_largest_cube_difference() {
    let origin = TileCoordinate::new(0, 0);
    assert_eq!(hex_distance(origin, origin), 0);
    assert_eq!(hex_distance(origin, TileCoordinate::new(2, -1)), 2);
    assert_eq!(hex_distance(origin, TileCoordinate::new(1, 1)), 2);
    assert_eq!(hex_distance(origin, TileCoordinate::new(-3, 1)), 3);
    assert_eq!(hex_distance(TileCoordinate::new(5, 5), TileCoordinate::new(2, 9)), 4);
    assert_eq!(hex_distance(TileCoordinate::new(2, 9), TileCoordinate::new(5, 5)), 4);
    assert_eq!(
        hex_distance(TileCoordinate::new(i32::MIN, i32::MIN), TileCoordinate::new(i32::MAX, i32::MAX)),
        8589934590
    );
}

#[test]
fn every_hex_is_valid_in_an_infinite_world() {
    assert!(is_valid_hex(WorldBounds::Infinite, 0, 0));
    assert!(is_valid_hex(WorldBounds::Infinite, i32::MAX, i32::MAX));
    assert!(is_valid_hex(WorldBounds::Infinite, i32::MIN, 17));
}

#[test]
fn a_bounded_world_ends_at_its_radius() {
    let bounds = WorldBounds::Radius(2);
    assert!(is_valid_hex(bounds, 0, 0));
    assert!(is_valid_hex(bounds, 2, 0));
    assert!(is_valid_hex(bounds, -2, 2));
    assert!(is_valid_hex(bounds, 1, 1));
    assert!(!is_valid_hex(bounds, 2, 1));
    assert!(!is_valid_hex(bounds, 3, 0));
    assert!(!is_valid_hex(bounds, 0, -3));
    assert!(!is_valid_hex(bounds, -2, -1));
    assert!(is_valid_hex(WorldBounds::Radius(0), 0, 0));
    assert!(!is_valid_hex(WorldBounds::Radius(0), 0, 1));
    let mut count = 0;
    for q in -5..6 {
        for r in -5..6 {
            if is_valid_hex(bounds, q, r) {
                count += 1;
            }
        }
    }
    assert_eq!(count, 19);
}
