use hex_world::hex::{tile_to_world, Direction, TileCoordinate, WorldPoint, HEX_RADIUS};
use hex_world::mesh::{hexagon_corners, hexagon_indices, BORDER_WIDTH, HEX_CORNERS};

#[test]
fn the_hexagon_is_a_fan_of_six_triangles() {
    assert_eq!(HEX_CORNERS, 6);
    assert_eq!(BORDER_WIDTH, 2);
    assert_eq!(
        hexagon_indices(),
        vec![0, 1, 2, 0, 2, 3, 0, 3, 4, 0, 4, 5, 0, 5, 6, 0, 6, 1]
    );
}

#[test]
fn every_triangle_starts_at_the_centre_and_joins_two_adjacent_corners() {
    let indices = hexagon_indices();
    assert_eq!(indices.len(), 18);
    for i in 0..6usize {
        assert_eq!(indices[3 * i], 0);
        assert_eq!(indices[3 * i + 1] as usize, i + 1);
        assert_eq!(indices[3 * i + 2] as usize, (i + 1) % 6 + 1);
    }
}

#[test]
fn the_corners_go_round_the_centre() {
    assert_eq!(
        hexagon_corners(),
        vec![
            WorldPoint { col: 2, row: 0 },
            WorldPoint { col: 1, row: 1 },
            WorldPoint { col: -1, row: 1 },
            WorldPoint { col: -2, row: 0 },
            WorldPoint { col: -1, row: -1 },
            WorldPoint { col: 1, row: -1 },
        ]
    );
}

#[test]
fn the_corners_stand_sixty_degrees_apart_on_the_circle() {
    let radius = HEX_RADIUS as f64;
    let root3 = 3.0_f64.sqrt();
    for (i, corner) in hexagon_corners().iter().enumerate() {
        let angle = i as f64 * std::f64::consts::PI / 3.0;
        let x = corner.col as f64 * radius / 2.0;
        let y = corner.row as f64 * radius * root3 / 2.0;
        assert!((x - radius * angle.cos()).abs() < 1e-9);
        assert!((y - radius * angle.sin()).abs() < 1e-9);
        assert_eq!(corner.col * corner.col + 3 * corner.row * corner.row, 4);
    }
}

#[test]
fn adjacent_hexagons_share_an_edge() {
    let edges = [
        (Direction::East, 0),
        (Direction::North, 1),
        (Direction::NorthWest, 2),
        (Direction::West, 3),
        (Direction::South, 4),
        (Direction::SouthEast, 5),
    ];
    let corners = hexagon_corners();
    let tile = TileCoordinate::new(-2, 5);
    let here = tile_to_world(tile.q, tile.r);
    for (d, i) in edges {
        let n = tile.neighbor(d).unwrap();
        let there = tile_to_world(n.q, n.r);
        let pairs = [(i, (i + 4) % 6), ((i + 1) % 6, (i + 3) % 6)];
        for (mine, theirs) in pairs {
            assert_eq!(here.col + corners[mine].col, there.col + corners[theirs].col);
            assert_eq!(here.row + corners[mine].row, there.row + corners[theirs].row);
        }
    }
}
