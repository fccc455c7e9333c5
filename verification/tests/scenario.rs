use hex_world::chunks::{required_set, ChunkSet};
use hex_world::display::chunk_label;
use hex_world::game::Game;
use hex_world::hex::{ChunkIndex, Direction, TileCoordinate, WorldBounds, VIEW_DISTANCE};
use hex_world::input::KeyEdges;
use hex_world::materialize::load_chunk;
use hex_world::movement::{Facing, InputOutcome, DEFAULT_MOVE_DURATION};

fn chunk(cq: i32, cr: i32) -> ChunkIndex {
    ChunkIndex { cq, cr }
}

fn set_from(list: &[ChunkIndex]) -> ChunkSet {
    let mut set = ChunkSet::new();
    for c in list {
        assert!(set.insert(*c));
    }
    set
}

fn new_game() -> Game {
    let (game, load) = Game::new(WorldBounds::Infinite, VIEW_DISTANCE, DEFAULT_MOVE_DURATION);
    assert!(set_from(&load).same_as(&required_set(chunk(0, 0), VIEW_DISTANCE)));
    game
}

#[test]
fn a_new_game_has_the_region_around_the_origin_loaded() {
    let (game, load) = Game::new(WorldBounds::Infinite, 2, 300_000);
    assert_eq!(load.len(), 19);
    assert_eq!(game.registry.len(), 19);
    assert!(game.registry.loaded_set().same_as(&required_set(chunk(0, 0), 2)));
    assert_eq!(game.player.tile(), TileCoordinate::new(0, 0));
    assert!(!game.player.is_moving());
    assert_eq!(game.shown_chunk, chunk(0, 0));
    assert_eq!(game.view_distance, 2);
    assert_eq!(game.bounds, WorldBounds::Infinite);
}

#[test]
fn seven_steps_east_stream_in_the_next_chunk() {
    let mut game = new_game();
    for step in 1..=7 {
        let report = game.tick(KeyEdges::only(Direction::East), 0);
        assert_eq!(report.outcome, InputOutcome::Accepted(Direction::East));
        assert_eq!(game.player.tile(), TileCoordinate::new(step, 0));
        let done = game.tick(KeyEdges::none(), DEFAULT_MOVE_DURATION);
        assert_eq!(done.outcome, InputOutcome::Locked);
        assert!(!game.player.is_moving());
    }
    assert_eq!(game.player.tile(), TileCoordinate::new(7, 0));
    assert_eq!(game.player.tile().chunk(), chunk(1, 0));
    assert_eq!(game.shown_chunk, chunk(1, 0));
    assert_eq!(game.registry.len(), 19);
    assert!(game.registry.loaded_set().same_as(&required_set(chunk(1, 0), 2)));
    let mut loaded: Vec<(i32, i32)> =
        game.registry.loaded_set().to_vec().iter().map(|c| (c.cq, c.cr)).collect();
    loaded.sort();
    assert_eq!(
        loaded,
        vec![
            (-1, 0),
            (-1, 1),
            (-1, 2),
            (0, -1),
            (0, 0),
            (0, 1),
            (0, 2),
            (1, -2),
            (1, -1),
            (1, 0),
            (1, 1),
            (1, 2),
            (2, -2),
            (2, -1),
            (2, 0),
            (2, 1),
            (3, -2),
            (3, -1),
            (3, 0),
        ]
    );
}

#[test]
fn the_chunks_change_in_the_tick_that_accepts_the_move() {
    let mut game = new_game();
    for _ in 0..6 {
        let report = game.tick(KeyEdges::only(Direction::East), 0);
        assert_eq!(report.chunks.load, vec![]);
        assert_eq!(report.chunks.unload, vec![]);
        assert_eq!(report.display, None);
        game.tick(KeyEdges::none(), DEFAULT_MOVE_DURATION);
    }
    let report = game.tick(KeyEdges::only(Direction::East), 0);
    assert_eq!(report.outcome, InputOutcome::Accepted(Direction::East));
    assert!(game.player.is_moving());
    assert_eq!(report.frame.progress.numerator, 0);
    assert_eq!(report.chunks.load.len(), 5);
    assert_eq!(report.chunks.unload.len(), 5);
    assert_eq!(report.display, Some(chunk(1, 0)));
    assert_eq!(chunk_label(report.display.unwrap()), "Chunk: (1, 0)");
    assert!(game.registry.loaded_set().same_as(&required_set(chunk(1, 0), 2)));
    let next = game.tick(KeyEdges::none(), 1);
    assert_eq!(next.display, None);
    assert_eq!(next.chunks.load, vec![]);
    assert_eq!(next.chunks.unload, vec![]);
}

#[test]
fn after_every_tick_the_loaded_chunks_are_the_required_ones() {
    let mut game = new_game();
    let walk = [
        Direction::West,
        Direction::West,
        Direction::NorthWest,
        Direction::North,
        Direction::North,
        Direction::North,
        Direction::North,
        Direction::North,
        Direction::North,
        Direction::SouthEast,
        Direction::South,
        Direction::East,
        Direction::East,
        Direction::East,
        Direction::South,
        Direction::South,
        Direction::South,
        Direction::South,
        Direction::South,
        Direction::South,
        Direction::South,
        Direction::South,
    ];
    for d in walk {
        let before = game.player.tile();
        let report = game.tick(KeyEdges::only(d), 100_000);
        assert_eq!(report.outcome, InputOutcome::Accepted(d));
        let tile = game.player.tile();
        assert_eq!(Some(tile), before.neighbor(d));
        assert!(game.registry.loaded_set().same_as(&required_set(tile.chunk(), 2)));
        assert_eq!(game.shown_chunk, tile.chunk());
        let blocked = game.tick(KeyEdges::only(d), 100_000);
        assert_eq!(blocked.outcome, InputOutcome::Locked);
        assert_eq!(game.player.tile(), tile);
        let done = game.tick(KeyEdges::none(), 100_000);
        assert!(!game.player.is_moving());
        assert_eq!(done.frame.progress.numerator, done.frame.progress.denominator);
        assert!(game.registry.loaded_set().same_as(&required_set(tile.chunk(), 2)));
    }
    assert_eq!(game.player.tile(), TileCoordinate::new(1, -3));
}

#[test]
fn the_host_can_keep_every_entity_on_record() {
    let (mut game, load) = Game::new(WorldBounds::Infinite, 1, 1000);
    let mut next_entity: u64 = 0;
    let mut live: Vec<(u64, ChunkIndex)> = Vec::new();
    for c in load {
        let mut spawned = Vec::new();
        for _ in load_chunk(c) {
            spawned.push(next_entity);
            live.push((next_entity, c));
            next_entity += 1;
        }
        assert!(game.registry.attach_entities(c, spawned));
    }
    assert_eq!(live.len(), 7 * 98);
    for _ in 0..30 {
        let report = game.tick(KeyEdges::only(Direction::NorthWest), 1000);
        for gone in report.chunks.unload {
            let owned: Vec<u64> =
                live.iter().filter(|(_, c)| *c == gone.index).map(|(e, _)| *e).collect();
            assert_eq!(gone.entities, owned);
            live.retain(|(_, c)| *c != gone.index);
        }
        for c in report.chunks.load {
            let mut spawned = Vec::new();
            for _ in load_chunk(c) {
                spawned.push(next_entity);
                live.push((next_entity, c));
                next_entity += 1;
            }
            assert!(game.registry.attach_entities(c, spawned));
        }
        game.tick(KeyEdges::none(), 1000);
        assert_eq!(live.len(), 7 * 98);
        for (_, c) in &live {
            assert!(game.registry.is_loaded(*c));
        }
        for c in game.registry.loaded_set().to_vec() {
            let owned: Vec<u64> = live.iter().filter(|(_, t)| *t == c).map(|(e, _)| *e).collect();
            assert_eq!(game.registry.entities_of(c), Some(owned));
        }
    }
    assert_eq!(game.player.tile(), TileCoordinate::new(-30, 30));
    assert_eq!(game.player.facing(), Facing::Left);
}

#[test]
fn a_bounded_game_keeps_the_player_inside() {
    let (mut game, _) = Game::new(WorldBounds::Radius(2), 1, 10);
    for _ in 0..5 {
        game.tick(KeyEdges::only(Direction::East), 10);
        game.tick(KeyEdges::none(), 10);
    }
    assert_eq!(game.player.tile(), TileCoordinate::new(2, 0));
    let report = game.tick(KeyEdges::only(Direction::East), 10);
    assert_eq!(report.outcome, InputOutcome::Rejected(Direction::East));
    assert_eq!(report.chunks.load, vec![]);
    assert_eq!(report.chunks.unload, vec![]);
    assert_eq!(report.display, None);
    assert_eq!(game.bounds, WorldBounds::Radius(2));
}
