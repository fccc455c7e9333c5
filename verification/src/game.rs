//! One tick of the game: input, movement, chunk streaming and the
//! chunk display, in that order.

use crate::chunks::required_chunks;
use crate::display::update_chunk_display;
use crate::hex::{ChunkIndex, TileCoordinate, WorldBounds};
use crate::input::KeyEdges;
use crate::movement::{InputOutcome, PlayerState, PlayerView, VisualPosition};
use crate::registry::{
    after_pass, lemma_pass_converges, loads_exactly, unloads_exactly, ChunkActions, ChunkRegistry,
};
use vstd::prelude::*;

verus! {

/// Everything that a tick reads and changes.
#[derive(Debug)]
pub struct Game {
    pub player: PlayerState,
    pub registry: ChunkRegistry,
    /// Which tiles exist.
    pub bounds: WorldBounds,
    /// Radius, in chunks, of the region kept loaded around the player.
    pub view_distance: u32,
    /// The chunk that the display shows.
    pub shown_chunk: ChunkIndex,
}

/// What a tick decided, for the host to carry out.
#[derive(Debug)]
pub struct TickReport {
    /// What became of the input.
    pub outcome: InputOutcome,
    /// Where to draw the player.
    pub frame: VisualPosition,
    /// Chunks to destroy and chunks to materialize.
    pub chunks: ChunkActions,
    /// The chunk to show from now on, when the display has to change.
    pub display: Option<ChunkIndex>,
}

impl Game {
    /// The state of the player after the keys of a tick and the time it
    /// took.
    pub open spec fn player_after(
        player: PlayerView,
        bounds: WorldBounds,
        keys: KeyEdges,
        dt: u32,
    ) -> PlayerView {
        player.after_input(bounds, keys).0.advanced(dt)
    }

    /// The chunks that must be loaded for the player of this game.
    pub open spec fn required(&self) -> Set<ChunkIndex> {
        required_chunks(self.player@.tile.chunk_index(), self.view_distance as nat)
    }

    /// A game at start-up, with the chunks to materialize: the player
    /// rests on the origin tile, the region around the origin chunk is
    /// loaded, and the display shows the origin chunk.
    pub fn new(bounds: WorldBounds, view_distance: u32, move_duration: u32) -> (start: (
        Game,
        Vec<ChunkIndex>,
    ))
        ensures
            start.0.player@ == PlayerView::at_rest(TileCoordinate { q: 0, r: 0 }, move_duration),
            start.0.bounds == bounds,
            start.0.view_distance == view_distance,
            start.0.shown_chunk == (ChunkIndex { cq: 0, cr: 0 }),
            start.0.registry@ == after_pass(Map::empty(), start.0.required()),
            start.0.registry.loaded() == start.0.required(),
            loads_exactly(start.1@, start.0.required()),
    {
        let origin = TileCoordinate { q: 0, r: 0 };
        let player = PlayerState::new(origin, move_duration);
        let (registry, load) = ChunkRegistry::load_initial_chunks(view_distance);
        let shown_chunk = origin.chunk();
        proof {
            lemma_pass_converges(
                Map::empty(),
                required_chunks(ChunkIndex { cq: 0, cr: 0 }, view_distance as nat),
            );
        }
        (Game { player, registry, bounds, view_distance, shown_chunk }, load)
    }

    /// One tick: the keys are mapped to a direction and may start a
    /// move; `dt` microseconds pass for the animation; the loaded chunks
    /// are brought in line with the player's logical tile, which is the
    /// new one from the moment a move is accepted; and the chunk display
    /// is renewed if the player's chunk is not the one shown.
    pub fn tick(&mut self, keys: KeyEdges, dt: u32) -> (report: TickReport)
        ensures
            final(self).bounds == old(self).bounds,
            final(self).view_distance == old(self).view_distance,
            report.outcome == old(self).player@.after_input(old(self).bounds, keys).1,
            final(self).player@ == Game::player_after(
                old(self).player@,
                old(self).bounds,
                keys,
                dt,
            ),
            report.frame == final(self).player@.visual(),
            final(self).registry@ == after_pass(old(self).registry@, final(self).required()),
            final(self).registry.loaded() == final(self).required(),
            loads_exactly(
                report.chunks.load@,
                final(self).required().difference(old(self).registry.loaded()),
            ),
            unloads_exactly(
                report.chunks.unload@,
                old(self).registry@,
                old(self).registry.loaded().difference(final(self).required()),
            ),
            final(self).shown_chunk == final(self).player@.tile.chunk_index(),
            report.display == (if final(self).shown_chunk == old(self).shown_chunk {
                None
            } else {
                Some(final(self).shown_chunk)
            }),
    {
        let outcome = self.player.handle_input(self.bounds, keys);
        let frame = self.player.animate_player_movement(dt);
        let tile = self.player.tile();
        let chunks = self.registry.manage_chunks(tile, self.view_distance);
        let display = update_chunk_display(self.shown_chunk, tile);
        self.shown_chunk = tile.chunk();
        TickReport { outcome, frame, chunks, display }
    }
}

/// After any accepted move, one registry pass leaves exactly the region
/// required around the chunk of the new tile loaded, whatever was
/// loaded before.
pub proof fn lemma_accepted_move_converges(
    player: PlayerView,
    bounds: WorldBounds,
    keys: KeyEdges,
    loaded: Map<ChunkIndex, Seq<u64>>,
    view_distance: nat,
)
    requires
        player.after_input(bounds, keys).1 is Accepted,
    ensures
        ({
            let moved = player.after_input(bounds, keys).0;
            let required = required_chunks(moved.tile.chunk_index(), view_distance);
            &&& moved.tile != player.tile
            &&& moved.is_moving
            &&& after_pass(loaded, required).dom() == required
            &&& required.contains(moved.tile.chunk_index())
        }),
{
    let moved = player.after_input(bounds, keys).0;
    lemma_pass_converges(loaded, required_chunks(moved.tile.chunk_index(), view_distance));
}

} // verus!
