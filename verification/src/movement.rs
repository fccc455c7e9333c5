//! The player: its logical tile, its facing, and the animation that
//! carries its visual position from one tile centre to the next.
//!
//! Time is counted in whole microseconds. The eased progress of a move
//! is kept as an exact fraction, so that the visual position is a
//! rational point between two lattice points.

use crate::hex::{
    is_valid_hex, representable, world_point, Direction, TileCoordinate, WorldBounds, WorldPoint,
};
use crate::input::{map_input, KeyEdges};
use vstd::prelude::*;

verus! {

/// Duration of one move, in microseconds.
pub const DEFAULT_MOVE_DURATION: u32 = 300_000;

/// The side to which the player's sprite looks.
#[derive(Clone, Copy, Debug, PartialEq, Eq, Structural)]
pub enum Facing {
    Left,
    Right,
}

/// A fraction between zero and one.
#[derive(Clone, Copy, Debug, PartialEq, Eq, Structural)]
pub struct Progress {
    pub numerator: u128,
    pub denominator: u128,
}

/// Where the player is drawn: at `start + (target - start) * progress`,
/// in both lattice coordinates.
#[derive(Clone, Copy, Debug, PartialEq, Eq, Structural)]
pub struct VisualPosition {
    pub start: WorldPoint,
    pub target: WorldPoint,
    pub progress: Progress,
}

/// What became of the input of one tick.
#[derive(Clone, Copy, Debug, PartialEq, Eq, Structural)]
pub enum InputOutcome {
    /// A move is under way: the input was ignored.
    Locked,
    /// No direction key went down.
    NoInput,
    /// The tile in this direction does not exist: no move was started.
    Rejected(Direction),
    /// A move in this direction was started.
    Accepted(Direction),
}

/// The player's state as plain values.
#[derive(Clone, Copy, Debug, PartialEq, Eq, Structural)]
pub struct PlayerView {
    /// The logical position.
    pub tile: TileCoordinate,
    pub facing: Facing,
    /// Where the current or last move began, in world space.
    pub start_position: WorldPoint,
    /// Where the current or last move ends, in world space.
    pub target_position: WorldPoint,
    /// Microseconds since the current move began.
    pub elapsed: u32,
    /// Microseconds that a move takes.
    pub duration: u32,
    pub is_moving: bool,
}

/// The player. Its target position is always the centre of its logical
/// tile, and its clock stands at zero whenever no move is under way.
#[derive(Clone, Copy, Debug)]
pub struct PlayerState {
    tile: TileCoordinate,
    facing: Facing,
    start_position: WorldPoint,
    target_position: WorldPoint,
    elapsed: u32,
    duration: u32,
    is_moving: bool,
}

/// Numerator of `smoothstep(elapsed / duration)` over the denominator
/// `duration^3`: with `t = elapsed / duration`, `t^2 * (3 - 2t)`.
pub open spec fn eased_numerator(elapsed: int, duration: int) -> int {
    elapsed * elapsed * (3 * duration - 2 * elapsed)
}

/// Denominator of `smoothstep(elapsed / duration)`.
pub open spec fn eased_denominator(duration: int) -> int {
    duration * duration * duration
}

/// `smoothstep(t)` for `t = elapsed / duration` clamped to at most one,
/// as an exact fraction.
pub open spec fn eased_progress(elapsed: u32, duration: u32) -> Progress {
    if elapsed >= duration {
        Progress { numerator: 1, denominator: 1 }
    } else {
        Progress {
            numerator: eased_numerator(elapsed as int, duration as int) as u128,
            denominator: eased_denominator(duration as int) as u128,
        }
    }
}

impl Progress {
    /// The fraction is well formed and at most one.
    pub open spec fn is_fraction(self) -> bool {
        0 < self.denominator && self.numerator <= self.denominator
    }
}

impl VisualPosition {
    /// The column of the position, times the progress's denominator.
    pub open spec fn scaled_col(self) -> int {
        self.start.col * self.progress.denominator + (self.target.col - self.start.col)
            * self.progress.numerator
    }

    /// The row of the position, times the progress's denominator.
    pub open spec fn scaled_row(self) -> int {
        self.start.row * self.progress.denominator + (self.target.row - self.start.row)
            * self.progress.numerator
    }
}

impl Facing {
    /// The facing after a step in direction `d`: left for west and
    /// north-west, right for east and south-east, unchanged for north
    /// and south.
    pub open spec fn after(self, d: Direction) -> Facing {
        match d {
            Direction::West => Facing::Left,
            Direction::NorthWest => Facing::Left,
            Direction::East => Facing::Right,
            Direction::SouthEast => Facing::Right,
            Direction::North => self,
            Direction::South => self,
        }
    }

    /// The facing after a step in direction `d`.
    pub fn turn(self, d: Direction) -> (facing: Facing)
        ensures
            facing == self.after(d),
    {
        match d {
            Direction::West => Facing::Left,
            Direction::NorthWest => Facing::Left,
            Direction::East => Facing::Right,
            Direction::SouthEast => Facing::Right,
            Direction::North => self,
            Direction::South => self,
        }
    }
}

impl PlayerView {
    /// What holds of every player: the target position is the centre of
    /// the logical tile, and the clock stands at zero unless a move is
    /// under way and has not yet lasted its duration.
    pub open spec fn well_formed(self) -> bool {
        &&& self.target_position == world_point(self.tile)
        &&& self.elapsed == 0 || (self.is_moving && self.elapsed < self.duration)
    }

    /// A player at rest on `tile`.
    pub open spec fn at_rest(tile: TileCoordinate, duration: u32) -> PlayerView {
        PlayerView {
            tile,
            facing: Facing::Left,
            start_position: world_point(tile),
            target_position: world_point(tile),
            elapsed: 0,
            duration,
            is_moving: false,
        }
    }

    /// Whether a move to `candidate` is accepted: no move is under way,
    /// the candidate is another tile, and that tile exists.
    pub open spec fn accepts(self, bounds: WorldBounds, candidate: TileCoordinate) -> bool {
        &&& !self.is_moving
        &&& candidate != self.tile
        &&& bounds.admits(candidate.q as int, candidate.r as int)
    }

    /// The state right after a move to `candidate` was accepted: the
    /// logical tile is the candidate at once, and the animation starts
    /// from where the player stood.
    pub open spec fn moved_to(self, candidate: TileCoordinate) -> PlayerView {
        PlayerView {
            tile: candidate,
            facing: self.facing,
            start_position: self.target_position,
            target_position: world_point(candidate),
            elapsed: 0,
            duration: self.duration,
            is_moving: true,
        }
    }

    /// The state with the facing that a step in direction `d` gives.
    pub open spec fn turned(self, d: Direction) -> PlayerView {
        PlayerView {
            tile: self.tile,
            facing: self.facing.after(d),
            start_position: self.start_position,
            target_position: self.target_position,
            elapsed: self.elapsed,
            duration: self.duration,
            is_moving: self.is_moving,
        }
    }

    /// The state and the outcome after the keys of one tick.
    pub open spec fn after_input(self, bounds: WorldBounds, keys: KeyEdges) -> (
        PlayerView,
        InputOutcome,
    ) {
        if self.is_moving {
            (self, InputOutcome::Locked)
        } else {
            match keys.direction() {
                None => (self, InputOutcome::NoInput),
                Some(d) => {
                    let q = self.tile.q + d.dq();
                    let r = self.tile.r + d.dr();
                    if representable(q, r) && bounds.admits(q, r) {
                        (
                            self.turned(d).moved_to(TileCoordinate { q: q as i32, r: r as i32 }),
                            InputOutcome::Accepted(d),
                        )
                    } else {
                        (self.turned(d), InputOutcome::Rejected(d))
                    }
                },
            }
        }
    }

    /// The state after `dt` more microseconds: a move that has lasted
    /// its duration ends, and the clock goes back to zero; a shorter
    /// one goes on; a player at rest stays as it is.
    pub open spec fn advanced(self, dt: u32) -> PlayerView {
        if !self.is_moving {
            self
        } else if self.elapsed + dt >= self.duration {
            PlayerView {
                tile: self.tile,
                facing: self.facing,
                start_position: self.start_position,
                target_position: self.target_position,
                elapsed: 0,
                duration: self.duration,
                is_moving: false,
            }
        } else {
            PlayerView {
                tile: self.tile,
                facing: self.facing,
                start_position: self.start_position,
                target_position: self.target_position,
                elapsed: (self.elapsed + dt) as u32,
                duration: self.duration,
                is_moving: true,
            }
        }
    }

    /// Where the player is drawn: on the way from start to target by
    /// the eased progress while a move is under way, and on the target
    /// otherwise.
    pub open spec fn visual(self) -> VisualPosition {
        VisualPosition {
            start: self.start_position,
            target: self.target_position,
            progress: if self.is_moving {
                eased_progress(self.elapsed, self.duration)
            } else {
                Progress { numerator: 1, denominator: 1 }
            },
        }
    }
}

/// The eased progress of a move that has lasted `elapsed` of
/// `duration`: `smoothstep(t) = t^2 * (3 - 2t)` with `t = elapsed /
/// duration` clamped to at most one.
pub fn smoothstep(elapsed: u32, duration: u32) -> (p: Progress)
    ensures
        p == eased_progress(elapsed, duration),
        p.is_fraction(),
        elapsed >= duration ==> p.numerator == 1 && p.denominator == 1,
        elapsed < duration ==> p.numerator == eased_numerator(elapsed as int, duration as int)
            && p.denominator == eased_denominator(duration as int),
{
    if elapsed >= duration {
        Progress { numerator: 1, denominator: 1 }
    } else {
        let e: u128 = elapsed as u128;
        let d: u128 = duration as u128;
        proof {
            lemma_eased_bounds(e as int, d as int);
            assert(e * e <= 0xFFFF_FFFF * 0xFFFF_FFFF && d * d <= 0xFFFF_FFFF * 0xFFFF_FFFF)
                by (nonlinear_arith)
                requires
                    0 <= e <= 0xFFFF_FFFF,
                    0 <= d <= 0xFFFF_FFFF,
            ;
        }
        let square: u128 = e * e;
        let slope: u128 = 3 * d - 2 * e;
        let numerator: u128 = square * slope;
        let denominator: u128 = d * d * d;
        Progress { numerator, denominator }
    }
}

/// Between the start and the end of a move the eased progress is a
/// fraction between zero and one, and its two terms fit in 128 bits.
pub proof fn lemma_eased_bounds(elapsed: int, duration: int)
    requires
        0 <= elapsed < duration <= u32::MAX,
    ensures
        0 <= eased_numerator(elapsed, duration) <= eased_denominator(duration),
        0 < eased_denominator(duration) <= u128::MAX,
{
    let e = elapsed;
    let d = duration;
    assert(d * d * d - e * e * (3 * d - 2 * e) == (d - e) * (d - e) * (d + 2 * e))
        by (nonlinear_arith);
    assert(0 <= (d - e) * (d - e) * (d + 2 * e)) by (nonlinear_arith)
        requires
            0 <= e < d,
    ;
    assert(0 <= e * e * (3 * d - 2 * e)) by (nonlinear_arith)
        requires
            0 <= e < d,
    ;
    assert(0 < d * d * d <= 0xFFFF_FFFF * 0xFFFF_FFFF * 0xFFFF_FFFF) by (nonlinear_arith)
        requires
            0 < d <= 0xFFFF_FFFF,
    ;
}

/// Halfway through a move the eased progress is exactly one half.
pub proof fn lemma_eased_midpoint(elapsed: u32, duration: u32)
    requires
        2 * elapsed == duration,
        duration > 0,
    ensures
        2 * eased_progress(elapsed, duration).numerator == eased_progress(
            elapsed,
            duration,
        ).denominator,
{
    let e = elapsed as int;
    let d = duration as int;
    lemma_eased_bounds(e, d);
    assert(2 * (e * e * (3 * d - 2 * e)) == d * d * d) by (nonlinear_arith)
        requires
            2 * e == d,
    ;
}

/// At the start of a move the eased progress is zero.
pub proof fn lemma_eased_start(duration: u32)
    requires
        duration > 0,
    ensures
        eased_progress(0, duration).numerator == 0,
        eased_progress(0, duration).denominator > 0,
{
    lemma_eased_bounds(0, duration as int);
    assert(eased_numerator(0, duration as int) == 0) by (nonlinear_arith);
}

/// The eased progress never goes back while a move goes on.
pub proof fn lemma_eased_monotonic(earlier: int, later: int, duration: int)
    requires
        0 <= earlier <= later < duration,
    ensures
        eased_numerator(earlier, duration) <= eased_numerator(later, duration),
{
    let a = earlier;
    let b = later;
    let d = duration;
    assert(b * b * (3 * d - 2 * b) - a * a * (3 * d - 2 * a) == (b - a) * (3 * d * (a + b) - 2 * (a
        * a + a * b + b * b))) by (nonlinear_arith);
    assert(a * a <= a * d && a * b <= a * d && b * b <= b * d) by (nonlinear_arith)
        requires
            0 <= a <= b < d,
    ;
    assert(a * d <= b * d) by (nonlinear_arith)
        requires
            0 <= a <= b,
            0 < d,
    ;
    assert(3 * d * (a + b) == 3 * (a * d) + 3 * (b * d)) by (nonlinear_arith);
    assert(0 <= (b - a) * (3 * d * (a + b) - 2 * (a * a + a * b + b * b))) by (nonlinear_arith)
        requires
            0 <= b - a,
            0 <= 3 * d * (a + b) - 2 * (a * a + a * b + b * b),
    ;
}

/// Every step of the player keeps it well formed. The clock starts at
/// zero with each move, runs on only while the move goes on, and is
/// back at zero when the move has ended.
pub proof fn lemma_steps_keep_well_formed(
    player: PlayerView,
    bounds: WorldBounds,
    keys: KeyEdges,
    candidate: TileCoordinate,
    dt: u32,
)
    requires
        player.well_formed(),
    ensures
        PlayerView::at_rest(candidate, player.duration).well_formed(),
        player.moved_to(candidate).well_formed(),
        player.moved_to(candidate).elapsed == 0,
        player.after_input(bounds, keys).0.well_formed(),
        player.advanced(dt).well_formed(),
        player.advanced(dt).is_moving ==> player.is_moving && player.advanced(dt).elapsed
            == player.elapsed + dt,
        !player.advanced(dt).is_moving ==> player.advanced(dt).elapsed == 0,
        !player.is_moving ==> player.advanced(dt) == player,
{
}

/// A position whose progress is one half lies midway between start and
/// target; one whose progress is one lies on the target, and one whose
/// progress is zero on the start.
pub proof fn lemma_visual_position(v: VisualPosition)
    requires
        v.progress.is_fraction(),
    ensures
        2 * v.progress.numerator == v.progress.denominator ==> 2 * v.scaled_col()
            == v.progress.denominator * (v.start.col + v.target.col) && 2 * v.scaled_row()
            == v.progress.denominator * (v.start.row + v.target.row),
        v.progress.numerator == v.progress.denominator ==> v.scaled_col() == v.progress.denominator
            * v.target.col && v.scaled_row() == v.progress.denominator * v.target.row,
        v.progress.numerator == 0 ==> v.scaled_col() == v.progress.denominator * v.start.col
            && v.scaled_row() == v.progress.denominator * v.start.row,
{
    let n = v.progress.numerator as int;
    let d = v.progress.denominator as int;
    let sc = v.start.col as int;
    let tc = v.target.col as int;
    let sr = v.start.row as int;
    let tr = v.target.row as int;
    assert(2 * n == d ==> 2 * (sc * d + (tc - sc) * n) == d * (sc + tc) && 2 * (sr * d + (tr - sr)
        * n) == d * (sr + tr)) by (nonlinear_arith);
    assert(n == d ==> sc * d + (tc - sc) * n == d * tc && sr * d + (tr - sr) * n == d * tr)
        by (nonlinear_arith);
    assert(n == 0 ==> sc * d + (tc - sc) * n == d * sc && sr * d + (tr - sr) * n == d * sr)
        by (nonlinear_arith);
}

/// Halfway through a move the player is drawn exactly midway between
/// the start and the target of the move.
pub proof fn lemma_halfway_is_midway(player: PlayerView)
    requires
        player.is_moving,
        2 * player.elapsed == player.duration,
        player.duration > 0,
    ensures
        ({
            let frame = player.visual();
            &&& 2 * frame.progress.numerator == frame.progress.denominator
            &&& 2 * frame.scaled_col() == frame.progress.denominator * (player.start_position.col
                + player.target_position.col)
            &&& 2 * frame.scaled_row() == frame.progress.denominator * (player.start_position.row
                + player.target_position.row)
        }),
{
    lemma_eased_midpoint(player.elapsed, player.duration);
    lemma_eased_bounds(player.elapsed as int, player.duration as int);
    lemma_visual_position(player.visual());
}

impl View for PlayerState {
    type V = PlayerView;

    closed spec fn view(&self) -> PlayerView {
        PlayerView {
            tile: self.tile,
            facing: self.facing,
            start_position: self.start_position,
            target_position: self.target_position,
            elapsed: self.elapsed,
            duration: self.duration,
            is_moving: self.is_moving,
        }
    }
}

impl PlayerState {
    #[verifier::type_invariant]
    spec fn well_formed(&self) -> bool {
        self@.well_formed()
    }

    /// A player at rest on `tile`, facing left, whose moves take
    /// `duration` microseconds.
    pub fn new(tile: TileCoordinate, duration: u32) -> (player: PlayerState)
        ensures
            player@ == PlayerView::at_rest(tile, duration),
    {
        let position = tile.world_position();
        PlayerState {
            tile,
            facing: Facing::Left,
            start_position: position,
            target_position: position,
            elapsed: 0,
            duration,
            is_moving: false,
        }
    }

    /// Asks for a move to `candidate`. It is accepted when no move is
    /// under way, the candidate is not the current tile, and the tile
    /// exists in the world. An accepted move changes the logical tile
    /// at once and starts the animation; a refused one changes nothing.
    pub fn request_move(&mut self, bounds: WorldBounds, candidate: TileCoordinate) -> (accepted:
        bool)
        ensures
            accepted == old(self)@.accepts(bounds, candidate),
            accepted ==> final(self)@ == old(self)@.moved_to(candidate),
            !accepted ==> final(self)@ == old(self)@,
            candidate == old(self)@.tile ==> !accepted,
            old(self)@.is_moving ==> !accepted,
    {
        if self.is_moving || candidate == self.tile || !is_valid_hex(
            bounds,
            candidate.q,
            candidate.r,
        ) {
            false
        } else {
            *self = PlayerState {
                tile: candidate,
                facing: self.facing,
                start_position: self.target_position,
                target_position: candidate.world_position(),
                elapsed: 0,
                duration: self.duration,
                is_moving: true,
            };
            true
        }
    }

    /// Handles the keys of one tick. While a move is under way the
    /// input is ignored. Otherwise the direction of the keys, if any,
    /// turns the player and asks for a move to the neighbouring tile.
    pub fn handle_input(&mut self, bounds: WorldBounds, keys: KeyEdges) -> (outcome: InputOutcome)
        ensures
            (final(self)@, outcome) == old(self)@.after_input(bounds, keys),
            old(self)@.is_moving ==> final(self)@ == old(self)@,
    {
        proof {
            use_type_invariant(&*self);
        }
        if self.is_moving {
            return InputOutcome::Locked;
        }
        match map_input(keys) {
            None => InputOutcome::NoInput,
            Some(d) => {
                self.facing = self.facing.turn(d);
                match self.tile.neighbor(d) {
                    Some(candidate) => {
                        if self.request_move(bounds, candidate) {
                            InputOutcome::Accepted(d)
                        } else {
                            InputOutcome::Rejected(d)
                        }
                    },
                    None => InputOutcome::Rejected(d),
                }
            },
        }
    }

    /// Lets `dt` microseconds pass and tells where the player is drawn
    /// afterwards. A move that has lasted its duration ends: the player
    /// stands exactly on the target and the clock is back at zero.
    pub fn animate_player_movement(&mut self, dt: u32) -> (frame: VisualPosition)
        ensures
            final(self)@ == old(self)@.advanced(dt),
            frame == final(self)@.visual(),
            frame.progress.is_fraction(),
    {
        proof {
            use_type_invariant(&*self);
        }
        if self.is_moving {
            let total: u64 = self.elapsed as u64 + dt as u64;
            if total >= self.duration as u64 {
                *self = PlayerState {
                    tile: self.tile,
                    facing: self.facing,
                    start_position: self.start_position,
                    target_position: self.target_position,
                    elapsed: 0,
                    duration: self.duration,
                    is_moving: false,
                };
            } else {
                *self = PlayerState {
                    tile: self.tile,
                    facing: self.facing,
                    start_position: self.start_position,
                    target_position: self.target_position,
                    elapsed: total as u32,
                    duration: self.duration,
                    is_moving: true,
                };
            }
        }
        self.visual_position()
    }

    /// Where the player is drawn now.
    pub fn visual_position(&self) -> (frame: VisualPosition)
        ensures
            frame == self@.visual(),
            frame.progress.is_fraction(),
    {
        let progress = if self.is_moving {
            smoothstep(self.elapsed, self.duration)
        } else {
            Progress { numerator: 1, denominator: 1 }
        };
        VisualPosition { start: self.start_position, target: self.target_position, progress }
    }

    /// The state as plain values.
    pub fn snapshot(&self) -> (view: PlayerView)
        ensures
            view == self@,
            view.well_formed(),
    {
        proof {
            use_type_invariant(self);
        }
        PlayerView {
            tile: self.tile,
            facing: self.facing,
            start_position: self.start_position,
            target_position: self.target_position,
            elapsed: self.elapsed,
            duration: self.duration,
            is_moving: self.is_moving,
        }
    }

    /// The logical position.
    pub fn tile(&self) -> (tile: TileCoordinate)
        ensures
            tile == self@.tile,
    {
        self.tile
    }

    /// The side to which the sprite looks.
    pub fn facing(&self) -> (facing: Facing)
        ensures
            facing == self@.facing,
    {
        self.facing
    }

    /// Whether a move is under way.
    pub fn is_moving(&self) -> (moving: bool)
        ensures
            moving == self@.is_moving,
    {
        self.is_moving
    }
}

/// The player at start-up: at rest on the origin tile, with the
/// default move duration.
pub fn spawn_player() -> (player: PlayerState)
    ensures
        player@ == PlayerView::at_rest(TileCoordinate { q: 0, r: 0 }, DEFAULT_MOVE_DURATION),
{
    PlayerState::new(TileCoordinate { q: 0, r: 0 }, DEFAULT_MOVE_DURATION)
}

} // verus!
