//! The fixed-timestep loop: accumulate real elapsed time and run a whole
//! number of fixed-size simulation ticks per delivered frame.
//!
//! Time is measured in thirds of a microsecond, so that one tick of a
//! 60 Hz simulation is exactly `TICK_DURATION` units with no rounding.
//! The host hands in a monotonically increasing timestamp per frame; the
//! loop drains the accumulated time in whole ticks, so the simulation
//! advances at a constant logical rate whatever the frame delivery rate:
//! zero, one or many ticks can run per rendered frame.

use vstd::prelude::*;

use crate::world::KeyState;
use crate::world::WalkTheDog;
use crate::world::spec_walk_updated;

verus! {

/// One sixtieth of a second, in thirds of a microsecond.
pub const TICK_DURATION: u64 = 50000;

/// Latest timestamp the loop accepts; far beyond any session length.
pub const MAX_TIMESTAMP: u64 = 0x1000_0000_0000_0000;

/// One game tick relates the game before to the game after: loading is
/// left untouched, a loaded world advances by the tick relation.
pub open spec fn spec_game_tick_rel(g0: WalkTheDog, g1: WalkTheDog, k: KeyState) -> bool {
    match g0 {
        WalkTheDog::Loading => g1 == g0,
        WalkTheDog::Loaded(w0) => g1 is Loaded && spec_walk_updated(w0, g1->Loaded_0, k),
    }
}

/// `n` game ticks under constant input, as a relation.
pub open spec fn spec_game_ticks_rel(
    g0: WalkTheDog,
    g1: WalkTheDog,
    k: KeyState,
    n: nat,
) -> bool
    decreases n,
{
    if n == 0 {
        g1 == g0
    } else {
        exists|gm: WalkTheDog|
            spec_game_tick_rel(g0, gm, k) && spec_game_ticks_rel(gm, g1, k, (n - 1) as nat)
    }
}

/// Appending one more tick to an `n`-tick run gives an `n + 1`-tick run.
proof fn lemma_game_ticks_rel_step(
    g0: WalkTheDog,
    gm: WalkTheDog,
    g1: WalkTheDog,
    k: KeyState,
    n: nat,
)
    requires
        spec_game_ticks_rel(g0, gm, k, n),
        spec_game_tick_rel(gm, g1, k),
    ensures
        spec_game_ticks_rel(g0, g1, k, n + 1),
    decreases n,
{
    if n == 0 {
        assert(spec_game_tick_rel(g0, g1, k));
        assert(spec_game_ticks_rel(g1, g1, k, 0));
    } else {
        let m0 = choose|m0: WalkTheDog|
            spec_game_tick_rel(g0, m0, k) && spec_game_ticks_rel(m0, gm, k, (n - 1) as nat);
        lemma_game_ticks_rel_step(m0, gm, g1, k, (n - 1) as nat);
        assert(spec_game_tick_rel(g0, m0, k) && spec_game_ticks_rel(m0, g1, k, n));
    }
}

/// The fixed-timestep accumulator.
pub struct GameLoop {
    pub last_frame: u64,
    pub accumulated_delta: u64,
}

impl GameLoop {
    /// Between frames the accumulator holds at most one tick's worth of
    /// unconsumed time, and the last frame time is a sane timestamp.
    pub open spec fn wf(&self) -> bool {
        &&& self.accumulated_delta <= TICK_DURATION
        &&& self.last_frame <= MAX_TIMESTAMP
    }

    pub fn new(now: u64) -> (r: GameLoop)
        requires
            now <= MAX_TIMESTAMP,
        ensures
            r.wf(),
            r.last_frame == now,
            r.accumulated_delta == 0,
    {
        GameLoop { last_frame: now, accumulated_delta: 0 }
    }

    /// Handle one host frame delivered at time `perf`: add the elapsed
    /// time to the accumulator, run one game tick for every full tick
    /// duration accumulated, and report how many ticks ran.  The caller
    /// renders once after this returns.
    pub fn run_frame(&mut self, game: &mut WalkTheDog, keystate: &KeyState, perf: u64) -> (ticks:
        u64)
        requires
            old(self).wf(),
            old(game).wf(),
            old(self).last_frame <= perf <= MAX_TIMESTAMP,
        ensures
            final(self).wf(),
            final(game).wf(),
            final(self).last_frame == perf,
            final(self).accumulated_delta + ticks * TICK_DURATION == old(self).accumulated_delta
                + perf - old(self).last_frame,
            final(self).accumulated_delta <= TICK_DURATION,
            old(self).accumulated_delta + perf - old(self).last_frame > TICK_DURATION
                ==> final(self).accumulated_delta > 0,
            old(self).accumulated_delta + perf - old(self).last_frame <= TICK_DURATION ==> ticks
                == 0,
            spec_game_ticks_rel(*old(game), *final(game), *keystate, ticks as nat),
    {
        let mut accumulated: u64 = self.accumulated_delta + (perf - self.last_frame);
        let mut ticks: u64 = 0;
        while accumulated > TICK_DURATION
            invariant
                game.wf(),
                accumulated + ticks * TICK_DURATION == old(self).accumulated_delta + perf - old(
                    self,
                ).last_frame,
                spec_game_ticks_rel(*old(game), *game, *keystate, ticks as nat),
                ticks >= 1 ==> accumulated >= 1,
            decreases accumulated,
        {
            let ghost game_before = *game;
            game.update(keystate);
            proof {
                lemma_game_ticks_rel_step(
                    *old(game),
                    game_before,
                    *game,
                    *keystate,
                    ticks as nat,
                );
            }
            accumulated = accumulated - TICK_DURATION;
            ticks = ticks + 1;
        }
        self.accumulated_delta = accumulated;
        self.last_frame = perf;
        ticks
    }
}

} // verus!
