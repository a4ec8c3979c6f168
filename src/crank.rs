//! The turn advancer: gates and performs the transition of the world from one
//! turn to the next.
use vstd::prelude::*;

use crate::constants::ENTROPY_START_OFFSET;
use crate::tile_util::{
    cell, contiguous, decay_map, in_grid, grid, lemma_decay_from_keeps_occupancy, lemma_spawn_keeps_prefix,
    lemma_grid_shape, lemma_spawn_keeps_lives, map_wf, spawn_places, occupied_prefix, spawn_next_tile, spec_decay_map, spec_spawn, well_shaped, Grid,
};
use crate::types::{Game, GameTurnInfo, LadderError, TurnData};

verus! {

/// Enough time has passed since the last turn advance.
pub open spec fn turn_due(info: GameTurnInfo, now: i64) -> bool {
    now as int >= info.last_crank_seconds as int + info.turn_delay as int
}

/// Enough turns have passed since the last spawn for a new tile to appear at
/// the end of this turn.
pub open spec fn spawn_due(info: GameTurnInfo) -> bool {
    info.turn as int + 1 >= info.last_tile_spawn as int + info.tile_spawn_delay as int
}

/// The map of the next turn: every tile decays, then a tile spawns if one is
/// due. All draws start at `ENTROPY_START_OFFSET`.
pub open spec fn spec_next_map(g: Grid, info: GameTurnInfo, slots: Seq<u8>) -> Grid {
    let (decayed, offset) = spec_decay_map(g, slots, ENTROPY_START_OFFSET as int);
    if spawn_due(info) {
        spec_spawn(decayed, slots, offset).0
    } else {
        decayed
    }
}

/// A tile is placed in this turn advance: a spawn is due and the decayed map
/// is not full.
pub open spec fn spec_spawn_placed(g: Grid, info: GameTurnInfo, slots: Seq<u8>) -> bool {
    spawn_due(info) && spawn_places(spec_decay_map(g, slots, ENTROPY_START_OFFSET as int).0)
}

/// The clock of the next turn: the turn of the last spawn moves on only when
/// a tile was placed.
pub open spec fn spec_next_turn_info(g: Grid, info: GameTurnInfo, now: i64, slots: Seq<u8>) -> GameTurnInfo {
    GameTurnInfo {
        turn: (info.turn + 1) as u32,
        last_crank_seconds: now,
        last_tile_spawn: if spec_spawn_placed(g, info, slots) {
            (info.turn + 1) as u32
        } else {
            info.last_tile_spawn
        },
        ..info
    }
}

/// Advances the world by one turn at time `now`, drawing from `slots`.
///
/// Before the turn delay has passed the call is refused with `TurnNotYetDue`
/// and nothing changes. Otherwise the current map is archived into
/// `current_turn_data` (the record of the turn that ends), every tile decays,
/// a tile spawns if one is due and the map is not full, the turn counter moves
/// on and the time of the advance is kept.
pub fn crank(game: &mut Game, current_turn_data: &mut TurnData, now: i64, slots: &[u8]) -> (r: Result<
    (),
    LadderError,
>)
    requires
        slots@.len() > ENTROPY_START_OFFSET,
        turn_due(old(game).turn_info, now) ==> old(game).turn_info.turn < u32::MAX,
    ensures
        !turn_due(old(game).turn_info, now) ==> {
            &&& r == Err::<(), LadderError>(LadderError::TurnNotYetDue)
            &&& *final(game) == *old(game)
            &&& *final(current_turn_data) == *old(current_turn_data)
        },
        turn_due(old(game).turn_info, now) ==> {
            &&& r is Ok
            &&& *final(current_turn_data) == (TurnData { map: old(game).map, ..*old(current_turn_data) })
            &&& grid(final(game).map) == spec_next_map(grid(old(game).map), old(game).turn_info, slots@)
            &&& final(game).turn_info == spec_next_turn_info(grid(old(game).map), old(game).turn_info, now, slots@)
            &&& final(game).last_turn_added == old(game).turn_info.turn + 1
            &&& map_wf(grid(old(game).map)) ==> map_wf(grid(final(game).map))
            &&& *final(game) == (Game {
                map: final(game).map,
                turn_info: final(game).turn_info,
                last_turn_added: final(game).last_turn_added,
                ..*old(game)
            })
        },
{
    let info = game.turn_info;
    if (now as i128) < (info.last_crank_seconds as i128) + (info.turn_delay as i128) {
        return Err(LadderError::TurnNotYetDue);
    }
    current_turn_data.map = game.map;

    let mut offset: usize = ENTROPY_START_OFFSET;
    decay_map(&mut game.map, slots, &mut offset);

    let next_turn = info.turn + 1;
    let due = (next_turn as u64) >= (info.last_tile_spawn as u64) + (info.tile_spawn_delay as u64);
    if due {
        let placed = spawn_next_tile(&mut game.map, slots, &mut offset);
        if placed {
            game.turn_info.last_tile_spawn = next_turn;
        }
    }
    game.turn_info.turn = next_turn;
    game.turn_info.last_crank_seconds = now;
    game.last_turn_added = next_turn;
    proof {
        lemma_grid_shape(old(game).map);
        if map_wf(grid(old(game).map)) {
            lemma_next_map_wf(grid(old(game).map), info, slots@);
        }
    }
    Ok(())
}

/// Occupancy law of a turn advance: when the occupied cells of the map are a
/// non-empty prefix of the level-major, column-minor scan, they are a prefix
/// again after the tiles decay and a tile spawns.
pub proof fn lemma_next_map_contiguous(g: Grid, n: int, info: GameTurnInfo, slots: Seq<u8>)
    requires
        well_shaped(g),
        occupied_prefix(g, n),
        n >= 1,
    ensures
        occupied_prefix(
            spec_next_map(g, info, slots),
            if spawn_due(info) && n < 90 {
                n + 1
            } else {
                n
            },
        ),
        contiguous(spec_next_map(g, info, slots)),
{
    let (decayed, offset) = spec_decay_map(g, slots, ENTROPY_START_OFFSET as int);
    lemma_decay_from_keeps_occupancy(g, 0, 0, slots, ENTROPY_START_OFFSET as int);
    assert(occupied_prefix(decayed, n)) by {
        assert forall|a: int, b: int| in_grid(a, b) implies ((#[trigger] cell(decayed, a, b)) is Some
            <==> 3 * a + b < n) by {
            assert(cell(g, a, b) is Some <==> cell(decayed, a, b) is Some);
        }
    }
    if spawn_due(info) {
        lemma_spawn_keeps_prefix(decayed, n, slots, offset);
        let m = if n < 90 {
            n + 1
        } else {
            90
        };
        assert(occupied_prefix(spec_next_map(g, info, slots), m));
    } else {
        assert(occupied_prefix(spec_next_map(g, info, slots), n));
    }
}

/// A turn advance keeps the map well formed.
pub proof fn lemma_next_map_wf(g: Grid, info: GameTurnInfo, slots: Seq<u8>)
    requires
        well_shaped(g),
        map_wf(g),
    ensures
        map_wf(spec_next_map(g, info, slots)),
{
    let n = choose|n: int| n >= 1 && occupied_prefix(g, n);
    lemma_next_map_contiguous(g, n, info, slots);
    let (decayed, offset) = spec_decay_map(g, slots, ENTROPY_START_OFFSET as int);
    lemma_decay_from_keeps_occupancy(g, 0, 0, slots, ENTROPY_START_OFFSET as int);
    if spawn_due(info) {
        lemma_spawn_keeps_lives(decayed, slots, offset);
    }
    let m = if spawn_due(info) && n < 90 {
        n + 1
    } else {
        n
    };
    assert(m >= 1 && occupied_prefix(spec_next_map(g, info, slots), m));
}

} // verus!
