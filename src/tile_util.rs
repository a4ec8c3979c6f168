//! The tile lifecycle: regeneration, decay, the frontier of the map and the
//! spawn policy.
use vstd::prelude::*;

use crate::random::{entropy_in_range, next_position, valid_cursor, RandomEnumValue, RandomValue};
use crate::types::{Tile, TileMap, TileType};

verus! {

/// The mathematical model of a map: its levels, each a sequence of cells.
pub type Grid = Seq<Seq<Option<Tile>>>;

/// The map as rows of cells.
pub open spec fn grid(map: TileMap) -> Grid {
    map@.map_values(|row: [Option<Tile>; 3]| row@)
}

/// The shape of a map: 30 levels of 3 cells.
pub open spec fn well_shaped(g: Grid) -> bool {
    &&& g.len() == 30
    &&& forall|i: int| 0 <= i < 30 ==> (#[trigger] g[i]).len() == 3
}

/// The cell at level `i`, column `j`.
pub open spec fn cell(g: Grid, i: int, j: int) -> Option<Tile> {
    g[i][j]
}

/// Whether `(i, j)` names a cell of the map.
pub open spec fn in_grid(i: int, j: int) -> bool {
    0 <= i < 30 && 0 <= j < 3
}

/// Whether `(i2, j2)` comes after `(i, j)` in a level-major, column-minor scan.
pub open spec fn scanned_after(i2: int, j2: int, i: int, j: int) -> bool {
    i2 > i || (i2 == i && j2 > j)
}

/// `(i, j)` is the last occupied cell of the scan.
pub open spec fn is_last_occupied(g: Grid, i: int, j: int) -> bool {
    &&& in_grid(i, j)
    &&& cell(g, i, j) is Some
    &&& forall|i2: int, j2: int|
        in_grid(i2, j2) && scanned_after(i2, j2, i, j) ==> (#[trigger] cell(g, i2, j2)) is None
}

/// The last occupied cell of the scan, `(0, 0)` on an empty map.
pub open spec fn spec_highest(g: Grid) -> (int, int) {
    if exists|i: int, j: int| is_last_occupied(g, i, j) {
        choose|i: int, j: int| is_last_occupied(g, i, j)
    } else {
        (0, 0)
    }
}

/// The occupied cells are exactly the first `n` cells of the scan.
pub open spec fn occupied_prefix(g: Grid, n: int) -> bool {
    &&& 0 <= n <= 90
    &&& forall|i: int, j: int| in_grid(i, j) ==> ((#[trigger] cell(g, i, j)) is Some <==> 3 * i + j < n)
}

/// The occupied cells form one prefix of the scan.
pub open spec fn contiguous(g: Grid) -> bool {
    exists|n: int| occupied_prefix(g, n)
}

/// Every tile of the map has at least one turn of life left.
pub open spec fn lives_positive(g: Grid) -> bool {
    forall|i: int, j: int|
        in_grid(i, j) && (#[trigger] cell(g, i, j)) is Some ==> cell(g, i, j)->Some_0.life >= 1
}

/// A well-formed map: its occupied cells are a non-empty prefix of the scan,
/// and every tile has at least one turn of life left.
pub open spec fn map_wf(g: Grid) -> bool {
    &&& exists|n: int| n >= 1 && occupied_prefix(g, n)
    &&& lives_positive(g)
}

/// Two maps have the same occupied cells.
pub open spec fn same_occupancy(g1: Grid, g2: Grid) -> bool {
    forall|i: int, j: int| in_grid(i, j) ==> ((#[trigger] cell(g1, i, j)) is Some <==> cell(g2, i, j) is Some)
}

pub proof fn lemma_grid_shape(map: TileMap)
    ensures
        well_shaped(grid(map)),
        forall|i: int, j: int| in_grid(i, j) ==> #[trigger] cell(grid(map), i, j) == map@[i]@[j],
{
}

/// The last occupied cell is unique.
pub proof fn lemma_last_occupied_unique(g: Grid, i: int, j: int)
    requires
        is_last_occupied(g, i, j),
    ensures
        spec_highest(g) == (i, j),
{
    let (a, b) = choose|a: int, b: int| is_last_occupied(g, a, b);
    assert(is_last_occupied(g, a, b));
    if scanned_after(a, b, i, j) {
        assert(cell(g, a, b) is None);
    } else if scanned_after(i, j, a, b) {
        assert(cell(g, i, j) is None);
    }
}

/// A fresh tile: a resource type and a life of 3 to 6, drawn from two bytes
/// (life first, then type).
pub open spec fn spec_fresh_tile(slots: Seq<u8>, offset: int, first_time: bool) -> (Tile, int) {
    let life_roll = entropy_in_range(slots, offset, 1, 0, 3);
    let offset1 = next_position(slots.len(), offset);
    let kind = entropy_in_range(slots, offset1, 1, 0, 2);
    (
        Tile {
            tile_type: TileType::spec_from_index(kind as nat),
            life: (3 + life_roll) as u8,
            is_first_time_spawning: first_time,
        },
        next_position(slots.len(), offset1),
    )
}

/// The tile that takes the place of `tile` (or fills an empty cell) on map
/// level `level`, counted from 1 (so 30 is the top level), and the cursor
/// after the draws.
pub open spec fn spec_cycle_tile(tile: Option<Tile>, level: u8, slots: Seq<u8>, offset: int) -> (
    Tile,
    int,
) {
    match tile {
        None => spec_fresh_tile(slots, offset, true),
        Some(t) => if t.tile_type.spec_is_resource() {
            (
                Tile {
                    tile_type: if level == 30 || t.is_first_time_spawning {
                        TileType::Legendary
                    } else {
                        TileType::Crafting
                    },
                    life: 1,
                    is_first_time_spawning: false,
                },
                offset,
            )
        } else {
            spec_fresh_tile(slots, offset, false)
        },
    }
}

/// The tile one turn later, and the cursor after the draws.
pub open spec fn spec_decay_tile(tile: Tile, level: u8, slots: Seq<u8>, offset: int) -> (Tile, int) {
    if tile.life > 1 {
        (Tile { life: (tile.life - 1) as u8, ..tile }, offset)
    } else {
        spec_cycle_tile(Some(tile), level, slots, offset)
    }
}

fn fresh_tile(slots: &[u8], offset: &mut usize, first_time: bool) -> (r: Tile)
    requires
        valid_cursor(slots@, *old(offset) as int),
    ensures
        (r, *final(offset) as int) == spec_fresh_tile(slots@, *old(offset) as int, first_time),
        valid_cursor(slots@, *final(offset) as int),
{
    proof {
        crate::random::lemma_one_byte(slots@, *offset as int);
    }
    let random_life = u8::random_within_range(slots, offset, 0, 3);
    let tile_type = TileType::get_random_within_range(slots, offset, 0, 2);
    Tile { tile_type, life: 3 + random_life, is_first_time_spawning: first_time }
}

/// Regenerates a tile: a crafting or legendary tile (or an empty cell) becomes
/// a fresh resource tile; a resource tile becomes a crafting tile of life 1,
/// legendary on level 30 or when it was spawned there for the first time.
pub fn cycle_tile(tile: Option<Tile>, level: u8, slots: &[u8], offset: &mut usize) -> (r: Tile)
    requires
        valid_cursor(slots@, *old(offset) as int),
    ensures
        (r, *final(offset) as int) == spec_cycle_tile(tile, level, slots@, *old(offset) as int),
        valid_cursor(slots@, *final(offset) as int),
{
    match tile {
        None => fresh_tile(slots, offset, true),
        Some(tile) => {
            match tile.tile_type {
                TileType::Crafting | TileType::Legendary => fresh_tile(slots, offset, false),
                _ => {
                    let feature = if level == 30 || tile.is_first_time_spawning {
                        TileType::Legendary
                    } else {
                        TileType::Crafting
                    };
                    Tile { tile_type: feature, life: 1, is_first_time_spawning: false }
                },
            }
        },
    }
}

/// One turn of a tile's life: it loses one life, and regenerates when its
/// last one is spent.
pub fn decay_tile(tile: Tile, level: u8, slots: &[u8], offset: &mut usize) -> (r: Tile)
    requires
        valid_cursor(slots@, *old(offset) as int),
    ensures
        (r, *final(offset) as int) == spec_decay_tile(tile, level, slots@, *old(offset) as int),
        valid_cursor(slots@, *final(offset) as int),
        r.life >= 1,
{
    if tile.life > 1 {
        Tile { life: tile.life - 1, ..tile }
    } else {
        cycle_tile(Some(tile), level, slots, offset)
    }
}

/// Tile law: a tile with more than one life left loses one and keeps its
/// type; a resource tile on its last life turns into a crafting tile of life
/// 1 (legendary on level 30 or on its first spawn); a crafting or legendary
/// tile on its last life turns into a resource tile with 3 to 6 lives. No
/// regenerated tile counts as a first spawn.
pub proof fn lemma_decay_transitions(tile: Tile, level: u8, slots: Seq<u8>, offset: int)
    requires
        tile.life >= 1,
    ensures
        ({
            let (next, _) = spec_decay_tile(tile, level, slots, offset);
            &&& tile.life > 1 ==> next == Tile { life: (tile.life - 1) as u8, ..tile }
            &&& (tile.life == 1 && tile.tile_type.spec_is_resource()) ==> {
                &&& next.life == 1
                &&& !next.is_first_time_spawning
                &&& (level == 30 || tile.is_first_time_spawning) ==> next.tile_type
                    == TileType::Legendary
                &&& !(level == 30 || tile.is_first_time_spawning) ==> next.tile_type
                    == TileType::Crafting
            }
            &&& (tile.life == 1 && !tile.tile_type.spec_is_resource()) ==> {
                &&& next.tile_type.spec_is_resource()
                &&& 3 <= next.life <= 6
                &&& !next.is_first_time_spawning
            }
        }),
{
    let offset1 = next_position(slots.len(), offset);
    let life_roll = entropy_in_range(slots, offset, 1, 0, 3);
    let kind = entropy_in_range(slots, offset1, 1, 0, 2);
    assert(0 <= life_roll <= 3);
    assert(0 <= kind <= 2);
}

/// The last occupied cell of a level-major, column-minor scan, `(0, 0)` when
/// the map is empty.
pub fn get_highest_level_and_column(map: &TileMap) -> (r: (u8, u8))
    ensures
        (r.0 as int, r.1 as int) == spec_highest(grid(*map)),
{
    proof {
        lemma_grid_shape(*map);
    }
    let ghost g = grid(*map);
    let mut highest_level: usize = 0;
    let mut highest_column: usize = 0;
    let ghost mut found: bool = false;
    let mut i: usize = 0;
    while i < 30
        invariant
            0 <= i <= 30,
            g == grid(*map),
            well_shaped(g),
            forall|a: int, b: int| in_grid(a, b) ==> #[trigger] cell(g, a, b) == map@[a]@[b],
            found ==> {
                &&& in_grid(highest_level as int, highest_column as int)
                &&& cell(g, highest_level as int, highest_column as int) is Some
                &&& forall|a: int, b: int|
                    in_grid(a, b) && a < i && scanned_after(a, b, highest_level as int, highest_column as int)
                        ==> (#[trigger] cell(g, a, b)) is None
            },
            !found ==> highest_level == 0 && highest_column == 0 && forall|a: int, b: int|
                in_grid(a, b) && a < i ==> (#[trigger] cell(g, a, b)) is None,
        decreases 30 - i,
    {
        let mut j: usize = 0;
        while j < 3
            invariant
                0 <= i < 30,
                0 <= j <= 3,
                g == grid(*map),
                well_shaped(g),
                forall|a: int, b: int| in_grid(a, b) ==> #[trigger] cell(g, a, b) == map@[a]@[b],
                found ==> {
                    &&& in_grid(highest_level as int, highest_column as int)
                    &&& cell(g, highest_level as int, highest_column as int) is Some
                    &&& forall|a: int, b: int|
                        in_grid(a, b) && (a < i || (a == i && b < j)) && scanned_after(
                            a,
                            b,
                            highest_level as int,
                            highest_column as int,
                        ) ==> (#[trigger] cell(g, a, b)) is None
                },
                !found ==> highest_level == 0 && highest_column == 0 && forall|a: int, b: int|
                    in_grid(a, b) && (a < i || (a == i && b < j)) ==> (#[trigger] cell(g, a, b))
                        is None,
            decreases 3 - j,
        {
            if map[i][j].is_some() {
                highest_level = i;
                highest_column = j;
                proof {
                    found = true;
                    assert(cell(g, i as int, j as int) == map@[i as int]@[j as int]);
                }
            }
            j = j + 1;
        }
        i = i + 1;
    }
    proof {
        if found {
            lemma_last_occupied_unique(g, highest_level as int, highest_column as int);
        } else {
            assert forall|a: int, b: int| !is_last_occupied(g, a, b) by {
                if in_grid(a, b) {
                    assert(cell(g, a, b) is None);
                }
            }
        }
    }
    (highest_level as u8, highest_column as u8)
}

/// The tile at a level and column, if the cell exists and is occupied.
pub open spec fn spec_tile_at(g: Grid, level: int, column: int) -> Option<Tile> {
    if in_grid(level, column) {
        cell(g, level, column)
    } else {
        None
    }
}

/// The tile at `(dest_level, dest_column)`; none outside the map or on an
/// empty cell.
pub fn get_current_tile(map: &TileMap, dest_level: u8, dest_column: u8) -> (r: Option<&Tile>)
    ensures
        match r {
            Some(t) => spec_tile_at(grid(*map), dest_level as int, dest_column as int) == Some(*t),
            None => spec_tile_at(grid(*map), dest_level as int, dest_column as int) is None,
        },
{
    proof {
        lemma_grid_shape(*map);
    }
    if (dest_level as usize) < 30 && (dest_column as usize) < 3 {
        match &map[dest_level as usize][dest_column as usize] {
            Some(tile) => Some(tile),
            None => None,
        }
    } else {
        None
    }
}

/// The map after the tile at `(i, j)`, if any, decayed one turn, and the
/// cursor after the draws. Row `i` is map level `i + 1`.
pub open spec fn spec_decay_cell(g: Grid, i: int, j: int, slots: Seq<u8>, offset: int) -> (
    Grid,
    int,
) {
    match cell(g, i, j) {
        None => (g, offset),
        Some(t) => {
            let (t2, offset2) = spec_decay_tile(t, (i + 1) as u8, slots, offset);
            (g.update(i, g[i].update(j, Some(t2))), offset2)
        },
    }
}

/// Decays every tile from `(i, j)` on, in scan order.
pub open spec fn spec_decay_from(g: Grid, i: int, j: int, slots: Seq<u8>, offset: int) -> (
    Grid,
    int,
)
    decreases 30 - i, 4 - j,
{
    if i < 0 || i >= 30 {
        (g, offset)
    } else if j >= 3 {
        spec_decay_from(g, i + 1, 0, slots, offset)
    } else {
        let (g1, offset1) = spec_decay_cell(g, i, j, slots, offset);
        spec_decay_from(g1, i, j + 1, slots, offset1)
    }
}

/// Decays every tile of the map one turn, in scan order.
pub open spec fn spec_decay_map(g: Grid, slots: Seq<u8>, offset: int) -> (
    Grid,
    int,
) {
    spec_decay_from(g, 0, 0, slots, offset)
}

/// Decays every tile of the map one turn, level by level and column by column.
/// Occupied cells stay occupied and empty ones stay empty.
pub fn decay_map(map: &mut TileMap, slots: &[u8], offset: &mut usize)
    requires
        valid_cursor(slots@, *old(offset) as int),
    ensures
        (grid(*final(map)), *final(offset) as int) == spec_decay_map(
            grid(*old(map)),
            slots@,
            *old(offset) as int,
        ),
        valid_cursor(slots@, *final(offset) as int),
        same_occupancy(grid(*old(map)), grid(*final(map))),
        lives_positive(grid(*old(map))) ==> lives_positive(grid(*final(map))),
{
    proof {
        lemma_grid_shape(*map);
    }
    let ghost target = spec_decay_map(grid(*map), slots@, *offset as int);
    let ghost g0 = grid(*map);
    let mut i: usize = 0;
    while i < 30
        invariant
            0 <= i <= 30,
            valid_cursor(slots@, *offset as int),
            spec_decay_from(grid(*map), i as int, 0, slots@, *offset as int) == target,
            same_occupancy(g0, grid(*map)),
            lives_positive(g0) ==> lives_positive(grid(*map)),
        decreases 30 - i,
    {
        let mut j: usize = 0;
        while j < 3
            invariant
                0 <= i < 30,
                0 <= j <= 3,
                valid_cursor(slots@, *offset as int),
                spec_decay_from(grid(*map), i as int, j as int, slots@, *offset as int) == target,
                same_occupancy(g0, grid(*map)),
                lives_positive(g0) ==> lives_positive(grid(*map)),
            decreases 3 - j,
        {
            proof {
                lemma_grid_shape(*map);
            }
            let ghost g = grid(*map);
            let ghost offset_before = *offset as int;
            match map[i][j] {
                None => {},
                Some(tile) => {
                    let next = decay_tile(tile, (i + 1) as u8, slots, offset);
                    map[i][j] = Some(next);
                    proof {
                        lemma_grid_shape(*map);
                        assert(grid(*map) =~= g.update(i as int, g[i as int].update(j as int, Some(next))));
                        if lives_positive(g0) {
                            assert forall|a: int, b: int|
                                in_grid(a, b) && (#[trigger] cell(grid(*map), a, b)) is Some implies cell(
                                grid(*map),
                                a,
                                b,
                            )->Some_0.life >= 1 by {
                                if a != i || b != j {
                                    assert(cell(grid(*map), a, b) == cell(g, a, b));
                                }
                            }
                        }
                    }
                },
            }
            proof {
                lemma_grid_shape(*map);
                assert((grid(*map), *offset as int) == spec_decay_cell(g, i as int, j as int, slots@, offset_before));
            }
            j = j + 1;
        }
        i = i + 1;
    }
}

/// The cell that follows `(level, column)` in the scan.
pub open spec fn spec_next_cell(level: int, column: int) -> (int, int) {
    if column < 2 {
        (level, column + 1)
    } else {
        (level + 1, 0)
    }
}

/// The spawn policy: unless the last cell of the map is occupied, a fresh tile
/// goes into the cell that follows the last occupied one.
pub open spec fn spec_spawn(g: Grid, slots: Seq<u8>, offset: int) -> (
    Grid,
    int,
) {
    let (level, column) = spec_highest(g);
    if level == 29 && column == 2 {
        (g, offset)
    } else {
        let (next_level, next_column) = spec_next_cell(level, column);
        let (tile, offset2) = spec_cycle_tile(None, next_level as u8, slots, offset);
        (g.update(next_level, g[next_level].update(next_column, Some(tile))), offset2)
    }
}

/// Whether a spawn places a tile: the last cell of the map is not the last
/// occupied one.
pub open spec fn spawn_places(g: Grid) -> bool {
    !(spec_highest(g).0 == 29 && spec_highest(g).1 == 2)
}

/// Places a fresh tile after the last occupied cell, unless the map is full,
/// and tells whether it placed one.
pub fn spawn_next_tile(map: &mut TileMap, slots: &[u8], offset: &mut usize) -> (placed: bool)
    requires
        valid_cursor(slots@, *old(offset) as int),
    ensures
        placed == spawn_places(grid(*old(map))),
        (grid(*final(map)), *final(offset) as int) == spec_spawn(
            grid(*old(map)),
            slots@,
            *old(offset) as int,
        ),
        valid_cursor(slots@, *final(offset) as int),
{
    proof {
        lemma_grid_shape(*map);
    }
    let ghost g = grid(*map);
    let (highest_level, highest_column) = get_highest_level_and_column(map);
    if !(highest_level == 29 && highest_column == 2) {
        let (level, column) = if highest_column < 2 {
            (highest_level, highest_column + 1)
        } else {
            (highest_level + 1, 0)
        };
        let tile = cycle_tile(None, level, slots, offset);
        map[level as usize][column as usize] = Some(tile);
        proof {
            lemma_grid_shape(*map);
            assert(grid(*map) =~= g.update(level as int, g[level as int].update(column as int, Some(tile))));
        }
        true
    } else {
        false
    }
}

/// Spawn law: on a map whose occupied cells are a non-empty prefix of the
/// scan, a spawn leaves them a prefix again, one cell longer unless the map
/// was full.
pub proof fn lemma_spawn_keeps_prefix(g: Grid, n: int, slots: Seq<u8>, offset: int)
    requires
        well_shaped(g),
        occupied_prefix(g, n),
        n >= 1,
    ensures
        occupied_prefix(spec_spawn(g, slots, offset).0, if n < 90 { n + 1 } else { 90 }),
{
    let i = (n - 1) / 3;
    let j = (n - 1) % 3;
    vstd::arithmetic::div_mod::lemma_fundamental_div_mod(n - 1, 3);
    assert(3 * i + j == n - 1);
    assert(in_grid(i, j));
    assert(is_last_occupied(g, i, j)) by {
        assert forall|a: int, b: int| in_grid(a, b) && scanned_after(a, b, i, j) implies (#[trigger] cell(
            g,
            a,
            b,
        )) is None by {
            assert(3 * a + b > 3 * i + j);
        }
    }
    lemma_last_occupied_unique(g, i, j);
    let g2 = spec_spawn(g, slots, offset).0;
    if !(i == 29 && j == 2) {
        let (nl, nc) = spec_next_cell(i, j);
        assert(3 * nl + nc == n);
        assert forall|a: int, b: int| in_grid(a, b) implies ((#[trigger] cell(g2, a, b)) is Some <==> 3 * a
            + b < n + 1) by {
            if a == nl && b == nc {
            } else {
                assert(cell(g2, a, b) == cell(g, a, b));
            }
        }
    }
}


/// Decaying tiles neither empties nor fills a cell.
pub proof fn lemma_decay_from_keeps_occupancy(g: Grid, i: int, j: int, slots: Seq<u8>, offset: int)
    requires
        well_shaped(g),
        0 <= j,
    ensures
        well_shaped(spec_decay_from(g, i, j, slots, offset).0),
        same_occupancy(g, spec_decay_from(g, i, j, slots, offset).0),
        lives_positive(g) ==> lives_positive(spec_decay_from(g, i, j, slots, offset).0),
    decreases 30 - i, 4 - j,
{
    if i < 0 || i >= 30 {
    } else if j >= 3 {
        lemma_decay_from_keeps_occupancy(g, i + 1, 0, slots, offset);
    } else {
        let (g1, offset1) = spec_decay_cell(g, i, j, slots, offset);
        assert(well_shaped(g1));
        if lives_positive(g) {
            assert forall|a: int, b: int| in_grid(a, b) && (#[trigger] cell(g1, a, b)) is Some implies cell(
                g1,
                a,
                b,
            )->Some_0.life >= 1 by {
                if a == i && b == j {
                    lemma_decay_tile_lives(cell(g, i, j)->Some_0, (i + 1) as u8, slots, offset);
                } else {
                    assert(cell(g1, a, b) == cell(g, a, b));
                }
            }
        }
        assert(same_occupancy(g, g1)) by {
            assert forall|a: int, b: int| in_grid(a, b) implies ((#[trigger] cell(g, a, b)) is Some
                <==> cell(g1, a, b) is Some) by {
                if a != i || b != j {
                    assert(cell(g1, a, b) == cell(g, a, b));
                }
            }
        }
        lemma_decay_from_keeps_occupancy(g1, i, j + 1, slots, offset1);
    }
}

/// A fresh tile has 3 to 6 turns of life.
pub proof fn lemma_fresh_tile_life(slots: Seq<u8>, offset: int, first_time: bool)
    ensures
        3 <= spec_fresh_tile(slots, offset, first_time).0.life <= 6,
{
    let life_roll = entropy_in_range(slots, offset, 1, 0, 3);
    assert(0 <= life_roll <= 3);
}

/// A decayed tile has at least one turn of life left.
pub proof fn lemma_decay_tile_lives(tile: Tile, level: u8, slots: Seq<u8>, offset: int)
    ensures
        spec_decay_tile(tile, level, slots, offset).0.life >= 1,
{
    lemma_fresh_tile_life(slots, offset, false);
}

/// A spawn keeps every tile alive.
pub proof fn lemma_spawn_keeps_lives(g: Grid, slots: Seq<u8>, offset: int)
    requires
        well_shaped(g),
        lives_positive(g),
    ensures
        lives_positive(spec_spawn(g, slots, offset).0),
        well_shaped(spec_spawn(g, slots, offset).0),
{
    let (level, column) = spec_highest(g);
    if !(level == 29 && column == 2) {
        let (next_level, next_column) = spec_next_cell(level, column);
        let g2 = spec_spawn(g, slots, offset).0;
        lemma_fresh_tile_life(slots, offset, true);
        if exists|i: int, j: int| is_last_occupied(g, i, j) {
            let (i, j) = choose|i: int, j: int| is_last_occupied(g, i, j);
            assert(is_last_occupied(g, i, j));
        }
        assert(0 <= next_level < 30 && 0 <= next_column < 3);
        assert(well_shaped(g2));
        assert forall|a: int, b: int| in_grid(a, b) && (#[trigger] cell(g2, a, b)) is Some implies cell(
            g2,
            a,
            b,
        )->Some_0.life >= 1 by {
            if a != next_level || b != next_column {
                assert(cell(g2, a, b) == cell(g, a, b));
            }
        }
    }
}

} // verus!
