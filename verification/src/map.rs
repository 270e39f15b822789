//! The tile map: a fixed 80x50 row-major grid of tiles, generated once with
//! fully walled borders, a protected spawn cell, and up to 100 randomly
//! scattered interior walls.

use vstd::prelude::*;

use crate::rng::rng_new;
use crate::rng::roll_die;

verus! {

/// One cell of the grid: passable floor or impassable wall.
#[derive(Clone, Copy, PartialEq, Eq, Structural, Debug)]
pub enum TileType {
    Wall,
    Floor,
}

/// Row-major linear index of the cell at (x, y).
pub open spec fn spec_idx(x: int, y: int) -> int {
    y * 80 + x
}

/// (x, y) lies inside the 80x50 grid.
pub open spec fn in_bounds(x: int, y: int) -> bool {
    0 <= x < 80 && 0 <= y < 50
}

/// (x, y) lies on one of the four border edges of the grid.
pub open spec fn is_border(x: int, y: int) -> bool {
    x == 0 || x == 79 || y == 0 || y == 49
}

/// A well-formed map: exactly 80 * 50 cells, every border cell a wall.
pub open spec fn map_wf(m: Seq<TileType>) -> bool {
    &&& m.len() == 4000
    &&& forall|x: int, y: int|
        in_bounds(x, y) && is_border(x, y) ==> #[trigger] m[spec_idx(x, y)] == TileType::Wall
}

/// Distinct in-bounds coordinates have distinct linear indices.
pub proof fn lemma_idx_injective(a: int, b: int, c: int, d: int)
    requires
        in_bounds(a, b),
        in_bounds(c, d),
        spec_idx(a, b) == spec_idx(c, d),
    ensures
        a == c && b == d,
{
}

/// Row-major linear index of the cell at (x, y).
pub fn xy_idx(x: i32, y: i32) -> (idx: usize)
    requires
        in_bounds(x as int, y as int),
    ensures
        idx == spec_idx(x as int, y as int),
{
    (y as usize) * 80 + (x as usize)
}

/// The tile stored at (x, y).
pub fn tile_at(map: &Vec<TileType>, x: i32, y: i32) -> (t: TileType)
    requires
        map@.len() == 4000,
        in_bounds(x as int, y as int),
    ensures
        t == map@[spec_idx(x as int, y as int)],
{
    let idx = xy_idx(x, y);
    map[idx]
}

/// Whether the tile at (x, y) is a wall.
pub fn is_wall(map: &Vec<TileType>, x: i32, y: i32) -> (r: bool)
    requires
        map@.len() == 4000,
        in_bounds(x as int, y as int),
    ensures
        r == (map@[spec_idx(x as int, y as int)] == TileType::Wall),
{
    let t = tile_at(map, x, y);
    t == TileType::Wall
}

/// 1 for a wall tile, 0 for a floor tile.
pub open spec fn tile_walls(t: TileType) -> int {
    if t == TileType::Wall {
        1
    } else {
        0
    }
}

/// Number of wall tiles among the first n cells.
pub open spec fn wall_count_to(m: Seq<TileType>, n: int) -> int
    decreases n,
{
    if n <= 0 {
        0
    } else {
        wall_count_to(m, n - 1) + tile_walls(m[n - 1])
    }
}

/// Number of wall tiles in the whole map.
pub open spec fn wall_count(m: Seq<TileType>) -> int {
    wall_count_to(m, m.len() as int)
}

/// The wall count over a prefix depends only on the cells of that prefix.
proof fn lemma_count_agree(a: Seq<TileType>, b: Seq<TileType>, n: int)
    requires
        forall|i: int| 0 <= i < n ==> a[i] == b[i],
    ensures
        wall_count_to(a, n) == wall_count_to(b, n),
    decreases n,
{
    if n > 0 {
        lemma_count_agree(a, b, n - 1);
    }
}

/// Overwriting one cell changes the wall count by the difference of the old
/// and the new tile's contribution.
proof fn lemma_count_update(m: Seq<TileType>, j: int, t: TileType, n: int)
    requires
        0 <= j < n <= m.len(),
    ensures
        wall_count_to(m.update(j, t), n) == wall_count_to(m, n) - tile_walls(m[j]) + tile_walls(t),
    decreases n,
{
    if j == n - 1 {
        lemma_count_agree(m.update(j, t), m, n - 1);
    } else {
        lemma_count_update(m, j, t, n - 1);
    }
}

/// A prefix of floor tiles holds no walls.
proof fn lemma_count_zero(m: Seq<TileType>, n: int)
    requires
        forall|i: int| 0 <= i < n ==> m[i] == TileType::Floor,
    ensures
        wall_count_to(m, n) == 0,
    decreases n,
{
    if n > 0 {
        lemma_count_zero(m, n - 1);
    }
}

/// Generate the map: every cell floor, then the four border edges walled,
/// then 100 random trials each turning one interior-or-border cell into a
/// wall unless it is the protected spawn cell (40, 25).
pub fn new_map() -> (map: Vec<TileType>)
    ensures
        map_wf(map@),
        map@[spec_idx(40, 25)] == TileType::Floor,
        256 <= wall_count(map@) <= 356,
{
    let mut map: Vec<TileType> = Vec::new();
    let mut i: usize = 0;
    while i < 4000
        invariant
            i <= 4000,
            map@.len() == i,
            forall|k: int| 0 <= k < i ==> map@[k] == TileType::Floor,
        decreases 4000 - i,
    {
        map.push(TileType::Floor);
        i += 1;
    }
    proof {
        lemma_count_zero(map@, 4000);
    }

    let mut x: i32 = 0;
    while x < 80
        invariant
            0 <= x <= 80,
            map@.len() == 4000,
            forall|a: int, b: int|
                in_bounds(a, b) ==> (#[trigger] map@[spec_idx(a, b)] == TileType::Wall <==> ((b
                    == 0 || b == 49) && a < x)),
            wall_count_to(map@, 4000) == 2 * x,
        decreases 80 - x,
    {
        let idx_top = xy_idx(x, 0);
        proof {
            lemma_count_update(map@, spec_idx(x as int, 0), TileType::Wall, 4000);
        }
        map.set(idx_top, TileType::Wall);
        proof {
            assert forall|a: int, b: int| in_bounds(a, b) implies (#[trigger] map@[spec_idx(a, b)]
                == TileType::Wall <==> ((b == 0 && a < x + 1) || (b == 49 && a < x))) by {
                if spec_idx(a, b) == spec_idx(x as int, 0) {
                    lemma_idx_injective(a, b, x as int, 0);
                }
            }
        }
        let idx_bot = xy_idx(x, 49);
        proof {
            lemma_count_update(map@, spec_idx(x as int, 49), TileType::Wall, 4000);
        }
        map.set(idx_bot, TileType::Wall);
        proof {
            assert forall|a: int, b: int| in_bounds(a, b) implies (#[trigger] map@[spec_idx(a, b)]
                == TileType::Wall <==> ((b == 0 || b == 49) && a < x + 1)) by {
                if spec_idx(a, b) == spec_idx(x as int, 49) {
                    lemma_idx_injective(a, b, x as int, 49);
                }
            }
        }
        x += 1;
    }

    let mut y: i32 = 0;
    while y < 50
        invariant
            0 <= y <= 50,
            map@.len() == 4000,
            forall|a: int, b: int|
                in_bounds(a, b) ==> (#[trigger] map@[spec_idx(a, b)] == TileType::Wall <==> (b == 0
                    || b == 49 || ((a == 0 || a == 79) && b < y))),
            wall_count_to(map@, 4000) == 160 + 2 * y - (if y >= 1 {
                2int
            } else {
                0int
            }) - (if y >= 50 {
                2int
            } else {
                0int
            }),
        decreases 50 - y,
    {
        let idx_left = xy_idx(0, y);
        proof {
            lemma_count_update(map@, spec_idx(0, y as int), TileType::Wall, 4000);
        }
        map.set(idx_left, TileType::Wall);
        proof {
            assert forall|a: int, b: int| in_bounds(a, b) implies (#[trigger] map@[spec_idx(a, b)]
                == TileType::Wall <==> (b == 0 || b == 49 || (a == 0 && b < y + 1) || (a == 79 && b
                < y))) by {
                if spec_idx(a, b) == spec_idx(0, y as int) {
                    lemma_idx_injective(a, b, 0, y as int);
                }
            }
        }
        let idx_right = xy_idx(79, y);
        proof {
            lemma_count_update(map@, spec_idx(79, y as int), TileType::Wall, 4000);
        }
        map.set(idx_right, TileType::Wall);
        proof {
            assert forall|a: int, b: int| in_bounds(a, b) implies (#[trigger] map@[spec_idx(a, b)]
                == TileType::Wall <==> (b == 0 || b == 49 || ((a == 0 || a == 79) && b < y + 1))) by {
                if spec_idx(a, b) == spec_idx(79, y as int) {
                    lemma_idx_injective(a, b, 79, y as int);
                }
            }
        }
        y += 1;
    }

    let mut rng = rng_new();
    let mut t: usize = 0;
    while t < 100
        invariant
            t <= 100,
            map@.len() == 4000,
            forall|a: int, b: int|
                in_bounds(a, b) && is_border(a, b) ==> #[trigger] map@[spec_idx(a, b)]
                    == TileType::Wall,
            map@[spec_idx(40, 25)] == TileType::Floor,
            256 <= wall_count_to(map@, 4000) <= 256 + t,
        decreases 100 - t,
    {
        let rx = roll_die(&mut rng, 79);
        let ry = roll_die(&mut rng, 49);
        let idx = xy_idx(rx, ry);
        if idx != xy_idx(40, 25) {
            proof {
                lemma_count_update(map@, spec_idx(rx as int, ry as int), TileType::Wall, 4000);
            }
            map.set(idx, TileType::Wall);
            proof {
                assert forall|a: int, b: int|
                    in_bounds(a, b) && is_border(a, b) implies #[trigger] map@[spec_idx(a, b)]
                    == TileType::Wall by {
                    if spec_idx(a, b) == spec_idx(rx as int, ry as int) {
                        lemma_idx_injective(a, b, rx as int, ry as int);
                    }
                }
                assert(map@[spec_idx(40, 25)] == TileType::Floor) by {
                    if spec_idx(40, 25) == spec_idx(rx as int, ry as int) {
                        lemma_idx_injective(40, 25, rx as int, ry as int);
                    }
                }
            }
        }
        t += 1;
    }
    map
}

/// The wall query is a function of the map and the coordinates alone: any two
/// results that its contract allows for the same unmutated map and the same
/// coordinates are equal.
pub proof fn lemma_is_wall_idempotent(m: Seq<TileType>, x: int, y: int, r1: bool, r2: bool)
    requires
        r1 == (m[spec_idx(x, y)] == TileType::Wall),
        r2 == (m[spec_idx(x, y)] == TileType::Wall),
    ensures
        r1 == r2,
{
}

} // verus!
