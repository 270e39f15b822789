//! The movement and collision resolver: clamp the candidate cell to the grid,
//! then reject the move if the cell holds a wall.

use vstd::prelude::*;

use crate::components::entity_ok;
use crate::components::pos_in_bounds;
use crate::components::world_wf;
use crate::components::EntityData;
use crate::components::Position;
use crate::components::World;
use crate::map::in_bounds;
use crate::map::is_border;
use crate::map::is_wall;
use crate::map::map_wf;
use crate::map::spec_idx;
use crate::map::TileType;

verus! {

/// v clamped to the closed interval [lo, hi].
pub open spec fn clamp_spec(v: int, lo: int, hi: int) -> int {
    if v < lo {
        lo
    } else if v > hi {
        hi
    } else {
        v
    }
}

/// What one move attempt yields: the new position and whether the entity
/// moved. The candidate cell is clamped to the grid first; the move is then
/// rejected exactly when the clamped cell holds a wall.
pub open spec fn try_move_spec(m: Seq<TileType>, p: Position, dx: int, dy: int) -> (Position, bool) {
    let nx = clamp_spec(p.x + dx, 0, 79);
    let ny = clamp_spec(p.y + dy, 0, 49);
    if m[spec_idx(nx, ny)] == TileType::Wall {
        (p, false)
    } else {
        (Position { x: nx as i32, y: ny as i32 }, true)
    }
}

/// Attempt to move a position by (delta_x, delta_y) on the given map.
/// Returns whether the entity moved; on a rejected move the position is
/// unchanged.
pub fn try_move(pos: &mut Position, delta_x: i32, delta_y: i32, map: &Vec<TileType>) -> (moved:
    bool)
    requires
        map_wf(map@),
        pos_in_bounds(*old(pos)),
    ensures
        (*final(pos), moved) == try_move_spec(map@, *old(pos), delta_x as int, delta_y as int),
        pos_in_bounds(*final(pos)),
{
    let cx: i64 = pos.x as i64 + delta_x as i64;
    let cy: i64 = pos.y as i64 + delta_y as i64;
    let nx: i32 = if cx < 0 {
        0
    } else if cx > 79 {
        79
    } else {
        cx as i32
    };
    let ny: i32 = if cy < 0 {
        0
    } else if cy > 49 {
        49
    } else {
        cy as i32
    };
    if !is_wall(map, nx, ny) {
        pos.x = nx;
        pos.y = ny;
        true
    } else {
        false
    }
}

/// A move whose clamped target lands on a border cell is always rejected:
/// the borders of a well-formed map are walls.
pub proof fn lemma_move_to_border_blocked(m: Seq<TileType>, p: Position, dx: int, dy: int)
    requires
        map_wf(m),
        pos_in_bounds(p),
        is_border(clamp_spec(p.x + dx, 0, 79), clamp_spec(p.y + dy, 0, 49)),
    ensures
        try_move_spec(m, p, dx, dy) == (p, false),
{
    let nx = clamp_spec(p.x + dx, 0, 79);
    let ny = clamp_spec(p.y + dy, 0, 49);
    assert(in_bounds(nx, ny));
    assert(m[spec_idx(nx, ny)] == TileType::Wall);
}

/// Any move that would push the position outside the grid clamps onto the
/// border, which is a wall on a well-formed map, so the move is always
/// rejected and the position is unchanged.
pub proof fn lemma_edge_move_blocked(m: Seq<TileType>, p: Position, dx: int, dy: int)
    requires
        map_wf(m),
        pos_in_bounds(p),
        p.x + dx < 0 || p.x + dx > 79 || p.y + dy < 0 || p.y + dy > 49,
    ensures
        try_move_spec(m, p, dx, dy) == (p, false),
{
    lemma_move_to_border_blocked(m, p, dx, dy);
}

/// The entity as it stands after one move attempt: a player entity with a
/// position is moved by the resolver, every other entity is untouched.
pub open spec fn moved_entity(e: EntityData, m: Seq<TileType>, dx: int, dy: int) -> EntityData {
    if e.player {
        match e.position {
            Some(p) => EntityData { position: Some(try_move_spec(m, p, dx, dy).0), ..e },
            None => e,
        }
    } else {
        e
    }
}

/// Apply one move attempt to every player-tagged entity that has a position;
/// all other entities and the deferred queue are untouched.
pub fn try_move_player(delta_x: i32, delta_y: i32, world: &mut World, map: &Vec<TileType>)
    requires
        map_wf(map@),
        world_wf(*old(world)),
    ensures
        final(world).entities@.len() == old(world).entities@.len(),
        forall|i: int|
            0 <= i < old(world).entities@.len() ==> final(world).entities@[i] == moved_entity(
                #[trigger] old(world).entities@[i],
                map@,
                delta_x as int,
                delta_y as int,
            ),
        final(world).pending@ == old(world).pending@,
        world_wf(*final(world)),
{
    let n = world.entities.len();
    let mut i: usize = 0;
    while i < n
        invariant
            i <= n,
            n == world.entities@.len(),
            n == old(world).entities@.len(),
            map_wf(map@),
            world_wf(*old(world)),
            world.pending@ == old(world).pending@,
            forall|k: int|
                0 <= k < i ==> world.entities@[k] == moved_entity(
                    #[trigger] old(world).entities@[k],
                    map@,
                    delta_x as int,
                    delta_y as int,
                ),
            forall|k: int| i <= k < n ==> world.entities@[k] == old(world).entities@[k],
        decreases n - i,
    {
        let e = world.entities[i];
        proof {
            assert(e == old(world).entities@[i as int]);
            assert(entity_ok(e));
        }
        if e.player {
            if let Some(p0) = e.position {
                let mut p = p0;
                try_move(&mut p, delta_x, delta_y, map);
                let moved = EntityData { position: Some(p), ..e };
                world.entities.set(i, moved);
            }
        }
        i += 1;
    }
    proof {
        assert forall|i: int| 0 <= i < world.entities@.len() implies entity_ok(
            #[trigger] world.entities@[i],
        ) by {
            assert(world.entities@[i] == moved_entity(
                old(world).entities@[i],
                map@,
                delta_x as int,
                delta_y as int,
            ));
        }
    }
}

} // verus!
