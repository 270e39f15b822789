//! The frame driver: decode one key press into a movement intent, resolve
//! movement, flush deferred store maintenance, and compute the draw calls for
//! the map grid and the drawable entities.

use vstd::prelude::*;

use crate::components::world_wf;
use crate::components::EntityData;
use crate::components::Color;
use crate::components::World;
use crate::glyph::cp437_of;
use crate::glyph::to_cp437;
use crate::map::in_bounds;
use crate::map::map_wf;
use crate::map::spec_idx;
use crate::map::TileType;
use crate::movement::moved_entity;
use crate::movement::try_move_player;

verus! {

/// One key press, reduced to what the core reacts to: the four directions,
/// or any other key.
#[derive(Clone, Copy, PartialEq, Eq, Structural, Debug)]
pub enum InputKey {
    Left,
    Right,
    Up,
    Down,
    Other,
}

/// The movement intent a key maps to: a unit delta for the four directional
/// keys, none for any other key.
pub open spec fn key_delta_spec(k: InputKey) -> Option<(i32, i32)> {
    match k {
        InputKey::Left => Some((-1i32, 0i32)),
        InputKey::Right => Some((1i32, 0i32)),
        InputKey::Up => Some((0i32, -1i32)),
        InputKey::Down => Some((0i32, 1i32)),
        InputKey::Other => None,
    }
}

/// Decode a key press into a movement intent.
pub fn key_delta(k: InputKey) -> (d: Option<(i32, i32)>)
    ensures
        d == key_delta_spec(k),
{
    match k {
        InputKey::Left => Some((-1, 0)),
        InputKey::Right => Some((1, 0)),
        InputKey::Up => Some((0, -1)),
        InputKey::Down => Some((0, 1)),
        InputKey::Other => None,
    }
}

/// The live entities as they stand after one tick's movement phase: if the
/// tick's key press carries a movement intent, every player entity is moved
/// by the resolver; otherwise nothing changes.
pub open spec fn tick_entities(
    es: Seq<EntityData>,
    m: Seq<TileType>,
    key: Option<InputKey>,
) -> Seq<EntityData> {
    match key {
        Some(k) => match key_delta_spec(k) {
            Some(d) => es.map_values(|e: EntityData| moved_entity(e, m, d.0 as int, d.1 as int)),
            None => es,
        },
        None => es,
    }
}

/// Run the update phase of one tick: decode at most one key press, resolve
/// player movement for a directional key, then apply deferred store
/// maintenance. Queued entities join the store unmoved; the queue is left
/// empty.
pub fn tick_update(world: &mut World, map: &Vec<TileType>, key: Option<InputKey>)
    requires
        map_wf(map@),
        world_wf(*old(world)),
    ensures
        final(world).entities@ == tick_entities(old(world).entities@, map@, key) + old(
            world,
        ).pending@,
        final(world).pending@.len() == 0,
        world_wf(*final(world)),
{
    if let Some(k) = key {
        if let Some((dx, dy)) = key_delta(k) {
            try_move_player(dx, dy, world, map);
            proof {
                assert(world.entities@ =~= tick_entities(old(world).entities@, map@, key));
            }
        }
    }
    world.maintain();
}

/// Foreground color of a floor tile.
pub open spec fn floor_fg() -> Color {
    Color { r: 128, g: 128, b: 128 }
}

/// Foreground color of a wall tile.
pub open spec fn wall_fg() -> Color {
    Color { r: 0, g: 255, b: 255 }
}

/// Background color of every tile.
pub open spec fn tile_bg() -> Color {
    Color { r: 0, g: 0, b: 0 }
}

/// One draw call: set the cell at (x, y) to the given glyph and colors.
#[derive(Clone, Copy, PartialEq, Eq, Structural, Debug)]
pub struct DrawCommand {
    pub x: i32,
    pub y: i32,
    pub fg: Color,
    pub bg: Color,
    pub glyph: u16,
}

/// The draw call for the map cell at (x, y): a gray dot on a floor tile, a
/// cyan hash on a wall tile, both on black.
pub open spec fn tile_cmd(m: Seq<TileType>, x: int, y: int) -> DrawCommand {
    DrawCommand {
        x: x as i32,
        y: y as i32,
        fg: if m[spec_idx(x, y)] == TileType::Floor {
            floor_fg()
        } else {
            wall_fg()
        },
        bg: tile_bg(),
        glyph: if m[spec_idx(x, y)] == TileType::Floor {
            cp437_of('.')
        } else {
            cp437_of('#')
        },
    }
}

/// Compute the draw calls for the whole map grid, one per cell in row-major
/// order.
pub fn draw_map(map: &Vec<TileType>) -> (cmds: Vec<DrawCommand>)
    requires
        map@.len() == 4000,
    ensures
        cmds@.len() == 4000,
        forall|x: int, y: int|
            in_bounds(x, y) ==> cmds@[spec_idx(x, y)] == tile_cmd(map@, x, y),
{
    let floor_glyph = to_cp437('.');
    let wall_glyph = to_cp437('#');
    let mut cmds: Vec<DrawCommand> = Vec::new();
    let mut x: i32 = 0;
    let mut y: i32 = 0;
    let mut k: usize = 0;
    while k < 4000
        invariant
            map@.len() == 4000,
            floor_glyph == cp437_of('.'),
            wall_glyph == cp437_of('#'),
            cmds@.len() == k,
            k <= 4000,
            0 <= x < 80,
            0 <= y,
            k as int == spec_idx(x as int, y as int),
            forall|a: int, b: int|
                in_bounds(a, b) && spec_idx(a, b) < k ==> cmds@[spec_idx(a, b)] == tile_cmd(
                    map@,
                    a,
                    b,
                ),
        decreases 4000 - k,
    {
        let t = map[k];
        let cmd = match t {
            TileType::Floor => DrawCommand {
                x,
                y,
                fg: Color { r: 128, g: 128, b: 128 },
                bg: Color { r: 0, g: 0, b: 0 },
                glyph: floor_glyph,
            },
            TileType::Wall => DrawCommand {
                x,
                y,
                fg: Color { r: 0, g: 255, b: 255 },
                bg: Color { r: 0, g: 0, b: 0 },
                glyph: wall_glyph,
            },
        };
        proof {
            assert(y < 50);
            assert(cmd == tile_cmd(map@, x as int, y as int));
        }
        cmds.push(cmd);
        proof {
            assert forall|a: int, b: int| in_bounds(a, b) && spec_idx(a, b) < k + 1 implies cmds@[spec_idx(
                a,
                b,
            )] == tile_cmd(map@, a, b) by {
                if spec_idx(a, b) == k as int {
                    crate::map::lemma_idx_injective(a, b, x as int, y as int);
                }
            }
        }
        k += 1;
        x += 1;
        if x > 79 {
            x = 0;
            y += 1;
        }
    }
    cmds
}

/// The draw calls for a prefix of the entity store, in store order: one call
/// per entity that has both a position and a renderable.
pub open spec fn entity_cmds(es: Seq<EntityData>) -> Seq<DrawCommand>
    decreases es.len(),
{
    if es.len() == 0 {
        Seq::empty()
    } else {
        let rest = entity_cmds(es.drop_last());
        match (es.last().position, es.last().renderable) {
            (Some(p), Some(r)) => rest.push(
                DrawCommand { x: p.x, y: p.y, fg: r.fg, bg: r.bg, glyph: r.glyph },
            ),
            _ => rest,
        }
    }
}

/// Compute the draw calls for every entity that has both a position and a
/// renderable, in store order.
pub fn render_entities(world: &World) -> (cmds: Vec<DrawCommand>)
    ensures
        cmds@ == entity_cmds(world.entities@),
{
    let mut cmds: Vec<DrawCommand> = Vec::new();
    let n = world.entities.len();
    let mut i: usize = 0;
    while i < n
        invariant
            i <= n,
            n == world.entities@.len(),
            cmds@ == entity_cmds(world.entities@.take(i as int)),
        decreases n - i,
    {
        let e = world.entities[i];
        proof {
            assert(world.entities@.take(i as int + 1).drop_last() =~= world.entities@.take(
                i as int,
            ));
            assert(world.entities@.take(i as int + 1).last() == e);
        }
        if let (Some(p), Some(r)) = (e.position, e.renderable) {
            cmds.push(DrawCommand { x: p.x, y: p.y, fg: r.fg, bg: r.bg, glyph: r.glyph });
        }
        i += 1;
    }
    proof {
        assert(world.entities@.take(n as int) =~= world.entities@);
    }
    cmds
}

} // verus!
