use banana_like::draw_map;
use banana_like::key_delta;
use banana_like::new_map;
use banana_like::render_entities;
use banana_like::tick_update;
use banana_like::xy_idx;
use banana_like::Color;
use banana_like::EntityData;
use banana_like::InputKey;
use banana_like::Position;
use banana_like::Renderable;
use banana_like::TileType;
use banana_like::World;

fn walled_map() -> Vec<TileType> {
    let mut map = vec![TileType::Floor; 4000];
    for x in 0..80 {
        map[xy_idx(x, 0)] = TileType::Wall;
        map[xy_idx(x, 49)] = TileType::Wall;
    }
    for y in 0..50 {
        map[xy_idx(0, y)] = TileType::Wall;
        map[xy_idx(79, y)] = TileType::Wall;
    }
    map
}

#[test]
fn directional_keys_map_to_unit_deltas() {
    assert_eq!(key_delta(InputKey::Left), Some((-1, 0)));
    assert_eq!(key_delta(InputKey::Right), Some((1, 0)));
    assert_eq!(key_delta(InputKey::Up), Some((0, -1)));
    assert_eq!(key_delta(InputKey::Down), Some((0, 1)));
    assert_eq!(key_delta(InputKey::Other), None);
}

#[test]
fn a_tick_with_a_direction_moves_the_player() {
    let map = walled_map();
    let mut world = World::new();
    world.spawn(EntityData {
        position: Some(Position { x: 40, y: 25 }),
        renderable: None,
        player: true,
    });
    tick_update(&mut world, &map, Some(InputKey::Left));
    assert_eq!(world.entity(0).position, Some(Position { x: 39, y: 25 }));
    tick_update(&mut world, &map, Some(InputKey::Down));
    assert_eq!(world.entity(0).position, Some(Position { x: 39, y: 26 }));
}

#[test]
fn a_tick_without_input_changes_nothing() {
    let map = walled_map();
    let mut world = World::new();
    world.spawn(EntityData {
        position: Some(Position { x: 40, y: 25 }),
        renderable: None,
        player: true,
    });
    tick_update(&mut world, &map, None);
    assert_eq!(world.entity(0).position, Some(Position { x: 40, y: 25 }));
    tick_update(&mut world, &map, Some(InputKey::Other));
    assert_eq!(world.entity(0).position, Some(Position { x: 40, y: 25 }));
}

#[test]
fn a_tick_flushes_the_deferred_queue_unmoved() {
    let map = walled_map();
    let mut world = World::new();
    world.spawn_deferred(EntityData {
        position: Some(Position { x: 10, y: 10 }),
        renderable: None,
        player: true,
    });
    tick_update(&mut world, &map, Some(InputKey::Right));
    assert_eq!(world.num_entities(), 1);
    assert_eq!(world.entity(0).position, Some(Position { x: 10, y: 10 }));
}

#[test]
fn map_draw_calls_cover_the_grid_in_row_major_order() {
    let map = new_map();
    let cmds = draw_map(&map);
    assert_eq!(cmds.len(), 4000);
    let corner = cmds[0];
    assert_eq!((corner.x, corner.y), (0, 0));
    let second_row = cmds[xy_idx(1, 2)];
    assert_eq!((second_row.x, second_row.y), (1, 2));
    let last = cmds[3999];
    assert_eq!((last.x, last.y), (79, 49));
}

#[test]
fn map_draw_calls_use_the_tile_glyphs_and_colors() {
    let map = new_map();
    let cmds = draw_map(&map);
    let wall = cmds[xy_idx(0, 0)];
    assert_eq!(wall.glyph, 35);
    assert_eq!(wall.fg, Color { r: 0, g: 255, b: 255 });
    assert_eq!(wall.bg, Color { r: 0, g: 0, b: 0 });
    let floor = cmds[xy_idx(40, 25)];
    assert_eq!(floor.glyph, 46);
    assert_eq!(floor.fg, Color { r: 128, g: 128, b: 128 });
    assert_eq!(floor.bg, Color { r: 0, g: 0, b: 0 });
}

#[test]
fn entity_draw_calls_come_from_position_and_renderable() {
    let mut world = World::new();
    world.spawn(EntityData {
        position: Some(Position { x: 40, y: 25 }),
        renderable: Some(Renderable {
            glyph: 64,
            fg: Color { r: 255, g: 255, b: 0 },
            bg: Color { r: 0, g: 0, b: 0 },
        }),
        player: true,
    });
    world.spawn(EntityData {
        position: Some(Position { x: 3, y: 3 }),
        renderable: None,
        player: false,
    });
    world.spawn(EntityData {
        position: None,
        renderable: Some(Renderable {
            glyph: 1,
            fg: Color { r: 1, g: 2, b: 3 },
            bg: Color { r: 4, g: 5, b: 6 },
        }),
        player: false,
    });
    let cmds = render_entities(&world);
    assert_eq!(cmds.len(), 1);
    assert_eq!((cmds[0].x, cmds[0].y), (40, 25));
    assert_eq!(cmds[0].glyph, 64);
    assert_eq!(cmds[0].fg, Color { r: 255, g: 255, b: 0 });
    assert_eq!(cmds[0].bg, Color { r: 0, g: 0, b: 0 });
}

#[test]
fn entity_draw_calls_keep_store_order() {
    let mut world = World::new();
    for i in 0..3 {
        world.spawn(EntityData {
            position: Some(Position { x: 10 + i, y: 20 }),
            renderable: Some(Renderable {
                glyph: 64,
                fg: Color { r: 255, g: 255, b: 0 },
                bg: Color { r: 0, g: 0, b: 0 },
            }),
            player: false,
        });
    }
    let cmds = render_entities(&world);
    assert_eq!(cmds.len(), 3);
    assert_eq!(cmds[0].x, 10);
    assert_eq!(cmds[1].x, 11);
    assert_eq!(cmds[2].x, 12);
}
