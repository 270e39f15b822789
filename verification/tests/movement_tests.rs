use banana_like::new_map;
use banana_like::try_move;
use banana_like::try_move_player;
use banana_like::xy_idx;
use banana_like::EntityData;
use banana_like::Position;
use banana_like::TileType;
use banana_like::World;

/// An 80x50 map whose border is all wall and whose interior is all floor.
fn open_map() -> Vec<TileType> {
    let mut map = vec![TileType::Floor; 4000];
    for x in 0..80 {
        map[xy_idx(x, 0)] = TileType::Wall;
        map[xy_idx(x, 49)] = TileType::Wall;
    }
    for y in 0..50 {
        map[xy_idx(0, y)] = TileType::Wall;
        map[xy_idx(79, y)] = TileType::Wall;
    }
    map
}

#[test]
fn left_moves_from_one_are_rejected_at_the_border() {
    let map = new_map();
    let mut pos = Position { x: 1, y: 1 };
    let first = try_move(&mut pos, -1, 0, &map);
    assert!(!first);
    assert_eq!(pos, Position { x: 1, y: 1 });
    let second = try_move(&mut pos, -1, 0, &map);
    assert!(!second);
    assert_eq!(pos, Position { x: 1, y: 1 });
}

#[test]
fn a_wall_ahead_blocks_the_move() {
    let mut map = new_map();
    map[xy_idx(41, 25)] = TileType::Wall;
    let mut pos = Position { x: 40, y: 25 };
    let moved = try_move(&mut pos, 1, 0, &map);
    assert!(!moved);
    assert_eq!(pos, Position { x: 40, y: 25 });
}

#[test]
fn a_floor_ahead_lets_the_move_through() {
    let mut map = new_map();
    map[xy_idx(41, 25)] = TileType::Floor;
    let mut pos = Position { x: 40, y: 25 };
    let moved = try_move(&mut pos, 1, 0, &map);
    assert!(moved);
    assert_eq!(pos, Position { x: 41, y: 25 });
}

#[test]
fn moves_past_the_grid_clamp_onto_the_border_and_fail() {
    let map = open_map();
    let mut pos = Position { x: 40, y: 25 };
    assert!(!try_move(&mut pos, 100, 0, &map));
    assert_eq!(pos, Position { x: 40, y: 25 });
    assert!(!try_move(&mut pos, -100, 0, &map));
    assert_eq!(pos, Position { x: 40, y: 25 });
    assert!(!try_move(&mut pos, 0, 100, &map));
    assert_eq!(pos, Position { x: 40, y: 25 });
    assert!(!try_move(&mut pos, 0, -30, &map));
    assert_eq!(pos, Position { x: 40, y: 25 });
}

#[test]
fn diagonal_overshoot_clamps_before_the_wall_check() {
    let map = open_map();
    let mut pos = Position { x: 5, y: 5 };
    let moved = try_move(&mut pos, -10, 0, &map);
    assert!(!moved);
    assert_eq!(pos, Position { x: 5, y: 5 });
}

#[test]
fn only_player_entities_respond_to_movement() {
    let map = open_map();
    let mut world = World::new();
    world.spawn(EntityData {
        position: Some(Position { x: 10, y: 10 }),
        renderable: None,
        player: true,
    });
    world.spawn(EntityData {
        position: Some(Position { x: 5, y: 5 }),
        renderable: None,
        player: false,
    });
    world.spawn(EntityData { position: None, renderable: None, player: true });
    try_move_player(1, 0, &mut world, &map);
    assert_eq!(world.entity(0).position, Some(Position { x: 11, y: 10 }));
    assert_eq!(world.entity(1).position, Some(Position { x: 5, y: 5 }));
    assert_eq!(world.entity(2).position, None);
}

#[test]
fn deferred_spawns_join_the_store_on_maintain() {
    let mut world = World::new();
    let data = EntityData {
        position: Some(Position { x: 7, y: 8 }),
        renderable: None,
        player: false,
    };
    world.spawn_deferred(data);
    assert_eq!(world.num_entities(), 0);
    world.maintain();
    assert_eq!(world.num_entities(), 1);
    assert_eq!(world.entity(0), data);
}
