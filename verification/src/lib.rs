//! A minimal tile-based movement core: a fixed 80x50 grid map with border
//! walls and randomly scattered interior walls, a small entity store, and
//! four-directional movement with wall collision.

pub mod components;
pub mod frame;
pub mod glyph;
pub mod map;
pub mod movement;
pub mod rng;

pub use frame::draw_map;
pub use frame::key_delta;
pub use frame::render_entities;
pub use frame::tick_update;
pub use frame::DrawCommand;
pub use frame::InputKey;

pub use components::Color;
pub use components::EntityData;
pub use components::Position;
pub use components::Renderable;
pub use components::World;
pub use movement::try_move;
pub use movement::try_move_player;

pub use map::is_wall;
pub use map::new_map;
pub use map::tile_at;
pub use map::xy_idx;
pub use map::TileType;
