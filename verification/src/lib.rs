//! A small roguelike core: a procedurally generated dungeon of rectangular
//! rooms joined by corridors, stored as a flat tile grid, together with a
//! minimal entity/component world in which one player entity moves through
//! the dungeon, blocked by walls.

mod component;
mod map;
mod path;
mod player;
mod rect;
mod rng;
mod world;

pub use component::{ColorRgba, DrawCommand, Player, Position, Renderable};
pub use map::{
    in_room, lemma_xy_idx_roundtrip, new_map, on_l_corridor, tile_cmd, tile_cmds, xy_idx,
    xy_of_idx, GenerationRangeError, TileMap, TileType, FLOOR_GLYPH, MAX_ROOMS, MAX_SIZE,
    MIN_SIZE, WALL_GLYPH,
};
pub use path::{adjacent, connected, floors_preserved, is_floor_path};
pub use player::{
    key_delta, key_to_delta, lemma_blocked_move_idempotent, lemma_floor_commits,
    lemma_wall_blocks, move_result, player_input, player_moved, repeat_move, try_move_player,
    InputKey,
};
pub use rect::Rect;
pub use world::{entity_cmd, entity_cmds_upto, World};
