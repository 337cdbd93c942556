use maia_rl::{
    key_to_delta, new_map, player_input, try_move_player, xy_idx, InputKey, Player, Position,
    Rect, TileMap, TileType, World,
};

fn all_floor_map(w: i32, h: i32) -> TileMap {
    let mut m = new_map();
    m.rect = Rect::with_size(0, 0, w, h);
    m.tiles = vec![TileType::Floor; (w * h) as usize];
    m
}

fn world_with_player(m: TileMap, x: i32, y: i32) -> (World, usize) {
    let mut w = World::new();
    w.insert_map(m);
    let e = w.create_entity();
    w.attach_position(e, Position { x, y });
    w.attach_player(e, Player {});
    (w, e)
}

#[test]
fn clamp_at_right_border() {
    // player at (5,5) on an all-floor 10x10 map, nine steps right:
    // x stops at 9 (width - 1), not at 14
    let (mut w, e) = world_with_player(all_floor_map(10, 10), 5, 5);
    for _ in 0..9 {
        try_move_player(1, 0, &mut w);
    }
    assert_eq!(w.position_of(e), Some(Position { x: 9, y: 5 }));
}

#[test]
fn wall_blocks_move() {
    // player at (1,1) with a wall at (1,0): moving up is rejected
    let mut m = all_floor_map(10, 10);
    m.tiles[xy_idx(m.rect, 1, 0)] = TileType::Wall;
    let (mut w, e) = world_with_player(m, 1, 1);
    try_move_player(0, -1, &mut w);
    assert_eq!(w.position_of(e), Some(Position { x: 1, y: 1 }));
}

#[test]
fn blocked_move_is_idempotent() {
    let mut m = all_floor_map(10, 10);
    m.tiles[xy_idx(m.rect, 4, 5)] = TileType::Wall;
    let (mut w, e) = world_with_player(m, 5, 5);
    for _ in 0..5 {
        try_move_player(-1, 0, &mut w);
        assert_eq!(w.position_of(e), Some(Position { x: 5, y: 5 }));
    }
}

#[test]
fn floor_move_commits_exactly() {
    let (mut w, e) = world_with_player(all_floor_map(10, 10), 5, 5);
    try_move_player(1, -1, &mut w);
    assert_eq!(w.position_of(e), Some(Position { x: 6, y: 4 }));
}

#[test]
fn only_player_entities_move() {
    let mut w = World::new();
    w.insert_map(all_floor_map(10, 10));
    let npc = w.create_entity();
    w.attach_position(npc, Position { x: 2, y: 2 });
    let hero = w.create_entity();
    w.attach_position(hero, Position { x: 5, y: 5 });
    w.attach_player(hero, Player {});
    try_move_player(1, 0, &mut w);
    assert_eq!(w.position_of(npc), Some(Position { x: 2, y: 2 }));
    assert_eq!(w.position_of(hero), Some(Position { x: 6, y: 5 }));
}

#[test]
fn key_aliases() {
    let west = Some((-1, 0));
    let east = Some((1, 0));
    let north = Some((0, -1));
    let south = Some((0, 1));
    assert_eq!(key_to_delta(InputKey::Left), west);
    assert_eq!(key_to_delta(InputKey::Numpad4), west);
    assert_eq!(key_to_delta(InputKey::H), west);
    assert_eq!(key_to_delta(InputKey::Right), east);
    assert_eq!(key_to_delta(InputKey::Numpad6), east);
    assert_eq!(key_to_delta(InputKey::L), east);
    assert_eq!(key_to_delta(InputKey::Up), north);
    assert_eq!(key_to_delta(InputKey::Numpad8), north);
    assert_eq!(key_to_delta(InputKey::K), north);
    assert_eq!(key_to_delta(InputKey::Down), south);
    assert_eq!(key_to_delta(InputKey::Numpad2), south);
    assert_eq!(key_to_delta(InputKey::J), south);
    assert_eq!(key_to_delta(InputKey::Numpad7), Some((-1, -1)));
    assert_eq!(key_to_delta(InputKey::Y), Some((-1, -1)));
    assert_eq!(key_to_delta(InputKey::Numpad1), Some((-1, 1)));
    assert_eq!(key_to_delta(InputKey::B), Some((-1, 1)));
    assert_eq!(key_to_delta(InputKey::Numpad3), Some((1, 1)));
    assert_eq!(key_to_delta(InputKey::N), Some((1, 1)));
    assert_eq!(key_to_delta(InputKey::Numpad9), Some((1, -1)));
    assert_eq!(key_to_delta(InputKey::U), Some((1, -1)));
    assert_eq!(key_to_delta(InputKey::Other), None);
}

#[test]
fn input_moves_player_once_per_tick() {
    let (mut w, e) = world_with_player(all_floor_map(10, 10), 5, 5);
    player_input(&mut w, Some(InputKey::L));
    assert_eq!(w.position_of(e), Some(Position { x: 6, y: 5 }));
    player_input(&mut w, None);
    assert_eq!(w.position_of(e), Some(Position { x: 6, y: 5 }));
    player_input(&mut w, Some(InputKey::Other));
    assert_eq!(w.position_of(e), Some(Position { x: 6, y: 5 }));
    player_input(&mut w, Some(InputKey::Numpad8));
    assert_eq!(w.position_of(e), Some(Position { x: 6, y: 4 }));
}

#[test]
fn diagonal_corner_cutting_is_allowed() {
    // both orthogonal neighbours are walls, the diagonal target is floor:
    // the single-target-cell check permits the move by design
    let mut m = all_floor_map(10, 10);
    m.tiles[xy_idx(m.rect, 6, 5)] = TileType::Wall;
    m.tiles[xy_idx(m.rect, 5, 4)] = TileType::Wall;
    let (mut w, e) = world_with_player(m, 5, 5);
    try_move_player(1, -1, &mut w);
    assert_eq!(w.position_of(e), Some(Position { x: 6, y: 4 }));
}
