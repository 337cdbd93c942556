use maia_rl::{
    new_map, xy_idx, xy_of_idx, GenerationRangeError, Rect, TileMap, TileType, FLOOR_GLYPH,
    WALL_GLYPH,
};

fn all_floor_map(w: i32, h: i32) -> TileMap {
    let mut m = new_map();
    m.rect = Rect::with_size(0, 0, w, h);
    m.tiles = vec![TileType::Floor; (w * h) as usize];
    m
}

#[test]
fn xy_idx_concrete() {
    let r = Rect::with_size(0, 0, 10, 10);
    assert_eq!(xy_idx(r, 0, 0), 0);
    assert_eq!(xy_idx(r, 3, 4), 43);
    assert_eq!(xy_idx(r, 9, 9), 99);
}

#[test]
fn xy_idx_roundtrip_all_cells() {
    let r = Rect::with_size(0, 0, 10, 8);
    for y in 0..8 {
        for x in 0..10 {
            let idx = xy_idx(r, x, y);
            assert_eq!(xy_of_idx(r, idx), (x, y));
        }
    }
}

#[test]
fn rect_center_and_intersect() {
    let a = Rect::with_size(2, 2, 4, 4);
    assert_eq!(a.x1, 2);
    assert_eq!(a.x2, 6);
    assert_eq!(a.center(), (4, 4));
    // edge-touching rectangles count as overlapping
    let b = Rect::with_size(6, 6, 3, 3);
    assert!(a.intersect(&b));
    assert!(b.intersect(&a));
    let c = Rect::with_size(7, 7, 2, 2);
    assert!(!a.intersect(&c));
}

#[test]
fn forced_room_scenario() {
    // a 10x10 all-wall map with one room carved at (2,2)-(6,6)
    let mut m = new_map();
    m.rect = Rect::with_size(0, 0, 10, 10);
    m.tiles = vec![TileType::Wall; 100];
    m.apply_room_to_map(&Rect::with_size(2, 2, 4, 4));
    assert_eq!(m.at(3, 3), TileType::Floor);
    assert_eq!(m.at(0, 0), TileType::Wall);
    assert_eq!(m.at(2, 2), TileType::Floor);
    assert_eq!(m.at(6, 6), TileType::Floor);
    assert_eq!(m.at(7, 7), TileType::Wall);
    assert_eq!(m.at(1, 3), TileType::Wall);
}

#[test]
fn generation_rejects_degenerate_sizes() {
    let mut m = new_map();
    assert_eq!(m.new_map_rooms_and_corridors((5, 5)), Err(GenerationRangeError));
    assert_eq!(m.new_map_rooms_and_corridors((11, 48)), Err(GenerationRangeError));
    assert_eq!(m.new_map_rooms_and_corridors((48, 11)), Err(GenerationRangeError));
    // the failed runs left the map untouched
    assert_eq!(m.tiles.len(), 0);
    assert_eq!(m.rooms.len(), 0);
    // the smallest accepted size
    assert!(m.new_map_rooms_and_corridors((12, 12)).is_ok());
}

fn floor_connected(m: &TileMap, from: (i32, i32), to: (i32, i32)) -> bool {
    let w = m.rect.width();
    let h = m.rect.height();
    let mut seen = vec![false; (w * h) as usize];
    let mut stack = vec![from];
    while let Some((x, y)) = stack.pop() {
        if (x, y) == to {
            return true;
        }
        for (dx, dy) in [(1, 0), (-1, 0), (0, 1), (0, -1)] {
            let (nx, ny) = (x + dx, y + dy);
            if nx < 0 || nx >= w || ny < 0 || ny >= h {
                continue;
            }
            let idx = xy_idx(m.rect, nx, ny);
            if !seen[idx] && m.at(nx, ny) == TileType::Floor {
                seen[idx] = true;
                stack.push((nx, ny));
            }
        }
    }
    false
}

#[test]
fn generated_map_properties() {
    let mut m = new_map();
    let res = m.new_map_rooms_and_corridors((64, 48));
    assert!(res.is_ok());
    assert_eq!(m.rect.width(), 64);
    assert_eq!(m.rect.height(), 48);
    assert_eq!(m.tiles.len(), 64 * 48);
    // room count is capped
    assert!(m.rooms.len() <= 30);
    // this size fits many candidates; at least one must have been accepted
    assert!(m.rooms.len() >= 1);
    for room in m.rooms.iter() {
        // rooms keep a one-cell border and their drawn size range
        assert!(1 <= room.x1 && room.x1 <= room.x2 && room.x2 <= 62);
        assert!(1 <= room.y1 && room.y1 <= room.y2 && room.y2 <= 46);
        assert!(6 <= room.x2 - room.x1 && room.x2 - room.x1 < 10);
        assert!(6 <= room.y2 - room.y1 && room.y2 - room.y1 < 10);
        // every cell inside a committed room is floor
        for x in room.x1..=room.x2 {
            for y in room.y1..=room.y2 {
                assert_eq!(m.at(x, y), TileType::Floor);
            }
        }
    }
    // no two committed rooms overlap
    for i in 0..m.rooms.len() {
        for j in 0..m.rooms.len() {
            if i != j {
                assert!(!m.rooms[i].intersect(&m.rooms[j]));
            }
        }
    }
    // the border ring is intact wall
    for x in 0..64 {
        assert_eq!(m.at(x, 0), TileType::Wall);
        assert_eq!(m.at(x, 47), TileType::Wall);
    }
    for y in 0..48 {
        assert_eq!(m.at(0, y), TileType::Wall);
        assert_eq!(m.at(63, y), TileType::Wall);
    }
    // consecutive rooms are joined by floor-connected corridors
    for k in 1..m.rooms.len() {
        let a = m.rooms[k - 1].center();
        let b = m.rooms[k].center();
        assert!(floor_connected(&m, a, b));
    }
    // carving is confined: every floor cell lies inside a committed room
    // or on a corridor lane between consecutive room centers
    for x in 0..64 {
        for y in 0..48 {
            if m.at(x, y) == TileType::Floor {
                let in_a_room = m
                    .rooms
                    .iter()
                    .any(|r| r.x1 <= x && x <= r.x2 && r.y1 <= y && y <= r.y2);
                let on_a_corridor = (1..m.rooms.len()).any(|k| {
                    let a = m.rooms[k - 1].center();
                    let b = m.rooms[k].center();
                    let (xlo, xhi) = (a.0.min(b.0), a.0.max(b.0));
                    let (ylo, yhi) = (a.1.min(b.1), a.1.max(b.1));
                    (y == a.1 && xlo <= x && x <= xhi) || (x == b.0 && ylo <= y && y <= yhi)
                        || (x == a.0 && ylo <= y && y <= yhi)
                        || (y == b.1 && xlo <= x && x <= xhi)
                });
                assert!(in_a_room || on_a_corridor);
            }
        }
    }
}

#[test]
fn draw_commands_per_tile() {
    let mut m = all_floor_map(2, 2);
    m.tiles[0] = TileType::Wall;
    m.tiles[3] = TileType::Wall;
    let cmds = m.draw();
    assert_eq!(cmds.len(), 4);
    let coords: Vec<(i32, i32)> = cmds.iter().map(|c| (c.x, c.y)).collect();
    assert_eq!(coords, vec![(0, 0), (1, 0), (0, 1), (1, 1)]);
    assert_eq!(cmds[0].glyph, WALL_GLYPH);
    assert_eq!(cmds[1].glyph, FLOOR_GLYPH);
    assert_eq!(cmds[2].glyph, FLOOR_GLYPH);
    assert_eq!(cmds[3].glyph, WALL_GLYPH);
    // fixed colors per tile kind
    assert_eq!((cmds[0].fg.r, cmds[0].fg.g, cmds[0].fg.b, cmds[0].fg.a), (0, 31, 36, 255));
    assert_eq!((cmds[1].fg.r, cmds[1].fg.g, cmds[1].fg.b, cmds[1].fg.a), (36, 18, 4, 255));
    assert_eq!((cmds[0].bg.r, cmds[0].bg.g, cmds[0].bg.b, cmds[0].bg.a), (0, 0, 0, 255));
}
