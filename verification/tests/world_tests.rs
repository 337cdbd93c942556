use maia_rl::{
    new_map, ColorRgba, Player, Position, Rect, Renderable, TileType, World, FLOOR_GLYPH,
    WALL_GLYPH,
};

fn sample_renderable(glyph: u16) -> Renderable {
    Renderable {
        glyph,
        fg: ColorRgba { r: 255, g: 255, b: 0, a: 255 },
        bg: ColorRgba { r: 0, g: 0, b: 0, a: 0 },
    }
}

#[test]
fn create_and_attach() {
    let mut w = World::new();
    let a = w.create_entity();
    let b = w.create_entity();
    assert_eq!(a, 0);
    assert_eq!(b, 1);
    assert_eq!(w.position_of(a), None);
    w.attach_position(a, Position { x: 3, y: 4 });
    w.attach_renderable(a, sample_renderable(64));
    w.attach_player(a, Player {});
    assert_eq!(w.position_of(a), Some(Position { x: 3, y: 4 }));
    assert!(w.is_player(a));
    assert!(!w.is_player(b));
    // attach overwrites a prior component of the same type
    w.attach_position(a, Position { x: 7, y: 8 });
    assert_eq!(w.position_of(a), Some(Position { x: 7, y: 8 }));
}

#[test]
fn destroy_clears_all_components() {
    let mut w = World::new();
    let a = w.create_entity();
    let b = w.create_entity();
    w.attach_position(a, Position { x: 1, y: 1 });
    w.attach_renderable(a, sample_renderable(64));
    w.attach_player(a, Player {});
    w.attach_position(b, Position { x: 2, y: 2 });
    w.destroy_entity(a);
    assert_eq!(w.position_of(a), None);
    assert_eq!(w.renderable_of(a), None);
    assert!(!w.is_player(a));
    // the other entity keeps its components
    assert_eq!(w.position_of(b), Some(Position { x: 2, y: 2 }));
}

#[test]
fn map_resource_slot() {
    let mut w = World::new();
    assert!(!w.has_map());
    let mut m = new_map();
    m.rect = Rect::with_size(0, 0, 4, 4);
    m.tiles = vec![TileType::Floor; 16];
    w.insert_map(m);
    assert!(w.has_map());
    assert_eq!(w.fetch_map().rect.width(), 4);
    assert_eq!(w.fetch_map().at(2, 2), TileType::Floor);
}

#[test]
fn entities_render_on_top_of_tiles() {
    let mut w = World::new();
    let mut m = new_map();
    m.rect = Rect::with_size(0, 0, 2, 2);
    m.tiles = vec![TileType::Wall, TileType::Floor, TileType::Floor, TileType::Wall];
    w.insert_map(m);
    // an entity without a renderable emits nothing
    let bare = w.create_entity();
    w.attach_position(bare, Position { x: 0, y: 0 });
    // the player draws at its position, after every tile command
    let e = w.create_entity();
    w.attach_position(e, Position { x: 1, y: 0 });
    w.attach_renderable(e, sample_renderable(64));
    let cmds = w.render_commands();
    assert_eq!(cmds.len(), 5);
    assert_eq!(cmds[0].glyph, WALL_GLYPH);
    assert_eq!(cmds[1].glyph, FLOOR_GLYPH);
    let top = cmds[4];
    assert_eq!((top.x, top.y), (1, 0));
    assert_eq!(top.glyph, 64);
    assert_eq!((top.fg.r, top.fg.g, top.fg.b, top.fg.a), (255, 255, 0, 255));
}
