//! The dungeon map: a flat grid of `Wall`/`Floor` tiles addressed by a
//! row-major coordinate formula, together with the ordered catalog of
//! generated rooms.

use vstd::arithmetic::div_mod::lemma_fundamental_div_mod_converse;
use vstd::pervasive::VecAdditionalExecFns;
use vstd::prelude::*;

use crate::component::{ColorRgba, DrawCommand};
use crate::path::{
    connected, floors_preserved, lemma_connected_preserved, lemma_connected_trans,
    lemma_horiz_connected, lemma_vert_connected,
};
use crate::rect::Rect;
use crate::rng::{rng_new, rng_range};

verus! {

/// Maximum number of room placement attempts (and so of committed rooms).
pub const MAX_ROOMS: i32 = 30;

/// Inclusive lower bound on a drawn room width or height.
pub const MIN_SIZE: i32 = 6;

/// Exclusive upper bound on a drawn room width or height.
pub const MAX_SIZE: i32 = 10;

/// Glyph index used when drawing a floor tile.
pub const FLOOR_GLYPH: u16 = 176;

/// Glyph index used when drawing a wall tile.
pub const WALL_GLYPH: u16 = 219;

/// The draw command emitted for tile index `i`: screen coordinates come
/// from the same row-major decomposition that addresses the tile array,
/// glyph and colors are fixed per tile kind.
pub open spec fn tile_cmd(m: TileMap, i: int) -> DrawCommand {
    DrawCommand {
        x: (i % m.width_s()) as i32,
        y: (i / m.width_s()) as i32,
        glyph: if m.tiles@[i] == TileType::Floor {
            FLOOR_GLYPH
        } else {
            WALL_GLYPH
        },
        fg: if m.tiles@[i] == TileType::Floor {
            ColorRgba { r: 36, g: 18, b: 4, a: 255 }
        } else {
            ColorRgba { r: 0, g: 31, b: 36, a: 255 }
        },
        bg: ColorRgba { r: 0, g: 0, b: 0, a: 255 },
    }
}

/// One draw command per tile, in tile-array order.
pub open spec fn tile_cmds(m: TileMap) -> Seq<DrawCommand> {
    Seq::new(m.tiles@.len(), |i: int| tile_cmd(m, i))
}

/// Cell `(x, y)` lies inside rectangle `r`, both bounds inclusive.
pub open spec fn in_room(r: Rect, x: int, y: int) -> bool {
    r.x1 <= x <= r.x2 && r.y1 <= y <= r.y2
}

/// Cell `(x, y)` lies on one of the two L-shaped corridor layouts joining
/// `a` to `b`: a horizontal segment through one endpoint's row together
/// with a vertical segment through the other endpoint's column.
pub open spec fn on_l_corridor(a: (int, int), b: (int, int), x: int, y: int) -> bool {
    ||| (y == a.1 && vstd::math::min(a.0, b.0) <= x <= vstd::math::max(a.0, b.0))
    ||| (x == b.0 && vstd::math::min(a.1, b.1) <= y <= vstd::math::max(a.1, b.1))
    ||| (x == a.0 && vstd::math::min(a.1, b.1) <= y <= vstd::math::max(a.1, b.1))
    ||| (y == b.1 && vstd::math::min(a.0, b.0) <= x <= vstd::math::max(a.0, b.0))
}

#[derive(Clone, Copy, PartialEq, Eq, Structural, Debug)]
pub enum TileType {
    Wall,
    Floor,
}

/// The requested map dimensions leave no room for the smallest possible
/// room plus its one-cell wall border, so the placement ranges would be
/// empty; generation aborts instead of sampling from an empty range.
#[derive(Clone, Copy, PartialEq, Eq, Structural, Debug)]
pub struct GenerationRangeError;

/// A tile grid with its bounding rectangle and the rooms committed by the
/// generator, in creation order.
pub struct TileMap {
    pub rect: Rect,
    pub tiles: Vec<TileType>,
    pub rooms: Vec<Rect>,
}

/// Row-major index of cell `(x, y)`: `x + y * width`, `x` fastest-varying.
pub open spec fn xy_idx_spec(rect: Rect, x: int, y: int) -> int {
    x + y * rect.width_spec()
}

/// In a `w` by `h` grid the row-major index of an in-bounds cell lies
/// below `w * h`.
pub proof fn lemma_grid_idx_bounds(w: int, h: int, x: int, y: int)
    by (nonlinear_arith)
    requires
        0 <= x < w,
        0 <= y < h,
    ensures
        0 <= x + y * w < w * h,
        y * w <= (h - 1) * w,
{
}

/// Row-major indexing, always computed against the rectangle's own width.
pub fn xy_idx(rect: Rect, x: i32, y: i32) -> (idx: usize)
    requires
        0 <= rect.x1 <= rect.x2,
        0 <= rect.y1 <= rect.y2,
        0 <= x < rect.width_spec(),
        0 <= y < rect.height_spec(),
        rect.width_spec() * rect.height_spec() <= usize::MAX,
    ensures
        idx == xy_idx_spec(rect, x as int, y as int),
        idx < rect.width_spec() * rect.height_spec(),
{
    proof {
        lemma_grid_idx_bounds(
            rect.width_spec(),
            rect.height_spec(),
            x as int,
            y as int,
        );
    }
    let w = rect.width();
    (x as usize) + (y as usize) * (w as usize)
}

/// The inverse decomposition of `xy_idx`: recovers the cell coordinates
/// from a row-major index.
pub fn xy_of_idx(rect: Rect, idx: usize) -> (p: (i32, i32))
    requires
        0 <= rect.x1 <= rect.x2,
        0 <= rect.y1 <= rect.y2,
        idx < rect.width_spec() * rect.height_spec(),
        rect.width_spec() * rect.height_spec() <= usize::MAX,
    ensures
        p.0 == idx as int % rect.width_spec(),
        p.1 == idx as int / rect.width_spec(),
        0 <= p.0 < rect.width_spec(),
        0 <= p.1 < rect.height_spec(),
        xy_idx_spec(rect, p.0 as int, p.1 as int) == idx,
{
    let w = rect.width();
    proof {
        assert(rect.width_spec() > 0) by (nonlinear_arith)
            requires
                rect.width_spec() * rect.height_spec() > (idx as int),
                0 <= (idx as int),
                rect.height_spec() >= 0;
        assert((idx as int) / (w as int) < rect.height_spec()) by (nonlinear_arith)
            requires
                0 < (w as int),
                (w as int) == rect.width_spec(),
                0 <= (idx as int),
                (idx as int) < rect.width_spec() * rect.height_spec();
        vstd::arithmetic::div_mod::lemma_fundamental_div_mod(idx as int, w as int);
        assert((w as int) * ((idx as int) / (w as int)) == ((idx as int) / (w as int)) * (
        w as int)) by (nonlinear_arith);
    }
    let x = idx % (w as usize);
    let y = idx / (w as usize);
    (x as i32, y as i32)
}

/// Round trip: composing `xy_idx` with its inverse decomposition recovers
/// the coordinates, for every in-bounds cell.
pub proof fn lemma_xy_idx_roundtrip(rect: Rect, x: int, y: int)
    requires
        0 <= x < rect.width_spec(),
        0 <= y < rect.height_spec(),
    ensures
        xy_idx_spec(rect, x, y) % rect.width_spec() == x,
        xy_idx_spec(rect, x, y) / rect.width_spec() == y,
{
    lemma_fundamental_div_mod_converse(
        x + y * rect.width_spec(),
        rect.width_spec(),
        y,
        x,
    );
}

/// A fresh, empty map: zero-sized bounding box, no tiles, no rooms.
pub fn new_map() -> (m: TileMap)
    ensures
        m.wf(),
        m.width_s() == 0,
        m.height_s() == 0,
        m.tiles@.len() == 0,
        m.rooms@.len() == 0,
{
    TileMap {
        rect: Rect::with_size(0, 0, 0, 0),
        tiles: Vec::new(),
        rooms: Vec::new(),
    }
}

impl TileMap {
    pub open spec fn width_s(self) -> int {
        self.rect.width_spec()
    }

    pub open spec fn height_s(self) -> int {
        self.rect.height_spec()
    }

    /// Well-formed map: the bounding box is anchored at the origin and the
    /// tile array has exactly one entry per cell.
    pub open spec fn wf(self) -> bool {
        &&& self.rect.x1 == 0
        &&& self.rect.y1 == 0
        &&& self.rect.x2 >= 0
        &&& self.rect.y2 >= 0
        &&& self.tiles@.len() == self.width_s() * self.height_s()
        &&& self.width_s() * self.height_s() <= usize::MAX
    }

    pub open spec fn in_bounds(self, x: int, y: int) -> bool {
        0 <= x < self.width_s() && 0 <= y < self.height_s()
    }

    /// The tile stored for cell `(x, y)`.
    pub open spec fn tile_at(self, x: int, y: int) -> TileType {
        self.tiles@[xy_idx_spec(self.rect, x, y)]
    }

    /// Tile lookup on a caller-supplied coordinate; out-of-bounds
    /// coordinates are excluded, as callers must bounds-check first.
    pub fn at(&self, x: i32, y: i32) -> (t: TileType)
        requires
            self.wf(),
            self.in_bounds(x as int, y as int),
        ensures
            t == self.tile_at(x as int, y as int),
    {
        let idx = xy_idx(self.rect, x, y);
        self.tiles[idx]
    }

    /// Writes one in-bounds tile, leaving every other cell unchanged.
    fn set_tile(&mut self, x: i32, y: i32, t: TileType)
        requires
            old(self).wf(),
            old(self).in_bounds(x as int, y as int),
        ensures
            final(self).wf(),
            final(self).rect == old(self).rect,
            final(self).rooms == old(self).rooms,
            forall|xx: int, yy: int|
                old(self).in_bounds(xx, yy) ==> #[trigger] final(self).tile_at(xx, yy) == (
                    if xx == x as int && yy == y as int {
                        t
                    } else {
                        old(self).tile_at(xx, yy)
                    }),
    {
        let idx = xy_idx(self.rect, x, y);
        self.tiles.set(idx, t);
        proof {
            assert forall|xx: int, yy: int| old(self).in_bounds(xx, yy) implies #[trigger] self
                .tile_at(xx, yy) == (if xx == x as int && yy == y as int {
                t
            } else {
                old(self).tile_at(xx, yy)
            }) by {
                lemma_grid_idx_bounds(old(self).width_s(), old(self).height_s(), xx, yy);
                if !(xx == x as int && yy == y as int) {
                    lemma_xy_idx_roundtrip(self.rect, xx, yy);
                    lemma_xy_idx_roundtrip(self.rect, x as int, y as int);
                }
            }
        }
    }

    /// Carves a room's interior to `Floor`, both bounds inclusive; every
    /// cell outside the rectangle keeps its tile.
    pub fn apply_room_to_map(&mut self, room: &Rect)
        requires
            old(self).wf(),
            0 <= room.x1 <= room.x2 < old(self).width_s(),
            0 <= room.y1 <= room.y2 < old(self).height_s(),
        ensures
            final(self).wf(),
            final(self).rect == old(self).rect,
            final(self).rooms == old(self).rooms,
            forall|xx: int, yy: int|
                old(self).in_bounds(xx, yy) ==> #[trigger] final(self).tile_at(xx, yy) == (
                    if room.x1 <= xx <= room.x2 && room.y1 <= yy <= room.y2 {
                        TileType::Floor
                    } else {
                        old(self).tile_at(xx, yy)
                    }),
    {
        let mut x = room.x1;
        while x <= room.x2
            invariant
                old(self).wf(),
                self.wf(),
                self.rect == old(self).rect,
                self.rooms == old(self).rooms,
                0 <= room.x1 <= room.x2 < old(self).width_s(),
                0 <= room.y1 <= room.y2 < old(self).height_s(),
                room.x1 <= x <= room.x2 + 1,
                forall|xx: int, yy: int|
                    old(self).in_bounds(xx, yy) ==> #[trigger] self.tile_at(xx, yy) == (
                        if room.x1 <= xx < x && room.y1 <= yy <= room.y2 {
                            TileType::Floor
                        } else {
                            old(self).tile_at(xx, yy)
                        }),
            decreases room.x2 + 1 - x,
        {
            let mut y = room.y1;
            while y <= room.y2
                invariant
                    old(self).wf(),
                    self.wf(),
                    self.rect == old(self).rect,
                    self.rooms == old(self).rooms,
                    0 <= room.x1 <= room.x2 < old(self).width_s(),
                    0 <= room.y1 <= room.y2 < old(self).height_s(),
                    room.x1 <= x <= room.x2,
                    room.y1 <= y <= room.y2 + 1,
                    forall|xx: int, yy: int|
                        old(self).in_bounds(xx, yy) ==> #[trigger] self.tile_at(xx, yy) == (
                            if (room.x1 <= xx < x && room.y1 <= yy <= room.y2) || (xx == x
                                && room.y1 <= yy < y) {
                                TileType::Floor
                            } else {
                                old(self).tile_at(xx, yy)
                            }),
                decreases room.y2 + 1 - y,
            {
                self.set_tile(x, y, TileType::Floor);
                y = y + 1;
            }
            x = x + 1;
        }
    }

    /// A committed room keeps a one-cell wall border and was drawn inside
    /// the generator's size range.
    pub open spec fn room_ok(self, r: Rect) -> bool {
        &&& 1 <= r.x1 <= r.x2 <= self.width_s() - 2
        &&& 1 <= r.y1 <= r.y2 <= self.height_s() - 2
        &&& MIN_SIZE <= r.x2 - r.x1 < MAX_SIZE
        &&& MIN_SIZE <= r.y2 - r.y1 < MAX_SIZE
    }

    /// Every cell inside the room rectangle (inclusive bounds) is `Floor`.
    pub open spec fn room_floored(self, r: Rect) -> bool {
        forall|x: int, y: int|
            r.x1 <= x <= r.x2 && r.y1 <= y <= r.y2 ==> #[trigger] self.tile_at(x, y)
                == TileType::Floor
    }

    /// Carves a one-cell-high horizontal corridor between the two x
    /// coordinates; a cell outside the grid is skipped rather than written.
    fn apply_horizontal_tunnel(&mut self, x1: i32, x2: i32, y: i32)
        requires
            old(self).wf(),
            0 <= x1 < i32::MAX,
            0 <= x2 < i32::MAX,
            0 <= y,
        ensures
            final(self).wf(),
            final(self).rect == old(self).rect,
            final(self).rooms == old(self).rooms,
            floors_preserved(*old(self), *final(self)),
            forall|xx: int, yy: int|
                old(self).in_bounds(xx, yy) ==> #[trigger] final(self).tile_at(xx, yy) == (
                    if yy == y as int && vstd::math::min(x1 as int, x2 as int) <= xx <= vstd::math::max(
                        x1 as int,
                        x2 as int,
                    ) {
                        TileType::Floor
                    } else {
                        old(self).tile_at(xx, yy)
                    }),
    {
        let lo = if x1 < x2 { x1 } else { x2 };
        let hi = if x1 < x2 { x2 } else { x1 };
        let mut x = lo;
        while x <= hi
            invariant
                old(self).wf(),
                self.wf(),
                self.rect == old(self).rect,
                self.rooms == old(self).rooms,
                lo as int == vstd::math::min(x1 as int, x2 as int),
                hi as int == vstd::math::max(x1 as int, x2 as int),
                0 <= lo <= x,
                x <= hi + 1,
                hi < i32::MAX,
                0 <= y,
                forall|xx: int, yy: int|
                    old(self).in_bounds(xx, yy) ==> #[trigger] self.tile_at(xx, yy) == (
                        if yy == y as int && lo <= xx < x {
                            TileType::Floor
                        } else {
                            old(self).tile_at(xx, yy)
                        }),
            decreases hi + 1 - x,
        {
            let w = self.rect.width();
            let h = self.rect.height();
            if x < w && y < h {
                self.set_tile(x, y, TileType::Floor);
            }
            x = x + 1;
        }
    }

    /// Carves a one-cell-wide vertical corridor between the two y
    /// coordinates; a cell outside the grid is skipped rather than written.
    fn apply_vertical_tunnel(&mut self, y1: i32, y2: i32, x: i32)
        requires
            old(self).wf(),
            0 <= y1 < i32::MAX,
            0 <= y2 < i32::MAX,
            0 <= x,
        ensures
            final(self).wf(),
            final(self).rect == old(self).rect,
            final(self).rooms == old(self).rooms,
            floors_preserved(*old(self), *final(self)),
            forall|xx: int, yy: int|
                old(self).in_bounds(xx, yy) ==> #[trigger] final(self).tile_at(xx, yy) == (
                    if xx == x as int && vstd::math::min(y1 as int, y2 as int) <= yy <= vstd::math::max(
                        y1 as int,
                        y2 as int,
                    ) {
                        TileType::Floor
                    } else {
                        old(self).tile_at(xx, yy)
                    }),
    {
        let lo = if y1 < y2 { y1 } else { y2 };
        let hi = if y1 < y2 { y2 } else { y1 };
        let mut y = lo;
        while y <= hi
            invariant
                old(self).wf(),
                self.wf(),
                self.rect == old(self).rect,
                self.rooms == old(self).rooms,
                lo as int == vstd::math::min(y1 as int, y2 as int),
                hi as int == vstd::math::max(y1 as int, y2 as int),
                0 <= lo <= y,
                y <= hi + 1,
                hi < i32::MAX,
                0 <= x,
                forall|xx: int, yy: int|
                    old(self).in_bounds(xx, yy) ==> #[trigger] self.tile_at(xx, yy) == (
                        if xx == x as int && lo <= yy < y {
                            TileType::Floor
                        } else {
                            old(self).tile_at(xx, yy)
                        }),
            decreases hi + 1 - y,
        {
            let w = self.rect.width();
            let h = self.rect.height();
            if x < w && y < h {
                self.set_tile(x, y, TileType::Floor);
            }
            y = y + 1;
        }
    }

    /// The cell lies inside some committed room.
    pub open spec fn in_some_room(self, x: int, y: int) -> bool {
        exists|k: int| 0 <= k < self.rooms@.len() && in_room(#[trigger] self.rooms@[k], x, y)
    }

    /// The cell lies on a corridor lane between two consecutive room
    /// centers (in generation order).
    pub open spec fn on_some_corridor(self, x: int, y: int) -> bool {
        exists|k: int|
            1 <= k < self.rooms@.len() && on_l_corridor(
                self.rooms@[k - 1].center_spec(),
                (#[trigger] self.rooms@[k]).center_spec(),
                x,
                y,
            )
    }

    /// Carving is confined: every floor cell lies inside a committed room
    /// or on a corridor lane between consecutive room centers; every
    /// other cell keeps its default `Wall`.
    pub open spec fn floors_confined(self) -> bool {
        forall|x: int, y: int|
            self.in_bounds(x, y) && #[trigger] self.tile_at(x, y) == TileType::Floor
                ==> self.in_some_room(x, y) || self.on_some_corridor(x, y)
    }

    /// Every cell on the outermost ring of the grid is still a wall.
    pub open spec fn border_walls(self) -> bool {
        forall|x: int, y: int|
            self.in_bounds(x, y) && (x == 0 || x == self.width_s() - 1 || y == 0 || y
                == self.height_s() - 1) ==> #[trigger] self.tile_at(x, y) == TileType::Wall
    }

    /// What a successful generation run guarantees: a well-formed grid of
    /// the requested size with at least one committed room (the first
    /// candidate overlaps nothing and is always accepted); the rooms are
    /// in bounds, fully floored, pairwise non-overlapping, and joined in
    /// generation order by floor-connected corridors; carving is confined
    /// to the rooms and corridor lanes, inside an intact wall border.
    pub open spec fn generated_ok(self, w: int, h: int) -> bool {
        &&& self.wf()
        &&& self.width_s() == w
        &&& self.height_s() == h
        &&& 1 <= self.rooms@.len() <= MAX_ROOMS
        &&& forall|k: int| 0 <= k < self.rooms@.len() ==> self.room_ok(#[trigger] self.rooms@[k])
        &&& forall|k: int|
            0 <= k < self.rooms@.len() ==> self.room_floored(#[trigger] self.rooms@[k])
        &&& forall|k1: int, k2: int|
            0 <= k1 < k2 < self.rooms@.len() ==> !(#[trigger] self.rooms@[k1].intersect_spec(
                self.rooms@[k2],
            ))
        &&& forall|k: int|
            1 <= k < self.rooms@.len() ==> connected(
                self,
                self.rooms@[k - 1].center_spec(),
                (#[trigger] self.rooms@[k]).center_spec(),
            )
        &&& self.floors_confined()
        &&& self.border_walls()
    }

    /// Populates the map with a fresh random dungeon of the given size:
    /// the grid starts all `Wall`, then up to `MAX_ROOMS` candidate rooms
    /// are drawn; a candidate overlapping a committed room is skipped,
    /// an accepted one is carved and joined to the previously accepted
    /// room's center by one horizontal and one vertical corridor segment,
    /// in random order. Dimensions too small for the placement ranges are
    /// rejected up front and leave the map untouched; the upper size bound
    /// keeps the tile-array and room-center arithmetic inside the machine
    /// integer types.
    #[verifier::loop_isolation(false)]
    #[verifier::rlimit(100)]
    pub fn new_map_rooms_and_corridors(&mut self, size: (i32, i32)) -> (res: Result<
        (),
        GenerationRangeError,
    >)
        requires
            size.0 <= 0x8000,
            size.1 <= 0x8000,
        ensures
            res is Ok <==> (size.0 >= MAX_SIZE + 2 && size.1 >= MAX_SIZE + 2),
            res is Err ==> *final(self) == *old(self),
            res is Ok ==> final(self).generated_ok(size.0 as int, size.1 as int),
    {
        let w = size.0;
        let h = size.1;
        if w < MAX_SIZE + 2 || h < MAX_SIZE + 2 {
            return Err(GenerationRangeError);
        }
        self.rect = Rect::with_size(0, 0, w, h);
        proof {
            assert((w as int) * (h as int) <= 0x8000 * 0x8000) by (nonlinear_arith)
                requires
                    0 <= (w as int) <= 0x8000,
                    0 <= (h as int) <= 0x8000;
        }
        let n: usize = (w as usize) * (h as usize);
        let mut tiles: Vec<TileType> = Vec::new();
        while tiles.len() < n
            invariant
                tiles@.len() <= n,
                forall|t: int| 0 <= t < tiles@.len() ==> tiles@[t] == TileType::Wall,
            decreases n - tiles@.len(),
        {
            tiles.push(TileType::Wall);
        }
        self.tiles = tiles;
        self.rooms = Vec::new();
        proof {
            assert forall|xx: int, yy: int| self.in_bounds(xx, yy) implies #[trigger] self.tile_at(
                xx,
                yy,
            ) == TileType::Wall by {
                lemma_grid_idx_bounds(self.width_s(), self.height_s(), xx, yy);
            }
        }

        let mut rng = rng_new();
        let mut i: i32 = 0;
        while i < MAX_ROOMS
            invariant
                self.wf(),
                self.rect.x2 == w,
                self.rect.y2 == h,
                self.rect.x1 == 0,
                self.rect.y1 == 0,
                0 <= i <= MAX_ROOMS,
                self.rooms@.len() <= i,
                i > 0 ==> 1 <= self.rooms@.len(),
                self.floors_confined(),
                forall|k: int|
                    0 <= k < self.rooms@.len() ==> self.room_ok(#[trigger] self.rooms@[k]),
                forall|k: int|
                    0 <= k < self.rooms@.len() ==> self.room_floored(#[trigger] self.rooms@[k]),
                forall|k1: int, k2: int|
                    0 <= k1 < k2 < self.rooms@.len() ==> !(
                    #[trigger] self.rooms@[k1].intersect_spec(self.rooms@[k2])),
                forall|k: int|
                    1 <= k < self.rooms@.len() ==> connected(
                        *self,
                        self.rooms@[k - 1].center_spec(),
                        (#[trigger] self.rooms@[k]).center_spec(),
                    ),
                self.border_walls(),
            decreases MAX_ROOMS - i,
        {
            let rw = rng_range(&mut rng, MIN_SIZE, MAX_SIZE);
            let rh = rng_range(&mut rng, MIN_SIZE, MAX_SIZE);
            let x = rng_range(&mut rng, 1, w - rw - 1);
            let y = rng_range(&mut rng, 1, h - rh - 1);
            let new_room = Rect::with_size(x, y, rw, rh);
            let mut ok = true;
            let mut j: usize = 0;
            while j < self.rooms.len()
                invariant
                    0 <= j <= self.rooms@.len(),
                    ok <==> (forall|k: int|
                        0 <= k < j ==> !(#[trigger] new_room.intersect_spec(self.rooms@[k]))),
                decreases self.rooms@.len() - j,
            {
                if new_room.intersect(&self.rooms[j]) {
                    ok = false;
                }
                j = j + 1;
            }
            if ok {
                let ghost m0 = *self;
                self.apply_room_to_map(&new_room);
                let ghost m1 = *self;
                proof {
                    assert forall|xx: int, yy: int|
                        new_room.x1 <= xx <= new_room.x2 && new_room.y1 <= yy
                            <= new_room.y2 implies #[trigger] m1.tile_at(xx, yy)
                        == TileType::Floor by {
                        assert(m0.in_bounds(xx, yy));
                    }
                    assert(m1.room_floored(new_room));
                    assert forall|xx: int, yy: int|
                        m0.in_bounds(xx, yy) && m0.tile_at(xx, yy)
                            == TileType::Floor implies #[trigger] m1.tile_at(xx, yy)
                        == TileType::Floor by {}
                    assert(floors_preserved(m0, m1));
                }
                if self.rooms.len() != 0 {
                    let last = self.rooms.len() - 1;
                    proof {
                        assert(self.room_ok(self.rooms@[last as int]));
                    }
                    let prev_rect = self.rooms[last];
                    let p_prev = prev_rect.center();
                    let p_new = new_room.center();
                    proof {
                        assert(1 <= p_prev.0 <= w - 2);
                        assert(1 <= p_prev.1 <= h - 2);
                        assert(1 <= p_new.0 <= w - 2);
                        assert(1 <= p_new.1 <= h - 2);
                    }
                    let coin = rng_range(&mut rng, 0, 2);
                    if coin == 1 {
                        self.apply_horizontal_tunnel(p_prev.0, p_new.0, p_prev.1);
                        let ghost m2 = *self;
                        self.apply_vertical_tunnel(p_prev.1, p_new.1, p_new.0);
                        let ghost m3 = *self;
                        proof {
                            lemma_floors_preserved_trans(m0, m1, m2);
                            lemma_floors_preserved_trans(m0, m2, m3);
                            lemma_floors_preserved_trans(m1, m2, m3);
                            assert forall|xx: int|
                                vstd::math::min(p_prev.0 as int, p_new.0 as int) <= xx
                                    <= vstd::math::max(
                                    p_prev.0 as int,
                                    p_new.0 as int,
                                ) implies m3.in_bounds(xx, p_prev.1 as int) && #[trigger] m3.tile_at(
                                xx,
                                p_prev.1 as int,
                            ) == TileType::Floor by {
                                assert(m2.tile_at(xx, p_prev.1 as int) == TileType::Floor);
                            }
                            lemma_horiz_connected(m3, p_prev.0 as int, p_new.0 as int, p_prev.1 as int);
                            assert forall|yy: int|
                                vstd::math::min(p_prev.1 as int, p_new.1 as int) <= yy
                                    <= vstd::math::max(
                                    p_prev.1 as int,
                                    p_new.1 as int,
                                ) implies m3.in_bounds(p_new.0 as int, yy) && #[trigger] m3.tile_at(
                                p_new.0 as int,
                                yy,
                            ) == TileType::Floor by {}
                            lemma_vert_connected(m3, p_prev.1 as int, p_new.1 as int, p_new.0 as int);
                            lemma_connected_trans(
                                m3,
                                (p_prev.0 as int, p_prev.1 as int),
                                (p_new.0 as int, p_prev.1 as int),
                                (p_new.0 as int, p_new.1 as int),
                            );
                            assert(connected(
                                *self,
                                self.rooms@[last as int].center_spec(),
                                new_room.center_spec(),
                            ));
                            assert(self.rooms@[last as int].center_spec() == (
                                p_prev.0 as int,
                                p_prev.1 as int,
                            ));
                            assert(new_room.center_spec() == (p_new.0 as int, p_new.1 as int));
                            // a cell floored by this iteration's corridor
                            // carving lies on one of the two segments
                            assert forall|xx: int, yy: int|
                                self.in_bounds(xx, yy) && #[trigger] self.tile_at(xx, yy)
                                    == TileType::Floor && m1.tile_at(xx, yy)
                                    != TileType::Floor implies on_l_corridor(
                                self.rooms@[last as int].center_spec(),
                                new_room.center_spec(),
                                xx,
                                yy,
                            ) by {
                                if m2.tile_at(xx, yy) == TileType::Floor {
                                    assert(yy == p_prev.1 as int && vstd::math::min(
                                        p_prev.0 as int,
                                        p_new.0 as int,
                                    ) <= xx <= vstd::math::max(p_prev.0 as int, p_new.0 as int));
                                } else {
                                    assert(xx == p_new.0 as int && vstd::math::min(
                                        p_prev.1 as int,
                                        p_new.1 as int,
                                    ) <= yy <= vstd::math::max(p_prev.1 as int, p_new.1 as int));
                                }
                            }
                        }
                    } else {
                        self.apply_vertical_tunnel(p_prev.1, p_new.1, p_prev.0);
                        let ghost m2 = *self;
                        self.apply_horizontal_tunnel(p_prev.0, p_new.0, p_new.1);
                        let ghost m3 = *self;
                        proof {
                            lemma_floors_preserved_trans(m0, m1, m2);
                            lemma_floors_preserved_trans(m0, m2, m3);
                            lemma_floors_preserved_trans(m1, m2, m3);
                            assert forall|yy: int|
                                vstd::math::min(p_prev.1 as int, p_new.1 as int) <= yy
                                    <= vstd::math::max(
                                    p_prev.1 as int,
                                    p_new.1 as int,
                                ) implies m3.in_bounds(p_prev.0 as int, yy) && #[trigger] m3.tile_at(
                                p_prev.0 as int,
                                yy,
                            ) == TileType::Floor by {
                                assert(m2.tile_at(p_prev.0 as int, yy) == TileType::Floor);
                            }
                            lemma_vert_connected(m3, p_prev.1 as int, p_new.1 as int, p_prev.0 as int);
                            assert forall|xx: int|
                                vstd::math::min(p_prev.0 as int, p_new.0 as int) <= xx
                                    <= vstd::math::max(
                                    p_prev.0 as int,
                                    p_new.0 as int,
                                ) implies m3.in_bounds(xx, p_new.1 as int) && #[trigger] m3.tile_at(
                                xx,
                                p_new.1 as int,
                            ) == TileType::Floor by {}
                            lemma_horiz_connected(m3, p_prev.0 as int, p_new.0 as int, p_new.1 as int);
                            lemma_connected_trans(
                                m3,
                                (p_prev.0 as int, p_prev.1 as int),
                                (p_prev.0 as int, p_new.1 as int),
                                (p_new.0 as int, p_new.1 as int),
                            );
                            assert(connected(
                                *self,
                                self.rooms@[last as int].center_spec(),
                                new_room.center_spec(),
                            ));
                            assert(self.rooms@[last as int].center_spec() == (
                                p_prev.0 as int,
                                p_prev.1 as int,
                            ));
                            assert(new_room.center_spec() == (p_new.0 as int, p_new.1 as int));
                            // a cell floored by this iteration's corridor
                            // carving lies on one of the two segments
                            assert forall|xx: int, yy: int|
                                self.in_bounds(xx, yy) && #[trigger] self.tile_at(xx, yy)
                                    == TileType::Floor && m1.tile_at(xx, yy)
                                    != TileType::Floor implies on_l_corridor(
                                self.rooms@[last as int].center_spec(),
                                new_room.center_spec(),
                                xx,
                                yy,
                            ) by {
                                if m2.tile_at(xx, yy) == TileType::Floor {
                                    assert(xx == p_prev.0 as int && vstd::math::min(
                                        p_prev.1 as int,
                                        p_new.1 as int,
                                    ) <= yy <= vstd::math::max(p_prev.1 as int, p_new.1 as int));
                                } else {
                                    assert(yy == p_new.1 as int && vstd::math::min(
                                        p_prev.0 as int,
                                        p_new.0 as int,
                                    ) <= xx <= vstd::math::max(p_prev.0 as int, p_new.0 as int));
                                }
                            }
                        }
                    }
                    proof {
                        assert forall|xx: int, yy: int|
                            m1.in_bounds(xx, yy) && m1.tile_at(xx, yy)
                                == TileType::Floor implies #[trigger] self.tile_at(xx, yy)
                            == TileType::Floor by {}
                        assert(floors_preserved(m1, *self));
                        lemma_floors_preserved_trans(m0, m1, *self);
                        // the corridor stays inside the border ring, so border
                        // cells kept their walls through both carvings
                        assert forall|xx: int, yy: int|
                            self.in_bounds(xx, yy) && (xx == 0 || xx == self.width_s() - 1 || yy
                                == 0 || yy == self.height_s() - 1) implies #[trigger] self.tile_at(
                            xx,
                            yy,
                        ) == TileType::Wall by {
                            assert(m0.tile_at(xx, yy) == TileType::Wall);
                            assert(m1.tile_at(xx, yy) == m0.tile_at(xx, yy));
                        }
                    }
                } else {
                    proof {
                        assert forall|xx: int, yy: int|
                            self.in_bounds(xx, yy) && (xx == 0 || xx == self.width_s() - 1 || yy
                                == 0 || yy == self.height_s() - 1) implies #[trigger] self.tile_at(
                            xx,
                            yy,
                        ) == TileType::Wall by {
                            assert(m0.tile_at(xx, yy) == TileType::Wall);
                        }
                    }
                }
                let ghost m_pre = *self;
                let ghost old_len = self.rooms@.len() as int;
                self.rooms.push(new_room);
                proof {
                    assert(self.rooms@ == m_pre.rooms@.push(new_room));
                    assert forall|xx: int, yy: int|
                        m_pre.in_bounds(xx, yy) && m_pre.tile_at(xx, yy)
                            == TileType::Floor implies #[trigger] self.tile_at(xx, yy)
                        == TileType::Floor by {}
                    assert(floors_preserved(m_pre, *self));
                    assert(floors_preserved(m0, m_pre));
                    assert(floors_preserved(m1, m_pre));
                    // every committed rectangle sits inside the border ring
                    assert forall|k: int| 0 <= k < self.rooms@.len() implies self.room_ok(
                        #[trigger] self.rooms@[k],
                    ) by {
                        if k < old_len {
                            assert(self.rooms@[k] == m0.rooms@[k]);
                            assert(m0.room_ok(m0.rooms@[k]));
                        } else {
                            assert(self.rooms@[k] == new_room);
                        }
                    }
                    // rooms committed earlier keep their floors
                    assert forall|k: int| 0 <= k < self.rooms@.len() implies self.room_floored(
                        #[trigger] self.rooms@[k],
                    ) by {
                        if k < old_len {
                            assert(self.rooms@[k] == m0.rooms@[k]);
                            assert(m0.room_floored(m0.rooms@[k]));
                            assert(m0.room_ok(m0.rooms@[k]));
                            lemma_floors_preserved_trans(m0, m_pre, *self);
                            lemma_room_floored_preserved(m0, *self, m0.rooms@[k]);
                        } else {
                            assert(m1.room_floored(new_room));
                            assert(m1.room_ok(new_room));
                            assert(self.rooms@[k] == new_room);
                            lemma_floors_preserved_trans(m1, m_pre, *self);
                            lemma_room_floored_preserved(m1, *self, new_room);
                        }
                    }
                    // no pair of committed rooms overlaps
                    assert forall|k1: int, k2: int|
                        0 <= k1 < k2 < self.rooms@.len() implies !(
                    #[trigger] self.rooms@[k1].intersect_spec(self.rooms@[k2])) by {
                        assert(self.rooms@[k1] == m0.rooms@[k1]);
                        if k2 == old_len {
                            assert(self.rooms@[k2] == new_room);
                            assert(!new_room.intersect_spec(m0.rooms@[k1]));
                        } else {
                            assert(self.rooms@[k2] == m0.rooms@[k2]);
                        }
                    }
                    // consecutive rooms stay corridor-connected
                    assert forall|k: int| 1 <= k < self.rooms@.len() implies connected(
                        *self,
                        self.rooms@[k - 1].center_spec(),
                        (#[trigger] self.rooms@[k]).center_spec(),
                    ) by {
                        assert(self.rooms@[k - 1] == m0.rooms@[k - 1]);
                        if k < old_len {
                            assert(self.rooms@[k] == m0.rooms@[k]);
                            assert(connected(
                                m0,
                                m0.rooms@[k - 1].center_spec(),
                                m0.rooms@[k].center_spec(),
                            ));
                            lemma_floors_preserved_trans(m0, m_pre, *self);
                            lemma_connected_preserved(
                                m0,
                                *self,
                                m0.rooms@[k - 1].center_spec(),
                                m0.rooms@[k].center_spec(),
                            );
                        } else {
                            assert(self.rooms@[k] == new_room);
                            assert(connected(
                                m_pre,
                                m_pre.rooms@[k - 1].center_spec(),
                                new_room.center_spec(),
                            ));
                            lemma_connected_preserved(
                                m_pre,
                                *self,
                                m_pre.rooms@[k - 1].center_spec(),
                                new_room.center_spec(),
                            );
                        }
                    }
                    // carving stayed confined: every floor cell lies in a
                    // committed room or on a corridor lane
                    assert forall|xx: int, yy: int|
                        self.in_bounds(xx, yy) && #[trigger] self.tile_at(xx, yy)
                            == TileType::Floor implies self.in_some_room(xx, yy)
                        || self.on_some_corridor(xx, yy) by {
                        if m0.tile_at(xx, yy) == TileType::Floor {
                            if m0.in_some_room(xx, yy) {
                                let k0 = choose|k: int|
                                    0 <= k < m0.rooms@.len() && in_room(
                                        #[trigger] m0.rooms@[k],
                                        xx,
                                        yy,
                                    );
                                assert(self.rooms@[k0] == m0.rooms@[k0]);
                                assert(self.in_some_room(xx, yy));
                            } else {
                                let k0 = choose|k: int|
                                    1 <= k < m0.rooms@.len() && on_l_corridor(
                                        m0.rooms@[k - 1].center_spec(),
                                        (#[trigger] m0.rooms@[k]).center_spec(),
                                        xx,
                                        yy,
                                    );
                                assert(self.rooms@[k0 - 1] == m0.rooms@[k0 - 1]);
                                assert(self.rooms@[k0] == m0.rooms@[k0]);
                                assert(self.on_some_corridor(xx, yy));
                            }
                        } else {
                            assert(m_pre.tile_at(xx, yy) == self.tile_at(xx, yy));
                            if in_room(new_room, xx, yy) {
                                assert(self.rooms@[old_len] == new_room);
                                assert(self.in_some_room(xx, yy));
                            } else {
                                assert(m1.tile_at(xx, yy) != TileType::Floor);
                                assert(old_len > 0);
                                assert(self.rooms@[old_len - 1] == m0.rooms@[old_len - 1]);
                                assert(self.rooms@[old_len] == new_room);
                                assert(on_l_corridor(
                                    m_pre.rooms@[old_len - 1].center_spec(),
                                    new_room.center_spec(),
                                    xx,
                                    yy,
                                ));
                                assert(self.on_some_corridor(xx, yy));
                            }
                        }
                    }
                    assert(self.floors_confined());
                }
            }
            i = i + 1;
        }
        Ok(())
    }

    /// Emits one draw command per tile, walking the tile array in order
    /// while stepping screen coordinates: `x` increments each cell and
    /// wraps to the next row at the grid width.
    #[verifier::loop_isolation(false)]
    pub fn draw(&self) -> (cmds: Vec<DrawCommand>)
        requires
            self.wf(),
        ensures
            cmds@ == tile_cmds(*self),
    {
        let w = self.rect.width();
        proof {
            if self.tiles@.len() > 0 {
                assert(self.width_s() > 0) by (nonlinear_arith)
                    requires
                        self.width_s() * self.height_s() > 0,
                        self.width_s() >= 0;
            }
        }
        let mut cmds: Vec<DrawCommand> = Vec::new();
        let mut x: i32 = 0;
        let mut y: i32 = 0;
        let mut idx: usize = 0;
        while idx < self.tiles.len()
            invariant
                idx <= self.tiles@.len(),
                cmds@.len() == idx,
                forall|i: int| 0 <= i < idx ==> cmds@[i] == tile_cmd(*self, i),
                0 <= x,
                0 <= y,
                self.tiles@.len() > 0 ==> w > 0,
                w > 0 ==> x < w,
                idx as int == x + y * (w as int),
            decreases self.tiles@.len() - idx,
        {
            proof {
                assert(y < self.height_s()) by (nonlinear_arith)
                    requires
                        0 <= (x as int) < (w as int),
                        0 <= (y as int),
                        (idx as int) == (x as int) + (y as int) * (w as int),
                        (idx as int) < (w as int) * self.height_s();
                lemma_xy_idx_roundtrip(self.rect, x as int, y as int);
            }
            let cmd = match self.tiles[idx] {
                TileType::Floor => DrawCommand {
                    x,
                    y,
                    glyph: FLOOR_GLYPH,
                    fg: ColorRgba { r: 36, g: 18, b: 4, a: 255 },
                    bg: ColorRgba { r: 0, g: 0, b: 0, a: 255 },
                },
                TileType::Wall => DrawCommand {
                    x,
                    y,
                    glyph: WALL_GLYPH,
                    fg: ColorRgba { r: 0, g: 31, b: 36, a: 255 },
                    bg: ColorRgba { r: 0, g: 0, b: 0, a: 255 },
                },
            };
            cmds.push(cmd);
            idx = idx + 1;
            x = x + 1;
            if x >= w {
                x = 0;
                y = y + 1;
                proof {
                    assert((y as int) * (w as int) == ((y - 1) as int) * (w as int) + (
                    w as int)) by (nonlinear_arith);
                }
            }
        }
        proof {
            assert(cmds@ =~= tile_cmds(*self));
        }
        cmds
    }
}

/// Floor preservation composes across successive carvings.
pub proof fn lemma_floors_preserved_trans(m1: TileMap, m2: TileMap, m3: TileMap)
    requires
        floors_preserved(m1, m2),
        floors_preserved(m2, m3),
    ensures
        floors_preserved(m1, m3),
{
    assert forall|x: int, y: int|
        m1.in_bounds(x, y) && m1.tile_at(x, y) == TileType::Floor implies #[trigger] m3.tile_at(
        x,
        y,
    ) == TileType::Floor by {
        assert(m2.tile_at(x, y) == TileType::Floor);
    }
}

/// A fully floored, in-bounds room stays fully floored under further carving.
pub proof fn lemma_room_floored_preserved(m1: TileMap, m2: TileMap, r: Rect)
    requires
        m1.room_floored(r),
        m1.room_ok(r),
        floors_preserved(m1, m2),
    ensures
        m2.room_floored(r),
{
    assert forall|x: int, y: int|
        r.x1 <= x <= r.x2 && r.y1 <= y <= r.y2 implies #[trigger] m2.tile_at(x, y)
            == TileType::Floor by {
        assert(m1.tile_at(x, y) == TileType::Floor);
        assert(m1.in_bounds(x, y));
    }
}

} // verus!
