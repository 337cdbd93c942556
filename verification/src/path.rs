//! Floor-connectivity of map cells: a path is a sequence of edge-adjacent,
//! in-bounds `Floor` cells. The generator's contract uses this to state
//! that consecutive rooms are joined by their corridors.

use vstd::prelude::*;

use crate::map::{TileMap, TileType};

verus! {

/// Two cells sharing an edge (orthogonal neighbours).
pub open spec fn adjacent(a: (int, int), b: (int, int)) -> bool {
    (a.0 == b.0 && (a.1 == b.1 + 1 || a.1 + 1 == b.1)) || (a.1 == b.1 && (a.0 == b.0 + 1 || a.0
        + 1 == b.0))
}

/// `path` walks from `a` to `b`, every cell in bounds and `Floor`, every
/// step to an edge-adjacent cell.
pub open spec fn is_floor_path(
    m: TileMap,
    path: Seq<(int, int)>,
    a: (int, int),
    b: (int, int),
) -> bool {
    &&& path.len() >= 1
    &&& path[0] == a
    &&& path[path.len() - 1] == b
    &&& forall|i: int|
        0 <= i < path.len() ==> m.in_bounds((#[trigger] path[i]).0, path[i].1) && m.tile_at(
            path[i].0,
            path[i].1,
        ) == TileType::Floor
    &&& forall|i: int| 0 <= i < path.len() - 1 ==> adjacent(#[trigger] path[i], path[i + 1])
}

/// Some floor path joins `a` to `b`.
pub open spec fn connected(m: TileMap, a: (int, int), b: (int, int)) -> bool {
    exists|path: Seq<(int, int)>| is_floor_path(m, path, a, b)
}

/// `m2` keeps every floor cell of `m1` (carving only ever adds floor).
pub open spec fn floors_preserved(m1: TileMap, m2: TileMap) -> bool {
    &&& m1.width_s() == m2.width_s()
    &&& m1.height_s() == m2.height_s()
    &&& forall|x: int, y: int|
        m1.in_bounds(x, y) && m1.tile_at(x, y) == TileType::Floor ==> #[trigger] m2.tile_at(x, y)
            == TileType::Floor
}

/// A horizontal run of floor cells is connected end to end.
pub proof fn lemma_horiz_connected(m: TileMap, xa: int, xb: int, y: int)
    requires
        forall|x: int|
            vstd::math::min(xa, xb) <= x <= vstd::math::max(xa, xb) ==> m.in_bounds(x, y)
                && #[trigger] m.tile_at(x, y) == TileType::Floor,
    ensures
        connected(m, (xa, y), (xb, y)),
{
    if xa <= xb {
        let path = Seq::new((xb - xa + 1) as nat, |i: int| (xa + i, y));
        assert forall|i: int| 0 <= i < path.len() implies m.in_bounds(
            (#[trigger] path[i]).0,
            path[i].1,
        ) && m.tile_at(path[i].0, path[i].1) == TileType::Floor by {
            assert(m.tile_at(xa + i, y) == TileType::Floor);
        }
        assert(is_floor_path(m, path, (xa, y), (xb, y)));
    } else {
        let path = Seq::new((xa - xb + 1) as nat, |i: int| (xa - i, y));
        assert forall|i: int| 0 <= i < path.len() implies m.in_bounds(
            (#[trigger] path[i]).0,
            path[i].1,
        ) && m.tile_at(path[i].0, path[i].1) == TileType::Floor by {
            assert(m.tile_at(xa - i, y) == TileType::Floor);
        }
        assert(is_floor_path(m, path, (xa, y), (xb, y)));
    }
}

/// A vertical run of floor cells is connected end to end.
pub proof fn lemma_vert_connected(m: TileMap, ya: int, yb: int, x: int)
    requires
        forall|y: int|
            vstd::math::min(ya, yb) <= y <= vstd::math::max(ya, yb) ==> m.in_bounds(x, y)
                && #[trigger] m.tile_at(x, y) == TileType::Floor,
    ensures
        connected(m, (x, ya), (x, yb)),
{
    if ya <= yb {
        let path = Seq::new((yb - ya + 1) as nat, |i: int| (x, ya + i));
        assert forall|i: int| 0 <= i < path.len() implies m.in_bounds(
            (#[trigger] path[i]).0,
            path[i].1,
        ) && m.tile_at(path[i].0, path[i].1) == TileType::Floor by {
            assert(m.tile_at(x, ya + i) == TileType::Floor);
        }
        assert(is_floor_path(m, path, (x, ya), (x, yb)));
    } else {
        let path = Seq::new((ya - yb + 1) as nat, |i: int| (x, ya - i));
        assert forall|i: int| 0 <= i < path.len() implies m.in_bounds(
            (#[trigger] path[i]).0,
            path[i].1,
        ) && m.tile_at(path[i].0, path[i].1) == TileType::Floor by {
            assert(m.tile_at(x, ya - i) == TileType::Floor);
        }
        assert(is_floor_path(m, path, (x, ya), (x, yb)));
    }
}

/// Connectivity composes: a path from `a` to `b` and one from `b` to `c`
/// join to a path from `a` to `c`.
pub proof fn lemma_connected_trans(m: TileMap, a: (int, int), b: (int, int), c: (int, int))
    requires
        connected(m, a, b),
        connected(m, b, c),
    ensures
        connected(m, a, c),
{
    let p1 = choose|p: Seq<(int, int)>| is_floor_path(m, p, a, b);
    let p2 = choose|p: Seq<(int, int)>| is_floor_path(m, p, b, c);
    if p2.len() == 1 {
        assert(is_floor_path(m, p1, a, c));
    } else {
        let p = p1 + p2.subrange(1, p2.len() as int);
        assert(p.len() == p1.len() + p2.len() - 1);
        assert(p[0] == p1[0]);
        assert(p[p.len() - 1] == p2[p2.len() - 1]);
        assert forall|i: int| 0 <= i < p.len() implies m.in_bounds((#[trigger] p[i]).0, p[i].1)
            && m.tile_at(p[i].0, p[i].1) == TileType::Floor by {
            if i < p1.len() {
                assert(p[i] == p1[i]);
            } else {
                assert(p[i] == p2[i - p1.len() + 1]);
            }
        }
        assert forall|i: int| 0 <= i < p.len() - 1 implies adjacent(#[trigger] p[i], p[i + 1]) by {
            if i + 1 < p1.len() {
                assert(p[i] == p1[i]);
                assert(p[i + 1] == p1[i + 1]);
                assert(adjacent(p1[i], p1[i + 1]));
            } else if i + 1 == p1.len() {
                assert(p[i] == p1[p1.len() - 1]);
                assert(p[i + 1] == p2[1]);
                assert(adjacent(p2[0], p2[1]));
            } else {
                assert(p[i] == p2[i - p1.len() + 1]);
                assert(p[i + 1] == p2[i - p1.len() + 2]);
                assert(adjacent(p2[i - p1.len() + 1], p2[i - p1.len() + 2]));
            }
        }
        assert(is_floor_path(m, p, a, c));
    }
}

/// Carving more floor never disconnects what was already connected.
pub proof fn lemma_connected_preserved(m1: TileMap, m2: TileMap, a: (int, int), b: (int, int))
    requires
        connected(m1, a, b),
        floors_preserved(m1, m2),
    ensures
        connected(m2, a, b),
{
    let p = choose|p: Seq<(int, int)>| is_floor_path(m1, p, a, b);
    assert forall|i: int| 0 <= i < p.len() implies m2.in_bounds((#[trigger] p[i]).0, p[i].1)
        && m2.tile_at(p[i].0, p[i].1) == TileType::Floor by {
        assert(m1.in_bounds(p[i].0, p[i].1) && m1.tile_at(p[i].0, p[i].1) == TileType::Floor);
    }
    assert(is_floor_path(m2, p, a, b));
}

} // verus!
