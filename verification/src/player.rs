//! The movement system and input mapping: a proposed delta is committed
//! only when the target tile is inside the grid and not a wall; key
//! presses alias onto the eight compass deltas.

use vstd::prelude::*;

use crate::component::Position;
use crate::map::{TileMap, TileType};
use crate::world::World;

verus! {

/// Where a proposed move from `p` by `(dx, dy)` ends: the target cell
/// when it lies inside the grid and is not a wall, otherwise `p`
/// unchanged (a blocked move is a normal outcome, not an error).
pub open spec fn move_result(m: TileMap, p: Position, dx: int, dy: int) -> Position {
    let tx = p.x + dx;
    let ty = p.y + dy;
    if m.in_bounds(tx, ty) && m.tile_at(tx, ty) != TileType::Wall {
        Position { x: tx as i32, y: ty as i32 }
    } else {
        p
    }
}

/// `w_new` is `w_old` after one movement pass with delta `(dx, dy)`:
/// every entity holding both the player tag and a position moved by
/// `move_result`; everything else is untouched.
pub open spec fn player_moved(w_old: World, w_new: World, dx: int, dy: int) -> bool {
    &&& w_new.wf()
    &&& w_new.positions@.len() == w_old.positions@.len()
    &&& w_new.renderables == w_old.renderables
    &&& w_new.players == w_old.players
    &&& w_new.tile_map == w_old.tile_map
    &&& forall|e: int|
        0 <= e < w_old.positions@.len() ==> #[trigger] w_new.positions@[e] == (
        if w_old.players@[e] is Some && w_old.positions@[e] is Some {
            Some(move_result(w_old.tile_map.unwrap(), w_old.positions@[e].unwrap(), dx, dy))
        } else {
            w_old.positions@[e]
        })
}

/// A move whose target is a wall, or lies outside the grid, leaves the
/// position unchanged.
pub proof fn lemma_wall_blocks(m: TileMap, p: Position, dx: int, dy: int)
    requires
        !m.in_bounds(p.x + dx, p.y + dy) || m.tile_at(p.x + dx, p.y + dy) == TileType::Wall,
    ensures
        move_result(m, p, dx, dy) == p,
{
}

/// Moving onto a floor tile commits the position to exactly
/// `old + delta`; the committed coordinates lie in
/// `[0, width - 1] x [0, height - 1]`, so the defensive clamp to that
/// box is the identity.
pub proof fn lemma_floor_commits(m: TileMap, p: Position, dx: int, dy: int)
    requires
        m.wf(),
        m.in_bounds(p.x + dx, p.y + dy),
        m.tile_at(p.x + dx, p.y + dy) != TileType::Wall,
    ensures
        move_result(m, p, dx, dy).x == p.x + dx,
        move_result(m, p, dx, dy).y == p.y + dy,
        0 <= move_result(m, p, dx, dy).x <= m.width_s() - 1,
        0 <= move_result(m, p, dx, dy).y <= m.height_s() - 1,
{
}

/// Applying one move `n` times in a row.
pub open spec fn repeat_move(m: TileMap, p: Position, dx: int, dy: int, n: nat) -> Position
    decreases n,
{
    if n == 0 {
        p
    } else {
        move_result(m, repeat_move(m, p, dx, dy, (n - 1) as nat), dx, dy)
    }
}

/// Repeating the same blocked move any number of times still yields the
/// same position.
pub proof fn lemma_blocked_move_idempotent(m: TileMap, p: Position, dx: int, dy: int, n: nat)
    requires
        !m.in_bounds(p.x + dx, p.y + dy) || m.tile_at(p.x + dx, p.y + dy) == TileType::Wall,
    ensures
        repeat_move(m, p, dx, dy, n) == p,
    decreases n,
{
    if n > 0 {
        lemma_blocked_move_idempotent(m, p, dx, dy, (n - 1) as nat);
        lemma_wall_blocks(m, p, dx, dy);
    }
}

/// One movement pass: every entity with both the player tag and a
/// position tries to move by the delta; a wall or the grid edge blocks
/// the move silently, and a committed move is clamped into the grid.
#[verifier::loop_isolation(false)]
pub fn try_move_player(delta_x: i32, delta_y: i32, ecs: &mut World)
    requires
        old(ecs).wf(),
        old(ecs).tile_map is Some,
        old(ecs).tile_map.unwrap().wf(),
    ensures
        player_moved(*old(ecs), *final(ecs), delta_x as int, delta_y as int),
{
    let mut e: usize = 0;
    while e < ecs.positions.len()
        invariant
            ecs.wf(),
            e <= ecs.positions@.len(),
            ecs.positions@.len() == old(ecs).positions@.len(),
            ecs.renderables == old(ecs).renderables,
            ecs.players == old(ecs).players,
            ecs.tile_map == old(ecs).tile_map,
            forall|k: int|
                0 <= k < e ==> #[trigger] ecs.positions@[k] == (
                if old(ecs).players@[k] is Some && old(ecs).positions@[k] is Some {
                    Some(
                        move_result(
                            old(ecs).tile_map.unwrap(),
                            old(ecs).positions@[k].unwrap(),
                            delta_x as int,
                            delta_y as int,
                        ),
                    )
                } else {
                    old(ecs).positions@[k]
                }),
            forall|k: int|
                e <= k < ecs.positions@.len() ==> #[trigger] ecs.positions@[k] == old(
                    ecs,
                ).positions@[k],
        decreases ecs.positions@.len() - e,
    {
        if ecs.players[e].is_some() && ecs.positions[e].is_some() {
            let p = ecs.positions[e].unwrap();
            let tx = (p.x as i64) + (delta_x as i64);
            let ty = (p.y as i64) + (delta_y as i64);
            let mp = ecs.fetch_map();
            let w = mp.rect.width();
            let h = mp.rect.height();
            if 0 <= tx && tx < (w as i64) && 0 <= ty && ty < (h as i64) {
                if mp.at(tx as i32, ty as i32) != TileType::Wall {
                    let mut nx = tx as i32;
                    let mut ny = ty as i32;
                    // defensive secondary guard at the border; provably
                    // the identity for an in-bounds target
                    if nx < 0 {
                        nx = 0;
                    }
                    if nx > w - 1 {
                        nx = w - 1;
                    }
                    if ny < 0 {
                        ny = 0;
                    }
                    if ny > h - 1 {
                        ny = h - 1;
                    }
                    ecs.positions.set(e, Some(Position { x: nx, y: ny }));
                }
            }
        }
        e = e + 1;
    }
}

/// One discrete key press as seen by the input mapping; keys that do not
/// move the player arrive as `Other`.
#[derive(Clone, Copy, PartialEq, Eq, Structural, Debug)]
pub enum InputKey {
    Left,
    Right,
    Up,
    Down,
    H,
    J,
    K,
    L,
    Y,
    U,
    B,
    N,
    Numpad1,
    Numpad2,
    Numpad3,
    Numpad4,
    Numpad6,
    Numpad7,
    Numpad8,
    Numpad9,
    Other,
}

/// The movement delta a key aliases to: arrows, numpad digits and
/// vi-style letters map onto the eight compass directions; any other key
/// maps to no movement.
pub open spec fn key_delta(k: InputKey) -> Option<(int, int)> {
    match k {
        InputKey::Left => Some((-1int, 0int)),
        InputKey::Numpad4 => Some((-1int, 0int)),
        InputKey::H => Some((-1int, 0int)),
        InputKey::Right => Some((1int, 0int)),
        InputKey::Numpad6 => Some((1int, 0int)),
        InputKey::L => Some((1int, 0int)),
        InputKey::Up => Some((0int, -1int)),
        InputKey::Numpad8 => Some((0int, -1int)),
        InputKey::K => Some((0int, -1int)),
        InputKey::Down => Some((0int, 1int)),
        InputKey::Numpad2 => Some((0int, 1int)),
        InputKey::J => Some((0int, 1int)),
        InputKey::Numpad7 => Some((-1int, -1int)),
        InputKey::Y => Some((-1int, -1int)),
        InputKey::Numpad1 => Some((-1int, 1int)),
        InputKey::B => Some((-1int, 1int)),
        InputKey::Numpad3 => Some((1int, 1int)),
        InputKey::N => Some((1int, 1int)),
        InputKey::Numpad9 => Some((1int, -1int)),
        InputKey::U => Some((1int, -1int)),
        InputKey::Other => None,
    }
}

/// Executable form of `key_delta`.
pub fn key_to_delta(key: InputKey) -> (d: Option<(i32, i32)>)
    ensures
        d is Some <==> key_delta(key) is Some,
        d is Some ==> key_delta(key).unwrap() == (d.unwrap().0 as int, d.unwrap().1 as int),
{
    match key {
        InputKey::Left => Some((-1, 0)),
        InputKey::Numpad4 => Some((-1, 0)),
        InputKey::H => Some((-1, 0)),
        InputKey::Right => Some((1, 0)),
        InputKey::Numpad6 => Some((1, 0)),
        InputKey::L => Some((1, 0)),
        InputKey::Up => Some((0, -1)),
        InputKey::Numpad8 => Some((0, -1)),
        InputKey::K => Some((0, -1)),
        InputKey::Down => Some((0, 1)),
        InputKey::Numpad2 => Some((0, 1)),
        InputKey::J => Some((0, 1)),
        InputKey::Numpad7 => Some((-1, -1)),
        InputKey::Y => Some((-1, -1)),
        InputKey::Numpad1 => Some((-1, 1)),
        InputKey::B => Some((-1, 1)),
        InputKey::Numpad3 => Some((1, 1)),
        InputKey::N => Some((1, 1)),
        InputKey::Numpad9 => Some((1, -1)),
        InputKey::U => Some((1, -1)),
        InputKey::Other => None,
    }
}

/// Processes at most one directional intent per tick: a key that aliases
/// to a delta moves the player by it; no key, or a key without a delta,
/// changes nothing.
pub fn player_input(ecs: &mut World, key: Option<InputKey>)
    requires
        old(ecs).wf(),
        old(ecs).tile_map is Some,
        old(ecs).tile_map.unwrap().wf(),
    ensures
        (key is Some && key_delta(key.unwrap()) is Some) ==> player_moved(
            *old(ecs),
            *final(ecs),
            key_delta(key.unwrap()).unwrap().0,
            key_delta(key.unwrap()).unwrap().1,
        ),
        !(key is Some && key_delta(key.unwrap()) is Some) ==> *final(ecs) == *old(ecs),
{
    match key {
        None => {},
        Some(k) => {
            match key_to_delta(k) {
                None => {},
                Some(d) => {
                    try_move_player(d.0, d.1, ecs);
                },
            }
        },
    }
}

} // verus!
