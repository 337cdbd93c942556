//! The entity/component store: entities are indices into per-component
//! columns, one column per component type; the map sits beside them as a
//! world resource shared by every system.

use vstd::prelude::*;

use crate::component::{DrawCommand, Player, Position, Renderable};
use crate::map::{tile_cmds, TileMap};

verus! {

/// A dynamic set of entities with their attached components. Each entity
/// is an opaque index; its state is exactly the component slots holding
/// `Some` for it. The columns always have one slot per created entity.
pub struct World {
    pub positions: Vec<Option<Position>>,
    pub renderables: Vec<Option<Renderable>>,
    pub players: Vec<Option<Player>>,
    pub tile_map: Option<TileMap>,
}

/// The draw command for an entity standing at `p` with appearance `r`.
pub open spec fn entity_cmd(p: Position, r: Renderable) -> DrawCommand {
    DrawCommand { x: p.x, y: p.y, glyph: r.glyph, fg: r.fg, bg: r.bg }
}

/// Draw commands of the entities below index `n` that have both a
/// position and a renderable, in entity order.
pub open spec fn entity_cmds_upto(w: World, n: int) -> Seq<DrawCommand>
    decreases n,
{
    if n <= 0 {
        Seq::<DrawCommand>::empty()
    } else if w.positions@[n - 1] is Some && w.renderables@[n - 1] is Some {
        entity_cmds_upto(w, n - 1).push(
            entity_cmd(w.positions@[n - 1].unwrap(), w.renderables@[n - 1].unwrap()),
        )
    } else {
        entity_cmds_upto(w, n - 1)
    }
}

impl World {
    /// Every component column has one slot per created entity.
    pub open spec fn wf(self) -> bool {
        &&& self.renderables@.len() == self.positions@.len()
        &&& self.players@.len() == self.positions@.len()
    }

    pub open spec fn n_entities(self) -> int {
        self.positions@.len() as int
    }

    /// An empty world: no entities, no map resource.
    pub fn new() -> (w: World)
        ensures
            w.wf(),
            w.n_entities() == 0,
            w.tile_map is None,
    {
        World { positions: Vec::new(), renderables: Vec::new(), players: Vec::new(), tile_map: None }
    }

    /// Allocates a fresh entity identifier with no components attached.
    pub fn create_entity(&mut self) -> (e: usize)
        requires
            old(self).wf(),
        ensures
            final(self).wf(),
            e as int == old(self).n_entities(),
            final(self).positions@ == old(self).positions@.push(None::<Position>),
            final(self).renderables@ == old(self).renderables@.push(None::<Renderable>),
            final(self).players@ == old(self).players@.push(None::<Player>),
            final(self).tile_map == old(self).tile_map,
    {
        let e = self.positions.len();
        self.positions.push(None);
        self.renderables.push(None);
        self.players.push(None);
        e
    }

    /// Attaches (or overwrites) the position component of an entity.
    pub fn attach_position(&mut self, e: usize, c: Position)
        requires
            old(self).wf(),
            (e as int) < old(self).n_entities(),
        ensures
            final(self).wf(),
            final(self).positions@ == old(self).positions@.update(e as int, Some(c)),
            final(self).renderables == old(self).renderables,
            final(self).players == old(self).players,
            final(self).tile_map == old(self).tile_map,
    {
        self.positions.set(e, Some(c));
    }

    /// Attaches (or overwrites) the renderable component of an entity.
    pub fn attach_renderable(&mut self, e: usize, c: Renderable)
        requires
            old(self).wf(),
            (e as int) < old(self).n_entities(),
        ensures
            final(self).wf(),
            final(self).renderables@ == old(self).renderables@.update(e as int, Some(c)),
            final(self).positions == old(self).positions,
            final(self).players == old(self).players,
            final(self).tile_map == old(self).tile_map,
    {
        self.renderables.set(e, Some(c));
    }

    /// Attaches the player tag to an entity.
    pub fn attach_player(&mut self, e: usize, c: Player)
        requires
            old(self).wf(),
            (e as int) < old(self).n_entities(),
        ensures
            final(self).wf(),
            final(self).players@ == old(self).players@.update(e as int, Some(c)),
            final(self).positions == old(self).positions,
            final(self).renderables == old(self).renderables,
            final(self).tile_map == old(self).tile_map,
    {
        self.players.set(e, Some(c));
    }

    /// Removes an entity and all of its components in one step; the
    /// identifier keeps its slot, so other entities are unaffected.
    pub fn destroy_entity(&mut self, e: usize)
        requires
            old(self).wf(),
            (e as int) < old(self).n_entities(),
        ensures
            final(self).wf(),
            final(self).positions@ == old(self).positions@.update(e as int, None::<Position>),
            final(self).renderables@ == old(self).renderables@.update(e as int, None::<Renderable>),
            final(self).players@ == old(self).players@.update(e as int, None::<Player>),
            final(self).tile_map == old(self).tile_map,
    {
        self.positions.set(e, None);
        self.renderables.set(e, None);
        self.players.set(e, None);
    }

    /// Installs the map resource, replacing any previous one.
    pub fn insert_map(&mut self, m: TileMap)
        ensures
            final(self).tile_map == Some(m),
            final(self).positions == old(self).positions,
            final(self).renderables == old(self).renderables,
            final(self).players == old(self).players,
    {
        self.tile_map = Some(m);
    }

    /// Whether the map resource has been installed.
    pub fn has_map(&self) -> (b: bool)
        ensures
            b == (self.tile_map is Some),
    {
        self.tile_map.is_some()
    }

    /// Fetches the map resource; querying a never-installed resource is a
    /// programmer error and is excluded by precondition.
    pub fn fetch_map(&self) -> (m: &TileMap)
        requires
            self.tile_map is Some,
        ensures
            *m == self.tile_map.unwrap(),
    {
        match &self.tile_map {
            Some(m) => m,
            None => vstd::pervasive::unreached(),
        }
    }

    /// The position component of an entity, if attached.
    pub fn position_of(&self, e: usize) -> (c: Option<Position>)
        requires
            self.wf(),
            (e as int) < self.n_entities(),
        ensures
            c == self.positions@[e as int],
    {
        self.positions[e]
    }

    /// The renderable component of an entity, if attached.
    pub fn renderable_of(&self, e: usize) -> (c: Option<Renderable>)
        requires
            self.wf(),
            (e as int) < self.n_entities(),
        ensures
            c == self.renderables@[e as int],
    {
        self.renderables[e]
    }

    /// Whether an entity carries the player tag.
    pub fn is_player(&self, e: usize) -> (b: bool)
        requires
            self.wf(),
            (e as int) < self.n_entities(),
        ensures
            b == (self.players@[e as int] is Some),
    {
        self.players[e].is_some()
    }

    /// One render pass: first every tile of the map, then one command per
    /// entity that has both a position and a renderable, so entities
    /// always draw on top of the tiles beneath them.
    #[verifier::loop_isolation(false)]
    pub fn render_commands(&self) -> (cmds: Vec<DrawCommand>)
        requires
            self.wf(),
            self.tile_map is Some,
            self.tile_map.unwrap().wf(),
        ensures
            cmds@ == tile_cmds(self.tile_map.unwrap()) + entity_cmds_upto(*self, self.n_entities()),
    {
        let mp = self.fetch_map();
        let mut cmds = mp.draw();
        proof {
            assert(cmds@ =~= tile_cmds(self.tile_map.unwrap()) + entity_cmds_upto(*self, 0));
        }
        let mut e: usize = 0;
        while e < self.positions.len()
            invariant
                e <= self.positions@.len(),
                cmds@ == tile_cmds(self.tile_map.unwrap()) + entity_cmds_upto(*self, e as int),
            decreases self.positions@.len() - e,
        {
            match (&self.positions[e], &self.renderables[e]) {
                (Some(p), Some(r)) => {
                    cmds.push(
                        DrawCommand { x: p.x, y: p.y, glyph: r.glyph, fg: r.fg, bg: r.bg },
                    );
                    proof {
                        assert(cmds@ =~= tile_cmds(self.tile_map.unwrap()) + entity_cmds_upto(
                            *self,
                            e as int + 1,
                        ));
                    }
                },
                _ => {
                    proof {
                        assert(entity_cmds_upto(*self, e as int + 1) == entity_cmds_upto(
                            *self,
                            e as int,
                        ));
                    }
                },
            }
            e = e + 1;
        }
        cmds
    }
}

} // verus!
