//! The entity/component store.
//!
//! An entity is an opaque identifier; its data lives in per-component
//! columns keyed by that identifier. Every entity spawned so far has one
//! slot in each column, so a missing component is an explicit `None` (or
//! `false` for the presence-only movement-blocking tag).

use vstd::prelude::*;

use crate::coord::Coord;

verus! {

/// An opaque identifier for one game object.
#[derive(Clone, Copy, PartialEq, Eq, Structural, Debug, Hash)]
pub struct Entity(pub usize);

/// The world-space location of an entity.
#[derive(Clone, Copy, PartialEq, Eq, Structural, Debug)]
pub struct Position(pub Coord);

/// How an entity is drawn: one glyph and an RGB foreground color.
#[derive(Clone, Copy, Debug)]
pub struct Renderable {
    pub char: char,
    pub color: [u8; 3],
}

/// A human-readable label, shown when listing the occupants of a cell.
#[derive(Clone, Copy, Debug)]
pub struct Name(pub &'static str);

/// Presence-only marker: an occupant with this tag keeps actors out of its
/// cell.
#[derive(Clone, Copy, Debug)]
pub struct BlocksMoving;

/// Holds all game entities, with component data in per-type columns.
pub struct World {
    positions: Vec<Option<Position>>,
    renderables: Vec<Option<Renderable>>,
    names: Vec<Option<Name>>,
    blockers: Vec<bool>,
}

impl World {
    /// All component columns cover exactly the entities `0 .. n()`.
    pub closed spec fn wf(self) -> bool {
        &&& self.renderables@.len() == self.positions@.len()
        &&& self.names@.len() == self.positions@.len()
        &&& self.blockers@.len() == self.positions@.len()
    }

    /// Number of entities spawned so far; valid identifiers are `0 .. n()`.
    pub closed spec fn n(self) -> nat {
        self.positions@.len()
    }

    pub open spec fn valid(self, e: Entity) -> bool {
        e.0 < self.n()
    }

    pub closed spec fn position_of(self, e: Entity) -> Option<Position> {
        if e.0 < self.positions@.len() {
            self.positions@[e.0 as int]
        } else {
            None
        }
    }

    pub closed spec fn renderable_of(self, e: Entity) -> Option<Renderable> {
        if e.0 < self.renderables@.len() {
            self.renderables@[e.0 as int]
        } else {
            None
        }
    }

    pub closed spec fn name_of(self, e: Entity) -> Option<Name> {
        if e.0 < self.names@.len() {
            self.names@[e.0 as int]
        } else {
            None
        }
    }

    /// Whether `e` carries the movement-blocking tag.
    pub closed spec fn blocks(self, e: Entity) -> bool {
        e.0 < self.blockers@.len() && self.blockers@[e.0 as int]
    }

    /// Only a spawned entity can carry a position.
    pub proof fn lemma_position_some_valid(self, e: Entity)
        requires
            self.position_of(e) is Some,
        ensures
            self.valid(e),
    {
    }

    pub fn new() -> (w: World)
        ensures
            w.wf(),
            w.n() == 0,
    {
        World { positions: Vec::new(), renderables: Vec::new(), names: Vec::new(), blockers: Vec::new() }
    }

    /// Creates a fresh entity carrying exactly the given components.
    pub fn spawn(
        &mut self,
        pos: Option<Position>,
        rend: Option<Renderable>,
        name: Option<Name>,
        blocks: Option<BlocksMoving>,
    ) -> (e: Entity)
        requires
            old(self).wf(),
        ensures
            final(self).wf(),
            final(self).n() == old(self).n() + 1,
            e.0 == old(self).n(),
            final(self).position_of(e) == pos,
            final(self).renderable_of(e) == rend,
            final(self).name_of(e) == name,
            final(self).blocks(e) == (blocks is Some),
            forall|e2: Entity| e2.0 < old(self).n() ==> {
                &&& #[trigger] final(self).position_of(e2) == old(self).position_of(e2)
                &&& final(self).renderable_of(e2) == old(self).renderable_of(e2)
                &&& final(self).name_of(e2) == old(self).name_of(e2)
                &&& final(self).blocks(e2) == old(self).blocks(e2)
            },
    {
        let id = self.positions.len();
        self.positions.push(pos);
        self.renderables.push(rend);
        self.names.push(name);
        self.blockers.push(blocks.is_some());
        Entity(id)
    }

    pub fn num_entities(&self) -> (r: usize)
        ensures
            r == self.n(),
    {
        self.positions.len()
    }

    pub fn position(&self, e: Entity) -> (r: Option<Position>)
        ensures
            r == self.position_of(e),
    {
        if e.0 < self.positions.len() {
            self.positions[e.0]
        } else {
            None
        }
    }

    pub fn renderable(&self, e: Entity) -> (r: Option<Renderable>)
        ensures
            r == self.renderable_of(e),
    {
        if e.0 < self.renderables.len() {
            self.renderables[e.0]
        } else {
            None
        }
    }

    pub fn name(&self, e: Entity) -> (r: Option<Name>)
        ensures
            r == self.name_of(e),
    {
        if e.0 < self.names.len() {
            self.names[e.0]
        } else {
            None
        }
    }

    pub fn blocks_moving(&self, e: Entity) -> (r: bool)
        ensures
            r == self.blocks(e),
    {
        e.0 < self.blockers.len() && self.blockers[e.0]
    }

    /// Rewrites the position of `e`; a no-op for an unknown identifier.
    pub fn set_position(&mut self, e: Entity, p: Coord)
        requires
            old(self).wf(),
        ensures
            final(self).wf(),
            final(self).n() == old(self).n(),
            old(self).valid(e) ==> final(self).position_of(e) == Some(Position(p)),
            !old(self).valid(e) ==> *final(self) == *old(self),
            forall|e2: Entity| e2.0 != e.0 ==> #[trigger] final(self).position_of(e2) == old(self).position_of(e2),
            forall|e2: Entity| {
                &&& #[trigger] final(self).renderable_of(e2) == old(self).renderable_of(e2)
                &&& final(self).name_of(e2) == old(self).name_of(e2)
                &&& final(self).blocks(e2) == old(self).blocks(e2)
            },
    {
        if e.0 < self.positions.len() {
            self.positions.set(e.0, Some(Position(p)));
        }
    }
}

} // verus!
