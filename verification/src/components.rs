//! The entity store: plain data components keyed by an opaque entity index,
//! with a deferred-spawn queue flushed once per tick.

use vstd::prelude::*;

use crate::map::in_bounds;

verus! {

/// A grid position, always inside the 80x50 map.
#[derive(Clone, Copy, PartialEq, Eq, Structural, Debug)]
pub struct Position {
    pub x: i32,
    pub y: i32,
}

/// An RGB color with 8-bit channels.
#[derive(Clone, Copy, PartialEq, Eq, Structural, Debug)]
pub struct Color {
    pub r: u8,
    pub g: u8,
    pub b: u8,
}

/// How an entity is drawn: a glyph code with foreground and background color.
#[derive(Clone, Copy, PartialEq, Eq, Structural, Debug)]
pub struct Renderable {
    pub glyph: u16,
    pub fg: Color,
    pub bg: Color,
}

/// The components attached to one entity. `player` marks the entity that
/// responds to directional input.
#[derive(Clone, Copy, PartialEq, Eq, Structural, Debug)]
pub struct EntityData {
    pub position: Option<Position>,
    pub renderable: Option<Renderable>,
    pub player: bool,
}

/// The position of p lies inside the grid.
pub open spec fn pos_in_bounds(p: Position) -> bool {
    in_bounds(p.x as int, p.y as int)
}

/// Any position the entity carries lies inside the grid.
pub open spec fn entity_ok(e: EntityData) -> bool {
    e.position matches Some(p) ==> pos_in_bounds(p)
}

/// The entity store: live entities, addressed by index, and a queue of
/// entities spawned during a tick, applied at the tick boundary.
pub struct World {
    pub entities: Vec<EntityData>,
    pub pending: Vec<EntityData>,
}

/// Every stored or queued entity carries only in-bounds positions.
pub open spec fn world_wf(w: World) -> bool {
    &&& forall|i: int| 0 <= i < w.entities@.len() ==> entity_ok(#[trigger] w.entities@[i])
    &&& forall|i: int| 0 <= i < w.pending@.len() ==> entity_ok(#[trigger] w.pending@[i])
}

impl World {
    /// An empty store.
    pub fn new() -> (w: World)
        ensures
            w.entities@.len() == 0,
            w.pending@.len() == 0,
            world_wf(w),
    {
        World { entities: Vec::new(), pending: Vec::new() }
    }

    /// Number of live entities.
    pub fn num_entities(&self) -> (n: usize)
        ensures
            n == self.entities@.len(),
    {
        self.entities.len()
    }

    /// The components of the live entity with the given index.
    pub fn entity(&self, id: usize) -> (e: EntityData)
        requires
            id < self.entities@.len(),
        ensures
            e == self.entities@[id as int],
    {
        self.entities[id]
    }

    /// Add an entity immediately; returns its index.
    pub fn spawn(&mut self, e: EntityData) -> (id: usize)
        requires
            entity_ok(e),
        ensures
            final(self).entities@ == old(self).entities@.push(e),
            final(self).pending@ == old(self).pending@,
            id == old(self).entities@.len(),
            world_wf(*old(self)) ==> world_wf(*final(self)),
    {
        let id = self.entities.len();
        self.entities.push(e);
        id
    }

    /// Queue an entity to be added at the next tick boundary.
    pub fn spawn_deferred(&mut self, e: EntityData)
        requires
            entity_ok(e),
        ensures
            final(self).entities@ == old(self).entities@,
            final(self).pending@ == old(self).pending@.push(e),
            world_wf(*old(self)) ==> world_wf(*final(self)),
    {
        self.pending.push(e);
    }

    /// Apply deferred store maintenance: append every queued entity, in
    /// order, and empty the queue.
    pub fn maintain(&mut self)
        ensures
            final(self).entities@ == old(self).entities@ + old(self).pending@,
            final(self).pending@.len() == 0,
            world_wf(*old(self)) ==> world_wf(*final(self)),
    {
        let n = self.pending.len();
        let mut i: usize = 0;
        while i < n
            invariant
                i <= n,
                n == self.pending@.len(),
                self.pending@ == old(self).pending@,
                self.entities@ == old(self).entities@ + self.pending@.take(i as int),
            decreases n - i,
        {
            let e = self.pending[i];
            proof {
                assert(old(self).entities@ + self.pending@.take(i as int + 1) =~= (
                old(self).entities@ + self.pending@.take(i as int)).push(e));
            }
            self.entities.push(e);
            i += 1;
        }
        proof {
            assert(self.pending@.take(n as int) =~= self.pending@);
        }
        self.pending.clear();
    }
}

} // verus!
