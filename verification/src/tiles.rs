//! Visual tile records: the arena that owns them and the cache that keys
//! them by board coordinate.

use vstd::prelude::*;

use std::collections::HashMap;

verus! {

/// Opaque, clonable reference to a loaded image asset, as handed over by the
/// asset provider before the spawner's first tick.
#[derive(Clone, Copy, Debug, PartialEq, Eq, Structural)]
pub struct ImageHandle {
    pub id: u64,
}

/// Handle to one spawned visual tile: an index into the [`TileArena`] that
/// owns the tile records.
#[derive(Clone, Copy, Debug, PartialEq, Eq, Structural)]
pub struct TileId {
    pub index: usize,
}

/// One spawned visual tile. Positions and sizes are in subpixels, with
/// `VISIBLE_TILES` subpixels to the pixel, so that the tile size
/// `min(width, height) / VISIBLE_TILES` pixels is held exactly as the
/// integer `min(width, height)`.
#[derive(Clone, Copy, Debug, PartialEq, Eq, Structural)]
pub struct TileSprite {
    pub world_x: i64,
    pub world_y: i64,
    pub size: u32,
    pub texture: ImageHandle,
}

/// Flat arena owning every spawned tile record. A [`TileId`] is an index
/// into `tiles`; records are only ever appended, never removed, so a handle
/// stays valid for the arena's lifetime.
pub struct TileArena {
    pub tiles: Vec<TileSprite>,
}

impl TileArena {
    /// A fresh arena owns no tiles.
    pub fn new() -> (arena: Self)
        ensures
            arena.tiles@.len() == 0,
    {
        TileArena { tiles: Vec::new() }
    }

    /// Append one tile record and hand back its handle.
    pub fn spawn(&mut self, sprite: TileSprite) -> (id: TileId)
        ensures
            final(self).tiles@ == old(self).tiles@.push(sprite),
            id.index == old(self).tiles@.len(),
    {
        let id = TileId { index: self.tiles.len() };
        self.tiles.push(sprite);
        id
    }

    /// How many tiles have been spawned so far.
    pub fn len(&self) -> (n: usize)
        ensures
            n == self.tiles@.len(),
    {
        self.tiles.len()
    }

    /// Read the record behind a handle.
    pub fn get(&self, id: TileId) -> (sprite: TileSprite)
        requires
            id.index < self.tiles@.len(),
        ensures
            sprite == self.tiles@[id.index as int],
    {
        self.tiles[id.index]
    }
}

/// The `u64` key under which coordinate `(x, y)` is cached: both components
/// shifted to be non-negative, the `x` part in the high 32 bits. Distinct
/// coordinates get distinct keys ([`lemma_pack_coord_injective`]).
pub open spec fn pack_coord(x: i32, y: i32) -> u64 {
    ((x - i32::MIN) * 0x1_0000_0000 + (y - i32::MIN)) as u64
}

/// Packing a coordinate pair into one key loses nothing: equal keys mean
/// equal coordinates.
pub proof fn lemma_pack_coord_injective(x1: i32, y1: i32, x2: i32, y2: i32)
    requires
        pack_coord(x1, y1) == pack_coord(x2, y2),
    ensures
        x1 == x2,
        y1 == y2,
{
    let a1 = (x1 - i32::MIN) * 0x1_0000_0000 + (y1 - i32::MIN);
    let a2 = (x2 - i32::MIN) * 0x1_0000_0000 + (y2 - i32::MIN);
    assert(0 <= a1 < 0x1_0000_0000_0000_0000);
    assert(0 <= a2 < 0x1_0000_0000_0000_0000);
    assert(a1 == a2);
}

/// Cache of spawned tiles, keyed by the packed board coordinate. Entries are
/// only ever added, never removed or overwritten: once a coordinate has a
/// tile, it keeps that tile.
pub struct TileGrid {
    pub tiles: HashMap<u64, TileId>,
}

impl View for TileGrid {
    type V = Map<u64, TileId>;

    open spec fn view(&self) -> Map<u64, TileId> {
        self.tiles@
    }
}

impl TileGrid {
    /// A fresh cache is empty.
    pub fn new() -> (grid: Self)
        ensures
            grid@ == Map::<u64, TileId>::empty(),
    {
        TileGrid { tiles: HashMap::new() }
    }

    /// True iff a tile has previously been spawned at `(x, y)`.
    pub fn contains(&self, x: i32, y: i32) -> (present: bool)
        ensures
            present == self@.contains_key(pack_coord(x, y)),
    {
        self.tiles.contains_key(&coord_key(x, y))
    }

    /// Record that `(x, y)` now has the tile `id`. The caller must have
    /// checked `contains` first: overwriting an entry would leak the tile
    /// behind the old handle, so a double insert is a defect, not a
    /// supported operation.
    pub fn insert(&mut self, x: i32, y: i32, id: TileId)
        requires
            !old(self)@.contains_key(pack_coord(x, y)),
        ensures
            final(self)@ == old(self)@.insert(pack_coord(x, y), id),
    {
        self.tiles.insert(coord_key(x, y), id);
    }

    /// Look up the tile spawned at `(x, y)`, if any.
    pub fn get(&self, x: i32, y: i32) -> (id: Option<TileId>)
        ensures
            match id {
                Some(i) => self@.contains_key(pack_coord(x, y)) && self@[pack_coord(x, y)] == i,
                None => !self@.contains_key(pack_coord(x, y)),
            },
    {
        match self.tiles.get(&coord_key(x, y)) {
            Some(id) => Some(*id),
            None => None,
        }
    }

    /// How many coordinates have a cached tile.
    pub fn len(&self) -> (n: usize)
        ensures
            n == self@.len(),
    {
        self.tiles.len()
    }
}

/// Computes the packed cache key of `(x, y)`.
fn coord_key(x: i32, y: i32) -> (k: u64)
    ensures
        k == pack_coord(x, y),
{
    let xs: u64 = ((x as i64) - (i32::MIN as i64)) as u64;
    let ys: u64 = ((y as i64) - (i32::MIN as i64)) as u64;
    assert(xs * 0x1_0000_0000 + ys < 0x1_0000_0000_0000_0000);
    xs * 0x1_0000_0000 + ys
}

} // verus!
