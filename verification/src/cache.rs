//! The cache of materialized tiles: a map from packed tile key to tile
//! payload, with the per-zoom tile counts, the running total, and the
//! ancestor search that the lazy drill-down starts from.
//!
//! The payload type is generic: the cache itself never looks inside a
//! tile, it only keys, counts and finds them.

use std::collections::HashMap;

use vstd::prelude::*;
use vstd::arithmetic::power2::{lemma2_to64, pow2};

use crate::coords::{
    ancestor_coord, ancestor_id, lemma_ancestor_in_grid, lemma_halve_ancestor, lemma_parent_id_le,
};
use crate::{tile_id, to_id, valid_tile_coords};

verus! {

broadcast use vstd::std_specs::hash::group_hash_axioms;

/// All tiles materialized so far, keyed by [`crate::to_id`], together
/// with how many were materialized at each zoom and in total.
pub struct TileCache<T> {
    tiles: HashMap<u64, T>,
    stats: HashMap<u8, u32>,
    total: u32,
}

impl<T> View for TileCache<T> {
    type V = Map<u64, T>;

    closed spec fn view(&self) -> Map<u64, T> {
        self.tiles@
    }
}

impl<T> TileCache<T> {
    /// How many tiles have been materialized at each zoom level.
    pub closed spec fn zoom_counts(&self) -> Map<u8, u32> {
        self.stats@
    }

    /// How many tiles have been materialized in total.
    pub closed spec fn total_count(&self) -> u32 {
        self.total
    }

    /// The count recorded for zoom `z`; zero when none was recorded yet.
    pub open spec fn count_at(&self, z: u8) -> u32 {
        if self.zoom_counts().contains_key(z) {
            self.zoom_counts()[z]
        } else {
            0u32
        }
    }

    /// The total equals the number of cached tiles, and no per-zoom count
    /// exceeds it.
    pub open spec fn wf(&self) -> bool {
        &&& self.total_count() as int == self@.len()
        &&& forall|z: u8|
            self.zoom_counts().contains_key(z) ==> #[trigger] self.zoom_counts()[z]
                <= self.total_count()
    }

    /// An empty cache.
    pub fn new() -> (cache: Self)
        ensures
            cache.wf(),
            cache@ == Map::<u64, T>::empty(),
            cache.zoom_counts() == Map::<u8, u32>::empty(),
            cache.total_count() == 0,
    {
        TileCache { tiles: HashMap::new(), stats: HashMap::new(), total: 0 }
    }

    /// Whether a tile is cached under `id`.
    pub fn contains(&self, id: u64) -> (r: bool)
        ensures
            r == self@.contains_key(id),
    {
        self.tiles.contains_key(&id)
    }

    /// The tile cached under `id`, if any.
    pub fn get(&self, id: u64) -> (r: Option<&T>)
        ensures
            match r {
                Some(t) => self@.contains_key(id) && *t == self@[id],
                None => !self@.contains_key(id),
            },
    {
        self.tiles.get(&id)
    }

    /// The whole map of cached tiles, keyed by packed tile key.
    pub fn tiles(&self) -> (r: &HashMap<u64, T>)
        ensures
            r@ == self@,
    {
        &self.tiles
    }

    /// How many tiles have been materialized in total.
    pub fn total(&self) -> (r: u32)
        ensures
            r == self.total_count(),
    {
        self.total
    }

    /// How many tiles have been materialized at zoom `z`.
    pub fn stat(&self, z: u8) -> (r: u32)
        ensures
            r == self.count_at(z),
    {
        match self.stats.get(&z) {
            Some(n) => *n,
            None => 0,
        }
    }

    /// Materializes a tile: caches `t` under the fresh key `id` and counts
    /// it once, under its zoom `z` and in the total.
    pub fn insert_new(&mut self, id: u64, z: u8, t: T)
        requires
            old(self).wf(),
            !old(self)@.contains_key(id),
            old(self).total_count() < u32::MAX,
        ensures
            final(self).wf(),
            final(self)@ == old(self)@.insert(id, t),
            final(self).zoom_counts() == old(self).zoom_counts().insert(
                z,
                (old(self).count_at(z) + 1) as u32,
            ),
            final(self).total_count() == old(self).total_count() + 1,
    {
        let n: u32 = self.stat(z);
        self.tiles.insert(id, t);
        self.stats.insert(z, n + 1);
        self.total = self.total + 1;
    }

    /// Replaces the tile cached under `id`; the counts do not change,
    /// since the tile was already materialized.
    pub fn replace(&mut self, id: u64, t: T)
        requires
            old(self).wf(),
            old(self)@.contains_key(id),
        ensures
            final(self).wf(),
            final(self)@ == old(self)@.insert(id, t),
            final(self).zoom_counts() == old(self).zoom_counts(),
            final(self).total_count() == old(self).total_count(),
    {
        self.tiles.insert(id, t);
        proof {
            vstd::std_specs::hash::axiom_hashmap_view_finite_dom(old(self).tiles);
            vstd::map::axiom_map_insert_domain(old(self)@, id, t);
            vstd::set::axiom_set_insert_len(old(self)@.dom(), id);
            assert(self@.dom() == old(self)@.dom().insert(id));
            assert(self@.dom().len() == old(self)@.dom().len());
            assert(self.total_count() as int == self@.len());
            assert(self.zoom_counts() == old(self).zoom_counts());
        }
    }

    /// Walks up from tile `(z, x, y)` toward the root and returns the
    /// coordinates of the nearest proper ancestor that is cached, or
    /// `None` when no ancestor is cached at all.
    pub fn find_parent(&self, z: u8, x: u32, y: u32) -> (r: Option<(u8, u32, u32)>)
        requires
            valid_tile_coords(z, x, y),
            tile_id(z, x, y) <= u64::MAX,
        ensures
            match r {
                Some(p) => {
                    &&& p.0 < z
                    &&& valid_tile_coords(p.0, p.1, p.2)
                    &&& p.1 == ancestor_coord(x, (z - p.0) as nat)
                    &&& p.2 == ancestor_coord(y, (z - p.0) as nat)
                    &&& 0 <= tile_id(p.0, p.1, p.2) <= u64::MAX
                    &&& self@.contains_key(tile_id(p.0, p.1, p.2) as u64)
                    &&& forall|az: u8|
                        #![trigger ancestor_id(z, x, y, az)]
                        p.0 < az < z ==> !self@.contains_key(ancestor_id(z, x, y, az) as u64)
                },
                None => forall|az: u8|
                    #![trigger ancestor_id(z, x, y, az)]
                    az < z ==> !self@.contains_key(ancestor_id(z, x, y, az) as u64),
            },
    {
        let mut z0: u8 = z;
        let mut x0: u32 = x;
        let mut y0: u32 = y;
        proof {
            lemma2_to64();
        }
        while z0 != 0
            invariant
                valid_tile_coords(z, x, y),
                tile_id(z, x, y) <= u64::MAX,
                z0 <= z,
                valid_tile_coords(z0, x0, y0),
                x0 == ancestor_coord(x, (z - z0) as nat),
                y0 == ancestor_coord(y, (z - z0) as nat),
                0 <= tile_id(z0, x0, y0) <= tile_id(z, x, y),
                forall|az: u8|
                    #![trigger ancestor_id(z, x, y, az)]
                    z0 <= az < z ==> !self@.contains_key(ancestor_id(z, x, y, az) as u64),
            decreases z0,
        {
            proof {
                lemma_parent_id_le(z0, x0, y0);
                lemma_halve_ancestor(x, (z - z0) as nat);
                lemma_halve_ancestor(y, (z - z0) as nat);
                lemma_ancestor_in_grid(z, x, (z0 - 1) as u8);
                lemma_ancestor_in_grid(z, y, (z0 - 1) as u8);
            }
            z0 = z0 - 1;
            x0 = x0 / 2;
            y0 = y0 / 2;
            let id = to_id(z0, x0, y0);
            proof {
                assert(ancestor_id(z, x, y, z0) == tile_id(z0, x0, y0));
            }
            if self.contains(id) {
                return Some((z0, x0, y0));
            }
        }
        None
    }
}

} // verus!
