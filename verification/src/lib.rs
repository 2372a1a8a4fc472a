//! Integer core of a vector-tile pyramid: tile addressing, quadtree
//! coordinate algebra, the split/drill-down decision, and the cache of
//! materialized tiles.
//!
//! Tiles are addressed by `(zoom, x, y)` with `x, y < 2^zoom` and
//! `zoom <= 31`; every materialized tile is stored under the packed key
//! computed by [`to_id`].

pub mod cache;
pub mod coords;
pub mod split;

use vstd::prelude::*;
use vstd::arithmetic::power2::pow2;
use vstd::arithmetic::div_mod::lemma_fundamental_div_mod_converse;
use vstd::arithmetic::mul::lemma_mul_nonnegative;
use vstd::arithmetic::power2::lemma_pow2_pos;
use vstd::bits::{lemma_u64_pow2_no_overflow, lemma_u64_shl_is_mul};

verus! {

broadcast use vstd::arithmetic::mul::lemma_mul_is_commutative;

/// Marker for conversions that produce a feature collection.
pub struct ToFeatureCollection;

/// A tile coordinate is valid when its zoom is at most 31 and both grid
/// coordinates lie inside the `2^zoom x 2^zoom` grid of that level.
pub open spec fn valid_tile_coords(z: u8, x: u32, y: u32) -> bool {
    &&& z <= 31
    &&& (x as nat) < pow2(z as nat)
    &&& (y as nat) < pow2(z as nat)
}

/// The packed integer key of tile `(z, x, y)`: `((2^z * y + x) * 32) + z`.
pub open spec fn tile_id(z: u8, x: u32, y: u32) -> int {
    (pow2(z as nat) * (y as int) + (x as int)) * 32 + (z as int)
}

/// Packs a tile coordinate into a single integer key.
pub fn to_id(z: u8, x: u32, y: u32) -> (id: u64)
    requires
        valid_tile_coords(z, x, y),
        tile_id(z, x, y) <= u64::MAX,
    ensures
        id == tile_id(z, x, y),
{
    proof {
        lemma_u64_pow2_no_overflow(z as nat);
        lemma_u64_shl_is_mul(1u64, z as u64);
    }
    (((1u64 << (z as u64)) * (y as u64) + (x as u64)) * 32) + (z as u64)
}

/// The packing of [`tile_id`] is injective on valid tile coordinates: two
/// valid tiles with the same key are the same tile. The zoom is recovered
/// as `id % 32` and the grid coordinates from `id / 32`.
pub proof fn lemma_tile_id_injective(
    z1: u8,
    x1: u32,
    y1: u32,
    z2: u8,
    x2: u32,
    y2: u32,
)
    requires
        valid_tile_coords(z1, x1, y1),
        valid_tile_coords(z2, x2, y2),
        tile_id(z1, x1, y1) == tile_id(z2, x2, y2),
    ensures
        z1 == z2,
        x1 == x2,
        y1 == y2,
{
    let id = tile_id(z1, x1, y1);
    let q1 = pow2(z1 as nat) * (y1 as int) + (x1 as int);
    let q2 = pow2(z2 as nat) * (y2 as int) + (x2 as int);
    lemma_fundamental_div_mod_converse(id, 32, q1, z1 as int);
    lemma_fundamental_div_mod_converse(id, 32, q2, z2 as int);
    lemma_pow2_pos(z1 as nat);
    lemma_pow2_pos(z2 as nat);
    lemma_fundamental_div_mod_converse(q1, pow2(z1 as nat) as int, y1 as int, x1 as int);
    lemma_fundamental_div_mod_converse(q2, pow2(z2 as nat) as int, y2 as int, x2 as int);
}

/// [`to_id`] is injective: two valid tiles whose keys fit in 64 bits and
/// pack to the same `u64` key are the same tile.
pub proof fn lemma_to_id_injective(
    z1: u8,
    x1: u32,
    y1: u32,
    z2: u8,
    x2: u32,
    y2: u32,
)
    requires
        valid_tile_coords(z1, x1, y1),
        valid_tile_coords(z2, x2, y2),
        tile_id(z1, x1, y1) <= u64::MAX,
        tile_id(z2, x2, y2) <= u64::MAX,
        tile_id(z1, x1, y1) as u64 == tile_id(z2, x2, y2) as u64,
    ensures
        z1 == z2,
        x1 == x2,
        y1 == y2,
{
    lemma_mul_nonnegative(pow2(z1 as nat) as int, y1 as int);
    lemma_mul_nonnegative(pow2(z2 as nat) as int, y2 as int);
    lemma_tile_id_injective(z1, x1, y1, z2, x2, y2);
}

} // verus!
