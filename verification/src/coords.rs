//! Grid-coordinate algebra of the tile pyramid: wrapping an x coordinate
//! into the world row, walking to an ancestor tile, and stepping to the
//! four children of a tile.

use vstd::prelude::*;
use vstd::arithmetic::div_mod::{
    lemma_div_denominator, lemma_div_nonincreasing, lemma_div_pos_is_pos,
    lemma_fundamental_div_mod, lemma_mod_multiples_vanish, lemma_mod_pos_bound,
    lemma_small_mod,
};
use vstd::arithmetic::mul::{lemma_mul_inequality, lemma_mul_nonnegative, lemma_mul_upper_bound};
use vstd::arithmetic::power2::{
    lemma2_to64, lemma_pow2_adds, lemma_pow2_pos, lemma_pow2_strictly_increases, pow2,
};
use vstd::bits::{lemma_u32_pow2_no_overflow, lemma_u32_shl_is_mul};

use crate::{tile_id, valid_tile_coords};

verus! {

broadcast use vstd::arithmetic::mul::lemma_mul_is_commutative;

/// Grid coordinate of the ancestor `levels` zoom levels above a tile whose
/// own grid coordinate is `c`: each level up halves the coordinate.
pub open spec fn ancestor_coord(c: u32, levels: nat) -> int {
    (c as int) / (pow2(levels) as int)
}

/// Key of the ancestor of tile `(z, x, y)` at the shallower zoom `az`.
pub open spec fn ancestor_id(z: u8, x: u32, y: u32, az: u8) -> int
    recommends
        az <= z,
{
    tile_id(
        az,
        ancestor_coord(x, (z - az) as nat) as u32,
        ancestor_coord(y, (z - az) as nat) as u32,
    )
}

/// An ancestor's grid coordinate lies inside the grid of its own zoom level.
pub proof fn lemma_ancestor_in_grid(z: u8, c: u32, az: u8)
    requires
        az <= z <= 31,
        (c as nat) < pow2(z as nat),
    ensures
        0 <= ancestor_coord(c, (z - az) as nat) < pow2(az as nat),
{
    let d = pow2((z - az) as nat) as int;
    let g = pow2(az as nat) as int;
    lemma_pow2_pos((z - az) as nat);
    lemma_pow2_pos(az as nat);
    lemma_pow2_adds((z - az) as nat, az as nat);
    lemma_div_pos_is_pos(c as int, d);
    let q = (c as int) / d;
    lemma_fundamental_div_mod(c as int, d);
    lemma_mod_pos_bound(c as int, d);
    if q >= g {
        lemma_mul_inequality(g, q, d);
        assert(false);
    }
}

/// Halving a coordinate takes the ancestor walk one level further up.
pub proof fn lemma_halve_ancestor(c: u32, levels: nat)
    ensures
        ancestor_coord(c, levels) / 2 == ancestor_coord(c, levels + 1),
{
    lemma_pow2_pos(levels);
    lemma_div_denominator(c as int, pow2(levels) as int, 2);
    lemma_pow2_adds(levels, 1);
    lemma2_to64();
}

/// The key of a tile's immediate parent is no larger than the tile's own key.
pub proof fn lemma_parent_id_le(z: u8, x: u32, y: u32)
    requires
        valid_tile_coords(z, x, y),
        z >= 1,
    ensures
        0 <= tile_id((z - 1) as u8, (x / 2) as u32, (y / 2) as u32) <= tile_id(z, x, y),
{
    let pz = (z - 1) as u8;
    let px = (x / 2) as u32;
    let py = (y / 2) as u32;
    lemma_pow2_strictly_increases(pz as nat, z as nat);
    lemma_div_nonincreasing(y as int, 2);
    lemma_div_nonincreasing(x as int, 2);
    lemma_div_pos_is_pos(y as int, 2);
    lemma_div_pos_is_pos(x as int, 2);
    lemma_mul_upper_bound(pow2(pz as nat) as int, pow2(z as nat) as int, py as int, y as int);
    lemma_mul_nonnegative(pow2(pz as nat) as int, py as int);
}

/// Wraps an arbitrary x grid coordinate into the `2^z`-wide row of zoom
/// level `z`, the way a world map repeats along the antimeridian.
pub fn wrap_tile_x(x: u32, z: u8) -> (r: u32)
    requires
        z <= 31,
    ensures
        r == (x as int) % (pow2(z as nat) as int),
        (r as nat) < pow2(z as nat),
{
    proof {
        lemma_u32_pow2_no_overflow(z as nat);
        lemma_u32_shl_is_mul(1u32, z as u32);
        lemma2_to64();
        if z < 31 {
            lemma_pow2_strictly_increases(z as nat, 31);
        }
    }
    let z2: u32 = 1u32 << (z as u32);
    let r: u32 = ((x % z2) + z2) % z2;
    proof {
        lemma_mod_multiples_vanish(1, (x % z2) as int, z2 as int);
        lemma_small_mod((x % z2) as nat, z2 as nat);
    }
    r
}

/// Steps from a tile to one of its four children: the zoom deepens by one
/// and each grid coordinate doubles, plus one toward the chosen quadrant.
pub fn child_coords(z: u8, x: u32, y: u32, right: bool, lower: bool) -> (c: (u8, u32, u32))
    requires
        z <= 30,
        valid_tile_coords(z, x, y),
    ensures
        c.0 == z + 1,
        c.1 == 2 * x + (if right { 1int } else { 0int }),
        c.2 == 2 * y + (if lower { 1int } else { 0int }),
        valid_tile_coords(c.0, c.1, c.2),
{
    proof {
        lemma2_to64();
        if z < 30 {
            lemma_pow2_strictly_increases(z as nat, 30);
        }
        lemma_pow2_adds(z as nat, 1);
    }
    let cx: u32 = 2 * x + (if right { 1 } else { 0 });
    let cy: u32 = 2 * y + (if lower { 1 } else { 0 });
    (z + 1, cx, cy)
}

} // verus!
