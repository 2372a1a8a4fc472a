//! The decision taken at each node of the recursive quadtree split: stop,
//! stop and keep the node's source features for later drill-down, or clip
//! into the four children and recurse.

use vstd::prelude::*;
use vstd::arithmetic::power2::{lemma_pow2_pos, pow2};
use vstd::bits::{lemma_u32_pow2_no_overflow, lemma_u32_shl_is_mul};

use crate::coords::ancestor_coord;

verus! {

/// What the splitting pass does next at one tile of the pyramid.
#[derive(Debug, Clone, Copy, PartialEq, Eq, Structural)]
pub enum SplitAction {
    /// Stop here; the node keeps no source geometry.
    Stop,
    /// Stop here and retain the node's source features, so a later
    /// drill-down can resume from this node.
    Retain,
    /// Clip the features into the four child tiles and recurse.
    Descend,
}

/// The split decision, with the conditions evaluated in the pyramid's
/// order of precedence. `target_z == 0` marks the eager first pass, which
/// stops at the index depth or once a tile is simple enough; a drill-down
/// pass (`target_z > 0`) stops at the base zoom, at the target itself, or
/// as soon as the node is not an ancestor of the target.
pub open spec fn split_action_spec(
    z: u8,
    x: u32,
    y: u32,
    target_z: u8,
    target_x: u32,
    target_y: u32,
    has_features: bool,
    num_points: u32,
    max_zoom: u8,
    index_max_zoom: u8,
    index_max_points: u32,
) -> SplitAction {
    if !has_features {
        SplitAction::Stop
    } else if target_z == 0 {
        if z == index_max_zoom || num_points <= index_max_points {
            SplitAction::Retain
        } else {
            SplitAction::Descend
        }
    } else if z == max_zoom {
        SplitAction::Stop
    } else if z == target_z {
        SplitAction::Retain
    } else if x != ancestor_coord(target_x, (target_z - z) as nat) || y != ancestor_coord(
        target_y,
        (target_z - z) as nat,
    ) {
        SplitAction::Retain
    } else {
        SplitAction::Descend
    }
}

/// Decides what the splitting pass does at tile `(z, x, y)` while working
/// toward the target tile `(target_z, target_x, target_y)`.
pub fn split_action(
    z: u8,
    x: u32,
    y: u32,
    target_z: u8,
    target_x: u32,
    target_y: u32,
    has_features: bool,
    num_points: u32,
    max_zoom: u8,
    index_max_zoom: u8,
    index_max_points: u32,
) -> (action: SplitAction)
    requires
        z <= 31,
        target_z <= 31,
        target_z != 0 ==> z <= target_z,
    ensures
        action == split_action_spec(
            z,
            x,
            y,
            target_z,
            target_x,
            target_y,
            has_features,
            num_points,
            max_zoom,
            index_max_zoom,
            index_max_points,
        ),
{
    if !has_features {
        SplitAction::Stop
    } else if target_z == 0 {
        if z == index_max_zoom || num_points <= index_max_points {
            SplitAction::Retain
        } else {
            SplitAction::Descend
        }
    } else if z == max_zoom {
        SplitAction::Stop
    } else if z == target_z {
        SplitAction::Retain
    } else {
        let levels: u8 = target_z - z;
        proof {
            lemma_pow2_pos(levels as nat);
            lemma_u32_pow2_no_overflow(levels as nat);
            lemma_u32_shl_is_mul(1u32, levels as u32);
        }
        let m: u32 = 1u32 << (levels as u32);
        if x != target_x / m || y != target_y / m {
            SplitAction::Retain
        } else {
            SplitAction::Descend
        }
    }
}

} // verus!
