//! The record of one cast ray.

use vstd::prelude::*;
use crate::geometry::{
    facing_down, facing_right, is_angle_facing_down, is_angle_facing_right, normalize_angle,
    normalized,
};

verus! {

/// The distance recorded for a ray that left the map without meeting a wall.
pub const NO_HIT_DISTANCE: i64 = 0x7fff_ffff_ffff_ffff;

/// One screen column's ray: where it points, and what it met.
#[derive(Debug, Clone, Copy, PartialEq, Eq, Structural)]
pub struct Ray {
    /// Direction of the ray, normalized.
    pub angle: i64,
    /// Where the ray met a wall, in sub-units.
    pub x_collision: i64,
    pub y_collision: i64,
    /// Straight-line distance from the player to the hit, in sub-units.
    pub distance: i64,
    /// Whether the wall was met on a vertical grid line.
    pub is_vertical_collision: bool,
    pub is_facing_up: bool,
    pub is_facing_down: bool,
    pub is_facing_left: bool,
    pub is_facing_right: bool,
    /// Identifier of the tile that was hit; zero while nothing was hit.
    pub content: i32,
}

impl Ray {
    /// The ray that points along the normalized `angle` and has met nothing yet.
    pub open spec fn fresh(angle: int) -> Ray {
        Ray {
            angle: angle as i64,
            x_collision: 0,
            y_collision: 0,
            distance: 0,
            is_vertical_collision: false,
            is_facing_up: !facing_down(angle),
            is_facing_down: facing_down(angle),
            is_facing_left: !facing_right(angle),
            is_facing_right: facing_right(angle),
            content: 0,
        }
    }

    /// The direction flags say what the angle says, and each pair excludes itself.
    pub open spec fn wf(&self) -> bool {
        &&& crate::geometry::is_normalized(self.angle as int)
        &&& self.is_facing_down == facing_down(self.angle as int)
        &&& self.is_facing_up == !self.is_facing_down
        &&& self.is_facing_right == facing_right(self.angle as int)
        &&& self.is_facing_left == !self.is_facing_right
    }

    /// Normalizes `angle` in place and starts a ray along it.
    pub fn new(angle: &mut i64) -> (ray: Ray)
        ensures
            *final(angle) == normalized(*old(angle) as int),
            ray == Ray::fresh(normalized(*old(angle) as int)),
            ray.wf(),
    {
        normalize_angle(angle);
        let is_facing_down = is_angle_facing_down(angle);
        let is_facing_up = !is_facing_down;
        let is_facing_right = is_angle_facing_right(angle);
        let is_facing_left = !is_facing_right;

        Ray {
            angle: *angle,
            x_collision: 0,
            y_collision: 0,
            distance: 0,
            is_vertical_collision: false,
            is_facing_up,
            is_facing_down,
            is_facing_left,
            is_facing_right,
            content: 0,
        }
    }
}

} // verus!
