//! Units, limits and the default window.
//!
//! Positions and lengths are counted in sub-units, `SUBUNITS` to one world unit
//! (one world unit is one pixel of the map at full scale). Angles are counted in
//! millidegrees (see `geometry`).

use vstd::prelude::*;
use crate::geometry::HALF_TURN;
use crate::trig::{cos_magnitude, lemma_sine_cosine_signs, sin_magnitude, TrigTable, TRIG_ONE};

verus! {

/// Sub-units in one world unit.
pub const SUBUNITS: i64 = 1024;

/// The minimap's scale, in thousandths of full size.
pub const MINIMAP_SCALING: u32 = 200;

/// Side of a map tile, in world units.
pub const TILE_SIZE: u32 = 64;

/// Tile rows that fit the default window.
pub const NUM_ROWS: u32 = 600 / TILE_SIZE;

/// Tile columns that fit the default window.
pub const NUM_COLS: u32 = 800 / TILE_SIZE;

/// The default field of view: sixty degrees.
pub const FOV: i64 = 60_000;

/// Most rows, and most columns, that a grid may have.
pub const MAX_GRID_SIDE: usize = 1024;

/// Largest tile side, in world units.
pub const MAX_TILE_SIZE: u32 = 1024;

/// Largest screen side, in pixels.
pub const MAX_SCREEN_SIDE: u32 = 8192;

/// Whether `fov` can be used as a field of view: its half is an angle strictly
/// inside the first quadrant.
pub open spec fn valid_field_of_view(fov: int) -> bool {
    2 <= fov < HALF_TURN
}

/// Distance from the eye to the projection plane at which a field of view of
/// `fov` spans `width` pixels: half the width over the tangent of half the
/// field of view, in sub-units of a pixel, rounded down.
pub open spec fn projection_plane_distance(s: Seq<u32>, width: int, fov: int) -> int {
    (width * (SUBUNITS / 2) * cos_magnitude(s, fov / 2)) / sin_magnitude(s, fov / 2)
}

/// Width of the default window in pixels: the whole tiles that fit 800.
pub fn calculate_width() -> (w: u32)
    ensures
        w == NUM_COLS * TILE_SIZE,
        w == 768,
{
    NUM_COLS * TILE_SIZE
}

/// Height of the default window in pixels: the whole tiles that fit 600.
pub fn calculate_height() -> (h: u32)
    ensures
        h == NUM_ROWS * TILE_SIZE,
        h == 576,
{
    NUM_ROWS * TILE_SIZE
}

/// The projection-plane distance for a screen of `width` pixels and a field of
/// view of `fov`.
pub fn distance_proj_plane_for(width: u32, fov: i64, trig: &TrigTable) -> (d: u64)
    requires
        valid_field_of_view(fov as int),
    ensures
        d == projection_plane_distance(trig@, width as int, fov as int),
        0 <= d <= width * (SUBUNITS / 2) * TRIG_ONE,
{
    proof {
        use_type_invariant(trig);
    }
    let half: i64 = fov / 2;
    let c: i64 = trig.cos(half);
    let s: i64 = trig.sin(half);
    proof {
        lemma_sine_cosine_signs(trig@, half as int);
    }
    let base: i64 = (width as i64) * (SUBUNITS / 2);
    assert(0 <= base * c <= base * TRIG_ONE) by (nonlinear_arith)
        requires
            0 <= base,
            0 <= c <= TRIG_ONE,
    ;
    assert(base * TRIG_ONE <= 0xffff_ffff * 512 * 1_048_576) by (nonlinear_arith)
        requires
            0 <= base <= 0xffff_ffff * 512,
            TRIG_ONE == 1_048_576,
    ;
    let d: i64 = (base * c) / s;
    assert(0 <= (base * c) / (s as int) <= base * c) by (nonlinear_arith)
        requires
            0 <= base * c,
            1 <= s,
    ;
    d as u64
}

/// The projection-plane distance for a screen of `width` pixels and the
/// default field of view.
pub fn calculate_distance_proj_plane(width: u32, trig: &TrigTable) -> (d: u64)
    ensures
        d == projection_plane_distance(trig@, width as int, FOV as int),
        0 <= d <= width * (SUBUNITS / 2) * TRIG_ONE,
{
    distance_proj_plane_for(width, FOV, trig)
}

/// One ray is cast per screen column.
pub fn calculate_num_rays(width: u32) -> (n: u32)
    ensures
        n == width,
{
    width
}

} // verus!
