//! The projector: from a ray's distance to a column of ceiling, wall and floor.

use vstd::prelude::*;
use crate::app::App;
use crate::geometry::{normalize_angle, FULL_TURN};
use crate::ray::{Ray, NO_HIT_DISTANCE};
use crate::trig::{cosine, scale, scaled};
use crate::window::SUBUNITS;

verus! {

/// Colour of the ceiling.
pub const CEILING_COLOR: u32 = 0xFF44_4444;

/// Colour of the floor.
pub const FLOOR_COLOR: u32 = 0xFF77_7777;

/// Shade of a wall that was met on a vertical grid line: the lighter one.
pub const VERTICAL_WALL_COLOR: u32 = 0xFFFF_FFFF;

/// Shade of a wall that was met on a horizontal grid line.
pub const HORIZONTAL_WALL_COLOR: u32 = 0xFFCC_CCCC;

/// The smallest distance that a wall is projected at.
pub const MIN_PERPENDICULAR_DISTANCE: i128 = 1;

/// A ray's distance along the player's line of sight: the ray's length times
/// the cosine of its angle to the facing direction, and never less than
/// `MIN_PERPENDICULAR_DISTANCE`.
pub open spec fn perpendicular_distance(s: Seq<u32>, ray: Ray, facing: int) -> int {
    let d = scaled(ray.distance as int, cosine(s, ray.angle - facing));
    if d < MIN_PERPENDICULAR_DISTANCE {
        MIN_PERPENDICULAR_DISTANCE as int
    } else {
        d
    }
}

/// Height in pixels at which a wall one tile high appears from a distance of
/// `perp` sub-units, for tiles of `tile_span` sub-units and a projection plane
/// `ppd` sub-units of a pixel away.
pub open spec fn projected_wall_height(tile_span: int, ppd: int, perp: int) -> int {
    (tile_span * ppd) / (perp * SUBUNITS)
}

/// Height of the wall slice of a ray: nothing for a ray that met no wall.
pub open spec fn slice_height(tile_span: int, ppd: int, s: Seq<u32>, ray: Ray, facing: int) -> int {
    if ray.distance == NO_HIT_DISTANCE {
        0
    } else {
        projected_wall_height(tile_span, ppd, perpendicular_distance(s, ray, facing))
    }
}

/// First row of a wall slice of height `h`, centred on a screen of `screen` rows.
pub open spec fn wall_top(screen: int, h: int) -> int {
    let t = screen / 2 - h / 2;
    if t < 0 {
        0
    } else {
        t
    }
}

/// The row after the last row of a wall slice of height `h`.
pub open spec fn wall_bottom(screen: int, h: int) -> int {
    let b = screen / 2 + h / 2;
    if b > screen {
        screen
    } else {
        b
    }
}

/// Colour of a row of a column whose wall slice spans `top..bottom`.
pub open spec fn band_color(row: int, top: int, bottom: int, vertical: bool) -> u32 {
    if row < top {
        CEILING_COLOR
    } else if row < bottom {
        if vertical {
            VERTICAL_WALL_COLOR
        } else {
            HORIZONTAL_WALL_COLOR
        }
    } else {
        FLOOR_COLOR
    }
}

/// A wall whose perpendicular distance is one tile appears as high as the
/// projection plane is far, in whole pixels.
pub proof fn wall_at_one_tile_is_plane_distance_high(tile_span: int, ppd: int)
    requires
        0 < tile_span,
        0 <= ppd,
    ensures
        projected_wall_height(tile_span, ppd, tile_span) == ppd / (SUBUNITS as int),
{
    let k = SUBUNITS as int;
    assert((tile_span * ppd) / (tile_span * k) == ppd / k) by {
        vstd::arithmetic::div_mod::lemma_div_denominator(tile_span * ppd, tile_span, k);
        vstd::arithmetic::div_mod::lemma_div_multiples_vanish(ppd, tile_span);
        assert(tile_span * ppd == ppd * tile_span) by (nonlinear_arith);
    }
}

impl App {
    /// Height of the wall slice in column `col`.
    pub open spec fn column_slice_height(&self, col: int) -> int {
        slice_height(
            self.game@.span(),
            self.distance_proj_plane as int,
            self.trig@,
            self.game.rays@[col],
            self.player.rotation_angle as int,
        )
    }

    /// What the projector paints at a pixel of a column that has a ray.
    pub open spec fn projected_pixel(&self, row: int, col: int) -> u32 {
        let screen = self.color_buffer@.height;
        let h = self.column_slice_height(col);
        band_color(
            row,
            wall_top(screen, h),
            wall_bottom(screen, h),
            self.game.rays@[col].is_vertical_collision,
        )
    }

    /// Everything but the pixels is as in `other`.
    pub open spec fn same_but_pixels(&self, other: &App) -> bool {
        &&& self.game == other.game
        &&& self.player == other.player
        &&& self.trig == other.trig
        &&& self.timekeeper == other.timekeeper
        &&& self.distance_proj_plane == other.distance_proj_plane
        &&& self.is_running == other.is_running
        &&& self.color_buffer@.width == other.color_buffer@.width
        &&& self.color_buffer@.height == other.color_buffer@.height
    }

    /// The fish-eye corrected distance of the ray in column `x`.
    pub fn calculate_perpendicular_distance(&self, x: u32) -> (perp: i128)
        requires
            x < self.game.rays@.len(),
        ensures
            perp == perpendicular_distance(
                self.trig@,
                self.game.rays@[x as int],
                self.player.rotation_angle as int,
            ),
            1 <= perp <= 0x8000_0000_0000_0000,
    {
        let ray: Ray = self.game.rays[x as usize];
        let mut ray_angle: i64 = ray.angle;
        normalize_angle(&mut ray_angle);
        let mut facing: i64 = self.player.rotation_angle;
        normalize_angle(&mut facing);
        proof {
            vstd::arithmetic::div_mod::lemma_sub_mod_noop(
                ray.angle as int,
                self.player.rotation_angle as int,
                FULL_TURN as int,
            );
        }
        let factor: i64 = self.trig.cos(ray_angle - facing);
        let d: i128 = scale(ray.distance as i128, factor);
        if d < MIN_PERPENDICULAR_DISTANCE {
            MIN_PERPENDICULAR_DISTANCE
        } else {
            d
        }
    }

    /// The height in pixels of a wall at the perpendicular distance `perp`.
    pub fn calculate_projected_wall_height(&self, perp: i128) -> (height: i128)
        requires
            1 <= perp <= 0x8000_0000_0000_0000,
        ensures
            height == projected_wall_height(
                self.game@.span(),
                self.distance_proj_plane as int,
                perp as int,
            ),
            0 <= height,
    {
        let t: i128 = self.game.game_map.tile_span() as i128;
        let ppd: i128 = self.distance_proj_plane as i128;
        assert(0 <= t * ppd <= 0x10_0000 * 0xffff_ffff_ffff_ffff) by (nonlinear_arith)
            requires
                0 <= t <= 0x10_0000,
                0 <= ppd <= 0xffff_ffff_ffff_ffff,
        ;
        assert(1 <= perp * SUBUNITS <= 0x8000_0000_0000_0000 * 1024) by (nonlinear_arith)
            requires
                1 <= perp <= 0x8000_0000_0000_0000,
                SUBUNITS == 1024,
        ;
        let num: i128 = t * ppd;
        let den: i128 = perp * (SUBUNITS as i128);
        assert(0 <= (num as int) / (den as int)) by (nonlinear_arith)
            requires
                0 <= num,
                1 <= den,
        ;
        num / den
    }

    /// The rows `top..bottom` of a wall slice of height `proj_wall_height`,
    /// centred on the screen and cut off at its edges.
    pub fn calculate_wall_pixels(&self, proj_wall_height: i128) -> (span: (u32, u32))
        requires
            0 <= proj_wall_height,
        ensures
            span.0 == wall_top(self.color_buffer@.height, proj_wall_height as int),
            span.1 == wall_bottom(self.color_buffer@.height, proj_wall_height as int),
            span.0 <= span.1 <= self.color_buffer@.height,
    {
        let screen: u32 = self.color_buffer.height();
        let half_window_height: u32 = screen / 2;
        let half_wall: i128 = proj_wall_height / 2;

        let top_wall_pixel: u32 = if half_wall >= half_window_height as i128 {
            0
        } else {
            half_window_height - (half_wall as u32)
        };
        let bottom_wall_pixel: u32 = if half_wall >= (screen - half_window_height) as i128 {
            screen
        } else {
            half_window_height + (half_wall as u32)
        };

        (top_wall_pixel, bottom_wall_pixel)
    }

    /// Paints the ceiling of column `x`: the rows above `top_wall_pixel`.
    pub fn render_ceiling(&mut self, x: u32, top_wall_pixel: u32)
        requires
            x < old(self).color_buffer@.width,
            top_wall_pixel <= old(self).color_buffer@.height,
        ensures
            final(self).same_but_pixels(old(self)),
            forall|r: int, c: int| #[trigger]
                final(self).color_buffer@.holds(r, c) ==> final(self).color_buffer@.pixel(r, c)
                    == if c == x && r < top_wall_pixel {
                    CEILING_COLOR
                } else {
                    old(self).color_buffer@.pixel(r, c)
                },
    {
        self.color_buffer.paint_span(x, 0, top_wall_pixel, CEILING_COLOR);
    }

    /// Paints the wall slice of column `x` in the shade of its ray's hit.
    pub fn render_wall(&mut self, x: u32, top_wall_pixel: u32, bottom_wall_pixel: u32)
        requires
            x < old(self).color_buffer@.width,
            x < old(self).game.rays@.len(),
            top_wall_pixel <= bottom_wall_pixel <= old(self).color_buffer@.height,
        ensures
            final(self).same_but_pixels(old(self)),
            forall|r: int, c: int| #[trigger]
                final(self).color_buffer@.holds(r, c) ==> final(self).color_buffer@.pixel(r, c)
                    == if c == x && top_wall_pixel <= r < bottom_wall_pixel {
                    if old(self).game.rays@[x as int].is_vertical_collision {
                        VERTICAL_WALL_COLOR
                    } else {
                        HORIZONTAL_WALL_COLOR
                    }
                } else {
                    old(self).color_buffer@.pixel(r, c)
                },
    {
        let color: u32 = if self.game.rays[x as usize].is_vertical_collision {
            VERTICAL_WALL_COLOR
        } else {
            HORIZONTAL_WALL_COLOR
        };
        self.color_buffer.paint_span(x, top_wall_pixel, bottom_wall_pixel, color);
    }

    /// Paints the floor of column `x`: the rows from `bottom_wall_pixel` down.
    pub fn render_floor(&mut self, x: u32, bottom_wall_pixel: u32)
        requires
            x < old(self).color_buffer@.width,
            bottom_wall_pixel <= old(self).color_buffer@.height,
        ensures
            final(self).same_but_pixels(old(self)),
            forall|r: int, c: int| #[trigger]
                final(self).color_buffer@.holds(r, c) ==> final(self).color_buffer@.pixel(r, c)
                    == if c == x && bottom_wall_pixel <= r {
                    FLOOR_COLOR
                } else {
                    old(self).color_buffer@.pixel(r, c)
                },
    {
        let screen: u32 = self.color_buffer.height();
        self.color_buffer.paint_span(x, bottom_wall_pixel, screen, FLOOR_COLOR);
    }

    /// Paints the frame: each column that has a ray gets its ceiling, its wall
    /// slice and its floor; a column without a ray is left as it was.
    pub fn generate3d_projection(&mut self)
        ensures
            final(self).same_but_pixels(old(self)),
            forall|r: int, c: int| #[trigger]
                final(self).color_buffer@.holds(r, c) ==> final(self).color_buffer@.pixel(r, c)
                    == if c < old(self).game.rays@.len() {
                    old(self).projected_pixel(r, c)
                } else {
                    old(self).color_buffer@.pixel(r, c)
                },
    {
        let width: u32 = self.color_buffer.width();
        let mut x: u32 = 0;
        while x < width
            invariant
                x <= width,
                width == self.color_buffer@.width,
                self.same_but_pixels(old(self)),
                forall|r: int, c: int| #[trigger]
                    self.color_buffer@.holds(r, c) ==> self.color_buffer@.pixel(r, c) == if c < x
                        && c < old(self).game.rays@.len() {
                        old(self).projected_pixel(r, c)
                    } else {
                        old(self).color_buffer@.pixel(r, c)
                    },
            decreases width - x,
        {
            if (x as usize) < self.game.rays.len() {
                let perp_dist: i128 = self.calculate_perpendicular_distance(x);
                let proj_wall_height: i128 = if self.game.rays[x as usize].distance
                    == NO_HIT_DISTANCE {
                    0
                } else {
                    self.calculate_projected_wall_height(perp_dist)
                };
                let (top_wall_pixel, bottom_wall_pixel) = self.calculate_wall_pixels(
                    proj_wall_height,
                );
                assert(proj_wall_height == old(self).column_slice_height(x as int));

                let ghost before = self.color_buffer@;
                self.render_ceiling(x, top_wall_pixel);
                let ghost with_ceiling = self.color_buffer@;
                self.render_wall(x, top_wall_pixel, bottom_wall_pixel);
                let ghost with_wall = self.color_buffer@;
                self.render_floor(x, bottom_wall_pixel);
                proof {
                    let done = self.color_buffer@;
                    assert forall|r: int, c: int| #[trigger] done.holds(r, c) implies done.pixel(
                        r,
                        c,
                    ) == if c < x + 1 && c < old(self).game.rays@.len() {
                        old(self).projected_pixel(r, c)
                    } else {
                        old(self).color_buffer@.pixel(r, c)
                    } by {
                        assert(with_wall.holds(r, c));
                        assert(with_ceiling.holds(r, c));
                        assert(before.holds(r, c));
                    }
                }
            }
            x = x + 1;
        }
    }
}

} // verus!
