//! Ray casting: two walks along the grid lines, and the choice between them.
//!
//! A ray is followed twice. One walk visits, in order, the points where the
//! ray crosses the horizontal grid lines; the other the points where it crosses
//! the vertical ones. At each crossing the tile just beyond the line is looked
//! up. A walk ends at the first crossing whose tile is a wall, or fails at the
//! first crossing that looks off the map. The nearer of the two ends is the
//! ray's hit.

use vstd::prelude::*;
use crate::app::App;
use crate::game::{fresh_rays, lemma_cell_index, lemma_extent_bounds, GridView, TileGrid};
use crate::geometry::{
    distance_between_points, facing_down, facing_right, floor_sqrt, normalize_angle, normalized,
    squared_distance, squared_distance_between_points,
};
use crate::ray::{Ray, NO_HIT_DISTANCE};
use crate::trig::{arc_tangent, cos_magnitude, sin_magnitude, TRIG_ONE};
use crate::window::SUBUNITS;

verus! {

/// Largest magnitude of a walk's start, step or offset.
pub const WALK_LIMIT: i64 = 0x400_0000_0000;

/// A walk over evenly spaced crossings, as mathematics sees it: the first
/// crossing, the step from one crossing to the next, and the offset from a
/// crossing to the point whose tile is looked up.
pub struct Path {
    pub x: int,
    pub y: int,
    pub step_x: int,
    pub step_y: int,
    pub offset_x: int,
    pub offset_y: int,
}

/// Where a walk ended on a wall, and the wall's identifier.
pub struct Crossing {
    pub x: int,
    pub y: int,
    pub content: i32,
}

impl Path {
    /// The `k`-th crossing.
    pub open spec fn point_x(self, k: int) -> int {
        self.x + k * self.step_x
    }

    pub open spec fn point_y(self, k: int) -> int {
        self.y + k * self.step_y
    }

    /// The point looked up at the `k`-th crossing.
    pub open spec fn sample_x(self, k: int) -> int {
        self.point_x(k) + self.offset_x
    }

    pub open spec fn sample_y(self, k: int) -> int {
        self.point_y(k) + self.offset_y
    }

    /// The point looked up at the `k`-th crossing lies on the map.
    pub open spec fn sample_on_map(self, g: GridView, k: int) -> bool {
        g.in_bounds(self.sample_x(k), self.sample_y(k))
    }

    /// The walk cannot pass the `k`-th crossing: it looks at a wall, or off the map.
    pub open spec fn blocked(self, g: GridView, k: int) -> bool {
        g.solid_at(self.sample_x(k), self.sample_y(k))
    }

    /// The `k`-th crossing is the first that the walk cannot pass.
    pub open spec fn ends_at(self, g: GridView, k: int) -> bool {
        &&& 0 <= k
        &&& self.blocked(g, k)
        &&& forall|j: int| 0 <= j < k ==> !#[trigger] self.blocked(g, j)
    }

    /// The walk ends somewhere.
    pub open spec fn ends(self, g: GridView) -> bool {
        exists|k: int| self.ends_at(g, k)
    }

    /// The number of the crossing at which the walk ends.
    pub open spec fn last(self, g: GridView) -> int {
        choose|k: int| self.ends_at(g, k)
    }

    /// What the walk finds: the wall at its last crossing, or nothing if that
    /// crossing looks off the map (or if the walk goes on for ever).
    pub open spec fn outcome(self, g: GridView) -> Option<Crossing> {
        let k = self.last(g);
        if self.ends(g) && g.in_bounds(self.sample_x(k), self.sample_y(k)) {
            Some(
                Crossing {
                    x: self.point_x(k),
                    y: self.point_y(k),
                    content: g.tile_at(self.sample_x(k), self.sample_y(k)),
                },
            )
        } else {
            None
        }
    }

    /// The walk goes somewhere.
    pub open spec fn moves(self) -> bool {
        self.step_x != 0 || self.step_y != 0
    }

    /// Every number of the walk is within `WALK_LIMIT`.
    pub open spec fn bounded(self) -> bool {
        &&& -WALK_LIMIT <= self.x <= WALK_LIMIT
        &&& -WALK_LIMIT <= self.y <= WALK_LIMIT
        &&& -WALK_LIMIT <= self.step_x <= WALK_LIMIT
        &&& -WALK_LIMIT <= self.step_y <= WALK_LIMIT
        &&& -WALK_LIMIT <= self.offset_x <= WALK_LIMIT
        &&& -WALK_LIMIT <= self.offset_y <= WALK_LIMIT
    }
}

/// A walk never ends at two crossings.
pub proof fn lemma_walk_end_unique(p: Path, g: GridView, k1: int, k2: int)
    requires
        p.ends_at(g, k1),
        p.ends_at(g, k2),
    ensures
        k1 == k2,
{
    if k1 < k2 {
        assert(!p.blocked(g, k1));
    } else if k2 < k1 {
        assert(!p.blocked(g, k2));
    }
}

/// Whoever holds the crossing at which a walk ends holds `last`.
pub proof fn lemma_walk_last_is(p: Path, g: GridView, k: int)
    requires
        p.ends_at(g, k),
    ensures
        p.ends(g),
        p.last(g) == k,
{
    lemma_walk_end_unique(p, g, k, p.last(g));
}

/// A walk in machine integers.
#[derive(Clone, Copy, Debug, PartialEq, Eq, Structural)]
pub struct Walk {
    pub x: i64,
    pub y: i64,
    pub step_x: i64,
    pub step_y: i64,
    pub offset_x: i64,
    pub offset_y: i64,
}

impl View for Walk {
    type V = Path;

    open spec fn view(&self) -> Path {
        Path {
            x: self.x as int,
            y: self.y as int,
            step_x: self.step_x as int,
            step_y: self.step_y as int,
            offset_x: self.offset_x as int,
            offset_y: self.offset_y as int,
        }
    }
}

/// The end of a walk on a wall, in machine integers.
#[derive(Clone, Copy, Debug, PartialEq, Eq, Structural)]
pub struct Hit {
    pub x: i64,
    pub y: i64,
    pub content: i32,
}

impl View for Hit {
    type V = Crossing;

    open spec fn view(&self) -> Crossing {
        Crossing { x: self.x as int, y: self.y as int, content: self.content }
    }
}

/// What `march` returns for a walk with the given outcome.
pub open spec fn hit_matches(r: Option<Hit>, want: Option<Crossing>) -> bool {
    match r {
        Some(hit) => want == Some(hit@),
        None => want is None,
    }
}

/// An upper bound on the crossings that a walk at `(x, y)` can still pass on a
/// map of `w` by `h` sub-units.
pub open spec fn steps_left(p: Path, w: int, h: int, x: int, y: int) -> int {
    let room = if p.step_y > 0 {
        h - (y + p.offset_y)
    } else if p.step_y < 0 {
        y + p.offset_y + 1
    } else if p.step_x > 0 {
        w - (x + p.offset_x)
    } else {
        x + p.offset_x + 1
    };
    if room < 0 {
        0
    } else {
        room
    }
}

/// Follows a walk to its end.
pub fn march(grid: &TileGrid, walk: &Walk) -> (r: Option<Hit>)
    requires
        walk@.bounded(),
        walk@.moves(),
    ensures
        hit_matches(r, walk@.outcome(grid@)),
        walk@.ends(grid@),
        r matches Some(hit) ==> grid@.in_bounds(hit.x + walk.offset_x, hit.y + walk.offset_y),
{
    let w: i64 = grid.map_width();
    let h: i64 = grid.map_height();
    let ghost g = grid@;
    let ghost p = walk@;
    let mut x: i64 = walk.x;
    let mut y: i64 = walk.y;
    let ghost mut k: int = 0;
    loop
        invariant
            g == grid@,
            p == walk@,
            p.bounded(),
            p.moves(),
            w == g.width(),
            h == g.height(),
            0 < w <= 0x4000_0000,
            0 < h <= 0x4000_0000,
            0 <= k,
            x == p.point_x(k),
            y == p.point_y(k),
            -4 * WALK_LIMIT <= x <= 4 * WALK_LIMIT,
            -4 * WALK_LIMIT <= y <= 4 * WALK_LIMIT,
            forall|j: int| 0 <= j < k ==> !#[trigger] p.blocked(g, j),
        decreases steps_left(p, w as int, h as int, x as int, y as int),
    {
        let sx: i64 = x + walk.offset_x;
        let sy: i64 = y + walk.offset_y;
        if sx < 0 || sx >= w || sy < 0 || sy >= h {
            proof {
                assert(p.blocked(g, k));
                lemma_walk_last_is(p, g, k);
            }
            return None;
        }
        let id: i32 = grid.tile_at(sx, sy);
        if id != 0 {
            proof {
                assert(p.blocked(g, k));
                lemma_walk_last_is(p, g, k);
            }
            return Some(Hit { x, y, content: id });
        }
        proof {
            assert(!p.blocked(g, k));
            assert((k + 1) * p.step_x == k * p.step_x + p.step_x) by (nonlinear_arith);
            assert((k + 1) * p.step_y == k * p.step_y + p.step_y) by (nonlinear_arith);
        }
        x = x + walk.step_x;
        y = y + walk.step_y;
        proof {
            k = k + 1;
        }
    }
}

/// The walk of a ray over the horizontal grid lines: from the first line
/// above or below the player, one tile per step along y, looking one world
/// unit beyond the line when the ray faces up. Meaningful only where the ray's
/// sine is not zero.
pub open spec fn horizontal_path(g: GridView, s: Seq<u32>, px: int, py: int, angle: int) -> Path {
    let t = g.span();
    let sm = sin_magnitude(s, angle);
    let cm = cos_magnitude(s, angle);
    let down = facing_down(angle);
    let right = facing_right(angle);
    let y0 = (py / t) * t + if down { t } else { 0 };
    let reach = if down { y0 - py } else { py - y0 };
    let run0 = (reach * cm) / sm;
    let run = (t * cm) / sm;
    Path {
        x: if right { px + run0 } else { px - run0 },
        y: y0,
        step_x: if right { run } else { -run },
        step_y: if down { t } else { -t },
        offset_x: 0,
        offset_y: if down { 0 } else { -(SUBUNITS as int) },
    }
}

/// The walk of a ray over the vertical grid lines: from the first line left or
/// right of the player, one tile per step along x, looking one world unit
/// beyond the line when the ray faces left. Meaningful only where the ray's
/// cosine is not zero.
pub open spec fn vertical_path(g: GridView, s: Seq<u32>, px: int, py: int, angle: int) -> Path {
    let t = g.span();
    let sm = sin_magnitude(s, angle);
    let cm = cos_magnitude(s, angle);
    let down = facing_down(angle);
    let right = facing_right(angle);
    let x0 = (px / t) * t + if right { t } else { 0 };
    let reach = if right { x0 - px } else { px - x0 };
    let rise0 = (reach * sm) / cm;
    let rise = (t * sm) / cm;
    Path {
        x: x0,
        y: if down { py + rise0 } else { py - rise0 },
        step_x: if right { t } else { -t },
        step_y: if down { rise } else { -rise },
        offset_x: if right { 0 } else { -(SUBUNITS as int) },
        offset_y: 0,
    }
}

/// Where a ray first meets a wall on a horizontal grid line, if it does. A
/// ray that runs along the lines meets none.
pub open spec fn horizontal_hit(g: GridView, s: Seq<u32>, px: int, py: int, angle: int) -> Option<
    Crossing,
> {
    if sin_magnitude(s, angle) == 0 {
        None
    } else {
        horizontal_path(g, s, px, py, angle).outcome(g)
    }
}

/// Where a ray first meets a wall on a vertical grid line, if it does.
pub open spec fn vertical_hit(g: GridView, s: Seq<u32>, px: int, py: int, angle: int) -> Option<
    Crossing,
> {
    if cos_magnitude(s, angle) == 0 {
        None
    } else {
        vertical_path(g, s, px, py, angle).outcome(g)
    }
}

/// The ray `base` after it met the wall at `c`, seen from `(px, py)`.
pub open spec fn struck(base: Ray, c: Crossing, px: int, py: int, vertical: bool) -> Ray {
    Ray {
        x_collision: c.x as i64,
        y_collision: c.y as i64,
        distance: floor_sqrt(squared_distance(px, py, c.x, c.y)) as i64,
        content: c.content,
        is_vertical_collision: vertical,
        ..base
    }
}

/// The ray `base` after it left the map without meeting a wall.
pub open spec fn missed(base: Ray) -> Ray {
    Ray { distance: NO_HIT_DISTANCE, ..base }
}

/// The nearer of two hits decides, and of two equally near hits the one on
/// the vertical line.
pub open spec fn nearer(
    base: Ray,
    v: Option<Crossing>,
    h: Option<Crossing>,
    px: int,
    py: int,
) -> Ray {
    match (v, h) {
        (Some(vc), Some(hc)) => if squared_distance(px, py, vc.x, vc.y) <= squared_distance(
            px,
            py,
            hc.x,
            hc.y,
        ) {
            struck(base, vc, px, py, true)
        } else {
            struck(base, hc, px, py, false)
        },
        (Some(vc), None) => struck(base, vc, px, py, true),
        (None, Some(hc)) => struck(base, hc, px, py, false),
        (None, None) => missed(base),
    }
}

/// The ray cast from `(px, py)` along the normalized `angle`.
pub open spec fn cast(g: GridView, s: Seq<u32>, px: int, py: int, angle: int) -> Ray {
    nearer(
        Ray::fresh(angle),
        vertical_hit(g, s, px, py, angle),
        horizontal_hit(g, s, px, py, angle),
        px,
        py,
    )
}

/// Direction of the ray through screen column `col` of `n`: the facing angle
/// plus the angle under which the column's left edge is seen from the eye,
/// `ppd` sub-units in front of the screen's middle.
pub open spec fn column_angle(s: Seq<u32>, facing: int, col: int, n: int, ppd: int) -> int {
    normalized(facing + arc_tangent(s, (2 * col - n) * (SUBUNITS / 2), ppd))
}

/// What the walk over the vertical grid lines found.
#[derive(Clone, Copy, Debug, Default, PartialEq, Eq, Structural)]
pub struct VerticalIntersectionResult {
    pub vert_x_wall_collision: i64,
    pub vert_y_wall_collision: i64,
    pub vert_wall_content: i32,
    pub found_vert_collision: bool,
}

/// What the walk over the horizontal grid lines found.
#[derive(Clone, Copy, Debug, Default, PartialEq, Eq, Structural)]
pub struct HorizontalIntersectionResult {
    pub horz_x_wall_collision: i64,
    pub horz_y_wall_collision: i64,
    pub horz_wall_content: i32,
    pub found_horz_collision: bool,
}

impl HorizontalIntersectionResult {
    /// The record says what the walk's outcome says, and holds zeros where the
    /// walk found nothing.
    pub open spec fn records(self, want: Option<Crossing>) -> bool {
        match want {
            Some(c) => {
                &&& self.found_horz_collision
                &&& self.horz_x_wall_collision == c.x
                &&& self.horz_y_wall_collision == c.y
                &&& self.horz_wall_content == c.content
            },
            None => {
                &&& !self.found_horz_collision
                &&& self.horz_x_wall_collision == 0
                &&& self.horz_y_wall_collision == 0
                &&& self.horz_wall_content == 0
            },
        }
    }
}

impl VerticalIntersectionResult {
    /// The record says what the walk's outcome says, and holds zeros where the
    /// walk found nothing.
    pub open spec fn records(self, want: Option<Crossing>) -> bool {
        match want {
            Some(c) => {
                &&& self.found_vert_collision
                &&& self.vert_x_wall_collision == c.x
                &&& self.vert_y_wall_collision == c.y
                &&& self.vert_wall_content == c.content
            },
            None => {
                &&& !self.found_vert_collision
                &&& self.vert_x_wall_collision == 0
                &&& self.vert_y_wall_collision == 0
                &&& self.vert_wall_content == 0
            },
        }
    }
}

/// `len * num / den` for a length of at most one tile and two table entries.
fn slope_run(len: i64, num: i64, den: i64) -> (r: i64)
    requires
        0 <= len <= 0x10_0000,
        0 <= num <= TRIG_ONE,
        1 <= den,
    ensures
        r == (len * num) / (den as int),
        0 <= r <= 0x100_0000_0000,
{
    assert(0 <= len * num <= 0x10_0000 * 0x10_0000) by (nonlinear_arith)
        requires
            0 <= len <= 0x10_0000,
            0 <= num <= 0x10_0000,
    ;
    let product: i64 = len * num;
    assert(0 <= (product as int) / (den as int) <= product) by (nonlinear_arith)
        requires
            0 <= product,
            1 <= den,
    ;
    product / den
}

impl App {
    /// Everything but the rays is as in `other`.
    pub open spec fn same_but_rays(&self, other: &App) -> bool {
        &&& self.game.game_map == other.game.game_map
        &&& self.player == other.player
        &&& self.trig == other.trig
        &&& self.color_buffer == other.color_buffer
        &&& self.timekeeper == other.timekeeper
        &&& self.distance_proj_plane == other.distance_proj_plane
        &&& self.is_running == other.is_running
    }

    /// Where the ray first meets a wall on a horizontal grid line, seen from
    /// where the player stands.
    pub fn calculate_horizontal_intersection(&self, ray: &Ray) -> (result:
        HorizontalIntersectionResult)
        requires
            self.player_on_map(),
            ray.wf(),
        ensures
            result.records(
                horizontal_hit(
                    self.game@,
                    self.trig@,
                    self.player.x as int,
                    self.player.y as int,
                    ray.angle as int,
                ),
            ),
    {
        proof {
            use_type_invariant(&self.game.game_map);
        }
        let sm: i64 = self.trig.sin_abs(ray.angle);
        let cm: i64 = self.trig.cos_abs(ray.angle);
        if sm == 0 {
            return HorizontalIntersectionResult {
                horz_x_wall_collision: 0,
                horz_y_wall_collision: 0,
                horz_wall_content: 0,
                found_horz_collision: false,
            };
        }
        let t: i64 = self.game.game_map.tile_span();
        let px: i64 = self.player.x;
        let py: i64 = self.player.y;
        proof {
            lemma_extent_bounds(self.game@);
            lemma_cell_index(py as int, t as int, self.game@.rows());
        }
        let mut y_intersection: i64 = (py / t) * t;
        if ray.is_facing_down {
            y_intersection += t;
        }
        let reach: i64 = if ray.is_facing_down {
            y_intersection - py
        } else {
            py - y_intersection
        };
        let run0: i64 = slope_run(reach, cm, sm);
        let x_intersection: i64 = if ray.is_facing_right {
            px + run0
        } else {
            px - run0
        };
        let run: i64 = slope_run(t, cm, sm);
        let walk = Walk {
            x: x_intersection,
            y: y_intersection,
            step_x: if ray.is_facing_right { run } else { -run },
            step_y: if ray.is_facing_down { t } else { -t },
            offset_x: 0,
            offset_y: if ray.is_facing_down { 0 } else { -SUBUNITS },
        };
        assert(walk@ == horizontal_path(
            self.game@,
            self.trig@,
            px as int,
            py as int,
            ray.angle as int,
        ));
        match march(&self.game.game_map, &walk) {
            Some(hit) => HorizontalIntersectionResult {
                horz_x_wall_collision: hit.x,
                horz_y_wall_collision: hit.y,
                horz_wall_content: hit.content,
                found_horz_collision: true,
            },
            None => HorizontalIntersectionResult {
                horz_x_wall_collision: 0,
                horz_y_wall_collision: 0,
                horz_wall_content: 0,
                found_horz_collision: false,
            },
        }
    }

    /// Where the ray first meets a wall on a vertical grid line, seen from
    /// where the player stands.
    pub fn calculate_vertical_intersection(&self, ray: &Ray) -> (result: VerticalIntersectionResult)
        requires
            self.player_on_map(),
            ray.wf(),
        ensures
            result.records(
                vertical_hit(
                    self.game@,
                    self.trig@,
                    self.player.x as int,
                    self.player.y as int,
                    ray.angle as int,
                ),
            ),
    {
        proof {
            use_type_invariant(&self.game.game_map);
        }
        let sm: i64 = self.trig.sin_abs(ray.angle);
        let cm: i64 = self.trig.cos_abs(ray.angle);
        if cm == 0 {
            return VerticalIntersectionResult {
                vert_x_wall_collision: 0,
                vert_y_wall_collision: 0,
                vert_wall_content: 0,
                found_vert_collision: false,
            };
        }
        let t: i64 = self.game.game_map.tile_span();
        let px: i64 = self.player.x;
        let py: i64 = self.player.y;
        proof {
            lemma_extent_bounds(self.game@);
            lemma_cell_index(px as int, t as int, self.game@.cols());
        }
        let mut x_intersection: i64 = (px / t) * t;
        if ray.is_facing_right {
            x_intersection += t;
        }
        let reach: i64 = if ray.is_facing_right {
            x_intersection - px
        } else {
            px - x_intersection
        };
        let rise0: i64 = slope_run(reach, sm, cm);
        let y_intersection: i64 = if ray.is_facing_down {
            py + rise0
        } else {
            py - rise0
        };
        let rise: i64 = slope_run(t, sm, cm);
        let walk = Walk {
            x: x_intersection,
            y: y_intersection,
            step_x: if ray.is_facing_right { t } else { -t },
            step_y: if ray.is_facing_down { rise } else { -rise },
            offset_x: if ray.is_facing_right { 0 } else { -SUBUNITS },
            offset_y: 0,
        };
        assert(walk@ == vertical_path(
            self.game@,
            self.trig@,
            px as int,
            py as int,
            ray.angle as int,
        ));
        match march(&self.game.game_map, &walk) {
            Some(hit) => VerticalIntersectionResult {
                vert_x_wall_collision: hit.x,
                vert_y_wall_collision: hit.y,
                vert_wall_content: hit.content,
                found_vert_collision: true,
            },
            None => VerticalIntersectionResult {
                vert_x_wall_collision: 0,
                vert_y_wall_collision: 0,
                vert_wall_content: 0,
                found_vert_collision: false,
            },
        }
    }

    /// Casts the ray of column `ray_id` along `angle` and records it.
    pub fn cast_ray(&mut self, angle: i64, ray_id: i32)
        requires
            old(self).player_on_map(),
            0 <= ray_id < old(self).game.rays@.len(),
        ensures
            final(self).game.rays@ == old(self).game.rays@.update(
                ray_id as int,
                cast(
                    old(self).game@,
                    old(self).trig@,
                    old(self).player.x as int,
                    old(self).player.y as int,
                    normalized(angle as int),
                ),
            ),
            final(self).same_but_rays(old(self)),
    {
        proof {
            use_type_invariant(&self.game.game_map);
        }
        let mut angle: i64 = angle;
        let mut ray: Ray = Ray::new(&mut angle);
        let px: i64 = self.player.x;
        let py: i64 = self.player.y;

        let h = self.calculate_horizontal_intersection(&ray);
        let v = self.calculate_vertical_intersection(&ray);
        proof {
            lemma_extent_bounds(self.game@);
        }

        let horz_collision_dist: u128 = if h.found_horz_collision {
            squared_distance_between_points(
                px,
                py,
                h.horz_x_wall_collision,
                h.horz_y_wall_collision,
            )
        } else {
            0
        };
        let vert_collision_dist: u128 = if v.found_vert_collision {
            squared_distance_between_points(
                px,
                py,
                v.vert_x_wall_collision,
                v.vert_y_wall_collision,
            )
        } else {
            0
        };

        if v.found_vert_collision && (!h.found_horz_collision || vert_collision_dist
            <= horz_collision_dist) {
            ray.distance =
            distance_between_points(px, py, v.vert_x_wall_collision, v.vert_y_wall_collision);
            ray.x_collision = v.vert_x_wall_collision;
            ray.y_collision = v.vert_y_wall_collision;
            ray.content = v.vert_wall_content;
            ray.is_vertical_collision = true;
        } else if h.found_horz_collision {
            ray.distance =
            distance_between_points(px, py, h.horz_x_wall_collision, h.horz_y_wall_collision);
            ray.x_collision = h.horz_x_wall_collision;
            ray.y_collision = h.horz_y_wall_collision;
            ray.content = h.horz_wall_content;
            ray.is_vertical_collision = false;
        } else {
            ray.distance = NO_HIT_DISTANCE;
        }
        self.game.rays.set(ray_id as usize, ray);
    }

    /// Casts one ray through each column of the screen, afresh.
    pub fn cast_rays(&mut self)
        requires
            old(self).player_on_map(),
        ensures
            final(self).game.rays@.len() == old(self).color_buffer@.width,
            forall|col: int|
                0 <= col < final(self).game.rays@.len() ==> #[trigger] final(self).game.rays@[col]
                    == cast(
                    old(self).game@,
                    old(self).trig@,
                    old(self).player.x as int,
                    old(self).player.y as int,
                    column_angle(
                        old(self).trig@,
                        old(self).player.rotation_angle as int,
                        col,
                        old(self).color_buffer@.width,
                        old(self).distance_proj_plane as int,
                    ),
                ),
            final(self).same_but_rays(old(self)),
    {
        proof {
            use_type_invariant(&self.color_buffer);
        }
        let n: u32 = self.color_buffer.width();
        self.game.rays = fresh_rays(n as usize);
        let mut facing: i64 = self.player.rotation_angle;
        normalize_angle(&mut facing);
        let mut col: u32 = 0;
        while col < n
            invariant
                0 <= col <= n <= crate::window::MAX_SCREEN_SIDE,
                self.player_on_map(),
                n == self.color_buffer@.width,
                facing == normalized(self.player.rotation_angle as int),
                self.game.rays@.len() == n,
                self.same_but_rays(old(self)),
                forall|c: int|
                    0 <= c < col ==> #[trigger] self.game.rays@[c] == cast(
                        self.game@,
                        self.trig@,
                        self.player.x as int,
                        self.player.y as int,
                        column_angle(
                            self.trig@,
                            self.player.rotation_angle as int,
                            c,
                            n as int,
                            self.distance_proj_plane as int,
                        ),
                    ),
            decreases n - col,
        {
            let opposite: i64 = (2 * (col as i64) - (n as i64)) * (SUBUNITS / 2);
            let offset: i64 = self.trig.arc_tangent(opposite, self.distance_proj_plane);
            let angle: i64 = facing + offset;
            proof {
                let start = self.player.rotation_angle as int;
                vstd::arithmetic::div_mod::lemma_add_mod_noop(
                    start,
                    offset as int,
                    crate::geometry::FULL_TURN as int,
                );
                vstd::arithmetic::div_mod::lemma_add_mod_noop(
                    facing as int,
                    offset as int,
                    crate::geometry::FULL_TURN as int,
                );
                assert(normalized(angle as int) == column_angle(
                    self.trig@,
                    start,
                    col as int,
                    n as int,
                    self.distance_proj_plane as int,
                ));
            }
            let ghost before = self.game.rays@;
            self.cast_ray(angle, col as i32);
            proof {
                assert forall|c: int| 0 <= c < col implies self.game.rays@[c] == before[c] by {}
            }
            col = col + 1;
        }
    }
}

/// Casting is a function of the player's pose, the map and the engine's
/// constants, and of nothing else: two engines that agree on these hold the
/// same rays after a cast.
pub proof fn casting_is_deterministic(a: App, b: App)
    requires
        a.rays_are_cast(),
        b.rays_are_cast(),
        a.game@ == b.game@,
        a.trig@ == b.trig@,
        a.player.x == b.player.x,
        a.player.y == b.player.y,
        a.player.rotation_angle == b.player.rotation_angle,
        a.color_buffer@.width == b.color_buffer@.width,
        a.distance_proj_plane == b.distance_proj_plane,
    ensures
        a.game.rays@ == b.game.rays@,
{
    assert(a.game.rays@ =~= b.game.rays@);
}

} // verus!
