//! Rays in a walled-in map.
//!
//! On a map whose rim is all wall, a ray cast from open floor always meets a
//! wall: if the walk over the horizontal grid lines runs off the map sideways
//! before it reaches the rim, the ray is flat enough for the walk over the
//! vertical grid lines to reach the rim first.

use vstd::prelude::*;
use vstd::arithmetic::div_mod::lemma_fundamental_div_mod_converse;
use crate::cast::{
    cast, horizontal_hit, horizontal_path, lemma_walk_last_is, vertical_hit, vertical_path,
    Crossing, Path,
};
use crate::game::{lemma_cell_index, lemma_extent_bounds, GridView};
use crate::geometry::{
    facing_down, facing_right, floor_sqrt, is_floor_sqrt, is_normalized, squared_distance,
};
use crate::ray::NO_HIT_DISTANCE;
use crate::trig::{cos_magnitude, lemma_sine_cosine_signs, sin_magnitude, valid_quarter_wave};
use crate::window::SUBUNITS;

verus! {

/// Every number that is not negative has an integer square root.
pub proof fn lemma_floor_sqrt_exists(n: int)
    requires
        0 <= n,
    ensures
        is_floor_sqrt(floor_sqrt(n), n),
    decreases n,
{
    if n == 0 {
        assert(is_floor_sqrt(0, 0));
    } else {
        lemma_floor_sqrt_exists(n - 1);
        let r = floor_sqrt(n - 1);
        if n < (r + 1) * (r + 1) {
            assert(is_floor_sqrt(r, n));
        } else {
            assert((r + 1) * (r + 1) < (r + 2) * (r + 2)) by (nonlinear_arith)
                requires
                    0 <= r,
            ;
            assert(is_floor_sqrt(r + 1, n));
        }
    }
}

/// The integer square root never exceeds a bound whose square exceeds the number.
pub proof fn lemma_floor_sqrt_below(n: int, bound: int)
    requires
        0 <= n < bound * bound,
        0 <= bound,
    ensures
        0 <= floor_sqrt(n) < bound,
        floor_sqrt(n) * floor_sqrt(n) <= n,
{
    lemma_floor_sqrt_exists(n);
    let r = floor_sqrt(n);
    if r >= bound {
        assert(bound * bound <= r * r) by (nonlinear_arith)
            requires
                0 <= bound <= r,
        ;
    }
}

/// A walk that cannot pass its `n`-th crossing ends there or earlier.
pub proof fn lemma_walk_ends_by(p: Path, g: GridView, n: int)
    requires
        0 <= n,
        p.blocked(g, n),
    ensures
        p.ends(g),
        0 <= p.last(g) <= n,
    decreases n,
{
    if forall|j: int| 0 <= j < n ==> !#[trigger] p.blocked(g, j) {
        lemma_walk_last_is(p, g, n);
    } else {
        let j = choose|j: int| 0 <= j < n && p.blocked(g, j);
        lemma_walk_ends_by(p, g, j);
    }
}

/// A walk that stays on the map up to a crossing that it cannot pass ends on
/// a wall.
pub proof fn lemma_walk_hits_by(p: Path, g: GridView, n: int)
    requires
        0 <= n,
        p.blocked(g, n),
        forall|k: int| 0 <= k <= n ==> #[trigger] p.sample_on_map(g, k),
    ensures
        p.outcome(g) is Some,
{
    lemma_walk_ends_by(p, g, n);
    assert(p.sample_on_map(g, p.last(g)));
}

/// On a walled-in map, open floor lies strictly inside the rim.
pub proof fn lemma_open_cell(g: GridView, px: int, py: int)
    requires
        g.wf(),
        g.bordered(),
        !g.solid_at(px, py),
    ensures
        1 <= px / g.span() <= g.cols() - 2,
        1 <= py / g.span() <= g.rows() - 2,
        (px / g.span()) * g.span() <= px < (px / g.span()) * g.span() + g.span(),
        (py / g.span()) * g.span() <= py < (py / g.span()) * g.span() + g.span(),
{
    let t = g.span();
    lemma_extent_bounds(g);
    lemma_cell_index(px, t, g.cols());
    lemma_cell_index(py, t, g.rows());
    let row = py / t;
    let col = px / t;
    assert(g.cells[row][col] == 0);
    assert(0 <= col < g.cols() && 0 <= row < g.rows());
    assert(g.cells[0][col] != 0);
    assert(g.cells[0][col] != 0 && g.cells[g.rows() - 1][col] != 0);
    assert((g.cells[row])[0] != 0 && g.cells[row][g.cols() - 1] != 0);
}

/// A point of the map that lies in a tile of the rim is solid.
pub proof fn lemma_rim_is_solid(g: GridView, x: int, y: int)
    requires
        g.wf(),
        g.bordered(),
        g.in_bounds(x, y),
        y / g.span() == 0 || y / g.span() == g.rows() - 1 || x / g.span() == 0 || x / g.span()
            == g.cols() - 1,
    ensures
        g.solid_at(x, y),
{
    let t = g.span();
    lemma_extent_bounds(g);
    lemma_cell_index(x, t, g.cols());
    lemma_cell_index(y, t, g.rows());
    let row = y / t;
    let col = x / t;
    assert(0 <= col < g.cols() && 0 <= row < g.rows());
    assert(g.cells[0][col] != 0);
    assert(g.cells[0][col] != 0 && g.cells[g.rows() - 1][col] != 0);
    assert((g.cells[row])[0] != 0 && g.cells[row][g.cols() - 1] != 0);
}

/// Rounding a quotient down never overshoots: `(n / d) * d <= n`.
pub proof fn lemma_floor_times_divisor(n: int, d: int)
    by (nonlinear_arith)
    requires
        0 <= n,
        0 < d,
    ensures
        0 <= n / d,
        (n / d) * d <= n,
{
}

/// How far the player is from the rim's inner edge in the direction that a
/// ray goes along y.
pub open spec fn room_y(g: GridView, py: int, down: bool) -> int {
    if down {
        (g.rows() - 1) * g.span() - py
    } else {
        py - g.span()
    }
}

/// How far the player is from the rim's inner edge in the direction that a
/// ray goes along x.
pub open spec fn room_x(g: GridView, px: int, right: bool) -> int {
    if right {
        (g.cols() - 1) * g.span() - px
    } else {
        px - g.span()
    }
}

/// How far the player is from the map's edge in the direction that a ray goes
/// along y.
pub open spec fn span_y(g: GridView, py: int, down: bool) -> int {
    if down {
        g.height() - py
    } else {
        py + 1
    }
}

/// How far the player is from the map's edge in the direction that a ray goes
/// along x.
pub open spec fn span_x(g: GridView, px: int, right: bool) -> int {
    if right {
        g.width() - px
    } else {
        px + 1
    }
}

/// If the walk over the horizontal grid lines finds no wall on a walled-in
/// map, it ran off the map sideways before it reached the rim: the ray is at
/// least as flat as the line from the player to the rim's far corner.
pub proof fn lemma_horizontal_miss(g: GridView, s: Seq<u32>, px: int, py: int, angle: int)
    requires
        g.wf(),
        g.bordered(),
        valid_quarter_wave(s),
        !g.solid_at(px, py),
        is_normalized(angle),
        sin_magnitude(s, angle) > 0,
        horizontal_path(g, s, px, py, angle).outcome(g) is None,
    ensures
        room_y(g, py, facing_down(angle)) * cos_magnitude(s, angle) >= span_x(
            g,
            px,
            facing_right(angle),
        ) * sin_magnitude(s, angle),
{
    let t = g.span();
    let rows = g.rows();
    let cols = g.cols();
    let w = g.width();
    let h = g.height();
    let sm = sin_magnitude(s, angle);
    let cm = cos_magnitude(s, angle);
    let down = facing_down(angle);
    let right = facing_right(angle);
    let p = horizontal_path(g, s, px, py, angle);
    lemma_extent_bounds(g);
    lemma_open_cell(g, px, py);
    lemma_sine_cosine_signs(s, angle);
    let row = py / t;
    let kb = if down { rows - 2 - row } else { row - 1 };
    let reach = if down { p.y - py } else { py - p.y };
    let run0 = (reach * cm) / sm;
    let run = (t * cm) / sm;
    let d = room_y(g, py, down);
    let big = run0 + kb * run;

    assert(0 <= reach * cm && 0 <= t * cm) by (nonlinear_arith)
        requires
            0 <= reach,
            0 <= t,
            0 <= cm,
    ;
    lemma_floor_times_divisor(reach * cm, sm);
    lemma_floor_times_divisor(t * cm, sm);
    assert(d == reach + kb * t) by (nonlinear_arith)
        requires
            d == if down { (rows - 1) * t - py } else { py - t },
            reach == if down { row * t + t - py } else { py - row * t },
            kb == if down { rows - 2 - row } else { row - 1 },
    ;
    assert(big * sm <= d * cm) by (nonlinear_arith)
        requires
            big == run0 + kb * run,
            d == reach + kb * t,
            run0 * sm <= reach * cm,
            run * sm <= t * cm,
            0 <= kb,
    ;
    let x_end = p.sample_x(kb);
    assert(kb * p.step_x == if right { kb * run } else { -(kb * run) }) by (nonlinear_arith)
        requires
            p.step_x == if right { run } else { -run },
    ;
    assert(x_end == if right { px + big } else { px - big });
    assert(0 <= kb * run) by (nonlinear_arith)
        requires
            0 <= kb,
            0 <= run,
    ;

    if 0 <= x_end < w {
        assert forall|k: int| 0 <= k <= kb implies #[trigger] p.sample_on_map(g, k) by {
            assert(k * p.step_x == if right { k * run } else { -(k * run) }) by (nonlinear_arith)
                requires
                    p.step_x == if right { run } else { -run },
            ;
            assert(0 <= k * run <= kb * run) by (nonlinear_arith)
                requires
                    0 <= k <= kb,
                    0 <= run,
            ;
            assert(k * p.step_y == if down { k * t } else { -(k * t) }) by (nonlinear_arith)
                requires
                    p.step_y == if down { t } else { -t },
            ;
            assert(0 <= k * t <= kb * t) by (nonlinear_arith)
                requires
                    0 <= k <= kb,
                    0 <= t,
            ;
            assert(kb * t == if down { rows * t - 2 * t - row * t } else { row * t - t })
                by (nonlinear_arith)
                requires
                    kb == if down { rows - 2 - row } else { row - 1 },
            ;
        }
        let y_end = p.sample_y(kb);
        assert(kb * p.step_y == if down { kb * t } else { -(kb * t) }) by (nonlinear_arith)
            requires
                p.step_y == if down { t } else { -t },
        ;
        assert(kb * t == if down { rows * t - 2 * t - row * t } else { row * t - t })
            by (nonlinear_arith)
            requires
                kb == if down { rows - 2 - row } else { row - 1 },
        ;
        if down {
            assert(y_end == (rows - 1) * t) by (nonlinear_arith)
                requires
                    y_end == row * t + t + (rows * t - 2 * t - row * t),
            ;
            lemma_fundamental_div_mod_converse(y_end, t, rows - 1, 0);
        } else {
            assert(y_end == t - SUBUNITS);
            lemma_fundamental_div_mod_converse(y_end, t, 0, t - SUBUNITS);
        }
        assert(p.sample_on_map(g, kb));
        lemma_rim_is_solid(g, x_end, y_end);
        lemma_walk_hits_by(p, g, kb);
        assert(false);
    }
    if right {
        assert(big >= w - px);
        assert(big * sm >= (w - px) * sm) by (nonlinear_arith)
            requires
                big >= w - px,
                0 <= sm,
        ;
    } else {
        assert(big >= px + 1);
        assert(big * sm >= (px + 1) * sm) by (nonlinear_arith)
            requires
                big >= px + 1,
                0 <= sm,
        ;
    }
}

/// On a walled-in map the walk over the vertical grid lines finds a wall
/// whenever the ray is flat enough to reach the rim sideways before it leaves
/// the map along y.
pub proof fn lemma_vertical_hit(g: GridView, s: Seq<u32>, px: int, py: int, angle: int)
    requires
        g.wf(),
        g.bordered(),
        valid_quarter_wave(s),
        !g.solid_at(px, py),
        is_normalized(angle),
        cos_magnitude(s, angle) > 0,
        room_x(g, px, facing_right(angle)) * sin_magnitude(s, angle) < span_y(
            g,
            py,
            facing_down(angle),
        ) * cos_magnitude(s, angle),
    ensures
        vertical_path(g, s, px, py, angle).outcome(g) is Some,
{
    let t = g.span();
    let rows = g.rows();
    let cols = g.cols();
    let w = g.width();
    let h = g.height();
    let sm = sin_magnitude(s, angle);
    let cm = cos_magnitude(s, angle);
    let down = facing_down(angle);
    let right = facing_right(angle);
    let p = vertical_path(g, s, px, py, angle);
    lemma_extent_bounds(g);
    lemma_open_cell(g, px, py);
    lemma_sine_cosine_signs(s, angle);
    let col = px / t;
    let jb = if right { cols - 2 - col } else { col - 1 };
    let reach = if right { p.x - px } else { px - p.x };
    let rise0 = (reach * sm) / cm;
    let rise = (t * sm) / cm;
    let d = room_x(g, px, right);
    let room = span_y(g, py, down);
    let big = rise0 + jb * rise;

    assert(0 <= reach * sm && 0 <= t * sm) by (nonlinear_arith)
        requires
            0 <= reach,
            0 <= t,
            0 <= sm,
    ;
    lemma_floor_times_divisor(reach * sm, cm);
    lemma_floor_times_divisor(t * sm, cm);
    assert(d == reach + jb * t) by (nonlinear_arith)
        requires
            d == if right { (cols - 1) * t - px } else { px - t },
            reach == if right { col * t + t - px } else { px - col * t },
            jb == if right { cols - 2 - col } else { col - 1 },
    ;
    assert(big * cm <= d * sm) by (nonlinear_arith)
        requires
            big == rise0 + jb * rise,
            d == reach + jb * t,
            rise0 * cm <= reach * sm,
            rise * cm <= t * sm,
            0 <= jb,
    ;
    assert(big < room) by (nonlinear_arith)
        requires
            big * cm <= d * sm,
            d * sm < room * cm,
            0 < cm,
    ;
    assert(jb * t == if right { cols * t - 2 * t - col * t } else { col * t - t })
        by (nonlinear_arith)
        requires
            jb == if right { cols - 2 - col } else { col - 1 },
    ;
    assert forall|k: int| 0 <= k <= jb implies #[trigger] p.sample_on_map(g, k) by {
        assert(k * p.step_y == if down { k * rise } else { -(k * rise) }) by (nonlinear_arith)
            requires
                p.step_y == if down { rise } else { -rise },
        ;
        assert(0 <= k * rise <= jb * rise) by (nonlinear_arith)
            requires
                0 <= k <= jb,
                0 <= rise,
        ;
        assert(k * p.step_x == if right { k * t } else { -(k * t) }) by (nonlinear_arith)
            requires
                p.step_x == if right { t } else { -t },
        ;
        assert(0 <= k * t <= jb * t) by (nonlinear_arith)
            requires
                0 <= k <= jb,
                0 <= t,
        ;
    }
    let x_end = p.sample_x(jb);
    let y_end = p.sample_y(jb);
    assert(jb * p.step_x == if right { jb * t } else { -(jb * t) }) by (nonlinear_arith)
        requires
            p.step_x == if right { t } else { -t },
    ;
    if right {
        assert(x_end == (cols - 1) * t) by (nonlinear_arith)
            requires
                x_end == col * t + t + (cols * t - 2 * t - col * t),
        ;
        lemma_fundamental_div_mod_converse(x_end, t, cols - 1, 0);
    } else {
        assert(x_end == t - SUBUNITS);
        lemma_fundamental_div_mod_converse(x_end, t, 0, t - SUBUNITS);
    }
    assert(p.sample_on_map(g, jb));
    lemma_rim_is_solid(g, x_end, y_end);
    lemma_walk_hits_by(p, g, jb);
}

/// On a walled-in map, a ray from open floor meets a wall on a horizontal
/// grid line or on a vertical one.
pub proof fn lemma_some_walk_hits(g: GridView, s: Seq<u32>, px: int, py: int, angle: int)
    requires
        g.wf(),
        g.bordered(),
        valid_quarter_wave(s),
        !g.solid_at(px, py),
        is_normalized(angle),
    ensures
        horizontal_hit(g, s, px, py, angle) is Some || vertical_hit(g, s, px, py, angle) is Some,
{
    let t = g.span();
    let sm = sin_magnitude(s, angle);
    let cm = cos_magnitude(s, angle);
    let down = facing_down(angle);
    let right = facing_right(angle);
    lemma_extent_bounds(g);
    lemma_open_cell(g, px, py);
    lemma_sine_cosine_signs(s, angle);
    let dy = room_y(g, py, down);
    let dx = room_x(g, px, right);
    let sy = span_y(g, py, down);
    let sx = span_x(g, px, right);
    let rows = g.rows();
    let cols = g.cols();
    assert(dy < sy && dx < sx && 0 <= dx && 0 <= dy && 0 < sy) by (nonlinear_arith)
        requires
            dy == if down { (rows - 1) * t - py } else { py - t },
            sy == if down { rows * t - py } else { py + 1 },
            dx == if right { (cols - 1) * t - px } else { px - t },
            sx == if right { cols * t - px } else { px + 1 },
            0 < t,
            1 <= px / t <= cols - 2,
            1 <= py / t <= rows - 2,
            (px / t) * t <= px < (px / t) * t + t,
            (py / t) * t <= py < (py / t) * t + t,
    ;
    if sm == 0 {
        assert(dx * sm < sy * cm) by (nonlinear_arith)
            requires
                sm == 0,
                0 < sy,
                0 < cm,
        ;
        lemma_vertical_hit(g, s, px, py, angle);
    } else if horizontal_hit(g, s, px, py, angle) is None {
        lemma_horizontal_miss(g, s, px, py, angle);
        assert(dx * sm < sy * cm) by (nonlinear_arith)
            requires
                dy * cm >= sx * sm,
                dy < sy,
                0 <= dx < sx,
                0 < sm,
                0 <= cm,
        ;
        assert(cm > 0) by (nonlinear_arith)
            requires
                dx * sm < sy * cm,
                0 <= dx,
                0 < sm,
                0 <= cm,
        ;
        lemma_vertical_hit(g, s, px, py, angle);
    }
}

/// A wall met on a horizontal grid line is a wall, and lies less than the
/// map's width and height away from the player.
pub proof fn lemma_horizontal_hit_near(g: GridView, s: Seq<u32>, px: int, py: int, angle: int)
    requires
        g.wf(),
        g.in_bounds(px, py),
        valid_quarter_wave(s),
        is_normalized(angle),
        horizontal_hit(g, s, px, py, angle) is Some,
    ensures
        within_map(g, horizontal_hit(g, s, px, py, angle)->0, px, py),
{
    let t = g.span();
    let p = horizontal_path(g, s, px, py, angle);
    let k = p.last(g);
    let down = facing_down(angle);
    lemma_extent_bounds(g);
    lemma_cell_index(py, t, g.rows());
    assert(p.ends_at(g, k));
    assert(k * p.step_y == if down { k * t } else { -(k * t) }) by (nonlinear_arith)
        requires
            p.step_y == if down { t } else { -t },
    ;
    assert(0 <= k * t) by (nonlinear_arith)
        requires
            0 <= k,
            0 <= t,
    ;
}

/// A wall met on a vertical grid line is a wall, and lies less than the map's
/// width and height away from the player.
pub proof fn lemma_vertical_hit_near(g: GridView, s: Seq<u32>, px: int, py: int, angle: int)
    requires
        g.wf(),
        g.in_bounds(px, py),
        valid_quarter_wave(s),
        is_normalized(angle),
        vertical_hit(g, s, px, py, angle) is Some,
    ensures
        within_map(g, vertical_hit(g, s, px, py, angle)->0, px, py),
{
    let t = g.span();
    let p = vertical_path(g, s, px, py, angle);
    let k = p.last(g);
    let right = facing_right(angle);
    lemma_extent_bounds(g);
    lemma_cell_index(px, t, g.cols());
    assert(p.ends_at(g, k));
    assert(k * p.step_x == if right { k * t } else { -(k * t) }) by (nonlinear_arith)
        requires
            p.step_x == if right { t } else { -t },
    ;
    assert(0 <= k * t) by (nonlinear_arith)
        requires
            0 <= k,
            0 <= t,
    ;
}

/// The crossing is on a wall, and nearer to `(px, py)` than the map is wide
/// along x and than the map is high along y.
pub open spec fn within_map(g: GridView, c: Crossing, px: int, py: int) -> bool {
    &&& c.content != 0
    &&& -g.width() < c.x - px < g.width()
    &&& -g.height() < c.y - py < g.height()
}

/// A hit within the map is nearer than the map's diagonal is long.
pub proof fn lemma_within_diagonal(g: GridView, c: Crossing, px: int, py: int)
    requires
        g.wf(),
        within_map(g, c, px, py),
    ensures
        0 <= squared_distance(px, py, c.x, c.y) < g.width() * g.width() + g.height() * g.height(),
        0 <= floor_sqrt(squared_distance(px, py, c.x, c.y)) < NO_HIT_DISTANCE,
        floor_sqrt(squared_distance(px, py, c.x, c.y)) * floor_sqrt(
            squared_distance(px, py, c.x, c.y),
        ) < g.width() * g.width() + g.height() * g.height(),
{
    let w = g.width();
    let h = g.height();
    let dx = c.x - px;
    let dy = c.y - py;
    lemma_extent_bounds(g);
    assert(0 <= dx * dx < w * w) by (nonlinear_arith)
        requires
            -w < dx < w,
    ;
    assert(0 <= dy * dy < h * h) by (nonlinear_arith)
        requires
            -h < dy < h,
    ;
    assert(w * w + h * h <= 0x8000_0000 * 0x8000_0000) by (nonlinear_arith)
        requires
            0 <= w <= 0x4000_0000,
            0 <= h <= 0x4000_0000,
    ;
    lemma_floor_sqrt_below(squared_distance(px, py, c.x, c.y), 0x8000_0000);
}

/// On a map whose rim is all wall, every ray cast from open floor meets a
/// wall, and meets it nearer than the map's diagonal is long.
pub proof fn walled_map_stops_every_ray(g: GridView, s: Seq<u32>, px: int, py: int, angle: int)
    requires
        g.wf(),
        g.bordered(),
        valid_quarter_wave(s),
        !g.solid_at(px, py),
        is_normalized(angle),
    ensures
        cast(g, s, px, py, angle).distance != NO_HIT_DISTANCE,
        cast(g, s, px, py, angle).content != 0,
        0 <= cast(g, s, px, py, angle).distance,
        cast(g, s, px, py, angle).distance * cast(g, s, px, py, angle).distance < g.width()
            * g.width() + g.height() * g.height(),
{
    let v = vertical_hit(g, s, px, py, angle);
    let h = horizontal_hit(g, s, px, py, angle);
    lemma_some_walk_hits(g, s, px, py, angle);
    if v is Some {
        lemma_vertical_hit_near(g, s, px, py, angle);
        lemma_within_diagonal(g, v->0, px, py);
    }
    if h is Some {
        lemma_horizontal_hit_near(g, s, px, py, angle);
        lemma_within_diagonal(g, h->0, px, py);
    }
}

/// Wherever the player stands on whatever map, a ray that meets a wall meets
/// it nearer than the map's diagonal is long.
pub proof fn hit_is_nearer_than_diagonal(g: GridView, s: Seq<u32>, px: int, py: int, angle: int)
    requires
        g.wf(),
        g.in_bounds(px, py),
        valid_quarter_wave(s),
        is_normalized(angle),
        cast(g, s, px, py, angle).distance != NO_HIT_DISTANCE,
    ensures
        cast(g, s, px, py, angle).content != 0,
        0 <= cast(g, s, px, py, angle).distance,
        cast(g, s, px, py, angle).distance * cast(g, s, px, py, angle).distance < g.width()
            * g.width() + g.height() * g.height(),
{
    let v = vertical_hit(g, s, px, py, angle);
    let h = horizontal_hit(g, s, px, py, angle);
    if v is Some {
        lemma_vertical_hit_near(g, s, px, py, angle);
        lemma_within_diagonal(g, v->0, px, py);
    }
    if h is Some {
        lemma_horizontal_hit_near(g, s, px, py, angle);
        lemma_within_diagonal(g, h->0, px, py);
    }
}

} // verus!
