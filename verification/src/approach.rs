//! Walking toward a wall along an axis.
//!
//! Along the four axis directions the engine's arithmetic is exact: a ray
//! runs along one family of grid lines and crosses the other at right angles.
//! There, a step toward the wall ahead that stops short of it keeps the ray's
//! hit where it was and shortens the ray by the length of the step.

use vstd::prelude::*;
use vstd::arithmetic::div_mod::lemma_fundamental_div_mod_converse;
use crate::cast::{
    cast, horizontal_hit, horizontal_path, lemma_walk_last_is, vertical_hit, vertical_path, Path,
};
use crate::game::{lemma_cell_index, lemma_extent_bounds, GridView};
use crate::geometry::{
    is_floor_sqrt, lemma_floor_sqrt_is, squared_distance, HALF_TURN, QUARTER_TURN,
    THREE_QUARTER_TURN,
};
use crate::ray::NO_HIT_DISTANCE;
use crate::trig::{cosine, lemma_scaled_bounds, scaled, sine, valid_quarter_wave};
use crate::window::SUBUNITS;

verus! {

/// A walk that starts at a later crossing of another walk, and steps and
/// looks as that walk does, ends where that walk ends.
pub proof fn lemma_walk_from_later_crossing(p: Path, q: Path, g: GridView, m: int)
    requires
        p.ends(g),
        0 <= m <= p.last(g),
        q == (Path { x: p.point_x(m), y: p.point_y(m), ..p }),
    ensures
        q.ends(g),
        q.last(g) == p.last(g) - m,
        q.outcome(g) == p.outcome(g),
{
    let k = p.last(g);
    assert(p.ends_at(g, k));
    assert forall|j: int| q.point_x(j) == p.point_x(j + m) && q.point_y(j) == p.point_y(j + m) by {
        assert((j + m) * p.step_x == j * p.step_x + m * p.step_x) by (nonlinear_arith);
        assert((j + m) * p.step_y == j * p.step_y + m * p.step_y) by (nonlinear_arith);
    }
    assert(q.point_x(k - m) == p.point_x((k - m) + m));
    assert(q.point_y(k - m) == p.point_y((k - m) + m));
    assert(q.blocked(g, k - m));
    assert forall|j: int| 0 <= j < k - m implies !#[trigger] q.blocked(g, j) by {
        assert(q.point_x(j) == p.point_x(j + m));
        assert(q.point_y(j) == p.point_y(j + m));
        assert(!p.blocked(g, j + m));
    }
    lemma_walk_last_is(q, g, k - m);
}

/// The distance between two points on one axis-parallel line is the
/// difference of their coordinates along it.
pub proof fn lemma_distance_along_axis(a: int, b: int, c: int)
    requires
        a <= b,
    ensures
        is_floor_sqrt(b - a, squared_distance(a, c, b, c)),
        is_floor_sqrt(b - a, squared_distance(b, c, a, c)),
        is_floor_sqrt(b - a, squared_distance(c, a, c, b)),
        is_floor_sqrt(b - a, squared_distance(c, b, c, a)),
{
    let d = b - a;
    assert(d * d < (d + 1) * (d + 1) && (-d) * (-d) == d * d && 0 * 0 == 0) by (nonlinear_arith)
        requires
            0 <= d,
    ;
}

/// Whether `angle` is one of the four axis directions.
pub open spec fn along_axis(angle: int) -> bool {
    angle == 0 || angle == QUARTER_TURN || angle == HALF_TURN || angle == THREE_QUARTER_TURN
}

/// A step of `d` from `(px, py)` along `angle` lands here.
pub open spec fn step_x(s: Seq<u32>, px: int, angle: int, d: int) -> int {
    px + scaled(d, cosine(s, angle))
}

pub open spec fn step_y(s: Seq<u32>, py: int, angle: int, d: int) -> int {
    py + scaled(d, sine(s, angle))
}

/// The law for the two directions along the x axis.
proof fn lemma_approach_along_x(g: GridView, s: Seq<u32>, px: int, py: int, angle: int, d: int)
    requires
        g.wf(),
        valid_quarter_wave(s),
        !g.solid_at(px, py),
        angle == 0 || angle == HALF_TURN,
        cast(g, s, px, py, angle).distance != NO_HIT_DISTANCE,
        0 < d < cast(g, s, px, py, angle).distance,
    ensures
        approaches(g, s, px, py, angle, d),
{
    let t = g.span();
    let right = angle == 0;
    let nx = if right { px + d } else { px - d };
    lemma_extent_bounds(g);
    lemma_cell_index(px, t, g.cols());
    lemma_scaled_bounds(d, cosine(s, angle));
    lemma_scaled_bounds(d, sine(s, angle));
    assert(step_x(s, px, angle, d) == nx);
    assert(step_y(s, py, angle, d) == py);
    assert(horizontal_hit(g, s, px, py, angle) is None);
    assert(horizontal_hit(g, s, nx, py, angle) is None);

    let p = vertical_path(g, s, px, py, angle);
    let q = vertical_path(g, s, nx, py, angle);
    let col = px / t;
    assert(p.step_y == 0 && p.y == py);
    assert(q.step_y == 0 && q.y == py);
    assert(vertical_hit(g, s, px, py, angle) is Some);
    let k = p.last(g);
    assert(p.ends_at(g, k));
    assert(p.sample_on_map(g, k));
    let c = vertical_hit(g, s, px, py, angle)->0;
    assert(k * p.step_x == if right { k * t } else { -(k * t) }) by (nonlinear_arith)
        requires
            p.step_x == if right { t } else { -t },
    ;
    assert(k * p.step_y == 0) by (nonlinear_arith)
        requires
            p.step_y == 0,
    ;
    assert(0 <= k * t) by (nonlinear_arith)
        requires
            0 <= k,
            0 <= t,
    ;
    assert(c.y == py);
    if right {
        lemma_distance_along_axis(px, c.x, py);
    } else {
        lemma_distance_along_axis(c.x, px, py);
    }
    let far = if right { c.x - px } else { px - c.x };
    lemma_floor_sqrt_is(far, squared_distance(px, py, c.x, c.y));
    assert(cast(g, s, px, py, angle).distance == far);
    assert(0 <= nx < g.width());

    lemma_cell_index(nx, t, g.cols());
    let ncol = nx / t;
    let m = if right { ncol - col } else { col - ncol };
    // The new cell lies between the old one and the wall.
    if right {
        assert(c.x == (col + 1 + k) * t) by (nonlinear_arith)
            requires
                c.x == col * t + t + k * t,
        ;
        if ncol < col {
            assert((ncol + 1) * t <= col * t) by (nonlinear_arith)
                requires
                    ncol + 1 <= col,
                    0 <= t,
            ;
            assert(ncol * t + t == (ncol + 1) * t) by (nonlinear_arith);
        }
        if ncol > col + k {
            assert((col + 1 + k) * t <= ncol * t) by (nonlinear_arith)
                requires
                    col + 1 + k <= ncol,
                    0 <= t,
            ;
        }
        assert(m * t == ncol * t - col * t) by (nonlinear_arith)
            requires
                m == ncol - col,
        ;
    } else {
        assert(c.x == (col - k) * t) by (nonlinear_arith)
            requires
                c.x == col * t - k * t,
        ;
        if ncol > col {
            assert((col + 1) * t <= ncol * t) by (nonlinear_arith)
                requires
                    col + 1 <= ncol,
                    0 <= t,
            ;
            assert(col * t + t == (col + 1) * t) by (nonlinear_arith);
        }
        if ncol < col - k {
            assert((ncol + 1) * t <= (col - k) * t) by (nonlinear_arith)
                requires
                    ncol + 1 <= col - k,
                    0 <= t,
            ;
            assert(ncol * t + t == (ncol + 1) * t) by (nonlinear_arith);
        }
        assert(m * t == col * t - ncol * t) by (nonlinear_arith)
            requires
                m == col - ncol,
        ;
    }
    assert(0 <= m <= k);
    assert(m * p.step_x == if right { m * t } else { -(m * t) }) by (nonlinear_arith)
        requires
            p.step_x == if right { t } else { -t },
    ;
    assert(m * p.step_y == 0) by (nonlinear_arith)
        requires
            p.step_y == 0,
    ;
    assert(q == (Path { x: p.point_x(m), y: p.point_y(m), ..p }));
    lemma_walk_from_later_crossing(p, q, g, m);
    assert(vertical_hit(g, s, nx, py, angle) == Some(c));
    if right {
        lemma_distance_along_axis(nx, c.x, py);
    } else {
        lemma_distance_along_axis(c.x, nx, py);
    }
    lemma_floor_sqrt_is(far - d, squared_distance(nx, py, c.x, c.y));

    // The new cell is open: it is the player's, or one that the walk passed.
    if m > 0 {
        let j = m - 1;
        assert(!p.blocked(g, j));
        assert(j * p.step_x == if right { j * t } else { -(j * t) }) by (nonlinear_arith)
            requires
                p.step_x == if right { t } else { -t },
        ;
        assert(j * p.step_y == 0) by (nonlinear_arith)
            requires
                p.step_y == 0,
        ;
        assert(j * t == m * t - t) by (nonlinear_arith)
            requires
                j == m - 1,
        ;
        let sx = p.sample_x(j);
        if right {
            assert(sx == ncol * t);
            lemma_fundamental_div_mod_converse(sx, t, ncol, 0);
        } else {
            assert(sx == ncol * t + t - SUBUNITS);
            lemma_fundamental_div_mod_converse(sx, t, ncol, t - SUBUNITS);
        }
        assert(g.tile_at(sx, py) == g.tile_at(nx, py));
    }
}

/// The law for the two directions along the y axis.
proof fn lemma_approach_along_y(g: GridView, s: Seq<u32>, px: int, py: int, angle: int, d: int)
    requires
        g.wf(),
        valid_quarter_wave(s),
        !g.solid_at(px, py),
        angle == QUARTER_TURN || angle == THREE_QUARTER_TURN,
        cast(g, s, px, py, angle).distance != NO_HIT_DISTANCE,
        0 < d < cast(g, s, px, py, angle).distance,
    ensures
        approaches(g, s, px, py, angle, d),
{
    let t = g.span();
    let down = angle == QUARTER_TURN;
    let ny = if down { py + d } else { py - d };
    lemma_extent_bounds(g);
    lemma_cell_index(py, t, g.rows());
    lemma_scaled_bounds(d, cosine(s, angle));
    lemma_scaled_bounds(d, sine(s, angle));
    assert(step_x(s, px, angle, d) == px);
    assert(step_y(s, py, angle, d) == ny);
    assert(vertical_hit(g, s, px, py, angle) is None);
    assert(vertical_hit(g, s, px, ny, angle) is None);

    let p = horizontal_path(g, s, px, py, angle);
    let q = horizontal_path(g, s, px, ny, angle);
    let row = py / t;
    assert(p.step_x == 0 && p.x == px);
    assert(q.step_x == 0 && q.x == px);
    assert(horizontal_hit(g, s, px, py, angle) is Some);
    let k = p.last(g);
    assert(p.ends_at(g, k));
    assert(p.sample_on_map(g, k));
    let c = horizontal_hit(g, s, px, py, angle)->0;
    assert(k * p.step_y == if down { k * t } else { -(k * t) }) by (nonlinear_arith)
        requires
            p.step_y == if down { t } else { -t },
    ;
    assert(k * p.step_x == 0) by (nonlinear_arith)
        requires
            p.step_x == 0,
    ;
    assert(0 <= k * t) by (nonlinear_arith)
        requires
            0 <= k,
            0 <= t,
    ;
    assert(c.x == px);
    if down {
        lemma_distance_along_axis(py, c.y, px);
    } else {
        lemma_distance_along_axis(c.y, py, px);
    }
    let far = if down { c.y - py } else { py - c.y };
    lemma_floor_sqrt_is(far, squared_distance(px, py, c.x, c.y));
    assert(cast(g, s, px, py, angle).distance == far);
    assert(0 <= ny < g.height());

    lemma_cell_index(ny, t, g.rows());
    let nrow = ny / t;
    let m = if down { nrow - row } else { row - nrow };
    if down {
        assert(c.y == (row + 1 + k) * t) by (nonlinear_arith)
            requires
                c.y == row * t + t + k * t,
        ;
        if nrow < row {
            assert((nrow + 1) * t <= row * t) by (nonlinear_arith)
                requires
                    nrow + 1 <= row,
                    0 <= t,
            ;
            assert(nrow * t + t == (nrow + 1) * t) by (nonlinear_arith);
        }
        if nrow > row + k {
            assert((row + 1 + k) * t <= nrow * t) by (nonlinear_arith)
                requires
                    row + 1 + k <= nrow,
                    0 <= t,
            ;
        }
        assert(m * t == nrow * t - row * t) by (nonlinear_arith)
            requires
                m == nrow - row,
        ;
    } else {
        assert(c.y == (row - k) * t) by (nonlinear_arith)
            requires
                c.y == row * t - k * t,
        ;
        if nrow > row {
            assert((row + 1) * t <= nrow * t) by (nonlinear_arith)
                requires
                    row + 1 <= nrow,
                    0 <= t,
            ;
            assert(row * t + t == (row + 1) * t) by (nonlinear_arith);
        }
        if nrow < row - k {
            assert((nrow + 1) * t <= (row - k) * t) by (nonlinear_arith)
                requires
                    nrow + 1 <= row - k,
                    0 <= t,
            ;
            assert(nrow * t + t == (nrow + 1) * t) by (nonlinear_arith);
        }
        assert(m * t == row * t - nrow * t) by (nonlinear_arith)
            requires
                m == row - nrow,
        ;
    }
    assert(0 <= m <= k);
    assert(m * p.step_y == if down { m * t } else { -(m * t) }) by (nonlinear_arith)
        requires
            p.step_y == if down { t } else { -t },
    ;
    assert(m * p.step_x == 0) by (nonlinear_arith)
        requires
            p.step_x == 0,
    ;
    assert(q == (Path { x: p.point_x(m), y: p.point_y(m), ..p }));
    lemma_walk_from_later_crossing(p, q, g, m);
    assert(horizontal_hit(g, s, px, ny, angle) == Some(c));
    if down {
        lemma_distance_along_axis(ny, c.y, px);
    } else {
        lemma_distance_along_axis(c.y, ny, px);
    }
    lemma_floor_sqrt_is(far - d, squared_distance(px, ny, c.x, c.y));

    if m > 0 {
        let j = m - 1;
        assert(!p.blocked(g, j));
        assert(j * p.step_y == if down { j * t } else { -(j * t) }) by (nonlinear_arith)
            requires
                p.step_y == if down { t } else { -t },
        ;
        assert(j * p.step_x == 0) by (nonlinear_arith)
            requires
                p.step_x == 0,
        ;
        assert(j * t == m * t - t) by (nonlinear_arith)
            requires
                j == m - 1,
        ;
        let sy = p.sample_y(j);
        if down {
            assert(sy == nrow * t);
            lemma_fundamental_div_mod_converse(sy, t, nrow, 0);
        } else {
            assert(sy == nrow * t + t - SUBUNITS);
            lemma_fundamental_div_mod_converse(sy, t, nrow, t - SUBUNITS);
        }
        assert(g.tile_at(px, sy) == g.tile_at(px, ny));
    }
}

/// A step of `d` from `(px, py)` along `angle` ends on open floor, and the
/// ray cast from there along `angle` meets the same wall at the same point,
/// `d` nearer.
pub open spec fn approaches(g: GridView, s: Seq<u32>, px: int, py: int, angle: int, d: int) -> bool {
    let nx = step_x(s, px, angle, d);
    let ny = step_y(s, py, angle, d);
    let before = cast(g, s, px, py, angle);
    let after = cast(g, s, nx, ny, angle);
    &&& !g.solid_at(nx, ny)
    &&& after.distance == before.distance - d
    &&& after.x_collision == before.x_collision
    &&& after.y_collision == before.y_collision
    &&& after.content == before.content
    &&& after.is_vertical_collision == before.is_vertical_collision
}

/// Along an axis, a step toward the wall ahead that stops short of it ends
/// on open floor and shortens the ray ahead by exactly the length of the
/// step: the wall's distance falls strictly, step after step, for as long as
/// the steps are taken.
pub proof fn walking_along_an_axis_shortens_the_ray(
    g: GridView,
    s: Seq<u32>,
    px: int,
    py: int,
    angle: int,
    d: int,
)
    requires
        g.wf(),
        valid_quarter_wave(s),
        !g.solid_at(px, py),
        along_axis(angle),
        cast(g, s, px, py, angle).distance != NO_HIT_DISTANCE,
        0 < d < cast(g, s, px, py, angle).distance,
    ensures
        approaches(g, s, px, py, angle, d),
        cast(g, s, step_x(s, px, angle, d), step_y(s, py, angle, d), angle).distance < cast(
            g,
            s,
            px,
            py,
            angle,
        ).distance,
{
    if angle == 0 || angle == HALF_TURN {
        lemma_approach_along_x(g, s, px, py, angle, d);
    } else {
        lemma_approach_along_y(g, s, px, py, angle, d);
    }
}

} // verus!
