//! Trigonometry over a quarter-wave sine table.
//!
//! The engine never evaluates a transcendental function. Whoever builds the
//! engine hands it the sines of the angles from zero to a quarter turn, one per
//! angle unit and scaled by `TRIG_ONE`; sines and cosines of all other angles,
//! and the arc tangent, are read off that table. Every contract here speaks of
//! the table's entries, whatever they are: the table is checked for shape, not
//! for accuracy.

use vstd::prelude::*;
use crate::geometry::{normalized, FULL_TURN, HALF_TURN, QUARTER_TURN, THREE_QUARTER_TURN};
use crate::error::ConfigError;

verus! {

/// The table's value for a sine of one.
pub const TRIG_ONE: i64 = 1_048_576;

/// Number of entries of a quarter-wave table.
pub const TABLE_LEN: usize = 90_001;

/// What makes a sequence a usable quarter-wave sine table: one entry per angle
/// unit from zero to a quarter turn, rising from zero to `TRIG_ONE` without ever
/// falling, and positive past the first entry.
pub open spec fn valid_quarter_wave(s: Seq<u32>) -> bool {
    &&& s.len() == QUARTER_TURN + 1
    &&& s[0] == 0
    &&& s[QUARTER_TURN as int] == TRIG_ONE
    &&& forall|i: int| 0 < i <= QUARTER_TURN ==> 0 < #[trigger] s[i]
    &&& forall|i: int| 0 <= i < QUARTER_TURN ==> s[i] <= #[trigger] s[i + 1]
}

/// How far a normalized angle is from the horizontal axis, in `[0, QUARTER_TURN]`.
pub open spec fn reference_angle(angle: int) -> int {
    let r = angle % (HALF_TURN as int);
    if r <= QUARTER_TURN {
        r
    } else {
        HALF_TURN - r
    }
}

/// Magnitude of the sine of `angle`, read off the table `s`.
pub open spec fn sin_magnitude(s: Seq<u32>, angle: int) -> int {
    s[reference_angle(normalized(angle))] as int
}

/// Magnitude of the cosine of `angle`, read off the table `s`.
pub open spec fn cos_magnitude(s: Seq<u32>, angle: int) -> int {
    s[QUARTER_TURN - reference_angle(normalized(angle))] as int
}

/// Sine of `angle`: positive where the angle faces down the screen.
pub open spec fn sine(s: Seq<u32>, angle: int) -> int {
    if normalized(angle) <= HALF_TURN {
        sin_magnitude(s, angle)
    } else {
        -sin_magnitude(s, angle)
    }
}

/// Cosine of `angle`: positive where the angle faces right.
pub open spec fn cosine(s: Seq<u32>, angle: int) -> int {
    if normalized(angle) <= QUARTER_TURN || normalized(angle) >= THREE_QUARTER_TURN {
        cos_magnitude(s, angle)
    } else {
        -cos_magnitude(s, angle)
    }
}

/// Whether the slope `opposite / adjacent` is at least the tangent of the
/// first-quadrant angle `a`, compared without dividing.
pub open spec fn tangent_at_most(s: Seq<u32>, a: int, opposite: int, adjacent: int) -> bool {
    s[a] * adjacent <= opposite * s[QUARTER_TURN - a]
}

/// `a` is the arc tangent of `opposite / adjacent` to the table's precision: the
/// last angle of the first quadrant whose tangent does not exceed the slope.
pub open spec fn is_arc_tangent(s: Seq<u32>, a: int, opposite: int, adjacent: int) -> bool {
    &&& 0 <= a <= QUARTER_TURN
    &&& tangent_at_most(s, a, opposite, adjacent)
    &&& a < QUARTER_TURN ==> !tangent_at_most(s, a + 1, opposite, adjacent)
}

/// The arc tangent of `opposite / adjacent` for non-negative arguments: zero
/// for a slope of zero, whatever `adjacent` is, and a quarter turn for a
/// positive `opposite` over an `adjacent` of zero.
pub open spec fn arc_tangent_magnitude(s: Seq<u32>, opposite: int, adjacent: int) -> int {
    if opposite == 0 {
        0
    } else {
        choose|a: int| is_arc_tangent(s, a, opposite, adjacent)
    }
}

/// The signed arc tangent: the sign of `opposite` on the magnitude for `|opposite|`.
pub open spec fn arc_tangent(s: Seq<u32>, opposite: int, adjacent: int) -> int {
    if opposite >= 0 {
        arc_tangent_magnitude(s, opposite, adjacent)
    } else {
        -arc_tangent_magnitude(s, -opposite, adjacent)
    }
}

/// The length `len` times `factor / TRIG_ONE`, rounded toward zero.
pub open spec fn scaled(len: int, factor: int) -> int {
    let p = len * factor;
    if p >= 0 {
        p / (TRIG_ONE as int)
    } else {
        -((-p) / (TRIG_ONE as int))
    }
}

/// Largest magnitude of a length that `scale` accepts.
pub const MAX_SCALED: i128 = 0x10_0000_0000_0000_0000_0000_0000;

/// Scaling by a sine or cosine never lengthens, and keeps or flips the sign
/// as the factor says.
pub proof fn lemma_scaled_bounds(len: int, factor: int)
    requires
        -TRIG_ONE <= factor <= TRIG_ONE,
    ensures
        len >= 0 ==> -len <= scaled(len, factor) <= len,
        len <= 0 ==> len <= scaled(len, factor) <= -len,
        len >= 0 && factor >= 0 ==> scaled(len, factor) >= 0,
        len >= 0 && factor <= 0 ==> scaled(len, factor) <= 0,
        factor == 0 ==> scaled(len, factor) == 0,
        factor == TRIG_ONE ==> scaled(len, factor) == len,
        factor == -TRIG_ONE ==> scaled(len, factor) == -len,
{
    let p = len * factor;
    let one = TRIG_ONE as int;
    assert(len >= 0 ==> -len * one <= p <= len * one) by (nonlinear_arith)
        requires
            p == len * factor,
            -one <= factor <= one,
    ;
    assert(len <= 0 ==> len * one <= p <= -len * one) by (nonlinear_arith)
        requires
            p == len * factor,
            -one <= factor <= one,
    ;
    assert(len >= 0 && factor >= 0 ==> p >= 0) by (nonlinear_arith)
        requires
            p == len * factor,
    ;
    assert(len >= 0 && factor <= 0 ==> p <= 0) by (nonlinear_arith)
        requires
            p == len * factor,
    ;
    assert(factor == 0 ==> p == 0) by (nonlinear_arith)
        requires
            p == len * factor,
    ;
    assert(factor == one ==> p == len * one) by (nonlinear_arith)
        requires
            p == len * factor,
    ;
    assert(factor == -one ==> p == -len * one) by (nonlinear_arith)
        requires
            p == len * factor,
    ;
}

/// A table never falls between any two of its entries.
pub proof fn lemma_table_monotone(s: Seq<u32>, i: int, j: int)
    requires
        valid_quarter_wave(s),
        0 <= i <= j <= QUARTER_TURN,
    ensures
        s[i] <= s[j],
    decreases j - i,
{
    if i < j {
        lemma_table_monotone(s, i, j - 1);
        assert(s[j - 1] <= s[(j - 1) + 1]);
    }
}

/// Every entry of a table lies between zero and `TRIG_ONE`.
pub proof fn lemma_table_bounded(s: Seq<u32>, i: int)
    requires
        valid_quarter_wave(s),
        0 <= i <= QUARTER_TURN,
    ensures
        0 <= s[i] <= TRIG_ONE,
        i > 0 ==> s[i] > 0,
{
    lemma_table_monotone(s, i, QUARTER_TURN as int);
}

/// Sine and cosine of any angle are bounded by `TRIG_ONE`, carry the sign of
/// the half plane the angle lies in, and vanish only on the axes.
pub proof fn lemma_sine_cosine_signs(s: Seq<u32>, angle: int)
    requires
        valid_quarter_wave(s),
    ensures
        0 <= sin_magnitude(s, angle) <= TRIG_ONE,
        0 <= cos_magnitude(s, angle) <= TRIG_ONE,
        sin_magnitude(s, angle) == 0 <==> (normalized(angle) == 0 || normalized(angle) == HALF_TURN),
        cos_magnitude(s, angle) == 0 <==> (normalized(angle) == QUARTER_TURN || normalized(angle)
            == THREE_QUARTER_TURN),
{
    let r = reference_angle(normalized(angle));
    lemma_table_bounded(s, r);
    lemma_table_bounded(s, QUARTER_TURN - r);
}

/// The tangent comparison can only turn from true to false as the angle grows.
pub proof fn lemma_tangent_at_most_monotone(s: Seq<u32>, a: int, b: int, opposite: int, adjacent: int)
    requires
        valid_quarter_wave(s),
        0 <= a <= b <= QUARTER_TURN,
        0 <= opposite,
        0 <= adjacent,
        tangent_at_most(s, b, opposite, adjacent),
    ensures
        tangent_at_most(s, a, opposite, adjacent),
{
    lemma_table_monotone(s, a, b);
    lemma_table_monotone(s, QUARTER_TURN - b, QUARTER_TURN - a);
    let sa = s[a] as int;
    let sb = s[b] as int;
    let ca = s[QUARTER_TURN - a] as int;
    let cb = s[QUARTER_TURN - b] as int;
    assert(sa * adjacent <= sb * adjacent) by (nonlinear_arith)
        requires
            0 <= sa <= sb,
            0 <= adjacent,
    ;
    assert(opposite * cb <= opposite * ca) by (nonlinear_arith)
        requires
            0 <= cb <= ca,
            0 <= opposite,
    ;
}

/// A slope has one arc tangent.
pub proof fn lemma_arc_tangent_unique(s: Seq<u32>, a: int, b: int, opposite: int, adjacent: int)
    requires
        valid_quarter_wave(s),
        0 <= opposite,
        0 <= adjacent,
        is_arc_tangent(s, a, opposite, adjacent),
        is_arc_tangent(s, b, opposite, adjacent),
    ensures
        a == b,
{
    if a < b {
        lemma_tangent_at_most_monotone(s, a + 1, b, opposite, adjacent);
    } else if b < a {
        lemma_tangent_at_most_monotone(s, b + 1, a, opposite, adjacent);
    }
}

/// A quarter-wave sine table that has passed the shape check.
pub struct TrigTable {
    quarter: Vec<u32>,
}

impl View for TrigTable {
    type V = Seq<u32>;

    closed spec fn view(&self) -> Seq<u32> {
        self.quarter@
    }
}

impl TrigTable {
    /// The table holds a valid quarter wave. Every table that a program holds
    /// does; a proof about a table as a mathematical value has to ask for it.
    #[verifier::type_invariant]
    pub open spec fn wf(&self) -> bool {
        valid_quarter_wave(self@)
    }


    /// Accepts `quarter` as a table if and only if it is a valid quarter wave.
    pub fn new(quarter: Vec<u32>) -> (r: Result<TrigTable, ConfigError>)
        ensures
            match r {
                Ok(t) => valid_quarter_wave(quarter@) && t@ == quarter@ && t.wf(),
                Err(e) => !valid_quarter_wave(quarter@) && e == ConfigError::MalformedTrigTable,
            },
    {
        if quarter.len() != TABLE_LEN {
            return Err(ConfigError::MalformedTrigTable);
        }
        if quarter[0] != 0 || quarter[TABLE_LEN - 1] != TRIG_ONE as u32 {
            return Err(ConfigError::MalformedTrigTable);
        }
        let mut i: usize = 0;
        while i < TABLE_LEN - 1
            invariant
                0 <= i <= TABLE_LEN - 1,
                quarter.len() == TABLE_LEN,
                forall|k: int| 0 < k <= i ==> 0 < #[trigger] quarter@[k],
                forall|k: int| 0 <= k < i ==> quarter@[k] <= #[trigger] quarter@[k + 1],
            decreases TABLE_LEN - i,
        {
            if quarter[i + 1] == 0 || quarter[i] > quarter[i + 1] {
                proof {
                    let k = i as int;
                    assert(!(0 < quarter@[k + 1]) || !(quarter@[k] <= quarter@[k + 1]));
                }
                return Err(ConfigError::MalformedTrigTable);
            }
            i = i + 1;
        }
        Ok(TrigTable { quarter })
    }

    /// Magnitude of the sine of a normalized angle.
    pub fn sin_abs(&self, angle: i64) -> (m: i64)
        requires
            0 <= angle < FULL_TURN,
        ensures
            m == sin_magnitude(self@, angle as int),
            0 <= m <= TRIG_ONE,
    {
        proof {
            use_type_invariant(self);
        }
        let r: i64 = angle % HALF_TURN;
        let a: i64 = if r <= QUARTER_TURN {
            r
        } else {
            HALF_TURN - r
        };
        proof {
            lemma_table_bounded(self@, a as int);
        }
        self.quarter[a as usize] as i64
    }

    /// Magnitude of the cosine of a normalized angle.
    pub fn cos_abs(&self, angle: i64) -> (m: i64)
        requires
            0 <= angle < FULL_TURN,
        ensures
            m == cos_magnitude(self@, angle as int),
            0 <= m <= TRIG_ONE,
    {
        proof {
            use_type_invariant(self);
        }
        let r: i64 = angle % HALF_TURN;
        let a: i64 = if r <= QUARTER_TURN {
            r
        } else {
            HALF_TURN - r
        };
        proof {
            lemma_table_bounded(self@, QUARTER_TURN - a);
        }
        self.quarter[(QUARTER_TURN - a) as usize] as i64
    }

    /// Sine of any angle, scaled by `TRIG_ONE`.
    pub fn sin(&self, angle: i64) -> (v: i64)
        ensures
            v == sine(self@, angle as int),
            -TRIG_ONE <= v <= TRIG_ONE,
    {
        let mut a: i64 = angle;
        crate::geometry::normalize_angle(&mut a);
        let m: i64 = self.sin_abs(a);
        if a <= HALF_TURN {
            m
        } else {
            -m
        }
    }

    /// Cosine of any angle, scaled by `TRIG_ONE`.
    pub fn cos(&self, angle: i64) -> (v: i64)
        ensures
            v == cosine(self@, angle as int),
            -TRIG_ONE <= v <= TRIG_ONE,
    {
        let mut a: i64 = angle;
        crate::geometry::normalize_angle(&mut a);
        let m: i64 = self.cos_abs(a);
        if a <= QUARTER_TURN || a >= THREE_QUARTER_TURN {
            m
        } else {
            -m
        }
    }

    /// Evaluates the tangent comparison for one first-quadrant angle.
    fn tangent_at_most_exec(&self, a: usize, opposite: u64, adjacent: u64) -> (b: bool)
        requires
            a <= QUARTER_TURN,
        ensures
            b == tangent_at_most(self@, a as int, opposite as int, adjacent as int),
    {
        proof {
            use_type_invariant(self);
        }
        let sa: u128 = self.quarter[a] as u128;
        let ca: u128 = self.quarter[QUARTER_TURN as usize - a] as u128;
        assert(sa * adjacent <= 0xffff_ffff * 0xffff_ffff_ffff_ffff) by (nonlinear_arith)
            requires
                0 <= sa <= 0xffff_ffff,
                0 <= adjacent <= 0xffff_ffff_ffff_ffff,
        ;
        assert(opposite * ca <= 0xffff_ffff_ffff_ffff * 0xffff_ffff) by (nonlinear_arith)
            requires
                0 <= ca <= 0xffff_ffff,
                0 <= opposite <= 0xffff_ffff_ffff_ffff,
        ;
        sa * (adjacent as u128) <= (opposite as u128) * ca
    }

    /// Arc tangent of `opposite / adjacent` for a non-negative slope: an angle
    /// in `[0, QUARTER_TURN]`, zero when `opposite` is zero, and else a quarter
    /// turn exactly when `adjacent` is zero.
    pub fn arc_tangent_abs(&self, opposite: u64, adjacent: u64) -> (a: i64)
        ensures
            a == arc_tangent_magnitude(self@, opposite as int, adjacent as int),
            opposite > 0 ==> is_arc_tangent(self@, a as int, opposite as int, adjacent as int),
            0 <= a <= QUARTER_TURN,
            adjacent > 0 ==> a < QUARTER_TURN,
            opposite > 0 && adjacent == 0 ==> a == QUARTER_TURN,
    {
        proof {
            use_type_invariant(self);
        }
        if opposite == 0 {
            return 0;
        }
        let ghost s = self@;
        let ghost o = opposite as int;
        let ghost d = adjacent as int;
        assert(d == 0 ==> tangent_at_most(s, QUARTER_TURN as int, o, d)) by (nonlinear_arith)
            requires
                s[QUARTER_TURN - QUARTER_TURN] == 0,
                0 <= s[QUARTER_TURN as int],
        ;
        assert(tangent_at_most(s, 0, o, d)) by (nonlinear_arith)
            requires
                s[0] == 0,
                0 <= o,
                0 <= s[QUARTER_TURN - 0],
        ;
        if self.tangent_at_most_exec(QUARTER_TURN as usize, opposite, adjacent) {
            proof {
                assert(is_arc_tangent(s, QUARTER_TURN as int, o, d));
                lemma_arc_tangent_unique(
                    s,
                    QUARTER_TURN as int,
                    choose|a: int| is_arc_tangent(s, a, o, d),
                    o,
                    d,
                );
                let top = s[QUARTER_TURN as int] as int;
                let bottom = s[QUARTER_TURN - QUARTER_TURN] as int;
                assert(d == 0) by (nonlinear_arith)
                    requires
                        top * d <= o * bottom,
                        top == TRIG_ONE,
                        bottom == 0,
                        0 <= d,
                ;
            }
            return QUARTER_TURN;
        }
        let mut lo: usize = 0;
        let mut hi: usize = QUARTER_TURN as usize;
        while hi - lo > 1
            invariant
                s == self@,
                o == opposite as int,
                d == adjacent as int,
                0 <= lo < hi <= QUARTER_TURN,
                tangent_at_most(s, lo as int, o, d),
                !tangent_at_most(s, hi as int, o, d),
            decreases hi - lo,
        {
            let mid: usize = lo + (hi - lo) / 2;
            if self.tangent_at_most_exec(mid, opposite, adjacent) {
                lo = mid;
            } else {
                hi = mid;
            }
        }
        proof {
            assert(is_arc_tangent(s, lo as int, o, d));
            lemma_arc_tangent_unique(s, lo as int, choose|a: int| is_arc_tangent(s, a, o, d), o, d);
        }
        lo as i64
    }

    /// Signed arc tangent of `opposite / adjacent`, in `[-QUARTER_TURN, QUARTER_TURN]`.
    pub fn arc_tangent(&self, opposite: i64, adjacent: u64) -> (a: i64)
        ensures
            a == arc_tangent(self@, opposite as int, adjacent as int),
            -QUARTER_TURN <= a <= QUARTER_TURN,
            adjacent > 0 ==> -QUARTER_TURN < a < QUARTER_TURN,
            opposite == 0 ==> a == 0,
    {
        if opposite >= 0 {
            self.arc_tangent_abs(opposite as u64, adjacent)
        } else {
            let m: u64 = (-(opposite as i128)) as u64;
            -self.arc_tangent_abs(m, adjacent)
        }
    }
}

/// The length `len` times `factor / TRIG_ONE`, rounded toward zero.
pub fn scale(len: i128, factor: i64) -> (r: i128)
    requires
        -MAX_SCALED <= len <= MAX_SCALED,
        -TRIG_ONE <= factor <= TRIG_ONE,
    ensures
        r == scaled(len as int, factor as int),
        len >= 0 ==> -len <= r <= len,
        len <= 0 ==> len <= r <= -len,
{
    proof {
        lemma_scaled_bounds(len as int, factor as int);
    }
    assert(-MAX_SCALED * TRIG_ONE <= len * factor <= MAX_SCALED * TRIG_ONE) by (nonlinear_arith)
        requires
            -MAX_SCALED <= len <= MAX_SCALED,
            -TRIG_ONE <= factor <= TRIG_ONE,
            MAX_SCALED >= 0,
            TRIG_ONE >= 0,
    ;
    let p: i128 = len * (factor as i128);
    p / (TRIG_ONE as i128)
}

} // verus!
