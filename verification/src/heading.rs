//! Headings: angles in millionths of a radian, and the direction each one points in.
//!
//! A full turn is `FULL_TURN` angle units, cut into four equal quarters, so that turning by
//! a quarter is exact. The direction of a heading is the pair of its cosine and its sine
//! in millionths, each rounded toward zero.
//!
//! On the first eighth of a turn the sine is summed from its power series, and the cosine
//! is the root of what the sine leaves of a unit length. The second eighth mirrors the
//! first, and the other quarters are quarter turns of the first one. The components come
//! within three millionths of the cosine and sine of the heading.
//!
//! What is proved is the unit length, the symmetry under quarter and whole turns and about
//! the eighth, the exact values along the axes and, beside the series, that the sine is
//! the series' value within rounding. That this comes within three millionths of the
//! cosine and sine is measured by the tests and not proved.

use vstd::prelude::*;
use vstd::arithmetic::div_mod::lemma_fundamental_div_mod;
use vstd::arithmetic::div_mod::lemma_fundamental_div_mod_converse;
use vstd::arithmetic::div_mod::lemma_mod_multiples_vanish;
use crate::fixed::ONE;
use crate::fixed::floor_sqrt;
use crate::fixed::is_floor_sqrt;
use crate::fixed::isqrt;
use crate::fixed::lemma_floor_sqrt_exists;
use crate::fixed::lemma_square_monotone;
use crate::sine::lemma_octant_sine_range;
use crate::sine::octant_sine;
use crate::sine::sine_of_octant;

verus! {

/// An eighth of a turn.
pub const EIGHTH_TURN: i64 = 785_398;

/// A quarter of a turn.
pub const QUARTER_TURN: i64 = 1_570_796;

/// Half a turn.
pub const HALF_TURN: i64 = 3_141_592;

/// A full turn. Headings live in the range from zero up to, not including, this.
pub const FULL_TURN: i64 = 6_283_184;

/// The heading that `angle` stands for: its remainder by a full turn, never negative.
pub open spec fn wrap(angle: int) -> int {
    angle % (FULL_TURN as int)
}

/// What a component leaves of a unit length: the other component of a unit direction,
/// which is all of the length where the first is zero.
pub open spec fn unit_rest(component: int) -> int {
    if component == 0 {
        ONE as int
    } else {
        floor_sqrt(ONE * ONE - component * component)
    }
}

/// The direction of an angle `r` of the first quarter. Up to an eighth the sine is summed
/// and the cosine completes it; beyond, the cosine is the sine of what is left of the
/// quarter.
pub open spec fn quadrant_direction(r: int) -> (int, int) {
    if r <= EIGHTH_TURN {
        (unit_rest(octant_sine(r)), octant_sine(r))
    } else {
        (octant_sine(QUARTER_TURN - r), unit_rest(octant_sine(QUARTER_TURN - r)))
    }
}

/// A direction turned by a quarter, counter-clockwise.
pub open spec fn quarter_turned(v: (int, int)) -> (int, int) {
    (-v.1, v.0)
}

/// The direction of a heading already in range, counted counter-clockwise from the x axis.
pub open spec fn direction_in_range(heading: int) -> (int, int) {
    let ahead = quadrant_direction(heading % (QUARTER_TURN as int));
    let quarter = heading / (QUARTER_TURN as int);
    if quarter == 0 {
        ahead
    } else if quarter == 1 {
        (-ahead.1, ahead.0)
    } else if quarter == 2 {
        (-ahead.0, -ahead.1)
    } else {
        (ahead.1, -ahead.0)
    }
}

/// The direction in which `angle` points: the pair of its cosine and its sine.
pub open spec fn direction(angle: int) -> (int, int) {
    direction_in_range(wrap(angle))
}

/// Whether a pair of components is a unit direction within the last digit: never longer
/// than one, and shorter by less than rounding takes.
pub open spec fn is_unit(v: (int, int)) -> bool {
    &&& -ONE <= v.0 <= ONE
    &&& -ONE <= v.1 <= ONE
    &&& ONE * ONE - 2 * ONE <= v.0 * v.0 + v.1 * v.1 <= ONE * ONE
}

/// A component and what it leaves of a unit length make a unit direction, either way
/// round.
pub proof fn lemma_unit_rest(component: int)
    requires
        0 <= component <= ONE,
    ensures
        0 <= unit_rest(component) <= ONE,
        is_unit((unit_rest(component), component)),
        is_unit((component, unit_rest(component))),
{
    let one = ONE as int;
    let rest = unit_rest(component);
    if component != 0 {
        let n = one * one - component * component;
        assert(0 <= n <= one * one) by (nonlinear_arith)
            requires
                0 <= component <= one,
                n == one * one - component * component,
        ;
        lemma_floor_sqrt_exists(n);
        assert(is_floor_sqrt(rest, n));
        if rest > one {
            lemma_square_monotone(one + 1, rest);
            assert((one + 1) * (one + 1) > one * one) by (nonlinear_arith)
                requires
                    one > 0,
            ;
        }
        assert((rest + 1) * (rest + 1) == rest * rest + 2 * rest + 1) by (nonlinear_arith);
    }
}

/// Every direction of the first quarter is a unit direction with no negative component.
pub proof fn lemma_quadrant_direction_unit(r: int)
    requires
        0 <= r <= QUARTER_TURN,
    ensures
        is_unit(quadrant_direction(r)),
        0 <= quadrant_direction(r).0,
        0 <= quadrant_direction(r).1,
{
    if r <= EIGHTH_TURN {
        lemma_octant_sine_range(r);
        lemma_unit_rest(octant_sine(r));
    } else {
        lemma_octant_sine_range(QUARTER_TURN - r);
        lemma_unit_rest(octant_sine(QUARTER_TURN - r));
    }
}

/// Every direction is a unit direction within the last digit.
pub proof fn lemma_direction_unit(angle: int)
    ensures
        is_unit(direction(angle)),
{
    let r = wrap(angle) % (QUARTER_TURN as int);
    lemma_quadrant_direction_unit(r);
    let (c, s) = quadrant_direction(r);
    assert((-c) * (-c) == c * c) by (nonlinear_arith);
    assert((-s) * (-s) == s * s) by (nonlinear_arith);
}

/// Whole turns do not change the direction.
pub proof fn lemma_direction_periodic(angle: int, turns: int)
    ensures
        direction(angle + turns * FULL_TURN) == direction(angle),
{
    lemma_mod_multiples_vanish(turns, angle, FULL_TURN as int);
    assert(angle + turns * FULL_TURN == FULL_TURN * turns + angle) by (nonlinear_arith);
}

/// A quarter more of heading is a quarter turn of the direction.
pub proof fn lemma_direction_quarter(angle: int)
    ensures
        direction(angle + QUARTER_TURN) == quarter_turned(direction(angle)),
{
    let full = FULL_TURN as int;
    let quarter = QUARTER_TURN as int;
    let a = wrap(angle);
    let k = angle / full;
    assert(angle == full * k + a) by {
        lemma_fundamental_div_mod(angle, full);
    }
    let q = a / quarter;
    let r = a % quarter;
    assert(0 <= q <= 3);
    if q < 3 {
        lemma_fundamental_div_mod_converse(angle + quarter, full, k, a + quarter);
        lemma_fundamental_div_mod_converse(a + quarter, quarter, q + 1, r);
    } else {
        lemma_fundamental_div_mod_converse(angle + quarter, full, k + 1, a + quarter - full);
        lemma_fundamental_div_mod_converse(a + quarter - full, quarter, 0, r);
    }
}

/// The four directions along the axes are exact.
pub proof fn lemma_direction_cardinal()
    ensures
        direction(0) == (ONE as int, 0int),
        direction(QUARTER_TURN as int) == (0int, ONE as int),
        direction(HALF_TURN as int) == (-ONE as int, 0int),
        direction(3 * QUARTER_TURN) == (0int, -ONE as int),
{
    assert(octant_sine(0) == 0);
}

/// Mirrored about the eighth, a direction of the first quarter swaps its components.
pub proof fn lemma_direction_mirror(r: int)
    requires
        0 <= r <= QUARTER_TURN,
        r != EIGHTH_TURN,
    ensures
        direction(QUARTER_TURN - r) == (direction(r).1, direction(r).0),
{
    let quarter = QUARTER_TURN as int;
    if 0 < r < quarter {
        lemma_fundamental_div_mod_converse(r, FULL_TURN as int, 0, r);
        lemma_fundamental_div_mod_converse(r, quarter, 0, r);
        lemma_fundamental_div_mod_converse(quarter - r, FULL_TURN as int, 0, quarter - r);
        lemma_fundamental_div_mod_converse(quarter - r, quarter, 0, quarter - r);
    } else {
        lemma_direction_cardinal();
    }
}

/// Brings an angle into the range of headings.
pub fn wrap_angle(angle: i128) -> (heading: i64)
    ensures
        heading == wrap(angle as int),
        0 <= heading < FULL_TURN,
{
    let full: i128 = FULL_TURN as i128;
    let rest: i128 = angle % full;
    if rest < 0 {
        (rest + full) as i64
    } else {
        rest as i64
    }
}

/// Computes what a component leaves of a unit length.
fn rest_of_unit(component: i64) -> (rest: i64)
    requires
        0 <= component <= ONE,
    ensures
        rest == unit_rest(component as int),
        0 <= rest <= ONE,
{
    proof {
        lemma_unit_rest(component as int);
    }
    if component == 0 {
        ONE
    } else {
        assert(0 <= ONE * ONE - component * component <= ONE * ONE) by (nonlinear_arith)
            requires
                0 <= component <= ONE,
        ;
        assert(component * component <= ONE * ONE) by (nonlinear_arith)
            requires
                0 <= component <= ONE,
        ;
        let left: i64 = ONE * ONE - component * component;
        isqrt(left as u64) as i64
    }
}

/// Computes the direction of an angle of the first quarter.
fn direction_of_quadrant(r: i64) -> (v: (i64, i64))
    requires
        0 <= r < QUARTER_TURN,
    ensures
        (v.0 as int, v.1 as int) == quadrant_direction(r as int),
        0 <= v.0 <= ONE,
        0 <= v.1 <= ONE,
{
    if r <= EIGHTH_TURN {
        let sine: i64 = sine_of_octant(r);
        (rest_of_unit(sine), sine)
    } else {
        let cosine: i64 = sine_of_octant(QUARTER_TURN - r);
        (cosine, rest_of_unit(cosine))
    }
}

/// Computes the direction in which `angle` points.
pub fn direction_of(angle: i64) -> (v: (i64, i64))
    ensures
        (v.0 as int, v.1 as int) == direction(angle as int),
        is_unit((v.0 as int, v.1 as int)),
{
    proof {
        lemma_direction_unit(angle as int);
    }
    let heading: i64 = wrap_angle(angle as i128);
    let quarter: i64 = heading / QUARTER_TURN;
    let ahead: (i64, i64) = direction_of_quadrant(heading % QUARTER_TURN);
    if quarter == 0 {
        ahead
    } else if quarter == 1 {
        (-ahead.1, ahead.0)
    } else if quarter == 2 {
        (-ahead.0, -ahead.1)
    } else {
        (ahead.1, -ahead.0)
    }
}

} // verus!
