//! The sine of an angle of the first eighth of a turn, summed from its power series.
//!
//! Angles are in millionths of a radian and so is the sine, rounded toward zero. The
//! series is summed in nested form in a unit a million times finer, and what the
//! roundings on the way lose is proved to stay below two millionths.

use vstd::prelude::*;
use vstd::arithmetic::div_mod::lemma_fundamental_div_mod;
use crate::heading::EIGHTH_TURN;

verus! {

/// The number one in the finer unit in which the series is summed: the square of `ONE`,
/// so that the square of an angle needs no rounding.
pub const FINE: i128 = 1_000_000_000_000;

/// One factor of the sine's series in nested form: one less the `divisor`-th part of the
/// angle's square times the factor inside, in the finer unit.
pub open spec fn series_factor(square: int, inner: int, divisor: int) -> int {
    FINE - square * inner / (FINE as int) / divisor
}

/// The sine of an angle `r` of the first eighth, from the series
/// `r - r^3/3! + r^5/5! - r^7/7! + r^9/9!`, whose next term is below two thousandths of a
/// millionth there.
pub open spec fn octant_sine(r: int) -> int {
    let square = r * r;
    let ninth = series_factor(square, FINE as int, 72);
    let seventh = series_factor(square, ninth, 42);
    let fifth = series_factor(square, seventh, 20);
    let third = series_factor(square, fifth, 6);
    r * third / (FINE as int)
}

/// The sum `1 - y/3! + y^2/5! - y^3/7! + y^4/9!` of the sine's series over its angle,
/// for the square `y` of the angle, in nested form and as a whole number: times `9!` and
/// in a unit of the fourth power of `FINE`.
pub open spec fn series_sum(square: int) -> int {
    let fine = FINE as int;
    let ninth = 72 * fine - square;
    let seventh = 3_024 * fine * fine - square * ninth;
    let fifth = 60_480 * fine * fine * fine - square * seventh;
    362_880 * fine * fine * fine * fine - square * fifth
}

/// What `series_sum` is counted in: `9!` times the fourth power of `FINE`.
pub open spec fn series_unit() -> int {
    let fine = FINE as int;
    362_880 * fine * fine * fine * fine
}

/// A factor of the series lies between zero and one.
pub proof fn lemma_series_factor_range(square: int, inner: int, divisor: int)
    requires
        0 <= square <= FINE,
        0 <= inner <= FINE,
        1 <= divisor,
    ensures
        0 <= series_factor(square, inner, divisor) <= FINE,
{
    let fine = FINE as int;
    let product = square * inner;
    assert(0 <= product <= square * fine) by (nonlinear_arith)
        requires
            0 <= square,
            0 <= inner <= fine,
            product == square * inner,
    ;
    let part = product / fine;
    assert(0 <= part <= square) by (nonlinear_arith)
        requires
            0 <= product <= square * fine,
            fine > 0,
            part == product / fine,
    ;
    assert(0 <= part / divisor <= part) by (nonlinear_arith)
        requires
            0 <= part,
            1 <= divisor,
    ;
}

/// On the first eighth the sine lies between zero and the angle itself.
pub proof fn lemma_octant_sine_range(r: int)
    requires
        0 <= r <= EIGHTH_TURN,
    ensures
        0 <= octant_sine(r) <= r,
{
    let fine = FINE as int;
    let square = r * r;
    assert(0 <= square <= fine) by (nonlinear_arith)
        requires
            0 <= r <= 785_398,
            square == r * r,
            fine == 1_000_000_000_000,
    ;
    lemma_series_factor_range(square, fine, 72);
    let ninth = series_factor(square, fine, 72);
    lemma_series_factor_range(square, ninth, 42);
    let seventh = series_factor(square, ninth, 42);
    lemma_series_factor_range(square, seventh, 20);
    let fifth = series_factor(square, seventh, 20);
    lemma_series_factor_range(square, fifth, 6);
    let third = series_factor(square, fifth, 6);
    let product = r * third;
    assert(0 <= product <= r * fine) by (nonlinear_arith)
        requires
            0 <= r,
            0 <= third <= fine,
            product == r * third,
    ;
    assert(0 <= product / fine <= r) by (nonlinear_arith)
        requires
            0 <= product <= r * fine,
            fine > 0,
    ;
}

/// One factor of the series loses little to rounding. Where the factor inside is within
/// one below and two above the fraction `exact / scale`, the factor is within one below
/// and two above what the series makes of that fraction.
pub proof fn lemma_series_factor_follows(
    square: int,
    inner: int,
    divisor: int,
    scale: int,
    exact: int,
)
    requires
        0 <= square <= FINE,
        0 <= inner,
        2 <= divisor,
        0 < scale,
        -scale <= scale * inner - exact <= 2 * scale,
    ensures
        ({
            let factor = series_factor(square, inner, divisor);
            let wider = scale * divisor * FINE;
            let next = scale * divisor * FINE * FINE - square * exact;
            -wider <= wider * factor - next <= 2 * wider
        }),
{
    let fine = FINE as int;
    let product = square * inner;
    assert(0 <= product) by (nonlinear_arith)
        requires
            0 <= square,
            0 <= inner,
            product == square * inner,
    ;
    let part = product / fine;
    let share = part / divisor;
    lemma_fundamental_div_mod(product, fine);
    lemma_fundamental_div_mod(part, divisor);
    let part_rest = product % fine;
    let share_rest = part % divisor;
    let step = divisor * fine;
    // The share is the whole part of the product over the divisor times `FINE`.
    assert(step * share <= product < step * share + step) by (nonlinear_arith)
        requires
            product == fine * part + part_rest,
            0 <= part_rest < fine,
            part == divisor * share + share_rest,
            0 <= share_rest < divisor,
            step == divisor * fine,
            fine > 0,
    ;
    let factor = series_factor(square, inner, divisor);
    assert(factor == fine - share);
    let wider = scale * divisor * fine;
    let next = scale * divisor * fine * fine - square * exact;
    let whole = scale * divisor * fine * fine;
    let held = scale * (step * share);
    assert(wider * factor == whole - held) by (nonlinear_arith)
        requires
            factor == fine - share,
            wider == scale * divisor * fine,
            whole == scale * divisor * fine * fine,
            held == scale * (step * share),
            step == divisor * fine,
    ;
    let weighed = scale * product;
    assert(weighed - wider < held <= weighed) by (nonlinear_arith)
        requires
            step * share <= product < step * share + step,
            held == scale * (step * share),
            weighed == scale * product,
            wider == scale * divisor * fine,
            step == divisor * fine,
            0 < scale,
    ;
    let near = scale * inner;
    assert(weighed == square * near) by (nonlinear_arith)
        requires
            weighed == scale * product,
            product == square * inner,
            near == scale * inner,
    ;
    let taken = square * exact;
    let slack = square * scale;
    assert(taken - slack <= square * near <= taken + 2 * slack) by (nonlinear_arith)
        requires
            exact - scale <= near <= exact + 2 * scale,
            0 <= square,
            taken == square * exact,
            slack == square * scale,
    ;
    assert(2 * slack <= wider) by (nonlinear_arith)
        requires
            slack == square * scale,
            wider == scale * divisor * fine,
            0 <= square <= fine,
            2 <= divisor,
            0 < scale,
    ;
    assert(next == whole - taken);
}

/// The fraction that one factor of the series makes of another keeps `fine` as a factor
/// of its upper part.
proof fn lemma_next_fraction(fine: int, square: int, scale: int, sum: int, divisor: int)
    ensures
        scale * divisor * fine * fine - square * (fine * sum) == fine * (scale * divisor * fine
            - square * sum),
{
    assert(scale * divisor * fine * fine - square * (fine * sum) == fine * (scale * divisor
        * fine - square * sum)) by (nonlinear_arith);
}

/// On the first eighth the sine follows its series: it is the series' value for the
/// angle, in millionths, to within one below and two above.
pub proof fn lemma_octant_sine_follows_series(r: int)
    requires
        0 <= r <= EIGHTH_TURN,
    ensures
        series_unit() * (octant_sine(r) - 1) <= r * series_sum(r * r) < series_unit() * (
        octant_sine(r) + 2),
{
    let fine = FINE as int;
    let square = r * r;
    assert(0 <= square <= fine) by (nonlinear_arith)
        requires
            0 <= r <= 785_398,
            square == r * r,
            fine == 1_000_000_000_000,
    ;
    // The factors, each with the fraction that it follows.
    let ninth = series_factor(square, fine, 72);
    let scale9 = 1 * 72 * fine;
    let exact9 = 1 * 72 * fine * fine - square * fine;
    assert(1 * fine - fine == 0);
    lemma_series_factor_follows(square, fine, 72, 1, fine);
    lemma_series_factor_range(square, fine, 72);

    let seventh = series_factor(square, ninth, 42);
    let scale7 = scale9 * 42 * fine;
    let exact7 = scale9 * 42 * fine * fine - square * exact9;
    assert(scale9 > 0);
    lemma_series_factor_follows(square, ninth, 42, scale9, exact9);
    lemma_series_factor_range(square, ninth, 42);

    let fifth = series_factor(square, seventh, 20);
    let scale5 = scale7 * 20 * fine;
    let exact5 = scale7 * 20 * fine * fine - square * exact7;
    assert(scale7 > 0) by (nonlinear_arith)
        requires
            scale7 == scale9 * 42 * fine,
            scale9 > 0,
            fine > 0,
    ;
    lemma_series_factor_follows(square, seventh, 20, scale7, exact7);
    lemma_series_factor_range(square, seventh, 20);

    let third = series_factor(square, fifth, 6);
    let scale3 = scale5 * 6 * fine;
    let exact3 = scale5 * 6 * fine * fine - square * exact5;
    assert(scale5 > 0) by (nonlinear_arith)
        requires
            scale5 == scale7 * 20 * fine,
            scale7 > 0,
            fine > 0,
    ;
    lemma_series_factor_follows(square, fifth, 6, scale5, exact5);
    lemma_series_factor_range(square, fifth, 6);
    assert(-scale3 <= scale3 * third - exact3 <= 2 * scale3);

    // What the fractions come to.
    let unit = series_unit();
    let sum = series_sum(square);
    let sum9 = 72 * fine - square;
    let sum7 = 3_024 * fine * fine - square * sum9;
    let sum5 = 60_480 * fine * fine * fine - square * sum7;
    assert(sum == 362_880 * fine * fine * fine * fine - square * sum5);
    assert(exact9 == fine * sum9) by (nonlinear_arith)
        requires
            exact9 == 1 * 72 * fine * fine - square * fine,
            sum9 == 72 * fine - square,
    ;
    lemma_next_fraction(fine, square, scale9, sum9, 42);
    assert(scale9 * 42 * fine == 3_024 * fine * fine) by (nonlinear_arith)
        requires
            scale9 == 1 * 72 * fine,
    ;
    assert(exact7 == fine * sum7);
    lemma_next_fraction(fine, square, scale7, sum7, 20);
    assert(scale7 * 20 * fine == 60_480 * fine * fine * fine) by (nonlinear_arith)
        requires
            scale7 == 3_024 * fine * fine,
    ;
    assert(exact5 == fine * sum5);
    lemma_next_fraction(fine, square, scale5, sum5, 6);
    assert(scale5 * 6 * fine == 362_880 * fine * fine * fine * fine) by (nonlinear_arith)
        requires
            scale5 == 60_480 * fine * fine * fine,
    ;
    assert(scale3 == unit);
    assert(exact3 == fine * sum);
    // The last rounding, to millionths.
    let sine = octant_sine(r);
    let product = r * third;
    assert(0 <= product) by (nonlinear_arith)
        requires
            0 <= r,
            0 <= third,
            product == r * third,
    ;
    lemma_fundamental_div_mod(product, fine);
    assert(sine == product / fine);
    assert(fine * sine <= product < fine * sine + fine);
    let weighed = unit * product;
    assert(weighed == r * (unit * third)) by (nonlinear_arith)
        requires
            weighed == unit * product,
            product == r * third,
    ;
    let near = unit * third;
    let full = fine * sum;
    assert(r * (full - unit) <= r * near <= r * (full + 2 * unit)) by (nonlinear_arith)
        requires
            full - unit <= near <= full + 2 * unit,
            0 <= r,
    ;
    assert(unit * (fine * sine) <= weighed < unit * (fine * sine + fine)) by (nonlinear_arith)
        requires
            fine * sine <= product < fine * sine + fine,
            weighed == unit * product,
            unit > 0,
    ;
    let target = r * sum;
    assert(r * (full - unit) == fine * target - r * unit && r * (full + 2 * unit) == fine
        * target + 2 * r * unit) by (nonlinear_arith)
        requires
            full == fine * sum,
            target == r * sum,
    ;
    assert(0 <= r * unit <= fine * unit && 2 * r * unit <= fine * unit) by (nonlinear_arith)
        requires
            0 <= 2 * r <= fine,
            unit > 0,
    ;
    // Over `fine`, which is positive.
    assert(unit * (sine - 1) <= target) by (nonlinear_arith)
        requires
            unit * (fine * sine) <= weighed,
            weighed <= fine * target + 2 * r * unit,
            2 * r * unit <= fine * unit,
            fine > 0,
    ;
    assert(target < unit * (sine + 2)) by (nonlinear_arith)
        requires
            weighed < unit * (fine * sine + fine),
            fine * target - r * unit <= weighed,
            0 <= r * unit <= fine * unit,
            fine > 0,
    ;
}

/// Computes one factor of the sine's series.
fn series_step(square: i128, inner: i128, divisor: i128) -> (factor: i128)
    requires
        0 <= square <= FINE,
        0 <= inner <= FINE,
        1 <= divisor,
    ensures
        factor == series_factor(square as int, inner as int, divisor as int),
        0 <= factor <= FINE,
{
    proof {
        lemma_series_factor_range(square as int, inner as int, divisor as int);
    }
    assert(0 <= square * inner <= FINE * FINE) by (nonlinear_arith)
        requires
            0 <= square <= FINE,
            0 <= inner <= FINE,
    ;
    FINE - square * inner / FINE / divisor
}

/// Computes the sine of an angle of the first eighth.
pub fn sine_of_octant(r: i64) -> (sine: i64)
    requires
        0 <= r <= EIGHTH_TURN,
    ensures
        sine == octant_sine(r as int),
        0 <= sine <= r,
{
    proof {
        lemma_octant_sine_range(r as int);
    }
    let angle: i128 = r as i128;
    assert(0 <= angle * angle <= FINE) by (nonlinear_arith)
        requires
            0 <= angle <= 785_398,
            FINE == 1_000_000_000_000,
    ;
    let square: i128 = angle * angle;
    let ninth: i128 = series_step(square, FINE, 72);
    let seventh: i128 = series_step(square, ninth, 42);
    let fifth: i128 = series_step(square, seventh, 20);
    let third: i128 = series_step(square, fifth, 6);
    assert(0 <= angle * third <= FINE * FINE) by (nonlinear_arith)
        requires
            0 <= angle <= FINE,
            0 <= third <= FINE,
    ;
    (angle * third / FINE) as i64
}

} // verus!
