//! The creature: a position, a heading, limits on how far it steps and turns, and three
//! vital levels.

use vstd::prelude::*;
use crate::fixed::ONE;
use crate::fixed::clamp;
use crate::fixed::clamp_to;
use crate::fixed::lemma_scaled_bound;
use crate::fixed::lemma_scaled_size;
use crate::fixed::magnitude;
use crate::fixed::narrow;
use crate::fixed::saturate;
use crate::fixed::scale;
use crate::fixed::scaled;
use crate::heading::FULL_TURN;
use crate::heading::QUARTER_TURN;
use crate::heading::direction;
use crate::sine::octant_sine;
use crate::heading::direction_of;
use crate::heading::is_unit;
use crate::heading::lemma_direction_unit;
use crate::heading::quarter_turned;
use crate::heading::wrap;
use crate::heading::wrap_angle;

verus! {

/// The longest step of a steady creature: one unit.
pub const STEADY_MAX_STEP: i64 = 1_000_000;

/// The sharpest turn of a steady creature: an eighth of a turn.
pub const STEADY_MAX_TURN: i64 = 785_398;

/// The longest step of a swift creature: a hundred units.
pub const SWIFT_MAX_STEP: i64 = 100_000_000;

/// The sharpest turn of a swift creature: a full turn.
pub const SWIFT_MAX_TURN: i64 = 6_283_184;

/// A point of the plane, in millionths of a unit.
#[derive(Debug, Clone, Copy)]
pub struct Position {
    pub x: i64,
    pub y: i64,
}

impl Position {
    /// The point with the given coordinates.
    pub fn new(x: i64, y: i64) -> (position: Self)
        ensures
            position.x == x,
            position.y == y,
    {
        Self { x, y }
    }
}

/// The axis along which a heading of zero points. Headings grow counter-clockwise from it.
#[derive(Debug, Clone, Copy, PartialEq, Eq, Structural)]
pub enum Axis {
    /// Heading zero points along +x.
    X,
    /// Heading zero points along +y.
    Y,
}

/// A vital level: a number that is never below zero nor above `ONE`.
#[derive(Debug, Clone, Copy)]
pub struct Vital {
    level: i64,
}

impl View for Vital {
    type V = int;

    closed spec fn view(&self) -> int {
        self.level as int
    }
}

impl Vital {
    #[verifier::type_invariant]
    spec fn in_range(self) -> bool {
        0 <= self.level <= ONE
    }

    /// The full level.
    pub fn full() -> (vital: Self)
        ensures
            vital@ == ONE,
    {
        Self { level: ONE }
    }

    /// The level nearest to `value`.
    pub fn saturated(value: i64) -> (vital: Self)
        ensures
            vital@ == clamp(value as int, 0, ONE as int),
    {
        Self { level: clamp_to(value, 0, ONE) }
    }

    /// The level as a number.
    pub fn level(&self) -> (level: i64)
        ensures
            level == self@,
            0 <= level <= ONE,
    {
        proof {
            use_type_invariant(self);
        }
        self.level
    }
}

/// What a creature is, as plain numbers.
pub struct CreatureModel {
    pub x: int,
    pub y: int,
    pub angle: int,
    pub health: int,
    pub satiety: int,
    pub water: int,
    pub max_step: int,
    pub max_turn: int,
    pub axis: Axis,
}

impl CreatureModel {
    /// Whether a creature can hold these numbers.
    pub open spec fn representable(self) -> bool {
        &&& i64::MIN <= self.x <= i64::MAX
        &&& i64::MIN <= self.y <= i64::MAX
        &&& i64::MIN <= self.angle <= i64::MAX
        &&& 0 <= self.health <= ONE
        &&& 0 <= self.satiety <= ONE
        &&& 0 <= self.water <= ONE
        &&& i64::MIN <= self.max_step <= i64::MAX
        &&& i64::MIN <= self.max_turn <= i64::MAX
    }

    /// The turn that a request for `delta` is cut down to.
    pub open spec fn turn(self, delta: int) -> int {
        clamp(delta, -self.max_turn, self.max_turn)
    }

    /// The creature after a request to turn by `delta`.
    pub open spec fn rotated(self, delta: int) -> Self {
        CreatureModel { angle: wrap(self.angle + self.turn(delta)), ..self }
    }

    /// The step that a request for `distance` is cut down to.
    pub open spec fn step(self, distance: int) -> int {
        clamp(distance, 0, self.max_step)
    }

    /// The direction that the creature faces: that of its heading, turned by a quarter
    /// where the heading is counted from +y.
    pub open spec fn facing(self) -> (int, int) {
        match self.axis {
            Axis::X => direction(self.angle),
            Axis::Y => quarter_turned(direction(self.angle)),
        }
    }

    /// How far along each axis a request to move by `distance` takes the creature.
    pub open spec fn displacement(self, distance: int) -> (int, int) {
        (
            scaled(self.facing().0, self.step(distance)),
            scaled(self.facing().1, self.step(distance)),
        )
    }

    /// The creature after a request to move by `distance`. A coordinate stops at the end
    /// of what an `i64` can hold.
    pub open spec fn moved(self, distance: int) -> Self {
        CreatureModel {
            x: saturate(self.x + self.displacement(distance).0),
            y: saturate(self.y + self.displacement(distance).1),
            ..self
        }
    }

    /// The creature after one tick of `elapsed` time, with the turn and the distance
    /// that were drawn for one whole second.
    pub open spec fn advanced(self, turn: int, distance: int, elapsed: int) -> Self {
        self.rotated(saturate(scaled(turn, elapsed))).moved(saturate(scaled(distance, elapsed)))
    }
}

/// A unit direction turned by a quarter is a unit direction.
proof fn lemma_cross_unit(v: (int, int))
    requires
        is_unit(v),
    ensures
        is_unit(quarter_turned(v)),
{
    assert((-v.1) * (-v.1) == v.1 * v.1) by (nonlinear_arith);
}

/// A request to move by nothing or backward leaves the creature where it is.
pub proof fn lemma_backward_request_stays(m: CreatureModel, distance: int)
    requires
        m.representable(),
        m.max_step >= 0,
        distance <= 0,
    ensures
        m.moved(distance) == m,
{
    let (c, s) = m.facing();
    assert(c * 0 == 0 && s * 0 == 0) by (nonlinear_arith);
}

/// The creature never moves farther than the step it was cut down to, and falls short of
/// it by rounding alone: with one unit more on each component the displacement is longer
/// than the step shortened by two millionths of its square. Where no coordinate reaches
/// the end of the range, the position changes by exactly the displacement.
pub proof fn lemma_displacement_length(m: CreatureModel, distance: int)
    requires
        m.max_step >= 0,
    ensures
        ({
            let (dx, dy) = m.displacement(distance);
            let step = m.step(distance);
            &&& 0 <= step <= m.max_step
            &&& dx * dx + dy * dy <= step * step
            &&& ONE * ((magnitude(dx) + 1) * (magnitude(dx) + 1) + (magnitude(dy) + 1) * (
            magnitude(dy) + 1)) > (ONE - 2) * (step * step)
            &&& i64::MIN <= m.x + dx <= i64::MAX ==> m.moved(distance).x == m.x + dx
            &&& i64::MIN <= m.y + dy <= i64::MAX ==> m.moved(distance).y == m.y + dy
        }),
{
    let one = ONE as int;
    let (c, s) = m.facing();
    let (dx, dy) = m.displacement(distance);
    let t = m.step(distance);
    lemma_direction_unit(m.angle);
    lemma_cross_unit(direction(m.angle));
    assert(is_unit((c, s)));
    lemma_scaled_size(c, t);
    lemma_scaled_size(s, t);
    let ax = magnitude(dx);
    let ay = magnitude(dy);
    let mc = magnitude(c);
    let ms = magnitude(s);
    assert(magnitude(t) == t);
    assert(ax * ax == dx * dx && ay * ay == dy * dy) by (nonlinear_arith)
        requires
            ax == magnitude(dx),
            ay == magnitude(dy),
    ;
    assert(mc * mc == c * c && ms * ms == s * s) by (nonlinear_arith)
        requires
            mc == magnitude(c),
            ms == magnitude(s),
    ;
    // The squares of both sides of each rounding bound.
    assert((one * ax) * (one * ax) <= (mc * t) * (mc * t)) by (nonlinear_arith)
        requires
            0 <= one * ax <= mc * t,
    ;
    assert((one * ay) * (one * ay) <= (ms * t) * (ms * t)) by (nonlinear_arith)
        requires
            0 <= one * ay <= ms * t,
    ;
    assert((mc * t) * (mc * t) < (one * (ax + 1)) * (one * (ax + 1))) by (nonlinear_arith)
        requires
            0 <= mc * t < one * (ax + 1),
    ;
    assert((ms * t) * (ms * t) < (one * (ay + 1)) * (one * (ay + 1))) by (nonlinear_arith)
        requires
            0 <= ms * t < one * (ay + 1),
    ;
    let norm = c * c + s * s;
    let tt = t * t;
    assert((mc * t) * (mc * t) + (ms * t) * (ms * t) == norm * tt) by (nonlinear_arith)
        requires
            mc * mc == c * c,
            ms * ms == s * s,
            norm == c * c + s * s,
            tt == t * t,
    ;
    let short = ax * ax + ay * ay;
    let long = (ax + 1) * (ax + 1) + (ay + 1) * (ay + 1);
    assert((one * ax) * (one * ax) + (one * ay) * (one * ay) == one * one * short)
        by (nonlinear_arith)
        requires
            short == ax * ax + ay * ay,
    ;
    assert((one * (ax + 1)) * (one * (ax + 1)) + (one * (ay + 1)) * (one * (ay + 1)) == one
        * one * long) by (nonlinear_arith)
        requires
            long == (ax + 1) * (ax + 1) + (ay + 1) * (ay + 1),
    ;
    assert(one * one * short <= norm * tt);
    assert(norm * tt < one * one * long);
    assert(tt >= 0) by (nonlinear_arith)
        requires
            tt == t * t,
    ;
    assert(short <= tt) by (nonlinear_arith)
        requires
            one * one * short <= norm * tt,
            norm <= one * one,
            tt >= 0,
            one > 0,
    ;
    assert(one * long > (one - 2) * tt) by (nonlinear_arith)
        requires
            norm * tt < one * one * long,
            one * one - 2 * one <= norm,
            tt >= 0,
            one > 0,
    ;
}

/// Along an axis nothing is rounded: where the heading is a whole number of quarters,
/// the displacement is exactly as long as the step.
pub proof fn lemma_axis_step_exact(m: CreatureModel, distance: int)
    requires
        wrap(m.angle) % (QUARTER_TURN as int) == 0,
    ensures
        ({
            let (dx, dy) = m.displacement(distance);
            let step = m.step(distance);
            dx * dx + dy * dy == step * step
        }),
{
    let step = m.step(distance);
    assert(octant_sine(0) == 0);
    assert((-step) * (-step) == step * step) by (nonlinear_arith);
}

/// A request to move by `max_step` or more moves the creature by `max_step`, within
/// rounding.
pub proof fn lemma_full_step_length(m: CreatureModel, distance: int)
    requires
        m.max_step >= 0,
        distance >= m.max_step,
    ensures
        ({
            let (dx, dy) = m.displacement(distance);
            let limit = m.max_step;
            &&& m.step(distance) == limit
            &&& dx * dx + dy * dy <= limit * limit
            &&& ONE * ((magnitude(dx) + 1) * (magnitude(dx) + 1) + (magnitude(dy) + 1) * (
            magnitude(dy) + 1)) > (ONE - 2) * (limit * limit)
        }),
{
    lemma_displacement_length(m, distance);
}

/// Every request at or above the limit has the effect of the limit itself: of two
/// creatures alike in place, heading, axis and limit, the one asked for the limit or more
/// ends where the one asked for the limit does.
pub proof fn lemma_request_above_limit(m: CreatureModel, other: CreatureModel, distance: int)
    requires
        m.max_step >= 0,
        distance >= m.max_step,
        other.x == m.x,
        other.y == m.y,
        other.angle == m.angle,
        other.axis == m.axis,
        other.max_step == m.max_step,
    ensures
        m.moved(distance) == m.moved(m.max_step),
        m.moved(distance).x == other.moved(other.max_step).x,
        m.moved(distance).y == other.moved(other.max_step).y,
{
}

/// Whatever turn is asked for, the heading afterwards lies within a full turn.
pub proof fn lemma_rotated_in_range(m: CreatureModel, delta: int)
    ensures
        0 <= m.rotated(delta).angle < FULL_TURN,
{
}

/// The turn is cut down before the heading is wrapped: the heading changes by a turn of
/// at most `max_turn`, up to whole turns, however much was asked for. A request within
/// the limit is carried out as asked.
pub proof fn lemma_rotation_bounded(m: CreatureModel, delta: int)
    requires
        m.max_turn >= 0,
    ensures
        -m.max_turn <= m.turn(delta) <= m.max_turn,
        -m.max_turn <= delta <= m.max_turn ==> m.turn(delta) == delta,
        delta > m.max_turn ==> m.turn(delta) == m.max_turn,
        delta < -m.max_turn ==> m.turn(delta) == -m.max_turn,
        (m.rotated(delta).angle - (m.angle + m.turn(delta))) % (FULL_TURN as int) == 0,
        0 <= m.angle + m.turn(delta) < FULL_TURN ==> m.rotated(delta).angle == m.angle + m.turn(
            delta,
        ),
{
    let full = FULL_TURN as int;
    let sum = m.angle + m.turn(delta);
    vstd::arithmetic::div_mod::lemma_fundamental_div_mod(sum, full);
    let k = sum / full;
    assert(sum % full - sum == full * (-k)) by (nonlinear_arith)
        requires
            sum == full * k + sum % full,
    ;
    vstd::arithmetic::div_mod::lemma_mod_multiples_basic(-k, full);
    assert(full * (-k) == (-k) * full) by (nonlinear_arith);
    if 0 <= sum < full {
        vstd::arithmetic::div_mod::lemma_small_mod(sum as nat, full as nat);
    }
}

/// A creature on the plane.
#[derive(Debug)]
pub struct Creature {
    /// Where the creature is.
    pub position: Position,
    /// Its heading, in millionths of a radian.
    pub angle: i64,
    /// How healthy it is.
    pub health: Vital,
    /// How well fed it is.
    pub satiety: Vital,
    /// How well watered it is.
    pub water: Vital,
    /// The longest step it takes at once.
    pub max_step: i64,
    /// The sharpest turn it makes at once.
    pub max_turn: i64,
    /// The axis from which its heading is counted.
    pub axis: Axis,
}

impl View for Creature {
    type V = CreatureModel;

    open spec fn view(&self) -> CreatureModel {
        CreatureModel {
            x: self.position.x as int,
            y: self.position.y as int,
            angle: self.angle as int,
            health: self.health@,
            satiety: self.satiety@,
            water: self.water@,
            max_step: self.max_step as int,
            max_turn: self.max_turn as int,
            axis: self.axis,
        }
    }
}

impl Creature {
    /// A steady creature at `position` with heading `angle`, which is kept as given. It
    /// steps up to one unit, turns up to an eighth of a turn, counts its heading from +x
    /// and starts with full vital levels.
    pub fn new(position: Position, angle: i64) -> (creature: Self)
        ensures
            creature@ == (CreatureModel {
                x: position.x as int,
                y: position.y as int,
                angle: angle as int,
                health: ONE as int,
                satiety: ONE as int,
                water: ONE as int,
                max_step: STEADY_MAX_STEP as int,
                max_turn: STEADY_MAX_TURN as int,
                axis: Axis::X,
            }),
    {
        Self {
            position,
            angle,
            health: Vital::full(),
            satiety: Vital::full(),
            water: Vital::full(),
            max_step: STEADY_MAX_STEP,
            max_turn: STEADY_MAX_TURN,
            axis: Axis::X,
        }
    }

    /// A swift creature at `position` with heading `angle`, which is kept as given. It
    /// steps up to a hundred units, turns up to a full turn and counts its heading from +y.
    pub fn new_swift(position: Position, angle: i64) -> (creature: Self)
        ensures
            creature@ == (CreatureModel {
                x: position.x as int,
                y: position.y as int,
                angle: angle as int,
                health: ONE as int,
                satiety: ONE as int,
                water: ONE as int,
                max_step: SWIFT_MAX_STEP as int,
                max_turn: SWIFT_MAX_TURN as int,
                axis: Axis::Y,
            }),
    {
        Self {
            position,
            angle,
            health: Vital::full(),
            satiety: Vital::full(),
            water: Vital::full(),
            max_step: SWIFT_MAX_STEP,
            max_turn: SWIFT_MAX_TURN,
            axis: Axis::Y,
        }
    }

    /// The direction that the creature faces, as the pair of its components along x and
    /// along y. Whatever draws the creature turns it to this direction.
    pub fn facing(&self) -> (v: (i64, i64))
        ensures
            (v.0 as int, v.1 as int) == self@.facing(),
            is_unit((v.0 as int, v.1 as int)),
    {
        let ahead: (i64, i64) = direction_of(self.angle);
        proof {
            lemma_cross_unit((ahead.0 as int, ahead.1 as int));
        }
        match self.axis {
            Axis::X => ahead,
            Axis::Y => (-ahead.1, ahead.0),
        }
    }

    /// Moves the creature along its heading by `distance`, cut down to the range from
    /// zero to `max_step`. Nothing but the position changes.
    pub fn move_forward(&mut self, distance: i64)
        requires
            old(self).max_step >= 0,
        ensures
            final(self)@ == old(self)@.moved(distance as int),
            distance <= 0 ==> final(self)@ == old(self)@,
    {
        let step: i64 = clamp_to(distance, 0, self.max_step);
        let facing: (i64, i64) = self.facing();
        proof {
            lemma_scaled_bound(facing.0 as int, step as int);
            lemma_scaled_bound(facing.1 as int, step as int);
        }
        let dx: i128 = scale(facing.0, step);
        let dy: i128 = scale(facing.1, step);
        self.position.x = narrow(self.position.x as i128 + dx);
        self.position.y = narrow(self.position.y as i128 + dy);
    }

    /// Turns the creature by `delta`, cut down to the range from `-max_turn` to
    /// `max_turn`, and brings the heading back into the range of a full turn. Nothing but
    /// the heading changes.
    pub fn rotate(&mut self, delta: i64)
        requires
            old(self).max_turn >= 0,
        ensures
            final(self)@ == old(self)@.rotated(delta as int),
            0 <= final(self).angle < FULL_TURN,
    {
        let turn: i64 = clamp_to(delta, -self.max_turn, self.max_turn);
        self.angle = wrap_angle(self.angle as i128 + turn as i128);
    }

    /// One tick of `elapsed` time: the creature turns by the share of `turn` that falls
    /// to that time, then moves by the share of `distance`.
    pub fn advance(&mut self, turn: i64, distance: i64, elapsed: i64)
        requires
            old(self).max_step >= 0,
            old(self).max_turn >= 0,
        ensures
            final(self)@ == old(self)@.advanced(turn as int, distance as int, elapsed as int),
            0 <= final(self).angle < FULL_TURN,
    {
        self.rotate(narrow(scale(turn, elapsed)));
        self.move_forward(narrow(scale(distance, elapsed)));
    }

    /// Sets the health to `value`, cut down to the range from zero to `ONE`.
    pub fn set_health(&mut self, value: i64)
        ensures
            final(self)@ == (CreatureModel {
                health: clamp(value as int, 0, ONE as int),
                ..old(self)@
            }),
            0 <= final(self)@.health <= ONE,
    {
        self.health = Vital::saturated(value);
    }

    /// Sets the satiety to `value`, cut down to the range from zero to `ONE`.
    pub fn set_satiety(&mut self, value: i64)
        ensures
            final(self)@ == (CreatureModel {
                satiety: clamp(value as int, 0, ONE as int),
                ..old(self)@
            }),
            0 <= final(self)@.satiety <= ONE,
    {
        self.satiety = Vital::saturated(value);
    }

    /// Sets the water to `value`, cut down to the range from zero to `ONE`.
    pub fn set_water(&mut self, value: i64)
        ensures
            final(self)@ == (CreatureModel {
                water: clamp(value as int, 0, ONE as int),
                ..old(self)@
            }),
            0 <= final(self)@.water <= ONE,
    {
        self.water = Vital::saturated(value);
    }

    /// The health, from zero to `ONE`.
    pub fn health(&self) -> (level: i64)
        ensures
            level == self@.health,
            0 <= level <= ONE,
    {
        self.health.level()
    }

    /// The satiety, from zero to `ONE`.
    pub fn satiety(&self) -> (level: i64)
        ensures
            level == self@.satiety,
            0 <= level <= ONE,
    {
        self.satiety.level()
    }

    /// The water, from zero to `ONE`.
    pub fn water(&self) -> (level: i64)
        ensures
            level == self@.water,
            0 <= level <= ONE,
    {
        self.water.level()
    }
}

} // verus!
