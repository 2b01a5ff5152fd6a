//! The simulation around the creatures: where they are born, how each one wanders in a
//! tick, and the count of what a frame has computed.

use vstd::prelude::*;
use rand::Rng;
use rand::rngs::ThreadRng;
use crate::creature::Axis;
use crate::creature::Creature;
use crate::creature::CreatureModel;
use crate::creature::Position;
use crate::creature::STEADY_MAX_STEP;
use crate::creature::STEADY_MAX_TURN;
use crate::fixed::ONE;
use crate::heading::FULL_TURN;

verus! {

/// The generator of random numbers that each thread owns. Nothing is known of its state.
#[verifier::external_type_specification]
#[verifier::external_body]
pub struct ExThreadRng(rand::rngs::ThreadRng);

/// Creatures are born within this distance of the origin along each axis: two hundred
/// units.
pub const BIRTH_REACH: i64 = 200_000_000;

/// Calls `rand::thread_rng`, which hands out the calling thread's generator. Nothing is
/// claimed of it.
#[verifier::external_body]
fn thread_rng() -> ThreadRng {
    rand::thread_rng()
}

/// Calls `rand::Rng::gen_range` on the half-open range from `low` to `high`. The claim
/// is that the number drawn lies in that range; the range must not be empty, since the
/// call panics on an empty one.
#[verifier::external_body]
fn gen_range(rng: &mut ThreadRng, low: i64, high: i64) -> (drawn: i64)
    requires
        low < high,
    ensures
        low <= drawn < high,
{
    rng.gen_range(low..high)
}

/// Whether `after` is what one tick of `elapsed` time can make of `before`: the creature
/// has turned by a share of some turn within its limit, then moved by a share of some
/// distance below its longest step.
pub open spec fn wandered(before: CreatureModel, after: CreatureModel, elapsed: int) -> bool {
    exists|turn: int, distance: int|
        {
            &&& -before.max_turn < turn < before.max_turn
            &&& 0 <= distance < before.max_step
            &&& after == #[trigger] before.advanced(turn, distance, elapsed)
        }
}

/// Whether a creature is as it is born: steady, with full levels, somewhere in the square
/// of births, with a heading in range.
pub open spec fn newborn(m: CreatureModel) -> bool {
    &&& -BIRTH_REACH <= m.x < BIRTH_REACH
    &&& -BIRTH_REACH <= m.y < BIRTH_REACH
    &&& 0 <= m.angle < FULL_TURN
    &&& m.health == ONE
    &&& m.satiety == ONE
    &&& m.water == ONE
    &&& m.max_step == STEADY_MAX_STEP
    &&& m.max_turn == STEADY_MAX_TURN
    &&& m.axis == Axis::X
}

/// A tick keeps the heading within a full turn and touches neither the limits nor the
/// vital levels.
pub proof fn lemma_wandered_keeps(before: CreatureModel, after: CreatureModel, elapsed: int)
    requires
        wandered(before, after, elapsed),
    ensures
        0 <= after.angle < FULL_TURN,
        after.max_step == before.max_step,
        after.max_turn == before.max_turn,
        after.axis == before.axis,
        after.health == before.health,
        after.satiety == before.satiety,
        after.water == before.water,
{
}

/// The count of what has been computed since it was last taken.
#[derive(Debug)]
pub struct ComputationCounter {
    count: u32,
}

impl View for ComputationCounter {
    type V = nat;

    closed spec fn view(&self) -> nat {
        self.count as nat
    }
}

impl Default for ComputationCounter {
    fn default() -> (counter: Self)
        ensures
            counter@ == 0,
    {
        Self { count: 0 }
    }
}

impl ComputationCounter {
    /// A counter at zero.
    pub fn new() -> (counter: Self)
        ensures
            counter@ == 0,
    {
        Self { count: 0 }
    }

    /// The count so far.
    pub fn count(&self) -> (count: u32)
        ensures
            count == self@,
    {
        self.count
    }

    /// Counts one more computation.
    pub fn record(&mut self)
        requires
            old(self)@ < u32::MAX,
        ensures
            final(self)@ == old(self)@ + 1,
    {
        self.count = self.count + 1;
    }

    /// Hands out the count and starts again from zero.
    pub fn take(&mut self) -> (count: u32)
        ensures
            count == old(self)@,
            final(self)@ == 0,
    {
        let count: u32 = self.count;
        self.count = 0;
        count
    }
}

/// Brings one creature into being, at a random place in the square of births and with a
/// random heading.
pub fn spawn(rng: &mut ThreadRng) -> (creature: Creature)
    ensures
        newborn(creature@),
{
    let x: i64 = gen_range(rng, -BIRTH_REACH, BIRTH_REACH);
    let y: i64 = gen_range(rng, -BIRTH_REACH, BIRTH_REACH);
    let angle: i64 = gen_range(rng, 0, FULL_TURN);
    Creature::new(Position::new(x, y), angle)
}

/// Brings `count` creatures into being.
pub fn populate(count: usize) -> (creatures: Vec<Creature>)
    ensures
        creatures.len() == count,
        forall|i: int| 0 <= i < count ==> newborn(#[trigger] creatures[i]@),
{
    let mut rng = thread_rng();
    let mut creatures: Vec<Creature> = Vec::new();
    while creatures.len() < count
        invariant
            creatures.len() <= count,
            forall|i: int| 0 <= i < creatures.len() ==> newborn(#[trigger] creatures[i]@),
        decreases count - creatures.len(),
    {
        let creature = spawn(&mut rng);
        creatures.push(creature);
    }
    creatures
}

/// One tick for one creature: draws a turn strictly within its limit and a distance below
/// its longest step, both for a whole second, and advances it by their shares of
/// `elapsed`.
pub fn wander(creature: &mut Creature, rng: &mut ThreadRng, elapsed: i64)
    requires
        old(creature).max_step > 0,
        old(creature).max_turn > 0,
    ensures
        wandered(old(creature)@, final(creature)@, elapsed as int),
        0 <= final(creature).angle < FULL_TURN,
{
    let turn: i64 = gen_range(rng, 1 - creature.max_turn, creature.max_turn);
    let distance: i64 = gen_range(rng, 0, creature.max_step);
    creature.advance(turn, distance, elapsed);
}

/// One tick for every creature, each counted once.
pub fn random_movement(
    creatures: &mut Vec<Creature>,
    elapsed: i64,
    counter: &mut ComputationCounter,
)
    requires
        forall|i: int|
            0 <= i < old(creatures).len() ==> (#[trigger] old(creatures)[i]).max_step > 0 && old(
                creatures,
            )[i].max_turn > 0,
        old(counter)@ + old(creatures).len() <= u32::MAX,
    ensures
        final(creatures).len() == old(creatures).len(),
        forall|i: int|
            0 <= i < old(creatures).len() ==> wandered(
                old(creatures)[i]@,
                #[trigger] final(creatures)[i]@,
                elapsed as int,
            ),
        final(counter)@ == old(counter)@ + old(creatures).len(),
{
    let mut rng = thread_rng();
    let mut index: usize = 0;
    while index < creatures.len()
        invariant
            index <= creatures.len(),
            creatures.len() == old(creatures).len(),
            counter@ == old(counter)@ + index,
            old(counter)@ + old(creatures).len() <= u32::MAX,
            forall|i: int|
                0 <= i < index ==> wandered(
                    old(creatures)[i]@,
                    #[trigger] creatures[i]@,
                    elapsed as int,
                ),
            forall|i: int| index <= i < creatures.len() ==> creatures[i] == old(creatures)[i],
            forall|i: int|
                0 <= i < old(creatures).len() ==> (#[trigger] old(creatures)[i]).max_step > 0
                    && old(creatures)[i].max_turn > 0,
        decreases creatures.len() - index,
    {
        wander(&mut creatures[index], &mut rng, elapsed);
        counter.record();
        index = index + 1;
    }
}

} // verus!
