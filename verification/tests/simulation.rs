use creatures::creature::Axis;
use creatures::creature::Creature;
use creatures::creature::Position;
use creatures::fixed::ONE;
use creatures::heading::FULL_TURN;
use creatures::simulation::populate;
use creatures::simulation::random_movement;
use creatures::simulation::spawn;
use creatures::simulation::wander;
use creatures::simulation::ComputationCounter;
use creatures::simulation::BIRTH_REACH;

/// Whether a creature is as it is born.
fn is_newborn(creature: &Creature) -> bool {
    -BIRTH_REACH <= creature.position.x
        && creature.position.x < BIRTH_REACH
        && -BIRTH_REACH <= creature.position.y
        && creature.position.y < BIRTH_REACH
        && 0 <= creature.angle
        && creature.angle < FULL_TURN
        && creature.health() == ONE
        && creature.satiety() == ONE
        && creature.water() == ONE
        && creature.max_step == 1_000_000
        && creature.max_turn == 785_398
        && creature.axis == Axis::X
}

#[test]
fn counter_starts_at_zero() {
    let counter = ComputationCounter::new();
    assert_eq!(counter.count(), 0);
    let other = ComputationCounter::default();
    assert_eq!(other.count(), 0);
}

#[test]
fn counter_counts_and_starts_again() {
    let mut counter = ComputationCounter::new();
    counter.record();
    counter.record();
    counter.record();
    assert_eq!(counter.count(), 3);
    assert_eq!(counter.take(), 3);
    assert_eq!(counter.count(), 0);
    assert_eq!(counter.take(), 0);
    counter.record();
    assert_eq!(counter.take(), 1);
}

#[test]
fn birth_reach_is_two_hundred_units() {
    assert_eq!(BIRTH_REACH, 200 * ONE);
}

#[test]
fn spawned_creature_is_newborn() {
    let mut rng = rand::thread_rng();
    for _ in 0..200 {
        let creature = spawn(&mut rng);
        assert!(is_newborn(&creature));
    }
}

#[test]
fn populate_brings_as_many_as_asked() {
    assert_eq!(populate(0).len(), 0);
    assert_eq!(populate(1).len(), 1);
    let creatures = populate(20);
    assert_eq!(creatures.len(), 20);
    for creature in &creatures {
        assert!(is_newborn(creature));
    }
}

#[test]
fn births_are_spread_out() {
    let creatures = populate(200);
    let first = &creatures[0];
    assert!(creatures.iter().any(|c| c.position.x != first.position.x));
    assert!(creatures.iter().any(|c| c.position.y != first.position.y));
    assert!(creatures.iter().any(|c| c.angle != first.angle));
    assert!(creatures.iter().any(|c| c.position.x != -BIRTH_REACH));
    assert!(creatures.iter().any(|c| c.position.x < 0));
    assert!(creatures.iter().any(|c| c.position.x > 0));
    assert!(creatures.iter().any(|c| c.position.y < 0));
    assert!(creatures.iter().any(|c| c.position.y > 0));
    assert!(creatures.iter().any(|c| c.angle > 0));
}

#[test]
fn wander_stays_within_the_limits() {
    let mut rng = rand::thread_rng();
    for _ in 0..500 {
        let mut creature = Creature::new(Position::new(0, 0), 3_000_000);
        wander(&mut creature, &mut rng, ONE);
        assert!(0 <= creature.angle && creature.angle < FULL_TURN);
        let turned = creature.angle - 3_000_000;
        assert!(-785_398 < turned && turned < 785_398);
        let dx = creature.position.x;
        let dy = creature.position.y;
        assert!(dx * dx + dy * dy < ONE * ONE);
        assert_eq!(creature.max_step, 1_000_000);
        assert_eq!(creature.max_turn, 785_398);
        assert_eq!(creature.health(), ONE);
    }
}

#[test]
fn wander_scales_with_elapsed_time() {
    let mut rng = rand::thread_rng();
    for _ in 0..500 {
        let mut creature = Creature::new(Position::new(0, 0), 3_000_000);
        wander(&mut creature, &mut rng, 10_000);
        let turned = creature.angle - 3_000_000;
        assert!(-7_854 < turned && turned < 7_854);
        let dx = creature.position.x;
        let dy = creature.position.y;
        assert!(dx * dx + dy * dy < 10_000 * 10_000);
    }
    let mut still = Creature::new(Position::new(11, 12), 3_000_000);
    wander(&mut still, &mut rng, 0);
    assert_eq!((still.position.x, still.position.y, still.angle), (11, 12, 3_000_000));
}

#[test]
fn wander_draws_differ() {
    let mut rng = rand::thread_rng();
    let mut angles = Vec::new();
    let mut places = Vec::new();
    for _ in 0..200 {
        let mut creature = Creature::new(Position::new(0, 0), 3_000_000);
        wander(&mut creature, &mut rng, ONE);
        angles.push(creature.angle);
        places.push((creature.position.x, creature.position.y));
    }
    assert!(angles.iter().any(|a| *a != angles[0]));
    assert!(angles.iter().any(|a| *a < 3_000_000));
    assert!(angles.iter().any(|a| *a > 3_000_000));
    assert!(places.iter().any(|p| *p != places[0]));
    assert!(places.iter().any(|p| *p != (0, 0)));
}

#[test]
fn random_movement_counts_every_creature() {
    let mut creatures = populate(20);
    let mut counter = ComputationCounter::new();
    random_movement(&mut creatures, 16_667, &mut counter);
    assert_eq!(creatures.len(), 20);
    assert_eq!(counter.count(), 20);
    random_movement(&mut creatures, 16_667, &mut counter);
    assert_eq!(counter.count(), 40);
    assert_eq!(counter.take(), 40);
    for creature in &creatures {
        assert!(0 <= creature.angle && creature.angle < FULL_TURN);
        assert_eq!(creature.health(), ONE);
        assert_eq!(creature.max_step, 1_000_000);
    }
    let mut none: Vec<Creature> = Vec::new();
    random_movement(&mut none, 16_667, &mut counter);
    assert_eq!(counter.count(), 0);
}

#[test]
fn random_movement_moves_each_creature_at_most_a_step() {
    let mut creatures = Vec::new();
    for i in 0..50 {
        creatures.push(Creature::new(Position::new(i * 1_000, -i * 1_000), i * 100_000));
    }
    let mut counter = ComputationCounter::new();
    random_movement(&mut creatures, ONE, &mut counter);
    for (i, creature) in creatures.iter().enumerate() {
        let i = i as i64;
        let dx = creature.position.x - i * 1_000;
        let dy = creature.position.y + i * 1_000;
        assert!(dx * dx + dy * dy < ONE * ONE);
    }
    assert!(creatures.iter().enumerate().any(|(i, c)| c.position.x != i as i64 * 1_000));
}
