use rand::rngs::StdRng;
use rand::SeedableRng;
use simulation::animal::{
    Animal, Direction, Response, EATING_RANGE, ROTATION_ACCEL, SPEED_ACCEL, SPEED_INITIAL,
    SPEED_MAX, SPEED_MIN,
};
use simulation::eye::Eye;
use simulation::food::Food;
use simulation::geometry::Point2;
use simulation::individual::AnimalIndividual;
use simulation::scalar::{FRAC_PI_2, ONE, PI};

fn genes() -> Vec<i64> {
    (0..218).map(|i| i * 1_000 - 100_000).collect()
}

fn animal_at(x: i64, y: i64, rotation: i64) -> Animal {
    Animal::at(Point2::new(x, y), rotation, genes())
}

#[test]
fn limits_are_what_they_are() {
    assert_eq!(SPEED_MIN, 1_000);
    assert_eq!(SPEED_MAX, 5_000);
    assert_eq!(SPEED_INITIAL, 2_000);
    assert_eq!(SPEED_ACCEL, 200_000);
    assert_eq!(ROTATION_ACCEL, FRAC_PI_2);
    assert_eq!(EATING_RANGE, 10_000);
}

#[test]
fn placed_animal_is_a_newborn() {
    let animal = animal_at(250_000, 750_000, -1_000);
    assert_eq!(animal.position(), Point2::new(250_000, 750_000));
    assert_eq!(animal.rotation(), -1_000);
    assert_eq!(animal.speed(), SPEED_INITIAL);
    assert_eq!(animal.satiation(), 0);
    assert_eq!(animal.eye(), Eye::default());
    assert_eq!(animal.as_chromosome(), genes());
}

#[test]
fn random_animal_is_a_newborn_in_the_world() {
    let mut rng = StdRng::seed_from_u64(7);
    for _ in 0..50 {
        let animal = Animal::random(&mut rng);
        let position = animal.position();
        assert!(0 <= position.x && position.x < ONE);
        assert!(0 <= position.y && position.y < ONE);
        assert!(-PI < animal.rotation() && animal.rotation() <= PI);
        assert_eq!(animal.speed(), SPEED_INITIAL);
        assert_eq!(animal.satiation(), 0);
        assert_eq!(animal.eye(), Eye::default());
        let chromosome = animal.as_chromosome();
        assert_eq!(chromosome.len(), 218);
        assert!(chromosome.iter().all(|w| -ONE <= *w && *w <= ONE));
    }
}

#[test]
fn random_animals_differ() {
    let mut rng = StdRng::seed_from_u64(11);
    let first = Animal::random(&mut rng);
    let second = Animal::random(&mut rng);
    assert_ne!(first.position(), second.position());
    assert_ne!(first.as_chromosome(), second.as_chromosome());
    let weights = first.as_chromosome();
    assert!(weights.iter().any(|w| *w != weights[0]));
    assert!(weights.iter().any(|w| *w != -ONE));
}

#[test]
fn random_food_lies_in_the_world_and_varies() {
    let mut rng = StdRng::seed_from_u64(3);
    let first = Food::random(&mut rng).position();
    let mut varied = false;
    for _ in 0..100 {
        let place = Food::random(&mut rng).position();
        assert!(0 <= place.x && place.x < ONE);
        assert!(0 <= place.y && place.y < ONE);
        varied = varied || place != first;
    }
    assert!(varied);
    assert!(first != Point2::new(0, 0) || varied);
}

#[test]
fn animal_from_chromosome_keeps_only_the_chromosome() {
    let mut rng = StdRng::seed_from_u64(5);
    let animal = Animal::from_chromosome(genes(), &mut rng);
    assert_eq!(animal.as_chromosome(), genes());
    assert_eq!(animal.speed(), SPEED_INITIAL);
    assert_eq!(animal.satiation(), 0);
    assert_eq!(animal.eye(), Eye::default());
    let position = animal.position();
    assert!(0 <= position.x && position.x < ONE);
    assert!(0 <= position.y && position.y < ONE);
    assert!(-PI < animal.rotation() && animal.rotation() <= PI);
}

#[test]
fn animal_reaches_food_within_the_eating_range() {
    let animal = animal_at(500_000, 500_000, 0);
    assert!(animal.reaches(&Food::new(Point2::new(500_000, 500_000))));
    assert!(animal.reaches(&Food::new(Point2::new(500_000, 510_000))));
    assert!(animal.reaches(&Food::new(Point2::new(494_000, 508_000))));
    assert!(!animal.reaches(&Food::new(Point2::new(500_000, 510_001))));
    assert!(!animal.reaches(&Food::new(Point2::new(490_000, 510_000))));
    assert!(!animal.reaches(&Food::new(Point2::new(0, 0))));
}

#[test]
fn animal_does_not_reach_food_just_beyond_the_eating_range() {
    let animal = animal_at(500_000, 500_000, 0);
    assert!(animal.reaches(&Food::new(Point2::new(510_000, 500_000))));
    assert!(!animal.reaches(&Food::new(Point2::new(510_000, 500_001))));
    assert!(!animal.reaches(&Food::new(Point2::new(499_999, 490_000))));
    assert!(animal.reaches(&Food::new(Point2::new(506_000, 492_000))));
    assert!(!animal.reaches(&Food::new(Point2::new(506_000, 491_999))));
    assert!(!animal.reaches(&Food::new(Point2::new(507_072, 507_071))));
    assert!(animal.reaches(&Food::new(Point2::new(507_071, 507_071))));
}

#[test]
fn placed_animal_keeps_its_heading_in_one_turn() {
    assert_eq!(animal_at(0, 0, PI).rotation(), PI);
    assert_eq!(animal_at(0, 0, -PI).rotation(), PI);
    assert_eq!(animal_at(0, 0, PI + 5).rotation(), -PI + 5);
    assert_eq!(animal_at(0, 0, 2 * PI + 7).rotation(), 7);
    assert_eq!(animal_at(0, 0, -4 * PI - 7).rotation(), -7);
    let far = animal_at(0, 0, i64::MAX).rotation();
    assert!(-PI < far && far <= PI);
    assert_eq!(far, PI - (PI as i128 - i64::MAX as i128).rem_euclid(2 * PI as i128) as i64);
    let low = animal_at(0, 0, i64::MIN).rotation();
    assert!(-PI < low && low <= PI);
}

#[test]
fn feeding_counts_up() {
    let mut animal = animal_at(1, 2, 3);
    animal.feed();
    assert_eq!(animal.satiation(), 1);
    animal.feed();
    animal.feed();
    assert_eq!(animal.satiation(), 3);
    assert_eq!(animal.position(), Point2::new(1, 2));
    assert_eq!(animal.rotation(), 3);
}

#[test]
fn steering_changes_speed_within_limits() {
    let mut animal = animal_at(0, 0, 0);
    animal.steer(Response { speed: 1_500, rotation: 0 });
    assert_eq!(animal.speed(), 3_500);
    animal.steer(Response { speed: 1_500, rotation: 0 });
    assert_eq!(animal.speed(), SPEED_MAX);
    animal.steer(Response { speed: -500, rotation: 0 });
    assert_eq!(animal.speed(), 4_500);
    animal.steer(Response { speed: i64::MIN, rotation: 0 });
    assert_eq!(animal.speed(), SPEED_MIN);
    animal.steer(Response { speed: i64::MAX, rotation: 0 });
    assert_eq!(animal.speed(), SPEED_MAX);
    animal.steer(Response { speed: -SPEED_ACCEL, rotation: 0 });
    assert_eq!(animal.speed(), SPEED_MIN);
    assert_eq!(animal.rotation(), 0);
}

#[test]
fn steering_turns_by_no_more_than_a_quarter() {
    let mut animal = animal_at(0, 0, 0);
    animal.steer(Response { speed: 0, rotation: 1_000 });
    assert_eq!(animal.rotation(), 1_000);
    animal.steer(Response { speed: 0, rotation: i64::MAX });
    assert_eq!(animal.rotation(), 1_000 + ROTATION_ACCEL);
    animal.steer(Response { speed: 0, rotation: i64::MIN });
    assert_eq!(animal.rotation(), 1_000);
    animal.steer(Response { speed: 0, rotation: -2_000_000 });
    assert_eq!(animal.rotation(), 1_000 - ROTATION_ACCEL);
    assert_eq!(animal.speed(), SPEED_INITIAL);
}

#[test]
fn steering_keeps_the_heading_in_one_turn() {
    let mut animal = animal_at(0, 0, PI);
    animal.steer(Response { speed: 0, rotation: 1 });
    assert_eq!(animal.rotation(), -PI + 1);
    animal.steer(Response { speed: 0, rotation: -1 });
    assert_eq!(animal.rotation(), PI);
    let mut animal = animal_at(0, 0, -PI + 1);
    animal.steer(Response { speed: 0, rotation: -FRAC_PI_2 });
    assert_eq!(animal.rotation(), PI + 1 - FRAC_PI_2);
}

#[test]
fn advancing_moves_by_the_speed() {
    let mut animal = animal_at(500_000, 500_000, 0);
    animal.advance(Direction { x: 0, y: ONE });
    assert_eq!(animal.position(), Point2::new(500_000, 502_000));
    animal.advance(Direction { x: -ONE, y: 0 });
    assert_eq!(animal.position(), Point2::new(498_000, 502_000));
    animal.advance(Direction { x: 600_000, y: -800_000 });
    assert_eq!(animal.position(), Point2::new(499_200, 500_400));
    animal.advance(Direction { x: 0, y: 0 });
    assert_eq!(animal.position(), Point2::new(499_200, 500_400));
}

#[test]
fn advancing_rounds_down() {
    let mut animal = animal_at(500_000, 500_000, 0);
    animal.advance(Direction { x: 1, y: -1 });
    assert_eq!(animal.position(), Point2::new(500_000, 499_999));
    animal.advance(Direction { x: 499, y: -499 });
    assert_eq!(animal.position(), Point2::new(500_000, 499_998));
    animal.advance(Direction { x: 500, y: -500 });
    assert_eq!(animal.position(), Point2::new(500_001, 499_997));
}

#[test]
fn advancing_wraps_around_the_world() {
    let mut animal = animal_at(ONE - 1, 0, 0);
    animal.advance(Direction { x: ONE, y: -ONE });
    assert_eq!(animal.position(), Point2::new(1_999, ONE - 2_000));
    animal.advance(Direction { x: -ONE, y: ONE });
    assert_eq!(animal.position(), Point2::new(ONE - 1, 0));
    let mut animal = animal_at(0, ONE - 1, 0);
    animal.steer(Response { speed: i64::MAX, rotation: 0 });
    animal.advance(Direction { x: -ONE, y: ONE });
    assert_eq!(animal.position(), Point2::new(ONE - 5_000, 4_999));
    for _ in 0..1_000 {
        animal.advance(Direction { x: ONE, y: ONE });
        let place = animal.position();
        assert!(0 <= place.x && place.x < ONE && 0 <= place.y && place.y < ONE);
    }
}

#[test]
fn animal_sees_through_its_eye() {
    let animal = animal_at(500_000, 500_000, 0);
    let foods = [
        Food::new(Point2::new(500_000, 600_000)),
        Food::new(Point2::new(500_000, 900_000)),
        Food::new(Point2::new(500_000, 500_000)),
    ];
    let bearings = [0, 0, -1_900_000];
    let vision = animal.see(&foods, &bearings);
    assert_eq!(vision, vec![ONE, 0, 0, 0, 600_000, 0, 0, 0, 0]);
    assert_eq!(vision, animal.eye().process_vision(animal.position(), 0, &foods, &bearings));
}

#[test]
fn individual_stands_for_its_animal() {
    let mut animal = animal_at(10, 20, 30);
    animal.feed();
    animal.feed();
    let individual = AnimalIndividual::from_animal(&animal);
    assert_eq!(individual.fitness(), 2);
    assert_eq!(individual.chromosome(), &genes());
}

#[test]
fn created_individual_has_no_fitness() {
    let individual = AnimalIndividual::create(vec![1, 2, 3]);
    assert_eq!(individual.fitness(), 0);
    assert_eq!(individual.chromosome(), &vec![1, 2, 3]);
}

#[test]
fn individual_becomes_a_newborn() {
    let mut rng = StdRng::seed_from_u64(9);
    let mut animal = animal_at(10, 20, 30);
    animal.feed();
    animal.steer(Response { speed: 1_000, rotation: 0 });
    let reborn = AnimalIndividual::from_animal(&animal).into_animal(&mut rng);
    assert_eq!(reborn.as_chromosome(), genes());
    assert_eq!(reborn.satiation(), 0);
    assert_eq!(reborn.speed(), SPEED_INITIAL);
    assert_eq!(reborn.eye(), Eye::default());
}
