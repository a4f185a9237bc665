use simulation::brain::{Brain, LayerTopology};
use simulation::eye::{Eye, CELLS, FOV_ANGLE, FOV_RANGE};
use simulation::food::Food;
use simulation::geometry::Point2;
use simulation::scalar::{FRAC_PI_2, ONE, PI, TWO_PI};

fn wide_eye() -> Eye {
    Eye::new(ONE, TWO_PI, 4)
}

#[test]
fn default_eye_has_nine_cells() {
    let eye = Eye::default();
    assert_eq!(eye.cells(), 9);
    assert_eq!(CELLS, 9);
    assert_eq!(FOV_RANGE, 250_000);
    assert_eq!(FOV_ANGLE, 3_926_991);
    assert_eq!(eye, Eye::new(FOV_RANGE, FOV_ANGLE, CELLS));
}

#[test]
fn vision_without_food_is_all_zero() {
    let eye = Eye::default();
    let vision = eye.process_vision(Point2::new(500_000, 500_000), 0, &[], &[]);
    assert_eq!(vision, vec![0i64; 9]);
    let vision = wide_eye().process_vision(Point2::new(0, 0), PI, &[], &[]);
    assert_eq!(vision, vec![0i64; 4]);
}

#[test]
fn vision_has_one_entry_per_cell() {
    let foods = [
        Food::new(Point2::new(500_000, 600_000)),
        Food::new(Point2::new(100_000, 900_000)),
        Food::new(Point2::new(510_000, 500_000)),
    ];
    let bearings = [0, 700_000, -FRAC_PI_2];
    for cells in 1..20usize {
        let eye = Eye::new(300_000, FOV_ANGLE, cells);
        let vision = eye.process_vision(Point2::new(500_000, 500_000), 0, &foods, &bearings);
        assert_eq!(vision.len(), cells);
    }
}

#[test]
fn food_ahead_at_half_the_range_is_seen_half() {
    let eye = wide_eye();
    let foods = [Food::new(Point2::new(500_000, 700_000))];
    let vision = eye.process_vision(Point2::new(500_000, 200_000), 0, &foods, &[0]);
    assert_eq!(vision, vec![0, 0, 500_000, 0]);
    assert_eq!(vision.iter().filter(|v| **v != 0).count(), 1);
}

#[test]
fn food_beyond_the_range_is_not_seen() {
    let eye = Eye::new(250_000, TWO_PI, 4);
    let position = Point2::new(500_000, 500_000);
    let foods = [
        Food::new(Point2::new(500_000, 750_001)),
        Food::new(Point2::new(0, 0)),
        Food::new(Point2::new(750_000, 500_001)),
    ];
    let vision = eye.process_vision(position, 0, &foods, &[0, 2_356_194, -FRAC_PI_2]);
    assert_eq!(vision, vec![0, 0, 0, 0]);
}

#[test]
fn food_at_the_end_of_the_range_adds_nothing() {
    let eye = Eye::new(250_000, TWO_PI, 4);
    let foods = [Food::new(Point2::new(500_000, 750_000))];
    let vision = eye.process_vision(Point2::new(500_000, 500_000), 0, &foods, &[0]);
    assert_eq!(vision, vec![0, 0, 0, 0]);
}

#[test]
fn food_underfoot_is_seen_in_full() {
    let eye = wide_eye();
    let position = Point2::new(300_000, 300_000);
    let foods = [Food::new(position)];
    let vision = eye.process_vision(position, 0, &foods, &[0]);
    assert_eq!(vision, vec![0, 0, ONE, 0]);
    let vision = Eye::default().process_vision(position, 1_000_000, &foods, &[1_000_000]);
    assert_eq!(vision, vec![0, 0, 0, 0, ONE, 0, 0, 0, 0]);
}

#[test]
fn food_outside_the_angle_is_not_seen() {
    let eye = Eye::new(ONE, PI, 4);
    let position = Point2::new(500_000, 500_000);
    let foods = [Food::new(Point2::new(500_000, 400_000))];
    let vision = eye.process_vision(position, 0, &foods, &[PI]);
    assert_eq!(vision, vec![0, 0, 0, 0]);
    let vision = eye.process_vision(position, 0, &foods, &[FRAC_PI_2 + 1]);
    assert_eq!(vision, vec![0, 0, 0, 0]);
    let vision = eye.process_vision(position, 0, &foods, &[-FRAC_PI_2 - 1]);
    assert_eq!(vision, vec![0, 0, 0, 0]);
}

#[test]
fn food_on_the_far_edge_falls_in_the_last_cell() {
    let eye = wide_eye();
    let position = Point2::new(500_000, 500_000);
    let foods = [Food::new(Point2::new(500_000, 250_000))];
    let vision = eye.process_vision(position, 0, &foods, &[PI]);
    assert_eq!(vision, vec![0, 0, 0, 750_000]);
}

#[test]
fn food_on_the_near_edge_falls_in_the_first_cell() {
    let eye = Eye::new(ONE, PI, 4);
    let position = Point2::new(500_000, 500_000);
    let foods = [Food::new(Point2::new(400_000, 500_000))];
    let vision = eye.process_vision(position, 0, &foods, &[-1_570_796]);
    assert_eq!(vision, vec![900_000, 0, 0, 0]);
}

#[test]
fn heading_turns_the_field_of_view() {
    let eye = wide_eye();
    let position = Point2::new(500_000, 500_000);
    let foods = [Food::new(Point2::new(500_000, 600_000))];
    assert_eq!(eye.process_vision(position, 0, &foods, &[0]), vec![0, 0, 900_000, 0]);
    assert_eq!(eye.process_vision(position, FRAC_PI_2, &foods, &[0]), vec![0, 900_000, 0, 0]);
    assert_eq!(eye.process_vision(position, -FRAC_PI_2 - 10, &foods, &[0]), vec![0, 0, 0, 900_000]);
    assert_eq!(eye.process_vision(position, PI - 10, &foods, &[0]), vec![900_000, 0, 0, 0]);
    assert_eq!(eye.process_vision(position, PI, &foods, &[0]), vec![0, 0, 0, 900_000]);
}

#[test]
fn food_in_one_cell_adds_up() {
    let eye = wide_eye();
    let position = Point2::new(500_000, 500_000);
    let foods = [
        Food::new(Point2::new(500_000, 600_000)),
        Food::new(Point2::new(500_000, 700_000)),
        Food::new(position),
        Food::new(Point2::new(500_000, 400_000)),
    ];
    let vision = eye.process_vision(position, 0, &foods, &[0, 0, 1, -PI + 1]);
    assert_eq!(vision, vec![900_000, 0, 900_000 + 800_000 + ONE, 0]);
}

#[test]
fn bearings_far_out_are_wrapped() {
    let eye = wide_eye();
    let position = Point2::new(500_000, 500_000);
    let foods = [Food::new(Point2::new(500_000, 600_000))];
    let near = eye.process_vision(position, 0, &foods, &[5]);
    let far = eye.process_vision(position, i64::MIN, &foods, &[i64::MAX]);
    assert_eq!(near.len(), far.len());
    assert_eq!(far.iter().sum::<i64>(), 900_000);
    assert_eq!(eye.process_vision(position, 7 * TWO_PI, &foods, &[5 - 3 * TWO_PI]), near);
}

#[test]
fn topology_follows_the_eye() {
    let eye = Eye::default();
    let layers = Brain::topology(&eye);
    assert_eq!(
        layers,
        [LayerTopology { neurons: 9 }, LayerTopology { neurons: 18 }, LayerTopology { neurons: 2 }]
    );
    let layers = Brain::topology(&Eye::new(1, 1, 1));
    assert_eq!(layers[0].neurons, 1);
    assert_eq!(layers[1].neurons, 2);
    assert_eq!(layers[2].neurons, 2);
}

#[test]
fn weights_are_counted_with_biases() {
    assert_eq!(Brain::weights_for(&Eye::default()), Some(218));
    assert_eq!(Brain::weights_for(&Eye::new(1, 1, 1)), Some(10));
    assert_eq!(Brain::weights_for(&Eye::new(1, 1, 4)), Some(58));
    assert_eq!(Brain::weights_for(&Eye::new(1, 1, usize::MAX)), None);
}

#[test]
fn brain_gives_its_chromosome_back() {
    let eye = Eye::default();
    let chromosome: Vec<i64> = (0..218).map(|i| (i * 7919 % 2_000_001) - ONE).collect();
    let brain = Brain::from_chromosome(chromosome.clone(), &eye);
    assert_eq!(brain.as_chromosome(), chromosome);
    let again = Brain::from_chromosome(brain.as_chromosome(), &eye);
    assert_eq!(again.as_chromosome(), chromosome);
}
