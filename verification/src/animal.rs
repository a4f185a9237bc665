//! Animals: the agents of the simulation.

use vstd::prelude::*;
use crate::brain::{lemma_default_weight_count, weight_count, Brain};
use crate::eye::{Eye, CELLS};
use crate::food::Food;
use crate::geometry::{distance_squared, Point2};
use crate::random::draw;
use crate::scalar::{
    clamp, clamp_spec, wrap, wrap_angle, wrap_angle_spec, wrap_spec, FRAC_PI_2, ONE, PI, TWO_PI,
};

verus! {

/// The slowest that an animal moves, per step.
pub const SPEED_MIN: i64 = 1_000;

/// The fastest that an animal moves, per step.
pub const SPEED_MAX: i64 = 5_000;

/// The speed with which an animal is born.
pub const SPEED_INITIAL: i64 = 2_000;

/// The most that a brain can change the speed in one step.
pub const SPEED_ACCEL: i64 = 200_000;

/// The most that a brain can turn the animal in one step.
pub const ROTATION_ACCEL: i64 = FRAC_PI_2;

/// How near food must be for an animal to eat it.
pub const EATING_RANGE: i64 = 10_000;

/// What a brain answers to a vision: a change of speed and a turn.
#[derive(Clone, Copy, Debug, PartialEq, Eq, Structural)]
pub struct Response {
    pub speed: i64,
    pub rotation: i64,
}

/// The direction of a heading, as a vector of length `ONE`.
#[derive(Clone, Copy, Debug, PartialEq, Eq, Structural)]
pub struct Direction {
    pub x: i64,
    pub y: i64,
}

impl Direction {
    /// Neither component is longer than `ONE`.
    pub open spec fn wf(self) -> bool {
        &&& -ONE <= self.x <= ONE
        &&& -ONE <= self.y <= ONE
    }
}

/// An animal.
#[derive(Debug)]
pub struct Animal {
    position: Point2,
    rotation: i64,
    speed: i64,
    eye: Eye,
    satiation: usize,
    brain: Brain,
}

/// What an animal is, to a specification.
pub struct AnimalView {
    /// Where the animal is.
    pub position: Point2,
    /// Its heading, an angle.
    pub rotation: int,
    /// How far it moves in a step.
    pub speed: int,
    /// Its eye.
    pub eye: Eye,
    /// How much it has eaten in this generation.
    pub satiation: nat,
    /// The weights of its brain.
    pub brain: Seq<i64>,
}

impl View for Animal {
    type V = AnimalView;

    closed spec fn view(&self) -> AnimalView {
        AnimalView {
            position: self.position,
            rotation: self.rotation as int,
            speed: self.speed as int,
            eye: self.eye,
            satiation: self.satiation as nat,
            brain: self.brain@,
        }
    }
}

impl AnimalView {
    /// The animal is in the world, its heading is in `(-PI, PI]`, its speed
    /// is within the limits, and its brain fits its eye.
    pub open spec fn wf(self) -> bool {
        &&& self.position.in_world()
        &&& -PI < self.rotation <= PI
        &&& SPEED_MIN <= self.speed <= SPEED_MAX
        &&& self.eye.wf()
        &&& self.brain.len() == weight_count(self.eye.cells_spec())
        &&& self.satiation <= usize::MAX
    }

    /// Whether the animal is near enough to food at `food` to eat it:
    /// no farther away than `EATING_RANGE`.
    pub open spec fn reaches(self, food: Point2) -> bool {
        distance_squared(self.position, food) <= EATING_RANGE * EATING_RANGE
    }

    /// The animal after it has eaten once more.
    pub open spec fn fed(self) -> AnimalView {
        AnimalView { satiation: self.satiation + 1, ..self }
    }

    /// The change of speed that `response` asks for, as far as it is allowed.
    pub open spec fn thrust(response: Response) -> int {
        clamp_spec(response.speed as int, -SPEED_ACCEL as int, SPEED_ACCEL as int)
    }

    /// The turn that `response` asks for, as far as it is allowed.
    pub open spec fn turn(response: Response) -> int {
        clamp_spec(response.rotation as int, -ROTATION_ACCEL as int, ROTATION_ACCEL as int)
    }

    /// The animal after its brain has answered `response`: the speed changes
    /// by the thrust and stays within its limits, the heading by the turn.
    pub open spec fn steered(self, response: Response) -> AnimalView {
        AnimalView {
            speed: clamp_spec(
                self.speed + Self::thrust(response),
                SPEED_MIN as int,
                SPEED_MAX as int,
            ),
            rotation: wrap_angle_spec(self.rotation + Self::turn(response)),
            ..self
        }
    }

    /// The animal after it has moved by its speed along `direction`; what
    /// leaves the world on one side comes back in on the other.
    pub open spec fn moved(self, direction: Direction) -> AnimalView {
        AnimalView {
            position: Point2 {
                x: wrap_spec(
                    self.position.x + self.speed * direction.x / (ONE as int),
                    0,
                    ONE as int,
                ) as i64,
                y: wrap_spec(
                    self.position.y + self.speed * direction.y / (ONE as int),
                    0,
                    ONE as int,
                ) as i64,
            },
            ..self
        }
    }

    /// What the animal sees of `foods`, cell by cell.
    pub open spec fn sight(self, foods: Seq<Food>, bearings: Seq<i64>, cell: int) -> int {
        self.eye.cell_total(
            self.position,
            self.rotation,
            foods,
            bearings,
            cell,
            foods.len() as int,
        )
    }
}

impl Animal {
    /// The animal is well formed.
    pub open spec fn wf(self) -> bool {
        self@.wf()
    }

    /// A newborn animal with the given eye and brain, at a place and with a
    /// heading drawn from `rng`: first the place, then the heading.
    fn new(eye: Eye, brain: Brain, rng: &mut rand::rngs::StdRng) -> (r: Animal)
        requires
            eye.wf(),
            brain.wf(eye),
        ensures
            r.wf(),
            r@.eye == eye,
            r@.brain == brain@,
            r@.speed == SPEED_INITIAL,
            r@.satiation == 0,
    {
        let position: Point2 = Point2::random(rng);
        let angle: i64 = draw(rng, 0, TWO_PI);
        Animal {
            position,
            rotation: wrap_angle(angle as i128),
            speed: SPEED_INITIAL,
            eye,
            satiation: 0,
            brain,
        }
    }

    /// A newborn animal at `position`, heading towards `rotation`, with the
    /// default eye and the brain that `chromosome` describes. The heading
    /// may be any angle; it is kept as the same heading in `(-PI, PI]`.
    pub fn at(position: Point2, rotation: i64, chromosome: Vec<i64>) -> (r: Animal)
        requires
            position.in_world(),
            chromosome@.len() == weight_count(CELLS as int),
        ensures
            r.wf(),
            r@.position == position,
            r@.rotation == wrap_angle_spec(rotation as int),
            r@.eye.default_spec(),
            r@.brain == chromosome@,
            r@.speed == SPEED_INITIAL,
            r@.satiation == 0,
    {
        let eye: Eye = Eye::default();
        let brain: Brain = Brain::from_chromosome(chromosome, &eye);
        Animal {
            position,
            rotation: wrap_angle(rotation as i128),
            speed: SPEED_INITIAL,
            eye,
            satiation: 0,
            brain,
        }
    }

    /// A newborn animal with the default eye and a random brain, at a random
    /// place and with a random heading.
    pub fn random(rng: &mut rand::rngs::StdRng) -> (r: Animal)
        ensures
            r.wf(),
            r@.eye.default_spec(),
            r@.speed == SPEED_INITIAL,
            r@.satiation == 0,
            forall|i: int| 0 <= i < r@.brain.len() ==> -ONE <= #[trigger] r@.brain[i] <= ONE,
    {
        let eye: Eye = Eye::default();
        proof {
            lemma_default_weight_count();
        }
        let brain: Brain = Brain::random(rng, &eye);
        Self::new(eye, brain, rng)
    }

    /// A newborn animal with the default eye and the brain that
    /// `chromosome` describes, at a random place and with a random heading.
    /// Nothing else passes from one generation to the next.
    pub fn from_chromosome(chromosome: Vec<i64>, rng: &mut rand::rngs::StdRng) -> (r: Animal)
        requires
            chromosome@.len() == weight_count(CELLS as int),
        ensures
            r.wf(),
            r@.eye.default_spec(),
            r@.brain == chromosome@,
            r@.speed == SPEED_INITIAL,
            r@.satiation == 0,
    {
        let eye: Eye = Eye::default();
        let brain: Brain = Brain::from_chromosome(chromosome, &eye);
        Self::new(eye, brain, rng)
    }

    /// The chromosome that describes the animal: that of its brain.
    pub fn as_chromosome(&self) -> (r: Vec<i64>)
        ensures
            r@ == self@.brain,
    {
        self.brain.as_chromosome()
    }

    /// Where the animal is.
    pub fn position(&self) -> (r: Point2)
        ensures
            r == self@.position,
    {
        self.position
    }

    /// The animal's heading.
    pub fn rotation(&self) -> (r: i64)
        ensures
            r == self@.rotation,
    {
        self.rotation
    }

    /// How far the animal moves in a step.
    pub fn speed(&self) -> (r: i64)
        ensures
            r == self@.speed,
    {
        self.speed
    }

    /// How much the animal has eaten in this generation.
    pub fn satiation(&self) -> (r: usize)
        ensures
            r == self@.satiation,
    {
        self.satiation
    }

    /// The animal's eye.
    pub fn eye(&self) -> (r: Eye)
        ensures
            r == self@.eye,
    {
        self.eye
    }

    /// Whether the animal is near enough to `food` to eat it.
    pub fn reaches(&self, food: &Food) -> (r: bool)
        requires
            self.wf(),
            food.wf(),
        ensures
            r == self@.reaches(food.position_spec()),
    {
        let place: Point2 = food.position();
        let dx: i64 = self.position.x - place.x;
        let dy: i64 = self.position.y - place.y;
        assert(0 <= dx * dx <= 1_000_000 * 1_000_000) by (nonlinear_arith)
            requires
                -1_000_000 < dx < 1_000_000,
        ;
        assert(0 <= dy * dy <= 1_000_000 * 1_000_000) by (nonlinear_arith)
            requires
                -1_000_000 < dy < 1_000_000,
        ;
        dx * dx + dy * dy <= EATING_RANGE * EATING_RANGE
    }

    /// The animal eats: its satiation grows by one.
    pub fn feed(&mut self)
        requires
            old(self).wf(),
            old(self)@.satiation < usize::MAX,
        ensures
            final(self)@ == old(self)@.fed(),
            final(self).wf(),
    {
        self.satiation = self.satiation + 1;
    }

    /// What the animal sees of `foods`, where `bearings` gives for each food
    /// the direction in which it lies from the animal.
    pub fn see(&self, foods: &[Food], bearings: &[i64]) -> (r: Vec<i64>)
        requires
            self.wf(),
            forall|i: int| 0 <= i < foods@.len() ==> (#[trigger] foods@[i]).wf(),
            bearings@.len() == foods@.len(),
            foods@.len() * ONE <= i64::MAX,
        ensures
            r@.len() == self@.eye.cells_spec(),
            forall|c: int|
                0 <= c < r@.len() ==> #[trigger] r@[c] == self@.sight(foods@, bearings@, c),
    {
        self.eye.process_vision(self.position, self.rotation, foods, bearings)
    }

    /// The animal does what its brain answered: it changes its speed, within
    /// the limits, and turns.
    pub fn steer(&mut self, response: Response)
        requires
            old(self).wf(),
        ensures
            final(self)@ == old(self)@.steered(response),
            final(self).wf(),
            SPEED_MIN <= final(self)@.speed <= SPEED_MAX,
            -ROTATION_ACCEL <= AnimalView::turn(response) <= ROTATION_ACCEL,
    {
        let thrust: i64 = clamp(response.speed, -SPEED_ACCEL, SPEED_ACCEL);
        let turn: i64 = clamp(response.rotation, -ROTATION_ACCEL, ROTATION_ACCEL);
        self.speed = clamp(self.speed + thrust, SPEED_MIN, SPEED_MAX);
        self.rotation = wrap_angle(self.rotation as i128 + turn as i128);
    }

    /// The animal moves by its speed along `direction`, the direction of
    /// its heading, and stays in the world.
    pub fn advance(&mut self, direction: Direction)
        requires
            old(self).wf(),
            direction.wf(),
        ensures
            final(self)@ == old(self)@.moved(direction),
            final(self).wf(),
            final(self)@.position.in_world(),
    {
        let x: i64 = Self::shift(self.position.x, self.speed, direction.x);
        let y: i64 = Self::shift(self.position.y, self.speed, direction.y);
        self.position = Point2 { x, y };
    }

    /// One coordinate after a move by `speed` along a direction whose
    /// component on this axis is `along`.
    fn shift(coordinate: i64, speed: i64, along: i64) -> (r: i64)
        requires
            0 <= coordinate < ONE,
            SPEED_MIN <= speed <= SPEED_MAX,
            -ONE <= along <= ONE,
        ensures
            r == wrap_spec(coordinate + speed * along / (ONE as int), 0, ONE as int),
            0 <= r < ONE,
    {
        assert(-5_000_000_000 <= speed * along <= 5_000_000_000) by (nonlinear_arith)
            requires
                1_000 <= speed <= 5_000,
                -1_000_000 <= along <= 1_000_000,
        ;
        let scaled: i64 = speed * along;
        let lifted: u64 = (scaled + 1_000_000_000_000) as u64;
        let step: i64 = (lifted / 1_000_000) as i64 - 1_000_000;
        assert(step == scaled / 1_000_000);
        wrap(coordinate + step, 0, ONE)
    }
}

/// Whatever its brain answers, an animal that steers keeps its speed
/// within the limits and turns by no more than `ROTATION_ACCEL`; nothing
/// else about it changes.
pub proof fn lemma_steered_within_limits(animal: AnimalView, response: Response)
    requires
        animal.wf(),
    ensures
        SPEED_MIN <= animal.steered(response).speed <= SPEED_MAX,
        -ROTATION_ACCEL <= AnimalView::turn(response) <= ROTATION_ACCEL,
        animal.steered(response).rotation == wrap_angle_spec(
            animal.rotation + AnimalView::turn(response),
        ),
        animal.steered(response).position == animal.position,
        animal.steered(response).satiation == animal.satiation,
        animal.steered(response).wf(),
{
}

/// Wherever an animal moves, it stays in the world.
pub proof fn lemma_moved_stays_in_world(animal: AnimalView, direction: Direction)
    requires
        animal.wf(),
    ensures
        animal.moved(direction).position.in_world(),
        animal.moved(direction).wf(),
{
}

} // verus!
