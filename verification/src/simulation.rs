//! The simulation: a world that goes through generations.
//!
//! A step has four parts: animals eat the food they have reached, brains
//! answer what the eyes see, animals move, and the generation grows older.
//! When a generation is over, a new one is bred. Trigonometry, the run of
//! the networks and the breeding are the host's part: the simulation says
//! what it needs next, the host hands it in, and the step goes on.

use vstd::prelude::*;
use crate::animal::{Animal, AnimalView, Direction, Response, ROTATION_ACCEL, SPEED_INITIAL, SPEED_MAX, SPEED_MIN};
use crate::brain::{lemma_default_weight_count, weight_count};
use crate::eye::CELLS;
use crate::food::Food;
use crate::individual::AnimalIndividual;
use crate::scalar::{copy_of, wrap_angle_spec, ONE};
use crate::world::{World, WorldView, ANIMALS, FOODS};

verus! {

/// The number of steps that a generation lives.
pub const GENERATION_LENGTH: usize = 2500;

/// Where in a step the simulation is: what it waits for.
#[derive(Clone, Copy, Debug, PartialEq, Eq, Structural)]
pub enum Stage {
    /// Between two steps.
    Ready,
    /// The animals have eaten; the bearings of the food are awaited.
    Sensing,
    /// The eyes have seen; the answers of the brains are awaited.
    Thinking,
    /// The animals have steered; the directions of their headings are
    /// awaited.
    Moving,
    /// The generation is over; its offspring is awaited.
    Evolving,
}

/// What the host hands to the simulation.
#[derive(Debug)]
pub enum Event {
    /// A new step is to begin.
    Tick,
    /// For each animal, the direction in which each piece of food lies
    /// from it: the angle from the vertical axis to the line from the animal
    /// to the food.
    Bearings(Vec<Vec<i64>>),
    /// For each animal, what its brain answers to what it sees.
    Responses(Vec<Response>),
    /// For each animal, the direction of its heading.
    Directions(Vec<Direction>),
    /// The chromosomes of the next generation, one for each animal.
    Offspring(Vec<Vec<i64>>),
}

/// What the simulation asks of the host.
#[derive(Debug)]
pub enum Action {
    /// To find the bearings of the food.
    FindBearings,
    /// To run each animal's brain on what the animal sees: one vision for
    /// each animal, one entry for each cell of its eye.
    RunBrains(Vec<Vec<i64>>),
    /// To find the directions of the headings.
    FindDirections,
    /// To breed the next generation from these individuals.
    Evolve(Vec<AnimalIndividual>),
    /// Nothing: the step is over, and the generation goes on.
    Done,
    /// Nothing: the event was not the awaited one, or not of the right
    /// shape, and has changed nothing.
    Refused,
}

/// The simulation.
#[derive(Debug)]
pub struct Simulation {
    world: World,
    age: usize,
    stage: Stage,
}

/// What a simulation is, to a specification.
pub struct SimulationView {
    /// The world.
    pub world: WorldView,
    /// The number of steps that the generation has lived.
    pub age: nat,
    /// Where in a step the simulation is.
    pub stage: Stage,
}

impl View for Simulation {
    type V = SimulationView;

    closed spec fn view(&self) -> SimulationView {
        SimulationView { world: self.world@, age: self.age as nat, stage: self.stage }
    }
}

/// How often `animal` reaches one of the first `n` of `foods`.
pub open spec fn meals(animal: AnimalView, foods: Seq<Food>, n: int) -> nat
    decreases n,
{
    if n <= 0 {
        0
    } else {
        meals(animal, foods, n - 1) + if animal.reaches(foods[n - 1].position_spec()) {
            1nat
        } else {
            0nat
        }
    }
}

/// Whether one animal's turn at the food leads from `animal` and `foods` to
/// `fed` and `left`: the animal has eaten once for each piece of food that
/// it reached, each of those has been replaced by food somewhere in the
/// world, and the rest of the food lies where it lay.
pub open spec fn turn_taken(
    animal: AnimalView,
    foods: Seq<Food>,
    fed: AnimalView,
    left: Seq<Food>,
) -> bool {
    &&& left.len() == foods.len()
    &&& forall|j: int| 0 <= j < left.len() ==> (#[trigger] left[j]).wf()
    &&& forall|j: int|
        0 <= j < foods.len() && !animal.reaches(foods[j].position_spec()) ==> #[trigger] left[j]
            == foods[j]
    &&& fed == AnimalView {
        satiation: animal.satiation + meals(animal, foods, foods.len() as int),
        ..animal
    }
}

/// Whether `trace` records how the animals of `before`, one after the
/// other, took their turn at the food and left the world as `after`:
/// `trace[a]` is the food as animal `a` found it.
pub open spec fn eaten_along(before: WorldView, after: WorldView, trace: Seq<Seq<Food>>) -> bool {
    &&& after.animals.len() == before.animals.len()
    &&& trace.len() == before.animals.len() + 1
    &&& trace[0] == before.foods
    &&& trace[before.animals.len() as int] == after.foods
    &&& forall|a: int|
        0 <= a < before.animals.len() ==> turn_taken(
            #[trigger] before.animals[a],
            trace[a],
            after.animals[a],
            trace[a + 1],
        )
}

/// Whether `after` is what the eating leaves of `before`, wherever the
/// eaten food has been put anew.
pub open spec fn eaten(before: WorldView, after: WorldView) -> bool {
    exists|trace: Seq<Seq<Food>>| eaten_along(before, after, trace)
}

/// Whether `bearings` holds a bearing for each animal and each piece of
/// food.
pub open spec fn bearings_fit(bearings: Seq<Vec<i64>>) -> bool {
    &&& bearings.len() == ANIMALS
    &&& forall|a: int| 0 <= a < bearings.len() ==> (#[trigger] bearings[a])@.len() == FOODS
}

/// Whether `directions` holds a direction for each animal.
pub open spec fn directions_fit(directions: Seq<Direction>) -> bool {
    &&& directions.len() == ANIMALS
    &&& forall|a: int| 0 <= a < directions.len() ==> (#[trigger] directions[a]).wf()
}

/// Whether `offspring` holds a chromosome for each animal, each with a
/// weight for every weight of a brain.
pub open spec fn offspring_fit(offspring: Seq<Vec<i64>>) -> bool {
    &&& offspring.len() == ANIMALS
    &&& forall|a: int|
        0 <= a < offspring.len() ==> (#[trigger] offspring[a])@.len() == weight_count(
            CELLS as int,
        )
}

/// Whether `visions` is what the animals of `world` see, given the
/// bearings of the food.
pub open spec fn seen(world: WorldView, bearings: Seq<Vec<i64>>, visions: Seq<Vec<i64>>) -> bool {
    &&& visions.len() == world.animals.len()
    &&& forall|a: int|
        0 <= a < visions.len() ==> (#[trigger] visions[a])@.len()
            == world.animals[a].eye.cells_spec()
    &&& forall|a: int, c: int|
        0 <= a < visions.len() && 0 <= c < visions[a]@.len() ==> #[trigger] visions[a]@[c]
            == world.animals[a].sight(world.foods, bearings[a]@, c)
}

/// Whether `population` holds, for each animal of `world`, the individual
/// that stands for it.
pub open spec fn snapshot(world: WorldView, population: Seq<AnimalIndividual>) -> bool {
    &&& population.len() == world.animals.len()
    &&& forall|a: int|
        0 <= a < population.len() ==> (#[trigger] population[a]).stands_for(world.animals[a])
}

/// Whether `animal` is a newborn with the brain that `chromosome`
/// describes.
pub open spec fn newborn(animal: AnimalView, chromosome: Seq<i64>) -> bool {
    &&& animal.wf()
    &&& animal.eye.default_spec()
    &&& animal.brain == chromosome
    &&& animal.speed == SPEED_INITIAL
    &&& animal.satiation == 0
}

/// Whether `after` is a world of the offspring: as many newborn animals
/// as `before` had animals, one for each chromosome and in their order, and
/// as much food, scattered anew.
pub open spec fn reborn(before: WorldView, offspring: Seq<Vec<i64>>, after: WorldView) -> bool {
    &&& after.wf()
    &&& after.animals.len() == before.animals.len()
    &&& after.foods.len() == before.foods.len()
    &&& forall|a: int|
        0 <= a < after.animals.len() ==> newborn(#[trigger] after.animals[a], offspring[a]@)
}

/// Whether the step that begins at `age` is the last of its generation.
pub open spec fn generation_over(age: nat) -> bool {
    age + 1 > GENERATION_LENGTH
}

/// The age at which the `n`-th step begins, counted from the start of a
/// generation: each step adds one, and the step that ends a generation
/// leaves the age at 0.
pub open spec fn age_at_step(n: nat) -> nat
    decreases n,
{
    if n <= 1 {
        0
    } else if generation_over(age_at_step((n - 1) as nat)) {
        0
    } else {
        age_at_step((n - 1) as nat) + 1
    }
}

/// Counted from the start of a generation, the step that ends it is the
/// one after `GENERATION_LENGTH` steps, and no step before that.
pub proof fn lemma_generation_ends_on_time(n: nat)
    requires
        1 <= n <= GENERATION_LENGTH + 1,
    ensures
        age_at_step(n) == n - 1,
        generation_over(age_at_step(n)) <==> n == GENERATION_LENGTH + 1,
    decreases n,
{
    if n > 1 {
        lemma_generation_ends_on_time((n - 1) as nat);
    }
}

/// What the eating does: it keeps the number of animals and of pieces of
/// food, all food lies in the world afterwards, no animal has eaten less
/// afterwards than before, and the first animal has eaten once for each piece
/// of food that it had reached, however many those were.
pub proof fn lemma_eaten_effects(before: WorldView, after: WorldView)
    requires
        eaten(before, after),
    ensures
        after.animals.len() == before.animals.len(),
        after.foods.len() == before.foods.len(),
        before.animals.len() > 0 ==> forall|j: int|
            0 <= j < after.foods.len() ==> (#[trigger] after.foods[j]).wf(),
        forall|a: int|
            0 <= a < before.animals.len() ==> (#[trigger] after.animals[a]).satiation
                >= before.animals[a].satiation,
        before.animals.len() > 0 ==> after.animals[0].satiation == before.animals[0].satiation
            + meals(before.animals[0], before.foods, before.foods.len() as int),
{
    let trace = choose|trace: Seq<Seq<Food>>| eaten_along(before, after, trace);
    let count = before.animals.len() as int;
    assert forall|a: int| 0 <= a < count implies (#[trigger] after.animals[a]).satiation
        >= before.animals[a].satiation by {
        assert(turn_taken(before.animals[a], trace[a], after.animals[a], trace[a + 1]));
    }
    assert forall|b: int| 0 <= b < count implies (#[trigger] trace[b + 1]).len()
        == trace[b].len() by {
        assert(turn_taken(before.animals[b], trace[b], after.animals[b], trace[b + 1]));
    }
    lemma_food_count_kept(before, trace, count);
    if count > 0 {
        assert(turn_taken(before.animals[0], trace[0], after.animals[0], trace[1]));
        assert(turn_taken(
            before.animals[count - 1],
            trace[count - 1],
            after.animals[count - 1],
            trace[(count - 1) + 1],
        ));
    }
}

/// An animal that reaches none of the first `n` pieces of food has no meal
/// of them.
pub proof fn lemma_nothing_reached_no_meals(animal: AnimalView, foods: Seq<Food>, n: int)
    requires
        0 <= n <= foods.len(),
        forall|j: int| 0 <= j < n ==> !animal.reaches((#[trigger] foods[j]).position_spec()),
    ensures
        meals(animal, foods, n) == 0,
    decreases n,
{
    if n > 0 {
        lemma_nothing_reached_no_meals(animal, foods, n - 1);
        assert(!animal.reaches(foods[n - 1].position_spec()));
    }
}

/// Along a record of the eating, food that no animal reaches lies where it
/// lay.
proof fn lemma_food_kept_along(
    before: WorldView,
    after: WorldView,
    trace: Seq<Seq<Food>>,
    j: int,
    a: int,
)
    requires
        eaten_along(before, after, trace),
        0 <= j < before.foods.len(),
        forall|b: int|
            0 <= b < before.animals.len() ==> !(#[trigger] before.animals[b]).reaches(
                before.foods[j].position_spec(),
            ),
        0 <= a <= before.animals.len(),
    ensures
        trace[a].len() == before.foods.len(),
        trace[a][j] == before.foods[j],
    decreases a,
{
    if a > 0 {
        lemma_food_kept_along(before, after, trace, j, a - 1);
        assert(turn_taken(
            before.animals[a - 1],
            trace[a - 1],
            after.animals[a - 1],
            trace[(a - 1) + 1],
        ));
        assert(!before.animals[a - 1].reaches(trace[a - 1][j].position_spec()));
        assert(trace[a][j] == trace[a - 1][j]);
    }
}

/// Food that no animal reaches is not eaten: it lies afterwards where it
/// lay before.
pub proof fn lemma_unreached_food_stays(before: WorldView, after: WorldView, j: int)
    requires
        eaten(before, after),
        0 <= j < before.foods.len(),
        forall|a: int|
            0 <= a < before.animals.len() ==> !(#[trigger] before.animals[a]).reaches(
                before.foods[j].position_spec(),
            ),
    ensures
        after.foods.len() == before.foods.len(),
        after.foods[j] == before.foods[j],
{
    let trace = choose|trace: Seq<Seq<Food>>| eaten_along(before, after, trace);
    lemma_food_kept_along(before, after, trace, j, before.animals.len() as int);
}

/// Along a record of the eating, the food lies where it lay until the
/// first animal that reaches some of it has its turn.
proof fn lemma_food_untouched_until(
    before: WorldView,
    after: WorldView,
    trace: Seq<Seq<Food>>,
    a: int,
)
    requires
        eaten_along(before, after, trace),
        0 <= a <= before.animals.len(),
        forall|b: int, j: int|
            #![trigger before.animals[b], before.foods[j]]
            0 <= b < a && 0 <= j < before.foods.len() ==> !before.animals[b].reaches(
                before.foods[j].position_spec(),
            ),
    ensures
        trace[a] == before.foods,
    decreases a,
{
    if a > 0 {
        lemma_food_untouched_until(before, after, trace, a - 1);
        assert(turn_taken(
            before.animals[a - 1],
            trace[a - 1],
            after.animals[a - 1],
            trace[(a - 1) + 1],
        ));
        assert forall|j: int| 0 <= j < before.foods.len() implies trace[a][j]
            == before.foods[j] by {
            assert(!before.animals[a - 1].reaches(before.foods[j].position_spec()));
        }
        assert(trace[a] =~= before.foods);
    }
}

/// An animal before which no animal reaches any food eats once for each
/// piece of food that it reaches, however many those are.
pub proof fn lemma_first_to_reach_eats_all(before: WorldView, after: WorldView, a: int)
    requires
        eaten(before, after),
        0 <= a < before.animals.len(),
        forall|b: int, j: int|
            #![trigger before.animals[b], before.foods[j]]
            0 <= b < a && 0 <= j < before.foods.len() ==> !before.animals[b].reaches(
                before.foods[j].position_spec(),
            ),
    ensures
        after.animals[a].satiation == before.animals[a].satiation + meals(
            before.animals[a],
            before.foods,
            before.foods.len() as int,
        ),
{
    let trace = choose|trace: Seq<Seq<Food>>| eaten_along(before, after, trace);
    lemma_food_untouched_until(before, after, trace, a);
    assert(turn_taken(before.animals[a], trace[a], after.animals[a], trace[a + 1]));
}

/// Where no animal reaches any food, the eating changes nothing: all food
/// lies where it lay, and no animal has eaten.
pub proof fn lemma_nothing_reached_nothing_eaten(before: WorldView, after: WorldView)
    requires
        eaten(before, after),
        forall|a: int, j: int|
            #![trigger before.animals[a], before.foods[j]]
            0 <= a < before.animals.len() && 0 <= j < before.foods.len()
                ==> !before.animals[a].reaches(before.foods[j].position_spec()),
    ensures
        after == before,
{
    let trace = choose|trace: Seq<Seq<Food>>| eaten_along(before, after, trace);
    let count = before.animals.len() as int;
    let foods = before.foods.len() as int;
    assert forall|a: int| 0 <= a <= count implies #[trigger] trace[a] == before.foods by {
        lemma_food_untouched_until(before, after, trace, a);
    }
    assert(after.foods == before.foods);
    assert forall|a: int| 0 <= a < count implies after.animals[a] == before.animals[a] by {
        assert(turn_taken(before.animals[a], trace[a], after.animals[a], trace[a + 1]));
        assert(trace[a] == before.foods);
        assert forall|j: int| 0 <= j < foods implies !before.animals[a].reaches(
            (#[trigger] before.foods[j]).position_spec(),
        ) by {
            assert(!before.animals[a].reaches(before.foods[j].position_spec()));
        }
        lemma_nothing_reached_no_meals(before.animals[a], before.foods, foods);
    }
    assert(after.animals =~= before.animals);
}

/// Counted from the start of a generation, the step that asks for the
/// offspring is the one after `GENERATION_LENGTH` steps; every step before
/// it ends with nothing to do, one step older.
pub proof fn lemma_step_ends_generation_on_time(
    before: SimulationView,
    directions: Vec<Direction>,
    after: SimulationView,
    action: Action,
    n: nat,
)
    requires
        1 <= n <= GENERATION_LENGTH + 1,
        before.age == age_at_step(n),
        before.follows(Event::Directions(directions), after, action),
    ensures
        action is Evolve <==> n == GENERATION_LENGTH + 1,
        n <= GENERATION_LENGTH ==> action is Done && after.stage == Stage::Ready && after.age
            == age_at_step(n + 1),
{
    lemma_generation_ends_on_time(n);
    if n <= GENERATION_LENGTH {
        lemma_generation_ends_on_time(n + 1);
    }
}

/// Along a record of the eating, the number of pieces of food stays what it
/// was.
proof fn lemma_food_count_kept(before: WorldView, trace: Seq<Seq<Food>>, a: int)
    requires
        0 <= a <= before.animals.len(),
        trace.len() == before.animals.len() + 1,
        trace[0] == before.foods,
        forall|b: int|
            0 <= b < before.animals.len() ==> (#[trigger] trace[b + 1]).len() == trace[b].len(),
    ensures
        trace[a].len() == before.foods.len(),
    decreases a,
{
    if a > 0 {
        lemma_food_count_kept(before, trace, a - 1);
        assert(trace[(a - 1) + 1].len() == trace[a - 1].len());
    }
}

impl SimulationView {
    /// The most that an animal can have eaten by now.
    pub open spec fn meals_possible(self) -> int {
        match self.stage {
            Stage::Ready | Stage::Evolving => self.age * FOODS,
            _ => (self.age + 1) * FOODS,
        }
    }

    /// The world is well formed, the generation is no older than it may
    /// be, and no animal has eaten more than there was to eat.
    pub open spec fn wf(self) -> bool {
        &&& self.world.wf()
        &&& if self.stage == Stage::Evolving {
            self.age == GENERATION_LENGTH + 1
        } else {
            self.age <= GENERATION_LENGTH
        }
        &&& forall|a: int|
            0 <= a < self.world.animals.len() ==> (#[trigger] self.world.animals[a]).satiation
                <= self.meals_possible()
    }
}

impl SimulationView {
    /// Whether `event` is the awaited one, and of the right shape.
    pub open spec fn accepts(self, event: Event) -> bool {
        match event {
            Event::Tick => self.stage == Stage::Ready,
            Event::Bearings(bearings) => self.stage == Stage::Sensing && bearings_fit(bearings@),
            Event::Responses(responses) => self.stage == Stage::Thinking && responses@.len()
                == ANIMALS,
            Event::Directions(directions) => self.stage == Stage::Moving && directions_fit(
                directions@,
            ),
            Event::Offspring(offspring) => self.stage == Stage::Evolving && offspring_fit(
                offspring@,
            ),
        }
    }

    /// Whether an accepted `event` leads from `self` to `after` and to
    /// `action`.
    pub open spec fn follows(self, event: Event, after: SimulationView, action: Action) -> bool {
        match event {
            Event::Tick => {
                &&& eaten(self.world, after.world)
                &&& after.age == self.age
                &&& after.stage == Stage::Sensing
                &&& action is FindBearings
            },
            Event::Bearings(bearings) => {
                &&& after == SimulationView { stage: Stage::Thinking, ..self }
                &&& action matches Action::RunBrains(visions) && seen(
                    self.world,
                    bearings@,
                    visions@,
                )
            },
            Event::Responses(responses) => {
                &&& after == SimulationView {
                    world: self.world.steered(responses@),
                    stage: Stage::Moving,
                    ..self
                }
                &&& action is FindDirections
            },
            Event::Directions(directions) => {
                &&& after.world == self.world.moved(directions@)
                &&& after.age == self.age + 1
                &&& if generation_over(self.age) {
                    &&& after.stage == Stage::Evolving
                    &&& action matches Action::Evolve(population) && snapshot(
                        after.world,
                        population@,
                    )
                } else {
                    &&& after.stage == Stage::Ready
                    &&& action is Done
                }
            },
            Event::Offspring(offspring) => {
                &&& reborn(self.world, offspring@, after.world)
                &&& after.age == 0
                &&& after.stage == Stage::Ready
                &&& action is Done
            },
        }
    }
}

impl Simulation {
    /// The simulation is well formed.
    pub open spec fn wf(self) -> bool {
        self@.wf()
    }

    /// A simulation of a random world, at the start of its first
    /// generation.
    pub fn random(rng: &mut rand::rngs::StdRng) -> (r: Simulation)
        ensures
            r.wf(),
            r@.age == 0,
            r@.stage == Stage::Ready,
            forall|a: int|
                0 <= a < ANIMALS ==> {
                    &&& (#[trigger] r@.world.animals[a]).satiation == 0
                    &&& r@.world.animals[a].speed == SPEED_INITIAL
                    &&& r@.world.animals[a].eye.default_spec()
                },
    {
        let world: World = World::random(rng);
        Simulation { world, age: 0, stage: Stage::Ready }
    }

    /// A simulation of `world`, at the start of a generation in which no
    /// animal has eaten yet.
    pub fn new(world: World) -> (r: Simulation)
        requires
            world.wf(),
            forall|a: int|
                0 <= a < world@.animals.len() ==> (#[trigger] world@.animals[a]).satiation == 0,
        ensures
            r.wf(),
            r@.world == world@,
            r@.age == 0,
            r@.stage == Stage::Ready,
    {
        Simulation { world, age: 0, stage: Stage::Ready }
    }

    /// The world.
    pub fn world(&self) -> (r: &World)
        ensures
            r@ == self@.world,
    {
        &self.world
    }

    /// The number of steps that the generation has lived.
    pub fn age(&self) -> (r: usize)
        ensures
            r == self@.age,
    {
        self.age
    }

    /// Where in a step the simulation is.
    pub fn stage(&self) -> (r: Stage)
        ensures
            r == self@.stage,
    {
        self.stage
    }

    /// Every animal, one after the other, eats the food that it has
    /// reached; what is eaten is replaced by food at a place drawn from
    /// `rng`. An animal that has reached several pieces eats them all.
    fn process_collisions(&mut self, rng: &mut rand::rngs::StdRng)
        requires
            old(self).wf(),
            old(self)@.stage == Stage::Ready,
        ensures
            eaten(old(self)@.world, final(self)@.world),
            final(self)@.world.wf(),
            final(self)@.age == old(self)@.age,
            final(self)@.stage == old(self)@.stage,
            forall|a: int|
                0 <= a < ANIMALS ==> (#[trigger] final(self)@.world.animals[a]).satiation <= (old(
                    self,
                )@.age + 1) * FOODS,
    {
        let ghost before = self.world@;
        let ghost budget = self@.age * FOODS;
        let ghost mut trace: Seq<Seq<Food>> = seq![before.foods];
        let mut a: usize = 0;
        while a < ANIMALS
            invariant
                a <= ANIMALS,
                before.wf(),
                budget <= GENERATION_LENGTH * FOODS,
                forall|b: int|
                    0 <= b < ANIMALS ==> (#[trigger] before.animals[b]).satiation <= budget,
                self.world@.wf(),
                self@.age == old(self)@.age,
                self@.stage == old(self)@.stage,
                trace.len() == a + 1,
                trace[0] == before.foods,
                trace[a as int] == self.world@.foods,
                forall|b: int|
                    0 <= b < a ==> turn_taken(
                        #[trigger] before.animals[b],
                        trace[b],
                        self.world@.animals[b],
                        trace[b + 1],
                    ),
                forall|b: int|
                    a <= b < ANIMALS ==> #[trigger] self.world@.animals[b] == before.animals[b],
                forall|b: int|
                    0 <= b < ANIMALS ==> (#[trigger] self.world@.animals[b]).satiation <= budget
                        + FOODS,
            decreases ANIMALS - a,
        {
            let ghost start = self.world@;
            let ghost animal = start.animals[a as int];
            let mut j: usize = 0;
            while j < FOODS
                invariant
                    j <= FOODS,
                    a < ANIMALS,
                    start.wf(),
                    animal == start.animals[a as int],
                    animal.satiation <= budget,
                    budget <= GENERATION_LENGTH * FOODS,
                    self.world@.wf(),
                    self@.age == old(self)@.age,
                    self@.stage == old(self)@.stage,
                    meals(animal, start.foods, j as int) <= j,
                    self.world@.animals == start.animals.update(
                        a as int,
                        AnimalView {
                            satiation: animal.satiation + meals(animal, start.foods, j as int),
                            ..animal
                        },
                    ),
                    forall|k: int|
                        0 <= k < j && !animal.reaches(start.foods[k].position_spec())
                            ==> #[trigger] self.world@.foods[k] == start.foods[k],
                    forall|k: int| j <= k < FOODS ==> #[trigger] self.world@.foods[k] == start.foods[k],
                decreases FOODS - j,
            {
                let hit: bool = self.world.animals()[a].reaches(&self.world.foods()[j]);
                if hit {
                    self.world.feed(a);
                    self.world.relocate(j, rng);
                }
                j = j + 1;
            }
            proof {
                assert(turn_taken(animal, start.foods, self.world@.animals[a as int], self.world@.foods));
                trace = trace.push(self.world@.foods);
            }
            a = a + 1;
        }
        proof {
            assert(eaten_along(before, self.world@, trace));
        }
    }

    /// What every animal sees, given the bearings of the food.
    fn process_eyes(&self, bearings: &Vec<Vec<i64>>) -> (visions: Vec<Vec<i64>>)
        requires
            self.wf(),
            bearings_fit(bearings@),
        ensures
            seen(self@.world, bearings@, visions@),
    {
        let mut visions: Vec<Vec<i64>> = Vec::new();
        let mut a: usize = 0;
        while a < ANIMALS
            invariant
                a <= ANIMALS,
                self.wf(),
                bearings_fit(bearings@),
                visions@.len() == a,
                forall|b: int|
                    0 <= b < a ==> (#[trigger] visions@[b])@.len()
                        == self@.world.animals[b].eye.cells_spec(),
                forall|b: int, c: int|
                    0 <= b < a && 0 <= c < visions@[b]@.len() ==> #[trigger] visions@[b]@[c]
                        == self@.world.animals[b].sight(self@.world.foods, bearings@[b]@, c),
            decreases ANIMALS - a,
        {
            let vision: Vec<i64> = self.world.animals()[a].see(
                self.world.foods(),
                bearings[a].as_slice(),
            );
            visions.push(vision);
            a = a + 1;
        }
        visions
    }

    /// Every animal does what its brain answered. Afterwards each speed
    /// is within its limits, and no animal has turned by more than
    /// `ROTATION_ACCEL`.
    fn process_brains(&mut self, responses: &Vec<Response>)
        requires
            old(self).wf(),
            responses@.len() == ANIMALS,
        ensures
            final(self)@ == (SimulationView {
                world: old(self)@.world.steered(responses@),
                ..old(self)@
            }),
            final(self)@.world.wf(),
            forall|a: int|
                0 <= a < ANIMALS ==> {
                    &&& SPEED_MIN <= (#[trigger] final(self)@.world.animals[a]).speed <= SPEED_MAX
                    &&& -ROTATION_ACCEL <= AnimalView::turn(responses@[a]) <= ROTATION_ACCEL
                    &&& final(self)@.world.animals[a].rotation == wrap_angle_spec(
                        old(self)@.world.animals[a].rotation + AnimalView::turn(responses@[a]),
                    )
                },
    {
        let ghost before = self.world@;
        let mut a: usize = 0;
        while a < ANIMALS
            invariant
                a <= ANIMALS,
                before.wf(),
                responses@.len() == ANIMALS,
                self.world@.wf(),
                self@.age == old(self)@.age,
                self@.stage == old(self)@.stage,
                self.world@.foods == before.foods,
                forall|b: int|
                    0 <= b < a ==> #[trigger] self.world@.animals[b] == before.animals[b].steered(
                        responses@[b],
                    ),
                forall|b: int|
                    a <= b < ANIMALS ==> #[trigger] self.world@.animals[b] == before.animals[b],
            decreases ANIMALS - a,
        {
            self.world.steer(a, responses[a]);
            a = a + 1;
        }
        assert(self.world@.animals =~= before.steered(responses@).animals);
    }

    /// Every animal moves along the direction of its heading, and stays in
    /// the world.
    fn process_movements(&mut self, directions: &Vec<Direction>)
        requires
            old(self).wf(),
            directions_fit(directions@),
        ensures
            final(self)@ == (SimulationView {
                world: old(self)@.world.moved(directions@),
                ..old(self)@
            }),
            final(self)@.world.wf(),
            forall|a: int|
                0 <= a < ANIMALS ==> (#[trigger] final(self)@.world.animals[a]).position.in_world(),
    {
        let ghost before = self.world@;
        let mut a: usize = 0;
        while a < ANIMALS
            invariant
                a <= ANIMALS,
                before.wf(),
                directions_fit(directions@),
                self.world@.wf(),
                self@.age == old(self)@.age,
                self@.stage == old(self)@.stage,
                self.world@.foods == before.foods,
                forall|b: int|
                    0 <= b < a ==> #[trigger] self.world@.animals[b] == before.animals[b].moved(
                        directions@[b],
                    ),
                forall|b: int|
                    a <= b < ANIMALS ==> #[trigger] self.world@.animals[b] == before.animals[b],
            decreases ANIMALS - a,
        {
            self.world.advance(a, directions[a]);
            a = a + 1;
        }
        assert(self.world@.animals =~= before.moved(directions@).animals);
    }

    /// The individuals that stand for the animals, in their order.
    fn population(&self) -> (population: Vec<AnimalIndividual>)
        requires
            self@.world.wf(),
        ensures
            snapshot(self@.world, population@),
    {
        let mut population: Vec<AnimalIndividual> = Vec::new();
        let mut a: usize = 0;
        while a < ANIMALS
            invariant
                a <= ANIMALS,
                self@.world.wf(),
                population@.len() == a,
                forall|b: int|
                    0 <= b < a ==> (#[trigger] population@[b]).stands_for(self@.world.animals[b]),
            decreases ANIMALS - a,
        {
            let individual: AnimalIndividual = AnimalIndividual::from_animal(
                &self.world.animals()[a],
            );
            population.push(individual);
            a = a + 1;
        }
        population
    }

    /// A new generation begins: each chromosome of `offspring` becomes a
    /// newborn animal, in the order of the chromosomes, and then all food is
    /// scattered anew. There are as many animals as before.
    fn evolve(&mut self, rng: &mut rand::rngs::StdRng, offspring: &Vec<Vec<i64>>)
        requires
            old(self)@.world.wf(),
            offspring_fit(offspring@),
        ensures
            reborn(old(self)@.world, offspring@, final(self)@.world),
            final(self)@.world.animals.len() == old(self)@.world.animals.len(),
            final(self)@.age == 0,
            final(self)@.stage == old(self)@.stage,
    {
        self.age = 0;
        let mut animals: Vec<Animal> = Vec::new();
        let mut a: usize = 0;
        while a < ANIMALS
            invariant
                a <= ANIMALS,
                offspring_fit(offspring@),
                animals@.len() == a,
                forall|b: int| 0 <= b < a ==> newborn((#[trigger] animals@[b])@, offspring@[b]@),
            decreases ANIMALS - a,
        {
            let chromosome: Vec<i64> = copy_of(&offspring[a]);
            let animal: Animal = AnimalIndividual::create(chromosome).into_animal(rng);
            animals.push(animal);
            a = a + 1;
        }
        let ghost born = animals@;
        self.world.repopulate(animals);
        let ghost bred = self.world@;
        assert forall|b: int| 0 <= b < ANIMALS implies newborn(
            #[trigger] bred.animals[b],
            offspring@[b]@,
        ) by {
            assert(newborn(born[b]@, offspring@[b]@));
        }
        let mut j: usize = 0;
        while j < FOODS
            invariant
                j <= FOODS,
                self@.age == 0,
                self@.stage == old(self)@.stage,
                self.world@.animals == bred.animals,
                bred.animals.len() == ANIMALS,
                offspring@.len() == ANIMALS,
                forall|b: int|
                    0 <= b < ANIMALS ==> newborn(#[trigger] bred.animals[b], offspring@[b]@),
                self.world@.foods.len() == FOODS,
                forall|k: int| 0 <= k < j ==> (#[trigger] self.world@.foods[k]).wf(),
            decreases FOODS - j,
        {
            self.world.relocate(j, rng);
            j = j + 1;
        }
    }

    /// Whether `bearings` holds a bearing for each animal and each piece
    /// of food.
    fn check_bearings(bearings: &Vec<Vec<i64>>) -> (r: bool)
        ensures
            r == bearings_fit(bearings@),
    {
        if bearings.len() != ANIMALS {
            return false;
        }
        let mut a: usize = 0;
        while a < ANIMALS
            invariant
                a <= ANIMALS,
                bearings@.len() == ANIMALS,
                forall|b: int| 0 <= b < a ==> (#[trigger] bearings@[b])@.len() == FOODS,
            decreases ANIMALS - a,
        {
            if bearings[a].len() != FOODS {
                return false;
            }
            a = a + 1;
        }
        true
    }

    /// Whether `directions` holds a direction for each animal.
    fn check_directions(directions: &Vec<Direction>) -> (r: bool)
        ensures
            r == directions_fit(directions@),
    {
        if directions.len() != ANIMALS {
            return false;
        }
        let mut a: usize = 0;
        while a < ANIMALS
            invariant
                a <= ANIMALS,
                directions@.len() == ANIMALS,
                forall|b: int| 0 <= b < a ==> (#[trigger] directions@[b]).wf(),
            decreases ANIMALS - a,
        {
            let direction: Direction = directions[a];
            if direction.x < -ONE || direction.x > ONE || direction.y < -ONE || direction.y > ONE {
                return false;
            }
            a = a + 1;
        }
        true
    }

    /// Whether `offspring` holds a chromosome of the right length for each
    /// animal.
    fn check_offspring(offspring: &Vec<Vec<i64>>) -> (r: bool)
        ensures
            r == offspring_fit(offspring@),
    {
        if offspring.len() != ANIMALS {
            return false;
        }
        proof {
            lemma_default_weight_count();
        }
        let mut a: usize = 0;
        while a < ANIMALS
            invariant
                a <= ANIMALS,
                offspring@.len() == ANIMALS,
                weight_count(CELLS as int) == 218,
                forall|b: int|
                    0 <= b < a ==> (#[trigger] offspring@[b])@.len() == weight_count(CELLS as int),
            decreases ANIMALS - a,
        {
            if offspring[a].len() != 218 {
                return false;
            }
            a = a + 1;
        }
        true
    }

    /// Takes the simulation one stage further.
    ///
    /// A step begins with `Event::Tick` between two steps: the animals eat.
    /// The simulation then asks in turn for the bearings of the food, which
    /// tell it what the animals see; for the answers of the brains, by which
    /// the animals steer; and for the directions of the headings, along
    /// which they move. With that the generation is one step older. If it
    /// has lived its `GENERATION_LENGTH` steps and this one, the simulation
    /// asks for its offspring, and begins the next generation with them at
    /// age 0; else the step is over. An event that is not the awaited one,
    /// or not of the right shape, is refused and changes nothing.
    pub fn step(&mut self, rng: &mut rand::rngs::StdRng, event: Event) -> (action: Action)
        requires
            old(self).wf(),
        ensures
            final(self).wf(),
            old(self)@.accepts(event) ==> old(self)@.follows(event, final(self)@, action),
            !old(self)@.accepts(event) ==> action is Refused && final(self)@ == old(self)@,
    {
        match event {
            Event::Tick => {
                if !matches!(self.stage, Stage::Ready) {
                    return Action::Refused;
                }
                self.process_collisions(rng);
                self.stage = Stage::Sensing;
                Action::FindBearings
            },
            Event::Bearings(bearings) => {
                if !matches!(self.stage, Stage::Sensing) || !Self::check_bearings(&bearings) {
                    return Action::Refused;
                }
                let visions: Vec<Vec<i64>> = self.process_eyes(&bearings);
                self.stage = Stage::Thinking;
                Action::RunBrains(visions)
            },
            Event::Responses(responses) => {
                if !matches!(self.stage, Stage::Thinking) || responses.len() != ANIMALS {
                    return Action::Refused;
                }
                self.process_brains(&responses);
                self.stage = Stage::Moving;
                Action::FindDirections
            },
            Event::Directions(directions) => {
                if !matches!(self.stage, Stage::Moving) || !Self::check_directions(&directions) {
                    return Action::Refused;
                }
                self.process_movements(&directions);
                self.age = self.age + 1;
                if self.age > GENERATION_LENGTH {
                    self.stage = Stage::Evolving;
                    Action::Evolve(self.population())
                } else {
                    self.stage = Stage::Ready;
                    Action::Done
                }
            },
            Event::Offspring(offspring) => {
                if !matches!(self.stage, Stage::Evolving) || !Self::check_offspring(&offspring) {
                    return Action::Refused;
                }
                self.evolve(rng, &offspring);
                self.stage = Stage::Ready;
                Action::Done
            },
        }
    }
}

} // verus!
