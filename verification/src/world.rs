//! The world: all animals and all food.

use vstd::prelude::*;
use crate::animal::{Animal, AnimalView, Direction, Response, SPEED_INITIAL};
use crate::food::Food;

verus! {

/// The number of animals in the world.
pub const ANIMALS: usize = 40;

/// The number of pieces of food in the world.
pub const FOODS: usize = 60;

/// The world. It never gains or loses an animal or a piece of food: they
/// are only replaced.
#[derive(Debug)]
pub struct World {
    animals: Vec<Animal>,
    foods: Vec<Food>,
}

/// What a world is, to a specification.
pub struct WorldView {
    /// The animals, in order.
    pub animals: Seq<AnimalView>,
    /// The food, in order.
    pub foods: Seq<Food>,
}

impl View for World {
    type V = WorldView;

    closed spec fn view(&self) -> WorldView {
        WorldView {
            animals: Seq::new(self.animals@.len(), |i: int| self.animals@[i]@),
            foods: self.foods@,
        }
    }
}

impl WorldView {
    /// The world holds `ANIMALS` animals and `FOODS` pieces of food, all
    /// well formed.
    pub open spec fn wf(self) -> bool {
        &&& self.animals.len() == ANIMALS
        &&& self.foods.len() == FOODS
        &&& forall|i: int| 0 <= i < self.animals.len() ==> (#[trigger] self.animals[i]).wf()
        &&& forall|j: int| 0 <= j < self.foods.len() ==> (#[trigger] self.foods[j]).wf()
    }

    /// The world after every animal has done what its brain answered.
    pub open spec fn steered(self, responses: Seq<Response>) -> WorldView {
        WorldView {
            animals: Seq::new(
                self.animals.len(),
                |a: int| self.animals[a].steered(responses[a]),
            ),
            ..self
        }
    }

    /// The world after every animal has moved along its direction.
    pub open spec fn moved(self, directions: Seq<Direction>) -> WorldView {
        WorldView {
            animals: Seq::new(self.animals.len(), |a: int| self.animals[a].moved(directions[a])),
            ..self
        }
    }

    /// The world in which animal `a` has become `animal`.
    pub open spec fn with_animal(self, a: int, animal: AnimalView) -> WorldView {
        WorldView { animals: self.animals.update(a, animal), ..self }
    }

    /// The world in which the food in place `j` has become `food`.
    pub open spec fn with_food(self, j: int, food: Food) -> WorldView {
        WorldView { foods: self.foods.update(j, food), ..self }
    }
}

impl World {
    /// The world is well formed.
    pub open spec fn wf(self) -> bool {
        self@.wf()
    }

    /// The world of the given animals and food.
    pub fn new(animals: Vec<Animal>, foods: Vec<Food>) -> (r: World)
        requires
            animals@.len() == ANIMALS,
            foods@.len() == FOODS,
            forall|i: int| 0 <= i < animals@.len() ==> (#[trigger] animals@[i]).wf(),
            forall|j: int| 0 <= j < foods@.len() ==> (#[trigger] foods@[j]).wf(),
        ensures
            r.wf(),
            r@.foods == foods@,
            r@.animals.len() == animals@.len(),
            forall|i: int| 0 <= i < animals@.len() ==> r@.animals[i] == (#[trigger] animals@[i])@,
    {
        World { animals, foods }
    }

    /// A world of newborn animals and of food scattered at random. The
    /// animals are drawn first, one after the other, then the food.
    pub fn random(rng: &mut rand::rngs::StdRng) -> (r: World)
        ensures
            r.wf(),
            forall|i: int|
                0 <= i < ANIMALS ==> {
                    &&& (#[trigger] r@.animals[i]).satiation == 0
                    &&& r@.animals[i].speed == SPEED_INITIAL
                    &&& r@.animals[i].eye.default_spec()
                },
    {
        let mut animals: Vec<Animal> = Vec::new();
        while animals.len() < ANIMALS
            invariant
                animals@.len() <= ANIMALS,
                forall|i: int|
                    0 <= i < animals@.len() ==> {
                        &&& (#[trigger] animals@[i]).wf()
                        &&& animals@[i]@.satiation == 0
                        &&& animals@[i]@.speed == SPEED_INITIAL
                        &&& animals@[i]@.eye.default_spec()
                    },
            decreases ANIMALS - animals@.len(),
        {
            let animal: Animal = Animal::random(rng);
            animals.push(animal);
        }
        let mut foods: Vec<Food> = Vec::new();
        while foods.len() < FOODS
            invariant
                foods@.len() <= FOODS,
                forall|j: int| 0 <= j < foods@.len() ==> (#[trigger] foods@[j]).wf(),
            decreases FOODS - foods@.len(),
        {
            let food: Food = Food::random(rng);
            foods.push(food);
        }
        World { animals, foods }
    }

    /// The animals.
    pub fn animals(&self) -> (r: &[Animal])
        ensures
            r@.len() == self@.animals.len(),
            forall|i: int| 0 <= i < r@.len() ==> (#[trigger] r@[i])@ == self@.animals[i],
    {
        self.animals.as_slice()
    }

    /// The food.
    pub fn foods(&self) -> (r: &[Food])
        ensures
            r@ == self@.foods,
    {
        self.foods.as_slice()
    }

    /// Animal `a` eats.
    pub(crate) fn feed(&mut self, a: usize)
        requires
            a < old(self)@.animals.len(),
            old(self)@.animals[a as int].wf(),
            old(self)@.animals[a as int].satiation < usize::MAX,
        ensures
            final(self)@ == old(self)@.with_animal(a as int, old(self)@.animals[a as int].fed()),
            final(self)@.animals[a as int].wf(),
    {
        self.animals[a].feed();
        assert(self@.animals =~= old(self)@.animals.update(
            a as int,
            old(self)@.animals[a as int].fed(),
        ));
    }

    /// Animal `a` does what its brain answered.
    pub(crate) fn steer(&mut self, a: usize, response: Response)
        requires
            a < old(self)@.animals.len(),
            old(self)@.animals[a as int].wf(),
        ensures
            final(self)@ == old(self)@.with_animal(
                a as int,
                old(self)@.animals[a as int].steered(response),
            ),
            final(self)@.animals[a as int].wf(),
    {
        self.animals[a].steer(response);
        assert(self@.animals =~= old(self)@.animals.update(
            a as int,
            old(self)@.animals[a as int].steered(response),
        ));
    }

    /// Animal `a` moves along `direction`.
    pub(crate) fn advance(&mut self, a: usize, direction: Direction)
        requires
            a < old(self)@.animals.len(),
            old(self)@.animals[a as int].wf(),
            direction.wf(),
        ensures
            final(self)@ == old(self)@.with_animal(
                a as int,
                old(self)@.animals[a as int].moved(direction),
            ),
            final(self)@.animals[a as int].wf(),
    {
        self.animals[a].advance(direction);
        assert(self@.animals =~= old(self)@.animals.update(
            a as int,
            old(self)@.animals[a as int].moved(direction),
        ));
    }

    /// The food in place `j` is replaced by food at a place drawn from
    /// `rng`.
    pub(crate) fn relocate(&mut self, j: usize, rng: &mut rand::rngs::StdRng)
        requires
            j < old(self)@.foods.len(),
        ensures
            final(self)@.foods[j as int].wf(),
            final(self)@ == old(self)@.with_food(j as int, final(self)@.foods[j as int]),
    {
        let food: Food = Food::random(rng);
        self.foods.set(j, food);
        assert(self@.animals =~= old(self)@.animals);
    }

    /// A new generation takes the place of the animals.
    pub(crate) fn repopulate(&mut self, animals: Vec<Animal>)
        requires
            animals@.len() == old(self)@.animals.len(),
        ensures
            final(self)@.foods == old(self)@.foods,
            final(self)@.animals.len() == old(self)@.animals.len(),
            forall|i: int|
                0 <= i < animals@.len() ==> final(self)@.animals[i] == (#[trigger] animals@[i])@,
    {
        self.animals = animals;
    }
}

} // verus!
