//! Individuals: what evolution sees of an animal.

use vstd::prelude::*;
use crate::animal::{Animal, SPEED_INITIAL};
use crate::brain::weight_count;
use crate::eye::CELLS;

verus! {

/// An animal as evolution sees it: how fit it is, and the chromosome that
/// describes it.
#[derive(Debug)]
pub struct AnimalIndividual {
    fitness: usize,
    chromosome: Vec<i64>,
}

impl AnimalIndividual {
    /// How fit the individual is: how much the animal has eaten.
    pub closed spec fn fitness_spec(self) -> nat {
        self.fitness as nat
    }

    /// The individual's chromosome.
    pub closed spec fn chromosome_spec(self) -> Seq<i64> {
        self.chromosome@
    }

    /// Whether the individual stands for `animal`: its fitness is the
    /// animal's satiation, its chromosome that of the animal's brain.
    pub open spec fn stands_for(self, animal: crate::animal::AnimalView) -> bool {
        &&& self.fitness_spec() == animal.satiation
        &&& self.chromosome_spec() == animal.brain
    }

    /// An individual with the given chromosome, of which nothing is known
    /// yet: its fitness is 0.
    pub fn create(chromosome: Vec<i64>) -> (r: AnimalIndividual)
        ensures
            r.fitness_spec() == 0,
            r.chromosome_spec() == chromosome@,
    {
        AnimalIndividual { fitness: 0, chromosome }
    }

    /// The individual's chromosome.
    pub fn chromosome(&self) -> (r: &Vec<i64>)
        ensures
            r@ == self.chromosome_spec(),
    {
        &self.chromosome
    }

    /// How fit the individual is.
    pub fn fitness(&self) -> (r: usize)
        ensures
            r == self.fitness_spec(),
    {
        self.fitness
    }

    /// The individual that stands for `animal`.
    pub fn from_animal(animal: &Animal) -> (r: AnimalIndividual)
        requires
            animal.wf(),
        ensures
            r.stands_for(animal@),
    {
        AnimalIndividual { fitness: animal.satiation(), chromosome: animal.as_chromosome() }
    }

    /// A newborn animal with the individual's chromosome, at a random place
    /// and with a random heading.
    pub fn into_animal(self, rng: &mut rand::rngs::StdRng) -> (r: Animal)
        requires
            self.chromosome_spec().len() == weight_count(CELLS as int),
        ensures
            r.wf(),
            r@.eye.default_spec(),
            r@.brain == self.chromosome_spec(),
            r@.speed == SPEED_INITIAL,
            r@.satiation == 0,
    {
        Animal::from_chromosome(self.chromosome, rng)
    }
}

} // verus!
