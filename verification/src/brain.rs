//! The brain: the weights of a small feed-forward network.
//!
//! A brain has three layers: one input per cell of the eye, twice as many
//! hidden neurons, and two outputs. This module keeps the weights in the
//! order in which a chromosome lists them; running the network is left to the
//! host.

use vstd::prelude::*;
use crate::eye::{Eye, CELLS};
use crate::random::draw;
use crate::scalar::{copy_of, ONE};

verus! {

/// The size of one layer of a network.
#[derive(Clone, Copy, Debug, PartialEq, Eq, Structural)]
pub struct LayerTopology {
    pub neurons: usize,
}

/// The weights of a network, layer by layer.
#[derive(Debug)]
pub struct Brain {
    weights: Vec<i64>,
}

/// The number of weights of the network for an eye of `cells` cells: each
/// hidden neuron has a weight per cell and a bias, each of the two outputs
/// a weight per hidden neuron and a bias.
pub open spec fn weight_count(cells: int) -> int {
    (cells + 1) * (2 * cells) + (2 * cells + 1) * 2
}

impl View for Brain {
    type V = Seq<i64>;

    closed spec fn view(&self) -> Seq<i64> {
        self.weights@
    }
}

impl Brain {
    /// The brain has as many weights as the network for `eye` needs.
    pub open spec fn wf(self, eye: Eye) -> bool {
        self@.len() == weight_count(eye.cells_spec())
    }

    /// Whether the brain holds exactly the weights of `chromosome`.
    pub open spec fn built_from(self, chromosome: Seq<i64>) -> bool {
        self@ == chromosome
    }

    /// The chromosome that describes the brain.
    pub open spec fn chromosome_spec(self) -> Seq<i64> {
        self@
    }

    /// The layers of the network for `eye`.
    pub fn topology(eye: &Eye) -> (r: [LayerTopology; 3])
        requires
            2 * eye.cells_spec() <= usize::MAX,
        ensures
            r@[0].neurons == eye.cells_spec(),
            r@[1].neurons == 2 * eye.cells_spec(),
            r@[2].neurons == 2,
    {
        [
            LayerTopology { neurons: eye.cells() },
            LayerTopology { neurons: 2 * eye.cells() },
            LayerTopology { neurons: 2 },
        ]
    }

    /// The number of weights of the network for `eye`, or `None` where that
    /// number does not fit in a `usize`.
    pub fn weights_for(eye: &Eye) -> (r: Option<usize>)
        requires
            eye.wf(),
        ensures
            match r {
                Some(n) => n == weight_count(eye.cells_spec()),
                None => weight_count(eye.cells_spec()) > usize::MAX,
            },
    {
        let cells: u128 = eye.cells() as u128;
        if cells > 0xffff_ffff {
            assert(weight_count(cells as int) > usize::MAX) by (nonlinear_arith)
                requires
                    cells > 0xffff_ffff,
                    usize::MAX <= 0xffff_ffff_ffff_ffff,
                    weight_count(cells as int) == (cells + 1) * (2 * cells) + (2 * cells + 1) * 2,
            ;
            return None;
        }
        assert((cells + 1) * (2 * cells) <= 0x1_0000_0000 * 0x2_0000_0000) by (nonlinear_arith)
            requires
                0 <= cells <= 0xffff_ffff,
        ;
        let count: u128 = (cells + 1) * (2 * cells) + (2 * cells + 1) * 2;
        if count > usize::MAX as u128 {
            None
        } else {
            Some(count as usize)
        }
    }

    /// A brain for `eye` whose weights are drawn from `rng`, each between
    /// `-ONE` and `ONE`.
    pub fn random(rng: &mut rand::rngs::StdRng, eye: &Eye) -> (r: Brain)
        requires
            eye.wf(),
            weight_count(eye.cells_spec()) <= usize::MAX,
        ensures
            r.wf(*eye),
            forall|i: int| 0 <= i < r@.len() ==> -ONE <= #[trigger] r@[i] <= ONE,
    {
        let count: usize = match Self::weights_for(eye) {
            Some(n) => n,
            None => 0,
        };
        let mut weights: Vec<i64> = Vec::new();
        while weights.len() < count
            invariant
                weights@.len() <= count,
                forall|i: int| 0 <= i < weights@.len() ==> -ONE <= #[trigger] weights@[i] <= ONE,
            decreases count - weights@.len(),
        {
            let weight: i64 = draw(rng, -ONE, ONE + 1);
            weights.push(weight);
        }
        Brain { weights }
    }

    /// The brain for `eye` that `chromosome` describes: the chromosome lists
    /// the weights in the network's own order.
    pub fn from_chromosome(chromosome: Vec<i64>, eye: &Eye) -> (r: Brain)
        requires
            chromosome@.len() == weight_count(eye.cells_spec()),
        ensures
            r.built_from(chromosome@),
            r.wf(*eye),
    {
        Brain { weights: chromosome }
    }

    /// The chromosome that describes the brain: its weights, in the order
    /// in which `from_chromosome` takes them.
    pub fn as_chromosome(&self) -> (r: Vec<i64>)
        ensures
            r@ == self.chromosome_spec(),
    {
        copy_of(&self.weights)
    }
}

/// The network behind the default eye has 218 weights.
pub proof fn lemma_default_weight_count()
    ensures
        weight_count(CELLS as int) == 218,
{
    assert(weight_count(9) == 218) by (nonlinear_arith)
        requires
            weight_count(9) == (9 + 1) * (2 * 9) + (2 * 9 + 1) * 2,
    ;
}

/// A brain built from a chromosome gives that chromosome back.
pub proof fn lemma_chromosome_round_trip(brain: Brain, chromosome: Seq<i64>)
    requires
        brain.built_from(chromosome),
    ensures
        brain.chromosome_spec() == chromosome,
{
}

} // verus!
