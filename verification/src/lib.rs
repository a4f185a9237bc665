//! A foraging simulation on a unit torus, in fixed-point arithmetic.
//!
//! Animals with an eye and a small neural network for a brain look for food
//! in a world that wraps around at its edges. Generation after generation,
//! the brains of those that ate most are bred on.
//!
//! The library keeps the world and everything that is decided in it: who
//! eats, what an eye sees, how far a brain may steer, where a move ends and
//! when a generation is over. All numbers are integers that count
//! millionths, so that every contract is exact. Three things are left to the
//! host, which hands their results in: trigonometry, the run of the
//! networks, and the breeding.

pub mod animal;
pub mod brain;
pub mod eye;
pub mod food;
pub mod geometry;
pub mod individual;
pub mod random;
pub mod scalar;
pub mod simulation;
pub mod world;

pub use crate::animal::{Animal, Direction, Response};
pub use crate::brain::{Brain, LayerTopology};
pub use crate::eye::Eye;
pub use crate::food::Food;
pub use crate::geometry::Point2;
pub use crate::individual::AnimalIndividual;
pub use crate::simulation::{Action, Event, Simulation, Stage};
pub use crate::world::World;
