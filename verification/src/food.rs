//! Food: what the animals forage for.

use vstd::prelude::*;
use crate::geometry::Point2;

verus! {

/// A piece of food, which is nothing but a place in the world.
#[derive(Clone, Copy, Debug, PartialEq, Eq, Structural)]
pub struct Food {
    position: Point2,
}

impl Food {
    /// Where the food lies.
    pub closed spec fn position_spec(self) -> Point2 {
        self.position
    }

    /// Food lies in the world.
    pub open spec fn wf(self) -> bool {
        self.position_spec().in_world()
    }

    /// Food at `position`.
    pub fn new(position: Point2) -> (r: Food)
        requires
            position.in_world(),
        ensures
            r.wf(),
            r.position_spec() == position,
    {
        Food { position }
    }

    /// Food at a place drawn from `rng`.
    pub fn random(rng: &mut rand::rngs::StdRng) -> (r: Food)
        ensures
            r.wf(),
    {
        Food { position: Point2::random(rng) }
    }

    /// Where the food lies.
    pub fn position(&self) -> (r: Point2)
        ensures
            r == self.position_spec(),
    {
        self.position
    }
}

} // verus!
