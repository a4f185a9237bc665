//! The eye: an animal's only sense.
//!
//! An eye divides its field of view into equal angular cells and reports,
//! for each cell, how much food lies in it and how near.

use vstd::prelude::*;
use crate::food::Food;
use crate::geometry::{distance, distance_spec, distance_squared, Point2};
use crate::scalar::{
    is_sqrt, lemma_sqrt_exists, lemma_sqrt_unique, sqrt_spec, wrap_angle, wrap_angle_spec,
    FRAC_PI_4, ONE, PI,
};

verus! {

/// How far the default eye sees.
pub const FOV_RANGE: i64 = 250_000;

/// The angle that the default eye takes in.
pub const FOV_ANGLE: i64 = PI + FRAC_PI_4;

/// The number of cells of the default eye.
pub const CELLS: usize = 9;

/// An eye: how far it sees, how wide, and in how many cells.
#[derive(Clone, Copy, Debug, PartialEq, Eq, Structural)]
pub struct Eye {
    fov_range: i64,
    fov_angle: i64,
    cells: usize,
}

impl Eye {
    /// How far the eye sees.
    pub closed spec fn fov_range(self) -> int {
        self.fov_range as int
    }

    /// The angle that the eye takes in, centred on the animal's heading.
    pub closed spec fn fov_angle(self) -> int {
        self.fov_angle as int
    }

    /// The number of cells.
    pub closed spec fn cells_spec(self) -> int {
        self.cells as int
    }

    /// Range, angle and number of cells are all positive.
    pub open spec fn wf(self) -> bool {
        &&& self.fov_range() > 0
        &&& self.fov_angle() > 0
        &&& self.cells_spec() > 0
    }

    /// The eye that every animal is born with.
    pub open spec fn default_spec(self) -> bool {
        &&& self.fov_range() == FOV_RANGE
        &&& self.fov_angle() == FOV_ANGLE
        &&& self.cells_spec() == CELLS
    }

    /// The angle between the animal's heading `rotation` and the direction
    /// `bearing`, in `(-PI, PI]`.
    pub open spec fn angle_to(rotation: int, bearing: int) -> int {
        wrap_angle_spec(bearing - rotation)
    }

    /// Whether something under `angle`, at a distance whose square is
    /// `squared`, is seen: it is no farther away than the eye sees, and
    /// within half the angle of view to either side.
    pub open spec fn sees(self, squared: int, angle: int) -> bool {
        &&& squared <= self.fov_range() * self.fov_range()
        &&& -self.fov_angle() <= 2 * angle <= self.fov_angle()
    }

    /// The cell in which something seen under `angle` falls. The cells
    /// divide the angle of view evenly, from its one edge to the other; what
    /// lies on the far edge belongs to the last cell.
    pub open spec fn cell_of(self, angle: int) -> int {
        let cell = (2 * angle + self.fov_angle()) * self.cells_spec() / (2 * self.fov_angle());
        if cell > self.cells_spec() - 1 {
            self.cells_spec() - 1
        } else {
            cell
        }
    }

    /// How strongly something at distance `dist` is seen: `ONE` where the
    /// animal stands, falling linearly to nothing at the end of the range.
    pub open spec fn intensity(self, dist: int) -> int {
        (self.fov_range() - dist) * ONE / self.fov_range()
    }

    /// What food at `food`, lying in direction `bearing`, adds to `cell` for
    /// an animal at `position` that heads towards `rotation`.
    pub open spec fn contribution(
        self,
        position: Point2,
        rotation: int,
        food: Point2,
        bearing: int,
        cell: int,
    ) -> int {
        let angle = Self::angle_to(rotation, bearing);
        if self.sees(distance_squared(position, food), angle) && self.cell_of(angle) == cell {
            self.intensity(distance_spec(position, food))
        } else {
            0
        }
    }

    /// What the first `n` of `foods` add to `cell` together.
    pub open spec fn cell_total(
        self,
        position: Point2,
        rotation: int,
        foods: Seq<Food>,
        bearings: Seq<i64>,
        cell: int,
        n: int,
    ) -> int
        decreases n,
    {
        if n <= 0 {
            0
        } else {
            self.cell_total(position, rotation, foods, bearings, cell, n - 1) + self.contribution(
                position,
                rotation,
                foods[n - 1].position_spec(),
                bearings[n - 1] as int,
                cell,
            )
        }
    }

    /// An eye that sees `fov_range` far, takes in `fov_angle` and has
    /// `cells` cells.
    pub fn new(fov_range: i64, fov_angle: i64, cells: usize) -> (r: Eye)
        requires
            fov_range > 0,
            fov_angle > 0,
            cells > 0,
        ensures
            r.wf(),
            r.fov_range() == fov_range,
            r.fov_angle() == fov_angle,
            r.cells_spec() == cells,
    {
        Eye { fov_range, fov_angle, cells }
    }

    /// The number of cells.
    pub fn cells(&self) -> (r: usize)
        ensures
            r == self.cells_spec(),
    {
        self.cells
    }

    /// The cell for an angle that the eye takes in.
    fn bucket(&self, angle: i64) -> (r: usize)
        requires
            self.wf(),
            -PI < angle <= PI,
            -self.fov_angle() <= 2 * angle <= self.fov_angle(),
        ensures
            r == self.cell_of(angle as int),
            r < self.cells_spec(),
    {
        let shifted: u128 = ((2 * angle) as i128 + self.fov_angle as i128) as u128;
        let cells: u128 = self.cells as u128;
        let span: u128 = 2 * (self.fov_angle as u128);
        assert(shifted * cells <= 0x8000_0000_0080_0000 * 0xffff_ffff_ffff_ffff)
            by (nonlinear_arith)
            requires
                0 <= shifted <= 0x8000_0000_0080_0000,
                0 <= cells <= 0xffff_ffff_ffff_ffff,
        ;
        let cell: u128 = shifted * cells / span;
        if cell > cells - 1 {
            self.cells - 1
        } else {
            cell as usize
        }
    }

    /// How strongly something within range is seen.
    fn falloff(&self, dist: i64) -> (r: i64)
        requires
            self.wf(),
            0 <= dist <= self.fov_range(),
        ensures
            r == self.intensity(dist as int),
            0 <= r <= ONE,
    {
        let near: u128 = (self.fov_range - dist) as u128;
        let range: u128 = self.fov_range as u128;
        let scaled: u128 = near * 1_000_000;
        let r: u128 = scaled / range;
        assert(r <= 1_000_000) by (nonlinear_arith)
            requires
                r == scaled / range,
                scaled == near * 1_000_000,
                near <= range,
                range > 0,
        ;
        r as i64
    }

    /// What the eye of an animal at `position`, heading towards `rotation`,
    /// makes of `foods`, where `bearings` gives for each food the direction
    /// in which it lies.
    ///
    /// The result has one entry per cell: the sum of what each food adds to
    /// that cell. Food out of range or outside the angle of view adds
    /// nothing, so without food every cell is 0.
    pub fn process_vision(
        &self,
        position: Point2,
        rotation: i64,
        foods: &[Food],
        bearings: &[i64],
    ) -> (r: Vec<i64>)
        requires
            self.wf(),
            position.in_world(),
            forall|i: int| 0 <= i < foods@.len() ==> (#[trigger] foods@[i]).wf(),
            bearings@.len() == foods@.len(),
            foods@.len() * ONE <= i64::MAX,
        ensures
            r@.len() == self.cells_spec(),
            forall|c: int|
                0 <= c < self.cells_spec() ==> #[trigger] r@[c] == self.cell_total(
                    position,
                    rotation as int,
                    foods@,
                    bearings@,
                    c,
                    foods@.len() as int,
                ),
            foods@.len() == 0 ==> forall|c: int| 0 <= c < self.cells_spec() ==> #[trigger] r@[c] == 0,
    {
        let mut cells: Vec<i64> = Vec::new();
        while cells.len() < self.cells
            invariant
                cells@.len() <= self.cells_spec(),
                forall|c: int| 0 <= c < cells@.len() ==> #[trigger] cells@[c] == 0,
            decreases self.cells_spec() - cells@.len(),
        {
            cells.push(0);
        }
        let mut i: usize = 0;
        while i < foods.len()
            invariant
                self.wf(),
                position.in_world(),
                forall|k: int| 0 <= k < foods@.len() ==> (#[trigger] foods@[k]).wf(),
                bearings@.len() == foods@.len(),
                foods@.len() * ONE <= i64::MAX,
                i <= foods@.len(),
                cells@.len() == self.cells_spec(),
                forall|c: int|
                    0 <= c < self.cells_spec() ==> #[trigger] cells@[c] == self.cell_total(
                        position,
                        rotation as int,
                        foods@,
                        bearings@,
                        c,
                        i as int,
                    ),
                forall|c: int| 0 <= c < self.cells_spec() ==> 0 <= #[trigger] cells@[c] <= i * ONE,
            decreases foods@.len() - i,
        {
            let food: Point2 = foods[i].position();
            let dist: i64 = distance(&position, &food);
            let angle: i64 = wrap_angle(bearings[i] as i128 - rotation as i128);
            proof {
                lemma_within_range(self.fov_range(), distance_squared(position, food), dist as int);
            }
            if dist <= self.fov_range && -self.fov_angle <= 2 * angle && 2 * angle
                <= self.fov_angle {
                let cell: usize = self.bucket(angle);
                let seen: i64 = self.falloff(dist);
                let total: i64 = cells[cell] + seen;
                cells.set(cell, total);
            }
            i = i + 1;
        }
        cells
    }
}

impl Default for Eye {
    /// The eye that every animal is born with.
    fn default() -> (r: Eye)
        ensures
            r.wf(),
            r.default_spec(),
    {
        Eye::new(FOV_RANGE, FOV_ANGLE, CELLS)
    }
}

/// What the eye takes in falls in one of its cells, and is seen no more
/// strongly than `ONE`.
pub proof fn lemma_sight_bounds(eye: Eye, position: Point2, food: Point2, angle: int)
    requires
        eye.wf(),
        eye.sees(distance_squared(position, food), angle),
    ensures
        0 <= eye.cell_of(angle) < eye.cells_spec(),
        0 <= eye.intensity(distance_spec(position, food)) <= ONE,
{
    let squared = distance_squared(position, food);
    assert(squared >= 0) by (nonlinear_arith)
        requires
            squared == (position.x - food.x) * (position.x - food.x) + (position.y - food.y) * (
            position.y - food.y),
    ;
    lemma_sqrt_exists(squared);
    let dist = distance_spec(position, food);
    lemma_within_range(eye.fov_range(), squared, dist);
    let range = eye.fov_range();
    let span = 2 * eye.fov_angle();
    let shifted = 2 * angle + eye.fov_angle();
    let cells = eye.cells_spec();
    assert(0 <= shifted * cells / span) by (nonlinear_arith)
        requires
            0 <= shifted,
            0 < cells,
            0 < span,
    ;
    assert(0 <= (range - dist) * ONE / range <= ONE) by (nonlinear_arith)
        requires
            0 <= dist <= range,
            0 < range,
    ;
}

/// A distance rounded down is within `range` wherever the distance itself
/// is; where only the rounded one is, it is `range` itself.
pub proof fn lemma_within_range(range: int, squared: int, dist: int)
    requires
        0 < range,
        is_sqrt(squared, dist),
    ensures
        squared <= range * range ==> dist <= range,
        dist <= range && squared > range * range ==> dist == range,
{
    if squared <= range * range {
        assert(dist <= range) by (nonlinear_arith)
            requires
                dist * dist <= squared,
                squared <= range * range,
                0 <= dist,
                0 < range,
        ;
    }
    if dist <= range && squared > range * range {
        assert(dist >= range) by (nonlinear_arith)
            requires
                squared > range * range,
                squared < (dist + 1) * (dist + 1),
                0 <= dist,
                0 < range,
        ;
    }
}

/// Food that lies farther away than the eye sees adds nothing to any cell.
pub proof fn lemma_beyond_range_unseen(
    eye: Eye,
    position: Point2,
    rotation: int,
    food: Point2,
    bearing: int,
    cell: int,
)
    requires
        eye.wf(),
        distance_squared(position, food) > eye.fov_range() * eye.fov_range(),
    ensures
        eye.contribution(position, rotation, food, bearing, cell) == 0,
{
}

/// Where all of the first `n` pieces of food lie farther away than the eye
/// sees, they add nothing to any cell; so food beyond the range changes
/// nothing about what the eye makes of the rest.
pub proof fn lemma_all_beyond_range_unseen(
    eye: Eye,
    position: Point2,
    rotation: int,
    foods: Seq<Food>,
    bearings: Seq<i64>,
    cell: int,
    n: int,
)
    requires
        eye.wf(),
        0 <= n <= foods.len(),
        forall|i: int|
            0 <= i < n ==> distance_squared(position, (#[trigger] foods[i]).position_spec())
                > eye.fov_range() * eye.fov_range(),
    ensures
        eye.cell_total(position, rotation, foods, bearings, cell, n) == 0,
    decreases n,
{
    if n > 0 {
        lemma_all_beyond_range_unseen(eye, position, rotation, foods, bearings, cell, n - 1);
        assert(distance_squared(position, foods[n - 1].position_spec()) > eye.fov_range()
            * eye.fov_range());
        lemma_beyond_range_unseen(
            eye,
            position,
            rotation,
            foods[n - 1].position_spec(),
            bearings[n - 1] as int,
            cell,
        );
    }
}

/// Food that lies where the animal stands, if the eye takes in its
/// direction, adds exactly `ONE` to the cell of that direction.
pub proof fn lemma_food_underfoot_is_full(
    eye: Eye,
    position: Point2,
    rotation: int,
    bearing: int,
)
    requires
        eye.wf(),
        -eye.fov_angle() <= 2 * Eye::angle_to(rotation, bearing) <= eye.fov_angle(),
    ensures
        eye.contribution(
            position,
            rotation,
            position,
            bearing,
            eye.cell_of(Eye::angle_to(rotation, bearing)),
        ) == ONE,
{
    let range = eye.fov_range();
    assert(distance_squared(position, position) == 0) by (nonlinear_arith)
        requires
            distance_squared(position, position) == (position.x - position.x) * (position.x
                - position.x) + (position.y - position.y) * (position.y - position.y),
    ;
    assert(is_sqrt(0, 0));
    lemma_sqrt_exists(0);
    lemma_sqrt_unique(0, 0, sqrt_spec(0));
    assert(eye.intensity(0) == ONE) by (nonlinear_arith)
        requires
            range > 0,
            eye.intensity(0) == (range - 0) * ONE / range,
    ;
}

} // verus!
