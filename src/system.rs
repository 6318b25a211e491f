//! A fixed population of particles steered by a flow field.
use vstd::prelude::*;

use crate::field::{
    all_unit, cell_count, is_unit, lemma_unit_components, FieldError, FlowField, CELLS_MAX,
};
use crate::geom::{Rect, Vec2, COORD_MAX};
use crate::particle::{Particle, SPEED_MAX};

verus! {

/// The factor from a unit direction of the field to the force it applies.
pub const FORCE_SCALE: i64 = 2;

/// Why a simulation could not be set up.
#[derive(Clone, Copy, Debug, PartialEq, Eq, Structural)]
pub enum ConfigError {
    /// A viewport side is not positive or exceeds `2 * COORD_MAX`.
    BadViewport,
    /// The tile size is not positive.
    BadTile,
    /// The viewport holds no whole column or no whole row of tiles.
    EmptyGrid,
    /// The grid would hold more than `CELLS_MAX` cells.
    GridTooLarge,
    /// The top speed is negative or exceeds `SPEED_MAX`.
    BadSpeed,
    /// The starting position at `index` lies outside the viewport.
    OutsideViewport { index: usize },
}

/// The fault in a configuration, leaving the starting positions aside, if any.
pub open spec fn config_fault(width: int, height: int, tile: int, topspeed: int) -> Option<
    ConfigError,
> {
    if !(0 < width <= 2 * COORD_MAX && 0 < height <= 2 * COORD_MAX) {
        Some(ConfigError::BadViewport)
    } else if tile <= 0 {
        Some(ConfigError::BadTile)
    } else if width / tile == 0 || height / tile == 0 {
        Some(ConfigError::EmptyGrid)
    } else if cell_count(width / tile, height / tile) > CELLS_MAX {
        Some(ConfigError::GridTooLarge)
    } else if !(0 <= topspeed <= SPEED_MAX) {
        Some(ConfigError::BadSpeed)
    } else {
        None
    }
}

/// Every position in `ps` lies inside `b`.
pub open spec fn all_inside(b: Rect, ps: Seq<Vec2>) -> bool {
    forall|i: int| 0 <= i < ps.len() ==> b.contains(#[trigger] ps[i])
}

/// The particles and the field they move through.
#[derive(Debug)]
pub struct ParticleSystem {
    pub particles: Vec<Particle>,
    pub field: FlowField,
    /// Side of a grid cell, in sub-pixel units.
    pub tile: i64,
    /// The viewport; particles wrap around its edges.
    pub bounds: Rect,
}

impl ParticleSystem {
    /// The field well formed, and every particle well formed, inside the
    /// viewport and with no force pending.
    pub open spec fn wf(self) -> bool {
        &&& self.field.wf()
        &&& self.bounds.wf()
        &&& self.tile > 0
        &&& forall|i: int|
            0 <= i < self.particles@.len() ==> {
                let p = #[trigger] self.particles@[i];
                &&& p.wf()
                &&& self.bounds.contains(p.position)
                &&& p.acceleration == Vec2::zero_spec()
            }
    }

    /// A particle after one frame: the force of the cell under it applied,
    /// one integration step taken, and wrapped into the viewport.
    pub open spec fn advance(self, p: Particle) -> Particle {
        let index = self.field.index_spec(p.position, self.bounds, self.tile as int);
        let force = self.field.cells@[index].times(FORCE_SCALE as int);
        p.forced(force).stepped().wrapped(self.bounds)
    }

    /// A simulation over a viewport of `width` by `height` sub-units centred
    /// on the origin, with square cells of side `tile`, and one particle at
    /// rest at each of `positions`, all with speed cap `topspeed`. The grid
    /// has `width / tile` columns and `height / tile` rows; its field is
    /// empty until the first `step`.
    pub fn new(width: i64, height: i64, tile: i64, topspeed: i64, positions: &Vec<Vec2>) -> (r:
        Result<ParticleSystem, ConfigError>)
        ensures
            r is Ok <==> config_fault(width as int, height as int, tile as int, topspeed as int)
                is None && all_inside(Rect::centered(width as int, height as int), positions@),
            config_fault(width as int, height as int, tile as int, topspeed as int) is Some ==> r
                == Err::<ParticleSystem, ConfigError>(
                config_fault(width as int, height as int, tile as int, topspeed as int)->Some_0,
            ),
            r matches Err(ConfigError::OutsideViewport { index }) ==> index < positions@.len()
                && !Rect::centered(width as int, height as int).contains(positions@[index as int])
                && all_inside(
                Rect::centered(width as int, height as int),
                positions@.take(index as int),
            ),
            r matches Ok(s) ==> {
                &&& s.wf()
                &&& s.bounds == Rect::centered(width as int, height as int)
                &&& s.tile == tile
                &&& s.field.columns == width / tile
                &&& s.field.rows == height / tile
                &&& s.field.cells@.len() == 0
                &&& s.particles@.len() == positions@.len()
                &&& forall|i: int|
                    0 <= i < positions@.len() ==> #[trigger] s.particles@[i] == Particle::at_rest(
                        positions@[i],
                        topspeed,
                    )
            },
    {
        if !(0 < width && width <= 2 * COORD_MAX && 0 < height && height <= 2 * COORD_MAX) {
            return Err(ConfigError::BadViewport);
        }
        if tile <= 0 {
            return Err(ConfigError::BadTile);
        }
        let columns: i64 = width / tile;
        let rows: i64 = height / tile;
        if columns == 0 || rows == 0 {
            return Err(ConfigError::EmptyGrid);
        }
        assert(columns <= width && rows <= height) by (nonlinear_arith)
            requires
                tile >= 1,
                columns == width / tile,
                rows == height / tile,
                width > 0,
                height > 0,
        ;
        if columns > CELLS_MAX as i64 || rows >= CELLS_MAX as i64 {
            assert(cell_count(columns as int, rows as int) > CELLS_MAX) by (nonlinear_arith)
                requires
                    columns >= 1,
                    rows >= 1,
                    columns > CELLS_MAX || rows >= CELLS_MAX,
            ;
            return Err(ConfigError::GridTooLarge);
        }
        assert(0 <= columns * (rows + 1) <= CELLS_MAX * (CELLS_MAX + 1)) by (nonlinear_arith)
            requires
                1 <= columns <= CELLS_MAX,
                1 <= rows < CELLS_MAX,
        ;
        if columns * (rows + 1) > CELLS_MAX as i64 {
            return Err(ConfigError::GridTooLarge);
        }
        if !(0 <= topspeed && topspeed <= SPEED_MAX) {
            return Err(ConfigError::BadSpeed);
        }
        let bounds = Rect::from_w_h(width, height);
        let mut particles: Vec<Particle> = Vec::new();
        let mut i: usize = 0;
        while i < positions.len()
            invariant
                bounds.wf(),
                bounds == Rect::centered(width as int, height as int),
                config_fault(width as int, height as int, tile as int, topspeed as int) is None,
                columns == width / tile,
                rows == height / tile,
                0 <= topspeed <= SPEED_MAX,
                i <= positions@.len(),
                particles@.len() == i,
                all_inside(bounds, positions@.take(i as int)),
                forall|j: int|
                    0 <= j < i ==> #[trigger] particles@[j] == Particle::at_rest(
                        positions@[j],
                        topspeed,
                    ),
            decreases positions@.len() - i,
        {
            let p = positions[i];
            if !bounds.contains_point(p) {
                return Err(ConfigError::OutsideViewport { index: i });
            }
            particles.push(Particle::new(p, topspeed));
            i = i + 1;
            assert(positions@.take(i as int) =~= positions@.take(i - 1 as int).push(p));
        }
        assert(positions@.take(i as int) =~= positions@);
        let field = FlowField::new(columns as usize, rows as usize);
        let s = ParticleSystem { particles, field, tile, bounds };
        assert forall|j: int| 0 <= j < s.particles@.len() implies {
            let p = #[trigger] s.particles@[j];
            &&& p.wf()
            &&& s.bounds.contains(p.position)
            &&& p.acceleration == Vec2::zero_spec()
        } by {
            assert(bounds.contains(positions@[j]));
            assert(topspeed * topspeed >= 0) by (nonlinear_arith);
            assert(s.particles@[j] == Particle::at_rest(positions@[j], topspeed));
            let z = Vec2::zero_spec();
            assert(z.x == 0 && z.y == 0);
            assert(z.norm_sq() == z.x * z.x + z.y * z.y);
            assert(z.norm_sq() == 0);
        }
        Ok(s)
    }

    /// The number of particles; fixed for the life of the simulation.
    pub fn len(&self) -> (r: usize)
        ensures
            r == self.particles@.len(),
    {
        self.particles.len()
    }

    /// One frame: rebuilds the field from `directions` (see
    /// `FlowField::rebuild`), then pushes every particle by the direction of
    /// the cell under it scaled by `FORCE_SCALE`, integrates it one step and
    /// wraps it into the viewport. Refused, with nothing changed, when the
    /// directions are refused.
    pub fn step(&mut self, directions: &Vec<Vec2>) -> (r: Result<(), FieldError>)
        requires
            old(self).wf(),
        ensures
            final(self).wf(),
            final(self).particles@.len() == old(self).particles@.len(),
            final(self).bounds == old(self).bounds,
            final(self).tile == old(self).tile,
            final(self).field.columns == old(self).field.columns,
            final(self).field.rows == old(self).field.rows,
            r is Ok <==> directions@.len() == old(self).field.cell_count() && all_unit(
                directions@,
            ),
            r is Err ==> *final(self) == *old(self),
            r matches Err(FieldError::WrongCount { expected, given }) ==> expected
                == old(self).field.cell_count() && given == directions@.len() && given
                != expected,
            r matches Err(FieldError::NotUnit { index }) ==> directions@.len()
                == old(self).field.cell_count() && index < directions@.len() && !is_unit(
                directions@[index as int],
            ) && all_unit(directions@.take(index as int)),
            r is Ok ==> {
                &&& final(self).field.cells@ == directions@
                &&& forall|i: int|
                    0 <= i < old(self).particles@.len() ==> #[trigger] final(self).particles@[i]
                        == final(self).advance(old(self).particles@[i])
            },
    {
        let res = self.field.rebuild(directions);
        if res.is_err() {
            return res;
        }
        let ghost olds = self.particles@;
        let n = self.particles.len();
        let mut i: usize = 0;
        while i < n
            invariant
                self.field.wf(),
                self.field.is_built(),
                self.field.cells@ == directions@,
                self.bounds.wf(),
                self.tile > 0,
                self.bounds == old(self).bounds,
                self.tile == old(self).tile,
                self.field.columns == old(self).field.columns,
                self.field.rows == old(self).field.rows,
                n == olds.len(),
                i <= n,
                self.particles@.len() == n,
                forall|j: int|
                    0 <= j < n ==> {
                        let p = #[trigger] olds[j];
                        &&& p.wf()
                        &&& self.bounds.contains(p.position)
                        &&& p.acceleration == Vec2::zero_spec()
                    },
                forall|j: int|
                    0 <= j < n ==> {
                        let p = #[trigger] self.particles@[j];
                        &&& p.wf()
                        &&& self.bounds.contains(p.position)
                        &&& p.acceleration == Vec2::zero_spec()
                    },
                forall|j: int| 0 <= j < i ==> #[trigger] self.particles@[j] == self.advance(olds[j]),
                forall|j: int| i <= j < n ==> #[trigger] self.particles@[j] == olds[j],
            decreases n - i,
        {
            let mut p = self.particles[i];
            let index = self.field.index_of(p.position, &self.bounds, self.tile);
            let dir = self.field.direction(index);
            proof {
                lemma_unit_components(dir);
            }
            let force = Vec2 { x: dir.x * FORCE_SCALE, y: dir.y * FORCE_SCALE };
            assert(force == dir.times(FORCE_SCALE as int));
            p.apply_force(force);
            p.update();
            p.check_edges(self.bounds);
            self.particles.set(i, p);
            i = i + 1;
        }
        Ok(())
    }
}

} // verus!
