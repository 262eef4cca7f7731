//! Boundary policies: the same mode must drive both the force pass (via
//! [`direction`]) and the integration pass (via
//! [`GridParameters::apply_bounds`]) within one tick, or the distance
//! semantics break.
//!
//! `Bounce` reflects an axis that passes `half_extent - PARTICLE_RADIUS`,
//! damping and negating that axis's velocity; its direction is plain
//! subtraction. `Teleport` wraps an exceeded coordinate to the far side;
//! its direction is the minimal displacement on the torus, so forces near
//! a wrap seam do not spike.

use vstd::prelude::*;
use crate::fixed::{abs_spec, fx_mul, fx_mul_spec, sgn_spec, tdiv, tdiv_i64};
use crate::params::{BoundaryMode, GridParameters, COLLISION_DAMPING, COORD_LIMIT, PARTICLE_RADIUS};
use crate::vec3::Vec3Fx;

verus! {

/// Position after a reflective wall: an axis whose magnitude passes
/// `half - PARTICLE_RADIUS` is pinned to that threshold on its own side.
pub open spec fn bounce_pos_axis(p: int, half: int) -> int {
    if abs_spec(p) > half - PARTICLE_RADIUS {
        sgn_spec(p) * (half - PARTICLE_RADIUS)
    } else {
        p
    }
}

/// Velocity after a reflective wall: the reflected axis is negated and
/// damped by `COLLISION_DAMPING`, other axes are untouched.
pub open spec fn bounce_vel_axis(p: int, v: int, half: int) -> int {
    if abs_spec(p) > half - PARTICLE_RADIUS {
        -fx_mul_spec(v, COLLISION_DAMPING as int)
    } else {
        v
    }
}

/// Position after a toroidal wall: a coordinate past `half` moves by one
/// full extent to the opposite side, so the result is congruent to the
/// input modulo the extent.
pub open spec fn wrap_pos_axis(p: int, half: int, extent: int) -> int {
    if p > half {
        p - extent
    } else if p < -half {
        p + extent
    } else {
        p
    }
}

/// Minimal displacement from one coordinate to another on a torus of the
/// given extent: when the raw delta exceeds half the extent, one full
/// extent is subtracted or added.
pub open spec fn torus_axis(d: int, extent: int) -> int {
    if abs_spec(d) <= tdiv(extent, 2) {
        d
    } else if d > 0 {
        d - extent
    } else {
        d + extent
    }
}

/// Reflect one axis; exact twin of `bounce_pos_axis`/`bounce_vel_axis`.
fn bounce_axis(p: &mut i64, v: &mut i64, half: i64)
    requires
        0 <= half <= COORD_LIMIT,
        abs_spec(*old(p) as int) <= COORD_LIMIT,
    ensures
        *final(p) as int == bounce_pos_axis(*old(p) as int, half as int),
        *final(v) as int == bounce_vel_axis(*old(p) as int, *old(v) as int, half as int),
        abs_spec(*final(p) as int) <= COORD_LIMIT,
{
    let threshold = half - PARTICLE_RADIUS;
    let magnitude = if *p >= 0 {
        *p
    } else {
        -*p
    };
    if magnitude > threshold {
        if *p > 0 {
            *p = threshold;
        } else if *p < 0 {
            *p = -threshold;
        } else {
            *p = 0;
        }
        proof {
            assert(abs_spec(*v as int) * abs_spec(COLLISION_DAMPING as int) <= i64::MAX * (
            crate::fixed::SCALE as int)) by (nonlinear_arith)
                requires
                    abs_spec(*v as int) <= 0x8000_0000_0000_0000,
            {}
            crate::fixed::lemma_fx_mul_bound(
                *v as int,
                COLLISION_DAMPING as int,
                0x8000_0000_0000_0000,
                500,
            );
        }
        *v = -fx_mul(*v, COLLISION_DAMPING);
    }
}

/// Wrap one axis; exact twin of `wrap_pos_axis`.
fn wrap_axis(p: &mut i64, half: i64, extent: i64)
    requires
        0 <= half <= extent <= COORD_LIMIT,
        abs_spec(*old(p) as int) <= COORD_LIMIT,
    ensures
        *final(p) as int == wrap_pos_axis(*old(p) as int, half as int, extent as int),
        abs_spec(*final(p) as int) <= COORD_LIMIT,
{
    if *p > half {
        *p = *p - extent;
    } else if *p < -half {
        *p = *p + extent;
    }
}

impl GridParameters {
    /// Whether a position lies inside the volume (inclusive of its
    /// faces).
    pub fn is_in_bounds(&self, position: Vec3Fx) -> (r: bool)
        requires
            self.wf(),
        ensures
            r == (abs_spec(position.x as int) <= tdiv(self.width as int, 2) && abs_spec(
                position.y as int,
            ) <= tdiv(self.height as int, 2) && abs_spec(position.z as int) <= tdiv(
                self.depth as int,
                2,
            )),
    {
        let half_width = tdiv_i64(self.width, 2);
        let half_height = tdiv_i64(self.height, 2);
        let half_depth = tdiv_i64(self.depth, 2);
        let xm = if position.x >= 0 {
            position.x
        } else if position.x == i64::MIN {
            return false;
        } else {
            -position.x
        };
        let ym = if position.y >= 0 {
            position.y
        } else if position.y == i64::MIN {
            return false;
        } else {
            -position.y
        };
        let zm = if position.z >= 0 {
            position.z
        } else if position.z == i64::MIN {
            return false;
        } else {
            -position.z
        };
        xm <= half_width && ym <= half_height && zm <= half_depth
    }

    /// Applies the selected containment policy to one position/velocity
    /// pair, axis by axis.
    pub fn apply_bounds(&self, position: &mut Vec3Fx, velocity: &mut Vec3Fx, mode: BoundaryMode)
        requires
            self.wf(),
            crate::vec3::in_box(*old(position), COORD_LIMIT as int),
        ensures
            mode is Bounce ==> {
                &&& *final(position) == (Vec3Fx {
                    x: bounce_pos_axis(old(position).x as int, tdiv(self.width as int, 2)) as i64,
                    y: bounce_pos_axis(old(position).y as int, tdiv(self.height as int, 2)) as i64,
                    z: bounce_pos_axis(old(position).z as int, tdiv(self.depth as int, 2)) as i64,
                })
                &&& *final(velocity) == (Vec3Fx {
                    x: bounce_vel_axis(
                        old(position).x as int,
                        old(velocity).x as int,
                        tdiv(self.width as int, 2),
                    ) as i64,
                    y: bounce_vel_axis(
                        old(position).y as int,
                        old(velocity).y as int,
                        tdiv(self.height as int, 2),
                    ) as i64,
                    z: bounce_vel_axis(
                        old(position).z as int,
                        old(velocity).z as int,
                        tdiv(self.depth as int, 2),
                    ) as i64,
                })
            },
            mode is Teleport ==> {
                &&& *final(position) == (Vec3Fx {
                    x: wrap_pos_axis(
                        old(position).x as int,
                        tdiv(self.width as int, 2),
                        self.width as int,
                    ) as i64,
                    y: wrap_pos_axis(
                        old(position).y as int,
                        tdiv(self.height as int, 2),
                        self.height as int,
                    ) as i64,
                    z: wrap_pos_axis(
                        old(position).z as int,
                        tdiv(self.depth as int, 2),
                        self.depth as int,
                    ) as i64,
                })
                &&& *final(velocity) == *old(velocity)
            },
            crate::vec3::in_box(*final(position), COORD_LIMIT as int),
    {
        let half_width = tdiv_i64(self.width, 2);
        let half_height = tdiv_i64(self.height, 2);
        let half_depth = tdiv_i64(self.depth, 2);
        match mode {
            BoundaryMode::Bounce => {
                bounce_axis(&mut position.x, &mut velocity.x, half_width);
                bounce_axis(&mut position.y, &mut velocity.y, half_height);
                bounce_axis(&mut position.z, &mut velocity.z, half_depth);
            },
            BoundaryMode::Teleport => {
                proof {
                    crate::fixed::lemma_tdiv_bound(self.width as int, 2, self.width as int);
                    crate::fixed::lemma_tdiv_bound(self.height as int, 2, self.height as int);
                    crate::fixed::lemma_tdiv_bound(self.depth as int, 2, self.depth as int);
                }
                wrap_axis(&mut position.x, half_width, self.width);
                wrap_axis(&mut position.y, half_height, self.height);
                wrap_axis(&mut position.z, half_depth, self.depth);
            },
        }
    }
}

/// The toroidal minimal-distance displacement from `from` to `to`.
pub fn torus_direction_vector(from: Vec3Fx, to: Vec3Fx, grid: &GridParameters) -> (r: Vec3Fx)
    requires
        grid.wf(),
        crate::vec3::in_box(from, COORD_LIMIT as int),
        crate::vec3::in_box(to, COORD_LIMIT as int),
    ensures
        r.x as int == torus_axis(to.x - from.x, grid.width as int),
        r.y as int == torus_axis(to.y - from.y, grid.height as int),
        r.z as int == torus_axis(to.z - from.z, grid.depth as int),
        crate::vec3::in_box(r, 3 * COORD_LIMIT as int),
    {
    Vec3Fx {
        x: torus_axis_exec(to.x - from.x, grid.width),
        y: torus_axis_exec(to.y - from.y, grid.height),
        z: torus_axis_exec(to.z - from.z, grid.depth),
    }
}

/// One axis of the toroidal displacement; exact twin of `torus_axis`.
fn torus_axis_exec(d: i64, extent: i64) -> (r: i64)
    requires
        0 < extent <= COORD_LIMIT,
        abs_spec(d as int) <= 2 * COORD_LIMIT,
    ensures
        r as int == torus_axis(d as int, extent as int),
        abs_spec(r as int) <= 3 * COORD_LIMIT,
{
    let half = tdiv_i64(extent, 2);
    let magnitude = if d >= 0 {
        d
    } else {
        -d
    };
    if magnitude <= half {
        d
    } else if d > 0 {
        d - extent
    } else {
        d + extent
    }
}

/// The displacement used by the force pass, consistent with the
/// containment policy of the same mode: plain subtraction for `Bounce`,
/// the toroidal minimal displacement for `Teleport`.
pub fn direction(from: Vec3Fx, to: Vec3Fx, grid: &GridParameters, mode: BoundaryMode) -> (r:
    Vec3Fx)
    requires
        grid.wf(),
        crate::vec3::in_box(from, COORD_LIMIT as int),
        crate::vec3::in_box(to, COORD_LIMIT as int),
    ensures
        mode is Bounce ==> r == (Vec3Fx {
            x: (to.x - from.x) as i64,
            y: (to.y - from.y) as i64,
            z: (to.z - from.z) as i64,
        }),
        mode is Teleport ==> {
            &&& r.x as int == torus_axis(to.x - from.x, grid.width as int)
            &&& r.y as int == torus_axis(to.y - from.y, grid.height as int)
            &&& r.z as int == torus_axis(to.z - from.z, grid.depth as int)
        },
        crate::vec3::in_box(r, 3 * COORD_LIMIT as int),
{
    match mode {
        BoundaryMode::Teleport => torus_direction_vector(from, to, grid),
        BoundaryMode::Bounce => to.sub(from),
    }
}

} // verus!
