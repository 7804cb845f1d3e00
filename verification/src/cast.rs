//! Ray casts against spheres, planes and boxes.
//!
//! A hit is the point where the ray first meets the shape and the parameter `t` at which
//! it does: the point is `p + t dir`. A direction of unit length makes `t` a distance.

use vstd::prelude::*;
use crate::fixed::{
    fx_clamp, isqrt, lemma_mul_bound, max, min, sat, tdiv, wide_div, wide_mul, wide_scale,
    wide_sqrt, Scalar, ONE,
};
use crate::geom::{Box, Plane, Ray, Shape, Sphere, AABB};
use crate::vector::{dot_wide, mul2, vec3, vget, Pos3, Vec3};

verus! {

/// The point hit and the ray parameter at which it is hit, if anything is hit.
pub type CastHit = Option<(Pos3, Scalar)>;

/// A ray parameter beyond any that a slab can give.
pub const T_FAR: i128 = 0x1_0000_0000_0000_0000_0000_0000;

/// The point of `ray` at the parameter `t`.
pub open spec fn point_at(ray: Ray, t: int) -> Pos3 {
    vec3(
        ray.p.x + tdiv(ray.dir.x * t, ONE as int),
        ray.p.y + tdiv(ray.dir.y * t, ONE as int),
        ray.p.z + tdiv(ray.dir.z * t, ONE as int),
    )
}

/// The hit at the parameter `t`, clamped to a scalar.
pub open spec fn hit_at(ray: Ray, t: int) -> CastHit {
    Some((point_at(ray, sat(t)), sat(t) as i32))
}

/// The dot product of a vector with the exact offset `(mx, my, mz)`, scaled back.
pub open spec fn dot_offset(a: Vec3, mx: int, my: int, mz: int) -> int {
    tdiv(a.x * mx + a.y * my + a.z * mz, ONE as int)
}

/// The half of the linear coefficient of the quadratic that a ray and a sphere give:
/// the direction dotted with the offset from the centre to the origin of the ray.
pub open spec fn sphere_b(ray: Ray, s: Sphere) -> int {
    dot_offset(ray.dir, ray.p.x - s.c.x, ray.p.y - s.c.y, ray.p.z - s.c.z)
}

/// The constant coefficient of that quadratic: positive when the origin is outside.
pub open spec fn sphere_c(ray: Ray, s: Sphere) -> int {
    let mx = ray.p.x - s.c.x;
    let my = ray.p.y - s.c.y;
    let mz = ray.p.z - s.c.z;
    tdiv(mx * mx + my * my + mz * mz, ONE as int) - tdiv(s.r * s.r, ONE as int)
}

/// The discriminant of that quadratic, over four.
pub open spec fn sphere_discr(ray: Ray, s: Sphere) -> int {
    tdiv(sphere_b(ray, s) * sphere_b(ray, s), ONE as int) - sphere_c(ray, s)
}

/// A ray misses a sphere when it starts outside and points away, or when its line passes
/// the sphere by. Otherwise it hits at the nearer root, or at its origin when that is inside.
pub open spec fn cast_sphere(ray: Ray, s: Sphere) -> CastHit {
    let b = sphere_b(ray, s);
    let c = sphere_c(ray, s);
    let discr = sphere_discr(ray, s);
    if (c > 0 && b > 0) || discr < 0 {
        None
    } else {
        hit_at(ray, max(-b - isqrt(discr * ONE), 0))
    }
}

/// The rate at which a ray approaches a plane: its direction dotted with the normal.
pub open spec fn plane_rate(ray: Ray, p: Plane) -> int {
    tdiv(dot_wide(ray.dir, p.n), ONE as int)
}

/// The parameter at which the line of a ray crosses a plane that it is not parallel to.
pub open spec fn plane_t(ray: Ray, p: Plane) -> int {
    tdiv((p.d - tdiv(dot_wide(ray.p, p.n), ONE as int)) * ONE, plane_rate(ray, p))
}

/// A ray misses a plane when it is parallel to it or the crossing lies behind its origin.
pub open spec fn cast_plane(ray: Ray, p: Plane) -> CastHit {
    if plane_rate(ray, p) == 0 || plane_t(ray, p) < 0 {
        None
    } else {
        hit_at(ray, plane_t(ray, p))
    }
}

/// The parameters between which a ray is inside one slab: the slab reaches from `lo` to
/// `hi` on an axis along which the ray starts at `p` and moves at the rate `d`. A ray
/// parallel to the slab is inside always or never.
pub open spec fn slab(lo: int, hi: int, p: int, d: int) -> Option<(int, int)> {
    if d == 0 {
        if p < lo || p > hi {
            None
        } else {
            Some((0, T_FAR as int))
        }
    } else {
        let t1 = tdiv((lo - p) * ONE, d);
        let t2 = tdiv((hi - p) * ONE, d);
        Some((min(t1, t2), max(t1, t2)))
    }
}

/// The parameter at which a ray enters the box that three slabs bound: the latest entry,
/// if it comes no later than the earliest exit; the origin counts as entered.
pub open spec fn slabs_entry(
    x: Option<(int, int)>,
    y: Option<(int, int)>,
    z: Option<(int, int)>,
) -> Option<int> {
    if x is Some && y is Some && z is Some {
        let enter = max(0, max(x.unwrap().0, max(y.unwrap().0, z.unwrap().0)));
        let exit = min(x.unwrap().1, min(y.unwrap().1, z.unwrap().1));
        if enter <= exit {
            Some(enter)
        } else {
            None
        }
    } else {
        None
    }
}

/// The slab of an axis-aligned box on the axis `i`.
pub open spec fn aabb_slab(ray: Ray, b: AABB, i: int) -> Option<(int, int)> {
    slab(
        vget(b.c, i) - vget(b.half_sizes, i),
        vget(b.c, i) + vget(b.half_sizes, i),
        vget(ray.p, i),
        vget(ray.dir, i),
    )
}

pub open spec fn cast_aabb(ray: Ray, b: AABB) -> CastHit {
    match slabs_entry(aabb_slab(ray, b, 0), aabb_slab(ray, b, 1), aabb_slab(ray, b, 2)) {
        Some(t) => hit_at(ray, t),
        None => None,
    }
}

/// The slab of an oriented box on its axis `i`, measured from the origin of the ray.
pub open spec fn obb_slab(ray: Ray, b: Box, i: int) -> Option<(int, int)> {
    let axis = b.axes.axis_spec(i);
    let e = dot_offset(axis, b.c.x - ray.p.x, b.c.y - ray.p.y, b.c.z - ray.p.z);
    slab(
        e - vget(b.half_sizes, i),
        e + vget(b.half_sizes, i),
        0,
        tdiv(dot_wide(ray.dir, axis), ONE as int),
    )
}

pub open spec fn cast_obb(ray: Ray, b: Box) -> CastHit {
    match slabs_entry(obb_slab(ray, b, 0), obb_slab(ray, b, 1), obb_slab(ray, b, 2)) {
        Some(t) => hit_at(ray, t),
        None => None,
    }
}

/// A shape that a ray can be cast against.
pub trait Cast<S: Shape> {
    spec fn cast_spec(&self, s: &S) -> CastHit;

    fn cast(&self, s: &S) -> (r: CastHit)
        ensures
            r == self.cast_spec(s),
    ;
}

/// Computes `dot_offset`.
fn dot_offset_of(a: &Vec3, mx: i128, my: i128, mz: i128) -> (r: i128)
    requires
        -0x1_0000_0000 <= mx <= 0x1_0000_0000,
        -0x1_0000_0000 <= my <= 0x1_0000_0000,
        -0x1_0000_0000 <= mz <= 0x1_0000_0000,
    ensures
        r == dot_offset(*a, mx as int, my as int, mz as int),
        -0x2_0000_0000_0000 <= r <= 0x2_0000_0000_0000,
{
    proof {
        lemma_mul_bound(a.x as int, mx as int, 0x8000_0000, 0x1_0000_0000);
        lemma_mul_bound(a.y as int, my as int, 0x8000_0000, 0x1_0000_0000);
        lemma_mul_bound(a.z as int, mz as int, 0x8000_0000, 0x1_0000_0000);
    }
    let sum: i128 = wide_mul(a.x as i128, mx) + wide_mul(a.y as i128, my) + wide_mul(
        a.z as i128,
        mz,
    );
    let r: i128 = wide_div(sum, ONE as i128);
    proof {
        crate::fixed::lemma_tdiv_scale_bound(sum as int, 0x2_0000_0000_0000);
    }
    r
}

/// Computes `slab`.
fn slab_of(lo: i128, hi: i128, p: i128, d: i128) -> (r: Option<(i128, i128)>)
    requires
        -0x8_0000_0000_0000 <= lo <= 0x8_0000_0000_0000,
        -0x8_0000_0000_0000 <= hi <= 0x8_0000_0000_0000,
        -0x8000_0000 <= p <= 0x8000_0000,
        -0x8_0000_0000_0000 <= d <= 0x8_0000_0000_0000,
    ensures
        match r {
            Some(t) => slab(lo as int, hi as int, p as int, d as int) == Some(
                (t.0 as int, t.1 as int),
            ) && -T_FAR <= t.0 <= T_FAR && -T_FAR <= t.1 <= T_FAR,
            None => slab(lo as int, hi as int, p as int, d as int) is None,
        },
{
    if d == 0 {
        if p < lo || p > hi {
            None
        } else {
            Some((0, T_FAR))
        }
    } else {
        let t1: i128 = wide_div(wide_scale(lo - p), d);
        let t2: i128 = wide_div(wide_scale(hi - p), d);
        if t1 <= t2 {
            Some((t1, t2))
        } else {
            Some((t2, t1))
        }
    }
}

/// Computes `slabs_entry`.
fn slabs_entry_of(
    x: Option<(i128, i128)>,
    y: Option<(i128, i128)>,
    z: Option<(i128, i128)>,
) -> (r: Option<i128>)
    ensures
        r is Some == (x is Some && y is Some && z is Some && max(
            0,
            max(x.unwrap().0 as int, max(y.unwrap().0 as int, z.unwrap().0 as int)),
        ) <= min(x.unwrap().1 as int, min(y.unwrap().1 as int, z.unwrap().1 as int))),
        r is Some ==> r.unwrap() == max(
            0,
            max(x.unwrap().0 as int, max(y.unwrap().0 as int, z.unwrap().0 as int)),
        ),
{
    match (x, y, z) {
        (Some(a), Some(b), Some(c)) => {
            let e1: i128 = if a.0 >= b.0 {
                a.0
            } else {
                b.0
            };
            let e2: i128 = if e1 >= c.0 {
                e1
            } else {
                c.0
            };
            let enter: i128 = if e2 >= 0 {
                e2
            } else {
                0
            };
            let x1: i128 = if a.1 <= b.1 {
                a.1
            } else {
                b.1
            };
            let exit: i128 = if x1 <= c.1 {
                x1
            } else {
                c.1
            };
            if enter <= exit {
                Some(enter)
            } else {
                None
            }
        },
        _ => None,
    }
}

impl Ray {
    /// The hit at the parameter `t`.
    pub fn hit(&self, t: i128) -> (r: CastHit)
        ensures
            r == hit_at(*self, t as int),
    {
        let ts: Scalar = fx_clamp(t);
        Some(
            (
                Vec3::from_wide(
                    self.p.x as i128 + wide_div(mul2(self.dir.x, ts), ONE as i128),
                    self.p.y as i128 + wide_div(mul2(self.dir.y, ts), ONE as i128),
                    self.p.z as i128 + wide_div(mul2(self.dir.z, ts), ONE as i128),
                ),
                ts,
            ),
        )
    }
}

impl Cast<Sphere> for Ray {
    open spec fn cast_spec(&self, s: &Sphere) -> CastHit {
        cast_sphere(*self, *s)
    }

    fn cast(&self, s: &Sphere) -> (r: CastHit) {
        let mx: i128 = self.p.x as i128 - s.c.x as i128;
        let my: i128 = self.p.y as i128 - s.c.y as i128;
        let mz: i128 = self.p.z as i128 - s.c.z as i128;
        let b: i128 = dot_offset_of(&self.dir, mx, my, mz);
        proof {
            lemma_mul_bound(mx as int, mx as int, 0x1_0000_0000, 0x1_0000_0000);
            lemma_mul_bound(my as int, my as int, 0x1_0000_0000, 0x1_0000_0000);
            lemma_mul_bound(mz as int, mz as int, 0x1_0000_0000, 0x1_0000_0000);
            lemma_mul_bound(b as int, b as int, 0x2_0000_0000_0000, 0x2_0000_0000_0000);
        }
        let m2: i128 = wide_mul(mx, mx) + wide_mul(my, my) + wide_mul(mz, mz);
        let c: i128 = wide_div(m2, ONE as i128) - wide_div(mul2(s.r, s.r), ONE as i128);
        let discr: i128 = wide_div(wide_mul(b, b), ONE as i128) - c;
        if (c > 0 && b > 0) || discr < 0 {
            return None;
        }
        let root: i128 = wide_sqrt(wide_scale(discr) as u128) as i128;
        let t: i128 = -b - root;
        if t >= 0 {
            self.hit(t)
        } else {
            self.hit(0)
        }
    }
}

impl Cast<Plane> for Ray {
    open spec fn cast_spec(&self, p: &Plane) -> CastHit {
        cast_plane(*self, *p)
    }

    fn cast(&self, p: &Plane) -> (r: CastHit) {
        let rate: i128 = wide_div(self.dir.dot_wide(&p.n), ONE as i128);
        if rate == 0 {
            return None;
        }
        let height: i128 = p.d as i128 - wide_div(self.p.dot_wide(&p.n), ONE as i128);
        let t: i128 = wide_div(wide_scale(height), rate);
        if t >= 0 {
            self.hit(t)
        } else {
            None
        }
    }
}

impl Ray {
    /// Computes `aabb_slab`.
    fn aabb_slab_of(&self, b: &AABB, i: usize) -> (r: Option<(i128, i128)>)
        ensures
            match r {
                Some(t) => aabb_slab(*self, *b, i as int) == Some((t.0 as int, t.1 as int))
                    && -T_FAR <= t.0 <= T_FAR && -T_FAR <= t.1 <= T_FAR,
                None => aabb_slab(*self, *b, i as int) is None,
            },
    {
        let c: i128 = b.c.get(i) as i128;
        let h: i128 = b.half_sizes.get(i) as i128;
        slab_of(c - h, c + h, self.p.get(i) as i128, self.dir.get(i) as i128)
    }

    /// Computes `obb_slab`.
    fn obb_slab_of(&self, b: &Box, i: usize) -> (r: Option<(i128, i128)>)
        ensures
            match r {
                Some(t) => obb_slab(*self, *b, i as int) == Some((t.0 as int, t.1 as int))
                    && -T_FAR <= t.0 <= T_FAR && -T_FAR <= t.1 <= T_FAR,
                None => obb_slab(*self, *b, i as int) is None,
            },
    {
        let axis: Vec3 = b.axes.axis(i);
        let e: i128 = dot_offset_of(
            &axis,
            b.c.x as i128 - self.p.x as i128,
            b.c.y as i128 - self.p.y as i128,
            b.c.z as i128 - self.p.z as i128,
        );
        let h: i128 = b.half_sizes.get(i) as i128;
        let rate_sum: i128 = self.dir.dot_wide(&axis);
        let rate: i128 = wide_div(rate_sum, ONE as i128);
        proof {
            crate::fixed::lemma_tdiv_scale_bound(rate_sum as int, 0x2_0000_0000_0000);
        }
        slab_of(e - h, e + h, 0, rate)
    }
}

impl Cast<AABB> for Ray {
    open spec fn cast_spec(&self, b: &AABB) -> CastHit {
        cast_aabb(*self, *b)
    }

    fn cast(&self, b: &AABB) -> (r: CastHit) {
        let x: Option<(i128, i128)> = self.aabb_slab_of(b, 0);
        let y: Option<(i128, i128)> = self.aabb_slab_of(b, 1);
        let z: Option<(i128, i128)> = self.aabb_slab_of(b, 2);
        match slabs_entry_of(x, y, z) {
            Some(t) => self.hit(t),
            None => None,
        }
    }
}

impl Cast<Box> for Ray {
    open spec fn cast_spec(&self, b: &Box) -> CastHit {
        cast_obb(*self, *b)
    }

    fn cast(&self, b: &Box) -> (r: CastHit) {
        let x: Option<(i128, i128)> = self.obb_slab_of(b, 0);
        let y: Option<(i128, i128)> = self.obb_slab_of(b, 1);
        let z: Option<(i128, i128)> = self.obb_slab_of(b, 2);
        match slabs_entry_of(x, y, z) {
            Some(t) => self.hit(t),
            None => None,
        }
    }
}

} // verus!
