//! Three-component vectors, 3x3 frames and quaternions over fixed-point scalars.

use vstd::prelude::*;
use crate::fixed::{
    fx_add, fx_clamp, fx_mul, fx_mul_spec, fx_neg, fx_sub, isqrt, sat, tdiv, wide_div, wide_mul,
    wide_scale, wide_sqrt, Scalar, FX_MAX, ONE,
};

verus! {

/// A vector, or a point given by its offset from the origin.
#[derive(Clone, Copy, PartialEq, Eq, Structural, Debug)]
pub struct Vec3 {
    pub x: Scalar,
    pub y: Scalar,
    pub z: Scalar,
}

/// A position in space.
pub type Pos3 = Vec3;

/// Three axes, held as the columns of a 3x3 matrix.
#[derive(Clone, Copy, PartialEq, Eq, Structural, Debug)]
pub struct Mat3 {
    pub x: Vec3,
    pub y: Vec3,
    pub z: Vec3,
}

/// A quaternion with scalar part `s` and vector part `v`.
#[derive(Clone, Copy, PartialEq, Eq, Structural, Debug)]
pub struct Quat {
    pub s: Scalar,
    pub v: Vec3,
}

/// The three planes of a rotation: the parts of a bivector.
#[derive(Clone, Copy, PartialEq, Eq, Structural, Debug)]
pub struct Bivector3 {
    pub xy: Scalar,
    pub xz: Scalar,
    pub yz: Scalar,
}

impl Bivector3 {
    pub fn new(xy: Scalar, xz: Scalar, yz: Scalar) -> (r: Bivector3)
        ensures
            r == (Bivector3 { xy, xz, yz }),
    {
        Bivector3 { xy, xz, yz }
    }
}

pub open spec fn vec3(x: int, y: int, z: int) -> Vec3 {
    Vec3 { x: sat(x) as i32, y: sat(y) as i32, z: sat(z) as i32 }
}

pub open spec fn vadd(a: Vec3, b: Vec3) -> Vec3 {
    vec3(a.x + b.x, a.y + b.y, a.z + b.z)
}

pub open spec fn vsub(a: Vec3, b: Vec3) -> Vec3 {
    vec3(a.x - b.x, a.y - b.y, a.z - b.z)
}

pub open spec fn vneg(a: Vec3) -> Vec3 {
    vec3(-a.x, -a.y, -a.z)
}

/// `a` times the scalar `k`.
pub open spec fn vscale(a: Vec3, k: int) -> Vec3 {
    vec3(tdiv(a.x * k, ONE as int), tdiv(a.y * k, ONE as int), tdiv(a.z * k, ONE as int))
}

/// `a` divided by the scalar `k`.
pub open spec fn vdiv(a: Vec3, k: int) -> Vec3 {
    vec3(tdiv(a.x * ONE, k), tdiv(a.y * ONE, k), tdiv(a.z * ONE, k))
}

/// `a` divided by two, each component rounded toward zero.
pub open spec fn vhalf(a: Vec3) -> Vec3 {
    vec3(tdiv(a.x as int, 2), tdiv(a.y as int, 2), tdiv(a.z as int, 2))
}

/// The dot product before it is scaled back: a value in units of `1 / ONE^2`.
pub open spec fn dot_wide(a: Vec3, b: Vec3) -> int {
    a.x * b.x + a.y * b.y + a.z * b.z
}

pub open spec fn vdot(a: Vec3, b: Vec3) -> int {
    sat(tdiv(dot_wide(a, b), ONE as int))
}

pub open spec fn vcross(a: Vec3, b: Vec3) -> Vec3 {
    vec3(
        tdiv(a.y * b.z - a.z * b.y, ONE as int),
        tdiv(a.z * b.x - a.x * b.z, ONE as int),
        tdiv(a.x * b.y - a.y * b.x, ONE as int),
    )
}

/// The squared distance between two points, exact, in units of `1 / ONE^2`.
pub open spec fn dist2_wide(a: Vec3, b: Vec3) -> int {
    (a.x - b.x) * (a.x - b.x) + (a.y - b.y) * (a.y - b.y) + (a.z - b.z) * (a.z - b.z)
}

/// The length of `a` as a raw value, rounded down.
pub open spec fn len_wide(a: Vec3) -> int {
    isqrt(dot_wide(a, a))
}

/// The length by which `a` is divided to normalize it: its own, or `ONE` where that is zero.
pub open spec fn unit_len(a: Vec3) -> int {
    if len_wide(a) == 0 {
        ONE as int
    } else {
        len_wide(a)
    }
}

pub open spec fn vmagnitude2(a: Vec3) -> int {
    sat(tdiv(dot_wide(a, a), ONE as int))
}

pub open spec fn vmagnitude(a: Vec3) -> int {
    sat(len_wide(a))
}

/// `a` rescaled to the length `m`; a vector too short to have a length is returned scaled by `m`.
pub open spec fn vnormalize_to(a: Vec3, m: int) -> Vec3 {
    vec3(tdiv(a.x * m, unit_len(a)), tdiv(a.y * m, unit_len(a)), tdiv(a.z * m, unit_len(a)))
}

pub open spec fn vnormalize(a: Vec3) -> Vec3 {
    vnormalize_to(a, ONE as int)
}

/// The component of `a` on axis `i`: 0 for x, 1 for y, anything else for z.
pub open spec fn vget(a: Vec3, i: int) -> int {
    if i == 0 {
        a.x as int
    } else if i == 1 {
        a.y as int
    } else {
        a.z as int
    }
}

/// The Hamilton product `a * b`.
pub open spec fn qmul(a: Quat, b: Quat) -> Quat {
    Quat {
        s: sat(tdiv(a.s * b.s - dot_wide(a.v, b.v), ONE as int)) as i32,
        v: vec3(
            tdiv(a.s * b.v.x + b.s * a.v.x + (a.v.y * b.v.z - a.v.z * b.v.y), ONE as int),
            tdiv(a.s * b.v.y + b.s * a.v.y + (a.v.z * b.v.x - a.v.x * b.v.z), ONE as int),
            tdiv(a.s * b.v.z + b.s * a.v.z + (a.v.x * b.v.y - a.v.y * b.v.x), ONE as int),
        ),
    }
}

pub open spec fn qadd(a: Quat, b: Quat) -> Quat {
    Quat { s: sat(a.s + b.s) as i32, v: vadd(a.v, b.v) }
}

pub open spec fn qscale(a: Quat, k: int) -> Quat {
    Quat { s: fx_mul_spec(a.s as int, k) as i32, v: vscale(a.v, k) }
}

/// The squared norm before it is scaled back.
pub open spec fn qnorm2_wide(a: Quat) -> int {
    a.s * a.s + dot_wide(a.v, a.v)
}

/// The norm by which `a` is divided to normalize it: its own, or `ONE` where that is zero.
pub open spec fn qunit_len(a: Quat) -> int {
    if isqrt(qnorm2_wide(a)) == 0 {
        ONE as int
    } else {
        isqrt(qnorm2_wide(a))
    }
}

pub open spec fn qnormalize(a: Quat) -> Quat {
    Quat {
        s: sat(tdiv(a.s * ONE, qunit_len(a))) as i32,
        v: vec3(
            tdiv(a.v.x * ONE, qunit_len(a)),
            tdiv(a.v.y * ONE, qunit_len(a)),
            tdiv(a.v.z * ONE, qunit_len(a)),
        ),
    }
}

/// Whether negating `a` loses nothing: no component is the least `i32`.
pub open spec fn negatable(a: Vec3) -> bool {
    a.x >= -FX_MAX && a.y >= -FX_MAX && a.z >= -FX_MAX
}

/// Products and quotients follow the signs of their arguments.
proof fn lemma_signs(a: int, b: int, c: int)
    ensures
        (-a) * b == -(a * b),
        a * (-b) == -(a * b),
        (-a) * (-b) == a * b,
        tdiv(-a, c) == -tdiv(a, c),
{
    assert((-a) * b == -(a * b) && a * (-b) == -(a * b) && (-a) * (-b) == a * b)
        by (nonlinear_arith);
    crate::fixed::lemma_tdiv_bound(a, c);
}

/// Scaling follows the sign of the vector.
pub proof fn lemma_vscale_neg(u: Vec3, k: int)
    requires
        negatable(u),
    ensures
        vscale(vneg(u), k) == vneg(vscale(u, k)),
        negatable(vscale(u, k)),
        negatable(vneg(u)),
{
    lemma_signs(u.x as int, k, ONE as int);
    lemma_signs(u.y as int, k, ONE as int);
    lemma_signs(u.z as int, k, ONE as int);
    lemma_signs(u.x * k, 1, ONE as int);
    lemma_signs(u.y * k, 1, ONE as int);
    lemma_signs(u.z * k, 1, ONE as int);
}

/// The dot product follows the signs of its arguments.
pub proof fn lemma_vdot_neg(u: Vec3, v: Vec3)
    requires
        negatable(u),
        negatable(v),
    ensures
        dot_wide(vneg(u), v) == -dot_wide(u, v),
        dot_wide(u, vneg(v)) == -dot_wide(u, v),
        dot_wide(vneg(u), vneg(v)) == dot_wide(u, v),
        vdot(vneg(u), v) == -vdot(u, v),
        vdot(u, vneg(v)) == -vdot(u, v),
        vdot(vneg(u), vneg(v)) == vdot(u, v),
{
    lemma_signs(u.x as int, v.x as int, ONE as int);
    lemma_signs(u.y as int, v.y as int, ONE as int);
    lemma_signs(u.z as int, v.z as int, ONE as int);
    lemma_signs(dot_wide(u, v), 1, ONE as int);
}

/// The cross product follows the signs of its arguments.
pub proof fn lemma_vcross_neg(u: Vec3, v: Vec3)
    requires
        negatable(u),
        negatable(v),
    ensures
        vcross(vneg(u), vneg(v)) == vcross(u, v),
        vcross(u, vneg(v)) == vneg(vcross(u, v)),
        vcross(vneg(u), v) == vneg(vcross(u, v)),
        negatable(vcross(u, v)),
{
    lemma_signs(u.y as int, v.z as int, ONE as int);
    lemma_signs(u.z as int, v.y as int, ONE as int);
    lemma_signs(u.z as int, v.x as int, ONE as int);
    lemma_signs(u.x as int, v.z as int, ONE as int);
    lemma_signs(u.x as int, v.y as int, ONE as int);
    lemma_signs(u.y as int, v.x as int, ONE as int);
    lemma_signs(u.y * v.z - u.z * v.y, 1, ONE as int);
    lemma_signs(u.z * v.x - u.x * v.z, 1, ONE as int);
    lemma_signs(u.x * v.y - u.y * v.x, 1, ONE as int);
}

/// Normalizing follows the sign of the vector.
pub proof fn lemma_vnormalize_neg(u: Vec3)
    requires
        negatable(u),
    ensures
        vnormalize(vneg(u)) == vneg(vnormalize(u)),
        negatable(vnormalize(u)),
{
    lemma_vdot_neg(u, u);
    let l = unit_len(u);
    assert(unit_len(vneg(u)) == l);
    lemma_signs(u.x as int, ONE as int, l);
    lemma_signs(u.y as int, ONE as int, l);
    lemma_signs(u.z as int, ONE as int, l);
    lemma_signs(u.x * ONE, 1, l);
    lemma_signs(u.y * ONE, 1, l);
    lemma_signs(u.z * ONE, 1, l);
}

/// The wide product of two scalars.
pub fn mul2(a: Scalar, b: Scalar) -> (r: i128)
    ensures
        r == a * b,
        -0x4000_0000_0000_0000 <= r <= 0x4000_0000_0000_0000,
{
    proof {
        crate::fixed::lemma_mul_bound(a as int, b as int, 0x8000_0000, 0x8000_0000);
    }
    wide_mul(a as i128, b as i128)
}

impl Vec3 {
    pub fn new(x: Scalar, y: Scalar, z: Scalar) -> (r: Vec3)
        ensures
            r == (Vec3 { x, y, z }),
    {
        Vec3 { x, y, z }
    }

    pub fn zero() -> (r: Vec3)
        ensures
            r == (Vec3 { x: 0, y: 0, z: 0 }),
    {
        Vec3 { x: 0, y: 0, z: 0 }
    }

    pub fn unit_x() -> (r: Vec3)
        ensures
            r == (Vec3 { x: ONE, y: 0, z: 0 }),
    {
        Vec3 { x: ONE, y: 0, z: 0 }
    }

    pub fn unit_y() -> (r: Vec3)
        ensures
            r == (Vec3 { x: 0, y: ONE, z: 0 }),
    {
        Vec3 { x: 0, y: ONE, z: 0 }
    }

    pub fn unit_z() -> (r: Vec3)
        ensures
            r == (Vec3 { x: 0, y: 0, z: ONE }),
    {
        Vec3 { x: 0, y: 0, z: ONE }
    }

    /// Clamps three wide values into a vector.
    pub fn from_wide(x: i128, y: i128, z: i128) -> (r: Vec3)
        ensures
            r == vec3(x as int, y as int, z as int),
    {
        Vec3 { x: fx_clamp(x), y: fx_clamp(y), z: fx_clamp(z) }
    }

    pub fn get(&self, i: usize) -> (r: Scalar)
        ensures
            r == vget(*self, i as int),
    {
        if i == 0 {
            self.x
        } else if i == 1 {
            self.y
        } else {
            self.z
        }
    }

    pub fn plus(&self, o: &Vec3) -> (r: Vec3)
        ensures
            r == vadd(*self, *o),
    {
        Vec3 { x: fx_add(self.x, o.x), y: fx_add(self.y, o.y), z: fx_add(self.z, o.z) }
    }

    pub fn minus(&self, o: &Vec3) -> (r: Vec3)
        ensures
            r == vsub(*self, *o),
    {
        Vec3 { x: fx_sub(self.x, o.x), y: fx_sub(self.y, o.y), z: fx_sub(self.z, o.z) }
    }

    pub fn negated(&self) -> (r: Vec3)
        ensures
            r == vneg(*self),
    {
        Vec3 { x: fx_neg(self.x), y: fx_neg(self.y), z: fx_neg(self.z) }
    }

    pub fn scaled(&self, k: Scalar) -> (r: Vec3)
        ensures
            r == vscale(*self, k as int),
    {
        Vec3 { x: fx_mul(self.x, k), y: fx_mul(self.y, k), z: fx_mul(self.z, k) }
    }

    pub fn divided(&self, k: Scalar) -> (r: Vec3)
        requires
            k != 0,
        ensures
            r == vdiv(*self, k as int),
    {
        Vec3::from_wide(
            wide_div(wide_scale(self.x as i128), k as i128),
            wide_div(wide_scale(self.y as i128), k as i128),
            wide_div(wide_scale(self.z as i128), k as i128),
        )
    }

    pub fn halved(&self) -> (r: Vec3)
        ensures
            r == vhalf(*self),
    {
        Vec3::from_wide(
            wide_div(self.x as i128, 2),
            wide_div(self.y as i128, 2),
            wide_div(self.z as i128, 2),
        )
    }

    /// The dot product before it is scaled back.
    pub fn dot_wide(&self, o: &Vec3) -> (r: i128)
        ensures
            r == dot_wide(*self, *o),
            -0xc000_0000_0000_0000 <= r <= 0xc000_0000_0000_0000,
    {
        mul2(self.x, o.x) + mul2(self.y, o.y) + mul2(self.z, o.z)
    }

    pub fn dot(&self, o: &Vec3) -> (r: Scalar)
        ensures
            r == vdot(*self, *o),
    {
        fx_clamp(wide_div(self.dot_wide(o), ONE as i128))
    }

    pub fn cross(&self, o: &Vec3) -> (r: Vec3)
        ensures
            r == vcross(*self, *o),
    {
        Vec3::from_wide(
            wide_div(mul2(self.y, o.z) - mul2(self.z, o.y), ONE as i128),
            wide_div(mul2(self.z, o.x) - mul2(self.x, o.z), ONE as i128),
            wide_div(mul2(self.x, o.y) - mul2(self.y, o.x), ONE as i128),
        )
    }

    /// The squared distance to `o`, exact.
    pub fn distance2_wide(&self, o: &Vec3) -> (r: i128)
        ensures
            r == dist2_wide(*self, *o),
            0 <= r <= 0x3_0000_0000_0000_0000,
    {
        let dx: i128 = self.x as i128 - o.x as i128;
        let dy: i128 = self.y as i128 - o.y as i128;
        let dz: i128 = self.z as i128 - o.z as i128;
        proof {
            crate::fixed::lemma_mul_bound(dx as int, dx as int, 0x1_0000_0000, 0x1_0000_0000);
            crate::fixed::lemma_mul_bound(dy as int, dy as int, 0x1_0000_0000, 0x1_0000_0000);
            crate::fixed::lemma_mul_bound(dz as int, dz as int, 0x1_0000_0000, 0x1_0000_0000);
            assert(dx * dx >= 0 && dy * dy >= 0 && dz * dz >= 0) by (nonlinear_arith);
        }
        wide_mul(dx, dx) + wide_mul(dy, dy) + wide_mul(dz, dz)
    }

    /// The length as a raw value, rounded down.
    pub fn length_wide(&self) -> (r: i128)
        ensures
            r == len_wide(*self),
            0 <= r <= 0x1_0000_0000_0000_0000,
    {
        let d: i128 = self.dot_wide(self);
        proof {
            assert(self.x * self.x >= 0 && self.y * self.y >= 0 && self.z * self.z >= 0)
                by (nonlinear_arith);
        }
        wide_sqrt(d as u128) as i128
    }

    pub fn magnitude2(&self) -> (r: Scalar)
        ensures
            r == vmagnitude2(*self),
    {
        fx_clamp(wide_div(self.dot_wide(self), ONE as i128))
    }

    pub fn magnitude(&self) -> (r: Scalar)
        ensures
            r == vmagnitude(*self),
    {
        fx_clamp(self.length_wide())
    }

    /// The divisor that normalizes this vector.
    pub fn unit_length(&self) -> (r: i128)
        ensures
            r == unit_len(*self),
            0 < r <= 0x1_0000_0000_0000_0000,
    {
        let l: i128 = self.length_wide();
        if l == 0 {
            ONE as i128
        } else {
            l
        }
    }

    pub fn normalize_to(&self, m: Scalar) -> (r: Vec3)
        ensures
            r == vnormalize_to(*self, m as int),
    {
        let l: i128 = self.unit_length();
        Vec3::from_wide(
            wide_div(mul2(self.x, m), l),
            wide_div(mul2(self.y, m), l),
            wide_div(mul2(self.z, m), l),
        )
    }

    pub fn normalize(&self) -> (r: Vec3)
        ensures
            r == vnormalize(*self),
    {
        self.normalize_to(ONE)
    }
}

impl Mat3 {
    /// The frame whose axes are the coordinate axes.
    pub fn identity() -> (r: Mat3)
        ensures
            r == (Mat3 {
                x: Vec3 { x: ONE, y: 0, z: 0 },
                y: Vec3 { x: 0, y: ONE, z: 0 },
                z: Vec3 { x: 0, y: 0, z: ONE },
            }),
    {
        Mat3 { x: Vec3::unit_x(), y: Vec3::unit_y(), z: Vec3::unit_z() }
    }

    pub open spec fn axis_spec(self, i: int) -> Vec3 {
        if i == 0 {
            self.x
        } else if i == 1 {
            self.y
        } else {
            self.z
        }
    }

    /// The axis numbered `i`: 0 for x, 1 for y, anything else for z.
    pub fn axis(&self, i: usize) -> (r: Vec3)
        ensures
            r == self.axis_spec(i as int),
    {
        if i == 0 {
            self.x
        } else if i == 1 {
            self.y
        } else {
            self.z
        }
    }
}

impl Quat {
    pub fn new(s: Scalar, xi: Scalar, yj: Scalar, zk: Scalar) -> (r: Quat)
        ensures
            r == (Quat { s, v: Vec3 { x: xi, y: yj, z: zk } }),
    {
        Quat { s, v: Vec3 { x: xi, y: yj, z: zk } }
    }

    /// The rotation that turns nothing.
    pub fn identity() -> (r: Quat)
        ensures
            r == (Quat { s: ONE, v: Vec3 { x: 0, y: 0, z: 0 } }),
    {
        Quat { s: ONE, v: Vec3::zero() }
    }

    pub fn plus(&self, o: &Quat) -> (r: Quat)
        ensures
            r == qadd(*self, *o),
    {
        Quat { s: fx_add(self.s, o.s), v: self.v.plus(&o.v) }
    }

    pub fn scaled(&self, k: Scalar) -> (r: Quat)
        ensures
            r == qscale(*self, k as int),
    {
        Quat { s: fx_mul(self.s, k), v: self.v.scaled(k) }
    }

    /// The Hamilton product `self * o`.
    pub fn times(&self, o: &Quat) -> (r: Quat)
        ensures
            r == qmul(*self, *o),
    {
        let a: &Quat = self;
        let s: i128 = mul2(a.s, o.s) - a.v.dot_wide(&o.v);
        let x: i128 = mul2(a.s, o.v.x) + mul2(o.s, a.v.x) + (mul2(a.v.y, o.v.z) - mul2(
            a.v.z,
            o.v.y,
        ));
        let y: i128 = mul2(a.s, o.v.y) + mul2(o.s, a.v.y) + (mul2(a.v.z, o.v.x) - mul2(
            a.v.x,
            o.v.z,
        ));
        let z: i128 = mul2(a.s, o.v.z) + mul2(o.s, a.v.z) + (mul2(a.v.x, o.v.y) - mul2(
            a.v.y,
            o.v.x,
        ));
        Quat {
            s: fx_clamp(wide_div(s, ONE as i128)),
            v: Vec3::from_wide(
                wide_div(x, ONE as i128),
                wide_div(y, ONE as i128),
                wide_div(z, ONE as i128),
            ),
        }
    }

    /// The divisor that normalizes this quaternion.
    pub fn unit_length(&self) -> (r: i128)
        ensures
            r == qunit_len(*self),
            0 < r <= 0x1_0000_0000_0000_0000,
    {
        let d: i128 = mul2(self.s, self.s) + self.v.dot_wide(&self.v);
        proof {
            assert(self.s * self.s >= 0 && self.v.x * self.v.x >= 0 && self.v.y * self.v.y >= 0
                && self.v.z * self.v.z >= 0) by (nonlinear_arith);
        }
        let l: i128 = wide_sqrt(d as u128) as i128;
        if l == 0 {
            ONE as i128
        } else {
            l
        }
    }

    /// This quaternion rescaled to unit norm.
    pub fn normalize(&self) -> (r: Quat)
        ensures
            r == qnormalize(*self),
    {
        let l: i128 = self.unit_length();
        Quat {
            s: fx_clamp(wide_div(wide_scale(self.s as i128), l)),
            v: Vec3::from_wide(
                wide_div(wide_scale(self.v.x as i128), l),
                wide_div(wide_scale(self.v.y as i128), l),
                wide_div(wide_scale(self.v.z as i128), l),
            ),
        }
    }
}

} // verus!
