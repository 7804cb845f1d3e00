//! The shapes of the kernel and the pairwise tests between them.
//!
//! A sphere is the one dynamic body. Planes and boxes are static obstacles: a call that
//! would move a plane, or push any static shape, is excluded by the preconditions.

use vstd::prelude::*;
use crate::fixed::{
    abs, adiv, fx_add, fx_div, fx_div_spec, fx_mul, fx_mul_spec, fx_neg, is_floor_sqrt, isqrt,
    lemma_mul_bound, max, min, sat, tdiv, wide_div, wide_div_away, wide_mul, wide_sqrt, Scalar,
    FX_MAX, ONE,
};
use crate::vector::{
    dist2_wide, dot_wide, negatable, vadd, vcross, vdot, vec3, vneg, vnormalize, vscale, Mat3,
    Pos3, Vec3,
};

verus! {

/// `ONE` squared: the number of fine units in one unit.
pub const FINE: i128 = 0x1_0000_0000;

/// Two fifths, the factor in the moment of inertia of a solid sphere.
pub const TWO_FIFTHS: Scalar = 26214;

/// The physical constants of a simulation.
#[derive(Clone, Copy, PartialEq, Eq, Structural, Debug)]
pub struct Config {
    /// Downward acceleration.
    pub gravity: Scalar,
    /// Length of one tick.
    pub dt: Scalar,
    /// Share of the normal speed kept after a bounce: zero is inelastic, `ONE` elastic.
    pub restitution: Scalar,
    /// Largest speed at which a body is advanced.
    pub max_speed: Scalar,
}

impl Default for Config {
    /// Unit gravity, sixty ticks a second, restitution 0.9 and a speed limit of three.
    fn default() -> (r: Config)
        ensures
            r == (Config { gravity: ONE, dt: 1092, restitution: 58982, max_speed: 196608 }),
    {
        Config { gravity: ONE, dt: 1092, restitution: 58982, max_speed: 3 * ONE }
    }
}

/// Why an impulse could not be computed.
#[derive(Clone, Copy, PartialEq, Eq, Structural, Debug)]
pub enum NumericError {
    /// The body has no mass.
    ZeroMass,
    /// The moment of inertia is zero: the mass or the radius is too small.
    SingularInertia,
    /// The effective inverse mass at the contact is zero.
    ZeroDenominator,
}

/// A dynamic rigid body.
#[derive(Clone, Copy, PartialEq, Eq, Structural, Debug)]
pub struct Sphere {
    pub c: Pos3,
    pub r: Scalar,
    pub lin_mom: Vec3,
    pub ang_mom: Vec3,
    pub mass: Scalar,
}

/// The points `p` with `p . n == d`.
#[derive(Clone, Copy, PartialEq, Eq, Structural, Debug)]
pub struct Plane {
    pub n: Vec3,
    pub d: Scalar,
}

/// An oriented box.
#[derive(Clone, Copy, PartialEq, Eq, Structural, Debug)]
pub struct Box {
    pub c: Pos3,
    pub axes: Mat3,
    pub half_sizes: Vec3,
}

/// An axis-aligned box.
#[derive(Clone, Copy, PartialEq, Eq, Structural, Debug)]
pub struct AABB {
    pub c: Pos3,
    pub half_sizes: Vec3,
}

/// A half line from `p` along `dir`.
#[derive(Clone, Copy, PartialEq, Eq, Structural, Debug)]
pub struct Ray {
    pub p: Pos3,
    pub dir: Vec3,
}

pub trait Shape: Sized {
    /// Whether `translate` may be called.
    spec fn movable(&self) -> bool;

    /// Whether `apply_impulse` may be called.
    spec fn dynamic(&self) -> bool;

    /// The shape moved by `v`.
    spec fn translated(&self, v: Vec3) -> Self;

    /// The shape after the bounce at a contact whose displacement is `disp`, or the reason
    /// why there is none.
    spec fn impulsed(&self, disp: Vec3, cfg: Config) -> Result<Self, NumericError>;

    fn translate(&mut self, v: Vec3)
        requires
            old(self).movable(),
        ensures
            *final(self) == old(self).translated(v),
            final(self).movable(),
            final(self).dynamic() == old(self).dynamic(),
    ;

    /// Bounces the shape off a contact. On an error the shape is unchanged.
    fn apply_impulse(&mut self, disp: Vec3, cfg: &Config) -> (r: Result<(), NumericError>)
        requires
            old(self).dynamic(),
        ensures
            match old(self).impulsed(disp, *cfg) {
                Ok(s) => r is Ok && *final(self) == s,
                Err(e) => r == Err::<(), NumericError>(e) && *final(self) == *old(self),
            },
            final(self).dynamic(),
            final(self).movable() == old(self).movable(),
    ;
}

/// The moment of inertia of a solid sphere, `2/5 m r^2`, the same about every axis.
pub open spec fn inertia(s: Sphere) -> int {
    fx_mul_spec(fx_mul_spec(fx_mul_spec(TWO_FIFTHS as int, s.mass as int), s.r as int), s.r as int)
}

/// The unit normal of a contact whose displacement is `disp`.
pub open spec fn contact_normal(disp: Vec3) -> Vec3 {
    vnormalize(disp)
}

/// The contact point relative to the centre of `s`.
pub open spec fn contact_arm(s: Sphere, disp: Vec3) -> Vec3 {
    vscale(contact_normal(disp), s.r as int)
}

/// The velocity of the contact point of `s`.
pub open spec fn contact_velocity(s: Sphere, disp: Vec3) -> Vec3 {
    vadd(s.lin_mom, vcross(s.ang_mom, contact_arm(s, disp)))
}

/// The denominator of the impulse: the inverse mass plus the angular term
/// `((I^-1 (r x n)) x r) . n`.
pub open spec fn impulse_denominator(s: Sphere, disp: Vec3) -> int {
    let n = contact_normal(disp);
    let arm = contact_arm(s, disp);
    let inv_inertia = fx_div_spec(ONE as int, inertia(s));
    sat(
        fx_div_spec(ONE as int, s.mass as int) + vdot(
            vcross(vscale(vcross(arm, n), inv_inertia), arm),
            n,
        ),
    )
}

/// The size `j` of the impulse along the normal: `-(1 + e) (v . n)` over the denominator.
pub open spec fn impulse_magnitude(s: Sphere, disp: Vec3, cfg: Config) -> int {
    let n = contact_normal(disp);
    fx_div_spec(
        sat(-fx_mul_spec(sat(ONE + cfg.restitution), vdot(contact_velocity(s, disp), n))),
        impulse_denominator(s, disp),
    )
}

/// The sphere after the impulse `j n` at its contact point.
pub open spec fn sphere_impulsed(s: Sphere, disp: Vec3, cfg: Config) -> Result<
    Sphere,
    NumericError,
> {
    if s.mass == 0 {
        Err(NumericError::ZeroMass)
    } else if inertia(s) == 0 {
        Err(NumericError::SingularInertia)
    } else if impulse_denominator(s, disp) == 0 {
        Err(NumericError::ZeroDenominator)
    } else {
        let push = vscale(contact_normal(disp), impulse_magnitude(s, disp, cfg));
        Ok(
            Sphere {
                lin_mom: vadd(s.lin_mom, push),
                ang_mom: vadd(s.ang_mom, vcross(contact_arm(s, disp), push)),
                ..s
            },
        )
    }
}

impl Sphere {
    /// A sphere at rest.
    pub fn new(c: Pos3, r: Scalar, mass: Scalar) -> (s: Sphere)
        ensures
            s == (Sphere {
                c,
                r,
                lin_mom: Vec3 { x: 0, y: 0, z: 0 },
                ang_mom: Vec3 { x: 0, y: 0, z: 0 },
                mass,
            }),
    {
        Sphere { c, r, lin_mom: Vec3::zero(), ang_mom: Vec3::zero(), mass }
    }

    /// The moment of inertia about any axis through the centre.
    pub fn moment_of_inertia(&self) -> (r: Scalar)
        ensures
            r == inertia(*self),
    {
        fx_mul(fx_mul(fx_mul(TWO_FIFTHS, self.mass), self.r), self.r)
    }
}

impl Shape for Sphere {
    open spec fn movable(&self) -> bool {
        true
    }

    open spec fn dynamic(&self) -> bool {
        true
    }

    open spec fn translated(&self, v: Vec3) -> Sphere {
        Sphere { c: vadd(self.c, v), ..*self }
    }

    open spec fn impulsed(&self, disp: Vec3, cfg: Config) -> Result<Sphere, NumericError> {
        sphere_impulsed(*self, disp, cfg)
    }

    fn translate(&mut self, v: Vec3) {
        self.c = self.c.plus(&v);
    }

    fn apply_impulse(&mut self, disp: Vec3, cfg: &Config) -> (r: Result<(), NumericError>) {
        if self.mass == 0 {
            return Err(NumericError::ZeroMass);
        }
        let mr: Scalar = self.moment_of_inertia();
        if mr == 0 {
            return Err(NumericError::SingularInertia);
        }
        let n: Vec3 = disp.normalize();
        let arm: Vec3 = n.scaled(self.r);
        let v: Vec3 = self.lin_mom.plus(&self.ang_mom.cross(&arm));
        let inv_inertia: Scalar = fx_div(ONE, mr);
        let den: Scalar = fx_add(
            fx_div(ONE, self.mass),
            arm.cross(&n).scaled(inv_inertia).cross(&arm).dot(&n),
        );
        if den == 0 {
            return Err(NumericError::ZeroDenominator);
        }
        let num: Scalar = fx_neg(fx_mul(fx_add(ONE, cfg.restitution), v.dot(&n)));
        let j: Scalar = fx_div(num, den);
        let push: Vec3 = n.scaled(j);
        self.lin_mom = self.lin_mom.plus(&push);
        self.ang_mom = self.ang_mom.plus(&arm.cross(&push));
        Ok(())
    }
}

impl Shape for Plane {
    open spec fn movable(&self) -> bool {
        false
    }

    open spec fn dynamic(&self) -> bool {
        false
    }

    open spec fn translated(&self, v: Vec3) -> Plane {
        *self
    }

    open spec fn impulsed(&self, disp: Vec3, cfg: Config) -> Result<Plane, NumericError> {
        Ok(*self)
    }

    fn translate(&mut self, v: Vec3) {
        vstd::pervasive::unreached()
    }

    fn apply_impulse(&mut self, disp: Vec3, cfg: &Config) -> (r: Result<(), NumericError>) {
        vstd::pervasive::unreached()
    }
}

impl Shape for Box {
    open spec fn movable(&self) -> bool {
        true
    }

    open spec fn dynamic(&self) -> bool {
        false
    }

    open spec fn translated(&self, v: Vec3) -> Box {
        Box { c: vadd(self.c, v), ..*self }
    }

    open spec fn impulsed(&self, disp: Vec3, cfg: Config) -> Result<Box, NumericError> {
        Ok(*self)
    }

    fn translate(&mut self, v: Vec3) {
        self.c = self.c.plus(&v);
    }

    fn apply_impulse(&mut self, disp: Vec3, cfg: &Config) -> (r: Result<(), NumericError>) {
        vstd::pervasive::unreached()
    }
}

impl Shape for AABB {
    open spec fn movable(&self) -> bool {
        true
    }

    open spec fn dynamic(&self) -> bool {
        false
    }

    open spec fn translated(&self, v: Vec3) -> AABB {
        AABB { c: vadd(self.c, v), ..*self }
    }

    open spec fn impulsed(&self, disp: Vec3, cfg: Config) -> Result<AABB, NumericError> {
        Ok(*self)
    }

    fn translate(&mut self, v: Vec3) {
        self.c = self.c.plus(&v);
    }

    fn apply_impulse(&mut self, disp: Vec3, cfg: &Config) -> (r: Result<(), NumericError>) {
        vstd::pervasive::unreached()
    }
}

impl Shape for Ray {
    open spec fn movable(&self) -> bool {
        true
    }

    open spec fn dynamic(&self) -> bool {
        false
    }

    open spec fn translated(&self, v: Vec3) -> Ray {
        Ray { p: vadd(self.p, v), ..*self }
    }

    open spec fn impulsed(&self, disp: Vec3, cfg: Config) -> Result<Ray, NumericError> {
        Ok(*self)
    }

    fn translate(&mut self, v: Vec3) {
        self.p = self.p.plus(&v);
    }

    fn apply_impulse(&mut self, disp: Vec3, cfg: &Config) -> (r: Result<(), NumericError>) {
        vstd::pervasive::unreached()
    }
}

/// The vector that pushes a body out along the offset `(wx, wy, wz)` until the offset is
/// `reach` long, where the offset is shorter than that; its components are rounded away
/// from zero. An offset of length zero gives the zero vector.
pub open spec fn push_out(wx: int, wy: int, wz: int, reach: int) -> Option<Vec3> {
    let d2 = wx * wx + wy * wy + wz * wz;
    if reach > 0 && d2 < reach * reach {
        Some(
            vec3(
                push_component(wx, d2, reach),
                push_component(wy, d2, reach),
                push_component(wz, d2, reach),
            ),
        )
    } else {
        None
    }
}

/// The length of an offset whose squared length is `d2`, in units of `1 / ONE` of a raw
/// unit, rounded down: the distance is measured this finely so that the push ends within
/// a few raw units of the reach.
pub open spec fn fine_len(d2: int) -> int {
    isqrt(d2 * FINE)
}

/// One component of `push_out` before it is clamped: the component `w` of an offset whose
/// squared length is `d2`, stretched by what the offset lacks to be `reach` long. An
/// offset without length is taken to be one unit long.
pub open spec fn push_component(w: int, d2: int, reach: int) -> int {
    let dist = fine_len(d2);
    let div = if dist == 0 {
        FINE as int
    } else {
        dist
    };
    adiv(w * (reach * ONE - dist), div)
}

/// Whether `x` is a scalar result as it stands, with nothing clamped away.
pub open spec fn in_range(x: int) -> bool {
    -FX_MAX <= x <= FX_MAX
}

/// The distance from the plane `p` to the centre of `s`, positive on the side of the normal.
pub open spec fn signed_distance(s: Sphere, p: Plane) -> int {
    tdiv(dot_wide(s.c, p.n), ONE as int) - p.d
}

/// `x` moved into the interval from `lo` to `hi`.
pub open spec fn clamp_between(x: int, lo: int, hi: int) -> int {
    max(lo, min(x, hi))
}

/// The offset, on one axis, from the nearest point of a box to a sphere's centre at `x`;
/// the box is centred at `c` and reaches `h` to either side.
pub open spec fn axis_gap(x: int, c: int, h: int) -> int {
    x - clamp_between(x, c - h, c + h)
}

/// A pair of shapes that can be tested against each other.
pub trait Collide<S: Shape>: Shape {
    /// Whether the two overlap or touch.
    spec fn touching_spec(&self, s2: &S) -> bool;

    /// The displacement that separates the two, where one is needed.
    spec fn disp_spec(&self, s2: &S) -> Option<Vec3>;

    fn touching(&self, s2: &S) -> (r: bool)
        ensures
            r == self.touching_spec(s2),
    ;

    fn disp(&self, s2: &S) -> (r: Option<Vec3>)
        ensures
            r == self.disp_spec(s2),
    ;

    /// Only shapes that touch have a displacement.
    proof fn lemma_disp_touching(&self, s2: &S)
        ensures
            self.disp_spec(s2) is Some ==> self.touching_spec(s2),
    ;
}

/// Computes `push_out`.
pub fn push_out_vec(wx: i128, wy: i128, wz: i128, reach: i128) -> (r: Option<Vec3>)
    requires
        -0x4_0000_0000 <= wx <= 0x4_0000_0000,
        -0x4_0000_0000 <= wy <= 0x4_0000_0000,
        -0x4_0000_0000 <= wz <= 0x4_0000_0000,
        -0x4_0000_0000 <= reach <= 0x4_0000_0000,
    ensures
        r == push_out(wx as int, wy as int, wz as int, reach as int),
{
    if reach <= 0 {
        return None;
    }
    proof {
        lemma_mul_bound(wx as int, wx as int, 0x4_0000_0000, 0x4_0000_0000);
        lemma_mul_bound(wy as int, wy as int, 0x4_0000_0000, 0x4_0000_0000);
        lemma_mul_bound(wz as int, wz as int, 0x4_0000_0000, 0x4_0000_0000);
        assert(wx * wx >= 0 && wy * wy >= 0 && wz * wz >= 0) by (nonlinear_arith);
    }
    let d2: i128 = wide_mul(wx, wx) + wide_mul(wy, wy) + wide_mul(wz, wz);
    if d2 >= wide_mul(reach, reach) {
        return None;
    }
    let fine: i128 = d2 * 0x1_0000_0000;
    let dist: i128 = wide_sqrt(fine as u128) as i128;
    let full: i128 = reach * 65536;
    proof {
        assert(dist < full) by (nonlinear_arith)
            requires
                0 <= dist,
                0 < reach,
                full == reach * 65536,
                dist * dist <= d2 * 0x1_0000_0000,
                d2 < reach * reach,
        ;
    }
    let div: i128 = if dist == 0 {
        FINE
    } else {
        dist
    };
    let mag: i128 = full - dist;
    Some(
        Vec3::from_wide(
            wide_div_away(wide_mul(wx, mag), div),
            wide_div_away(wide_mul(wy, mag), div),
            wide_div_away(wide_mul(wz, mag), div),
        ),
    )
}

impl Collide<Sphere> for Sphere {
    /// The centres are no farther apart than the radii reach together.
    open spec fn touching_spec(&self, s2: &Sphere) -> bool {
        crate::vector::dist2_wide(s2.c, self.c) <= (self.r + s2.r) * (self.r + s2.r)
    }

    /// Along the offset from this centre to the other, by what the radii overlap; to
    /// separate the pair, add it to the other sphere or subtract it from this one.
    open spec fn disp_spec(&self, s2: &Sphere) -> Option<Vec3> {
        push_out(s2.c.x - self.c.x, s2.c.y - self.c.y, s2.c.z - self.c.z, self.r + s2.r)
    }

    fn touching(&self, s2: &Sphere) -> (r: bool) {
        let reach: i128 = self.r as i128 + s2.r as i128;
        proof {
            lemma_mul_bound(reach as int, reach as int, 0x1_0000_0000, 0x1_0000_0000);
        }
        s2.c.distance2_wide(&self.c) <= wide_mul(reach, reach)
    }

    fn disp(&self, s2: &Sphere) -> (r: Option<Vec3>) {
        push_out_vec(
            s2.c.x as i128 - self.c.x as i128,
            s2.c.y as i128 - self.c.y as i128,
            s2.c.z as i128 - self.c.z as i128,
            self.r as i128 + s2.r as i128,
        )
    }

    proof fn lemma_disp_touching(&self, s2: &Sphere) {
    }
}

impl Collide<Plane> for Sphere {
    /// The centre is no farther from the plane than the radius, on either side.
    open spec fn touching_spec(&self, p: &Plane) -> bool {
        abs(signed_distance(*self, *p)) <= self.r
    }

    /// Along the normal, by what brings the centre to one radius above the plane; add it
    /// to the sphere.
    open spec fn disp_spec(&self, p: &Plane) -> Option<Vec3> {
        if abs(signed_distance(*self, *p)) <= self.r {
            let lift = self.r - signed_distance(*self, *p);
            Some(
                vec3(
                    tdiv(p.n.x * lift, ONE as int),
                    tdiv(p.n.y * lift, ONE as int),
                    tdiv(p.n.z * lift, ONE as int),
                ),
            )
        } else {
            None
        }
    }

    fn touching(&self, p: &Plane) -> (r: bool) {
        let dist: i128 = wide_div(self.c.dot_wide(&p.n), ONE as i128) - p.d as i128;
        let a: i128 = if dist < 0 {
            -dist
        } else {
            dist
        };
        a <= self.r as i128
    }

    fn disp(&self, p: &Plane) -> (r: Option<Vec3>) {
        let dist: i128 = wide_div(self.c.dot_wide(&p.n), ONE as i128) - p.d as i128;
        let a: i128 = if dist < 0 {
            -dist
        } else {
            dist
        };
        if a <= self.r as i128 {
            let lift: i128 = self.r as i128 - dist;
            Some(
                Vec3::from_wide(
                    wide_div(wide_mul(p.n.x as i128, lift), ONE as i128),
                    wide_div(wide_mul(p.n.y as i128, lift), ONE as i128),
                    wide_div(wide_mul(p.n.z as i128, lift), ONE as i128),
                ),
            )
        } else {
            None
        }
    }

    proof fn lemma_disp_touching(&self, p: &Plane) {
    }
}

/// Computes `axis_gap`.
pub fn axis_gap_of(x: Scalar, c: Scalar, h: Scalar) -> (r: i128)
    ensures
        r == axis_gap(x as int, c as int, h as int),
        -0x2_0000_0000 <= r <= 0x2_0000_0000,
{
    let lo: i128 = c as i128 - h as i128;
    let hi: i128 = c as i128 + h as i128;
    let inner: i128 = if x as i128 <= hi {
        x as i128
    } else {
        hi
    };
    let nearest: i128 = if lo >= inner {
        lo
    } else {
        inner
    };
    x as i128 - nearest
}

impl Collide<AABB> for Sphere {
    /// The point of the box nearest to the centre is less than one radius away. The box
    /// reaches one half size to either side of its centre, here and in `disp_spec`.
    open spec fn touching_spec(&self, b: &AABB) -> bool {
        self.disp_spec(b) is Some
    }

    /// Along the offset from the nearest point of the box to the centre, by what the
    /// radius overlaps; add it to the sphere. A centre inside the box gives the zero vector.
    open spec fn disp_spec(&self, b: &AABB) -> Option<Vec3> {
        push_out(
            axis_gap(self.c.x as int, b.c.x as int, b.half_sizes.x as int),
            axis_gap(self.c.y as int, b.c.y as int, b.half_sizes.y as int),
            axis_gap(self.c.z as int, b.c.z as int, b.half_sizes.z as int),
            self.r as int,
        )
    }

    fn touching(&self, b: &AABB) -> (r: bool) {
        self.disp(b).is_some()
    }

    fn disp(&self, b: &AABB) -> (r: Option<Vec3>) {
        push_out_vec(
            axis_gap_of(self.c.x, b.c.x, b.half_sizes.x),
            axis_gap_of(self.c.y, b.c.y, b.half_sizes.y),
            axis_gap_of(self.c.z, b.c.z, b.half_sizes.z),
            self.r as i128,
        )
    }

    proof fn lemma_disp_touching(&self, b: &AABB) {
    }
}

/// Stretching one component of an offset of length `d` by `m / d`, rounded away from zero,
/// makes it at least `(d + m) / d` times as long.
proof fn lemma_stretch_component(w: int, d: int, m: int)
    requires
        d >= 1,
        m >= 0,
    ensures
        ({
            let n = w + adiv(w * m, d);
            (d * n) * (d * n) >= (w * (d + m)) * (w * (d + m))
        }),
{
    let e = adiv(w * m, d);
    let n = w + e;
    if w >= 0 {
        let x = w * m;
        assert(x >= 0) by (nonlinear_arith)
            requires
                x == w * m,
                w >= 0,
                m >= 0,
        ;
        let q = (x + d - 1) / d;
        assert(d * q >= x) by (nonlinear_arith)
            requires
                q == (x + d - 1) / d,
                d >= 1,
                x >= 0,
        ;
        assert(e == q);
        assert((d * n) * (d * n) >= (w * (d + m)) * (w * (d + m))) by (nonlinear_arith)
            requires
                n == w + q,
                d * q >= w * m,
                w >= 0,
                d >= 1,
                m >= 0,
        ;
    } else {
        let x = -(w * m);
        assert(x >= 0 && x == (-w) * m) by (nonlinear_arith)
            requires
                x == -(w * m),
                w < 0,
                m >= 0,
        ;
        let q = (x + d - 1) / d;
        assert(d * q >= x) by (nonlinear_arith)
            requires
                q == (x + d - 1) / d,
                d >= 1,
                x >= 0,
        ;
        assert((d - 1) / d == 0) by (nonlinear_arith)
            requires
                d >= 1,
        ;
        assert(e == -q);
        assert((d * n) * (d * n) >= (w * (d + m)) * (w * (d + m))) by (nonlinear_arith)
            requires
                n == w - q,
                d * q >= (-w) * m,
                w < 0,
                d >= 1,
                m >= 0,
        ;
    }
}

/// Stretching one component of an offset of length `d` by `m / d`, rounded away from zero,
/// makes it no more than one raw unit longer than `(d + m) / d` times as long.
proof fn lemma_stretch_upper(w: int, d: int, m: int)
    requires
        d >= 1,
        m >= 0,
    ensures
        ({
            let n = w + adiv(w * m, d);
            (d * n) * (d * n) <= (abs(w) * (d + m) + d) * (abs(w) * (d + m) + d)
        }),
{
    let e = adiv(w * m, d);
    let n = w + e;
    let a = abs(w);
    let x = a * m;
    assert(x >= 0) by (nonlinear_arith)
        requires
            x == a * m,
            a >= 0,
            m >= 0,
    ;
    let q = (x + d - 1) / d;
    assert(0 <= d * q <= x + d - 1) by (nonlinear_arith)
        requires
            q == (x + d - 1) / d,
            d >= 1,
            x >= 0,
    ;
    assert((d - 1) / d == 0) by (nonlinear_arith)
        requires
            d >= 1,
    ;
    if w >= 0 {
        assert(w * m == x);
        assert(e == q);
        assert((d * n) * (d * n) <= (a * (d + m) + d) * (a * (d + m) + d)) by (nonlinear_arith)
            requires
                n == a + q,
                0 <= d * q <= a * m + d - 1,
                a >= 0,
                d >= 1,
                m >= 0,
        ;
    } else {
        assert(w * m == -x) by (nonlinear_arith)
            requires
                x == a * m,
                a == -w,
        ;
        assert(e == -q);
        assert((d * n) * (d * n) <= (a * (d + m) + d) * (a * (d + m) + d)) by (nonlinear_arith)
            requires
                n == -(a + q),
                0 <= d * q <= a * m + d - 1,
                a >= 0,
                d >= 1,
                m >= 0,
        ;
    }
}

/// The fine length of an offset that is not zero and shorter than `reach`: at least one
/// raw unit, the rounded-down root, and less than `reach`.
proof fn lemma_fine_len(d2: int, reach: int)
    requires
        d2 >= 1,
        reach > 0,
        d2 < reach * reach,
    ensures
        is_floor_sqrt(d2 * FINE, fine_len(d2)),
        ONE <= fine_len(d2) < reach * ONE,
{
    let f = fine_len(d2);
    crate::fixed::lemma_isqrt_exists(d2 * FINE);
    assert(f >= 65536) by (nonlinear_arith)
        requires
            is_floor_sqrt(d2 * 0x1_0000_0000, f),
            d2 >= 1,
    ;
    assert(f < reach * 65536) by (nonlinear_arith)
        requires
            is_floor_sqrt(d2 * 0x1_0000_0000, f),
            d2 < reach * reach,
            reach > 0,
    ;
}

/// An offset that is not zero, pushed out by the unclamped components of `push_out`, is at
/// least `reach` long.
pub proof fn lemma_push_out_separates(wx: int, wy: int, wz: int, reach: int)
    requires
        wx != 0 || wy != 0 || wz != 0,
        push_out(wx, wy, wz, reach) is Some,
    ensures
        ({
            let d2 = wx * wx + wy * wy + wz * wz;
            let nx = wx + push_component(wx, d2, reach);
            let ny = wy + push_component(wy, d2, reach);
            let nz = wz + push_component(wz, d2, reach);
            nx * nx + ny * ny + nz * nz >= reach * reach
        }),
{
    let d2 = wx * wx + wy * wy + wz * wz;
    assert(d2 >= 1) by (nonlinear_arith)
        requires
            d2 == wx * wx + wy * wy + wz * wz,
            wx != 0 || wy != 0 || wz != 0,
    ;
    lemma_fine_len(d2, reach);
    let d = fine_len(d2);
    let full = reach * ONE;
    let m = full - d;
    lemma_stretch_component(wx, d, m);
    lemma_stretch_component(wy, d, m);
    lemma_stretch_component(wz, d, m);
    let nx = wx + push_component(wx, d2, reach);
    let ny = wy + push_component(wy, d2, reach);
    let nz = wz + push_component(wz, d2, reach);
    let big = nx * nx + ny * ny + nz * nz;
    let dd = d * d;
    let rr = reach * reach;
    let ff = full * full;
    assert((d * nx) * (d * nx) == dd * (nx * nx) && (d * ny) * (d * ny) == dd * (ny * ny) && (d
        * nz) * (d * nz) == dd * (nz * nz)) by (nonlinear_arith)
        requires
            dd == d * d,
    ;
    assert((wx * full) * (wx * full) == ff * (wx * wx) && (wy * full) * (wy * full) == ff * (wy
        * wy) && (wz * full) * (wz * full) == ff * (wz * wz)) by (nonlinear_arith)
        requires
            ff == full * full,
    ;
    assert(dd * big == dd * (nx * nx) + dd * (ny * ny) + dd * (nz * nz)) by (nonlinear_arith)
        requires
            big == nx * nx + ny * ny + nz * nz,
    ;
    assert(ff * d2 == ff * (wx * wx) + ff * (wy * wy) + ff * (wz * wz)) by (nonlinear_arith)
        requires
            d2 == wx * wx + wy * wy + wz * wz,
    ;
    assert(full == d + m);
    assert(dd * big >= ff * d2);
    assert(ff * d2 == rr * (d2 * 0x1_0000_0000)) by (nonlinear_arith)
        requires
            ff == full * full,
            full == reach * 65536,
            rr == reach * reach,
    ;
    assert(rr * (d2 * 0x1_0000_0000) >= rr * dd) by (nonlinear_arith)
        requires
            d2 * 0x1_0000_0000 >= dd,
            rr == reach * reach,
    ;
    assert(dd >= 1) by (nonlinear_arith)
        requires
            dd == d * d,
            d >= 1,
    ;
    assert(big >= rr) by (nonlinear_arith)
        requires
            dd * big >= rr * dd,
            dd >= 1,
    ;
}

/// The square of the length that no pushed offset exceeds: `reach`, one part in `ONE` of
/// it, and two raw units, all in units of `1 / ONE` of a raw unit.
pub open spec fn tangent_bound(reach: int) -> int {
    (reach * (ONE + 1) + 2 * ONE) * (reach * (ONE + 1) + 2 * ONE)
}

/// An offset that is not zero, pushed out by the unclamped components of `push_out`, is
/// no longer than `reach` but for rounding: at most one part in `ONE` and two raw units
/// longer.
pub proof fn lemma_push_out_tangent(wx: int, wy: int, wz: int, reach: int)
    requires
        wx != 0 || wy != 0 || wz != 0,
        push_out(wx, wy, wz, reach) is Some,
    ensures
        ({
            let d2 = wx * wx + wy * wy + wz * wz;
            let nx = wx + push_component(wx, d2, reach);
            let ny = wy + push_component(wy, d2, reach);
            let nz = wz + push_component(wz, d2, reach);
            FINE * (nx * nx + ny * ny + nz * nz) <= tangent_bound(reach)
        }),
{
    let d2 = wx * wx + wy * wy + wz * wz;
    assert(d2 >= 1) by (nonlinear_arith)
        requires
            d2 == wx * wx + wy * wy + wz * wz,
            wx != 0 || wy != 0 || wz != 0,
    ;
    lemma_fine_len(d2, reach);
    let f = fine_len(d2);
    let full = reach * ONE;
    let m = full - f;
    lemma_stretch_upper(wx, f, m);
    lemma_stretch_upper(wy, f, m);
    lemma_stretch_upper(wz, f, m);
    let nx = wx + push_component(wx, d2, reach);
    let ny = wy + push_component(wy, d2, reach);
    let nz = wz + push_component(wz, d2, reach);
    let big = nx * nx + ny * ny + nz * nz;
    let ax = abs(wx);
    let ay = abs(wy);
    let az = abs(wz);
    let s = ax + ay + az;
    let ff = f * f;
    let g = d2 * 0x1_0000_0000;
    assert(full == f + m);
    // The left side, summed.
    assert((f * nx) * (f * nx) == ff * (nx * nx) && (f * ny) * (f * ny) == ff * (ny * ny) && (f
        * nz) * (f * nz) == ff * (nz * nz)) by (nonlinear_arith)
        requires
            ff == f * f,
    ;
    assert(ff * big == ff * (nx * nx) + ff * (ny * ny) + ff * (nz * nz)) by (nonlinear_arith)
        requires
            big == nx * nx + ny * ny + nz * nz,
    ;
    // The right side, summed.
    let total = (ax * full + f) * (ax * full + f) + (ay * full + f) * (ay * full + f) + (az
        * full + f) * (az * full + f);
    assert(ax * ax == wx * wx && ay * ay == wy * wy && az * az == wz * wz) by (nonlinear_arith)
        requires
            ax == wx || ax == -wx,
            ay == wy || ay == -wy,
            az == wz || az == -wz,
    ;
    let tt = full * full;
    let tf = full * f;
    assert((ax * full + f) * (ax * full + f) == tt * (ax * ax) + 2 * tf * ax + ff && (ay * full
        + f) * (ay * full + f) == tt * (ay * ay) + 2 * tf * ay + ff && (az * full + f) * (az
        * full + f) == tt * (az * az) + 2 * tf * az + ff) by (nonlinear_arith)
        requires
            tt == full * full,
            tf == full * f,
            ff == f * f,
    ;
    assert(tt * d2 == tt * (ax * ax) + tt * (ay * ay) + tt * (az * az)) by (nonlinear_arith)
        requires
            d2 == ax * ax + ay * ay + az * az,
    ;
    assert(2 * tf * s == 2 * tf * ax + 2 * tf * ay + 2 * tf * az) by (nonlinear_arith)
        requires
            s == ax + ay + az,
    ;
    assert(total == (full * full) * d2 + 2 * (full * f) * s + 3 * ff);
    assert(ff * big <= total);
    // The squared length, in fine units, is below the square of the next root.
    let up = f + 1;
    assert((full * full) * d2 == (reach * reach) * g) by (nonlinear_arith)
        requires
            full == reach * 65536,
            g == d2 * 0x1_0000_0000,
    ;
    assert((reach * reach) * g <= (reach * reach) * (up * up)) by (nonlinear_arith)
        requires
            g <= up * up,
    ;
    // The sum of the components is below twice the next root.
    assert(s * s <= 3 * d2) by (nonlinear_arith)
        requires
            s == ax + ay + az,
            d2 == ax * ax + ay * ay + az * az,
    ;
    let fs = 65536 * s;
    assert(fs * fs == 0x1_0000_0000 * (s * s)) by (nonlinear_arith)
        requires
            fs == 65536 * s,
    ;
    assert(fs <= 2 * up) by (nonlinear_arith)
        requires
            fs * fs <= 3 * g,
            g < up * up,
            up >= 1,
            fs >= 0,
    ;
    assert(2 * (full * f) * s == 2 * (reach * f) * fs) by (nonlinear_arith)
        requires
            full == reach * 65536,
            fs == 65536 * s,
    ;
    assert(2 * (reach * f) * fs <= 2 * (reach * f) * (2 * up)) by (nonlinear_arith)
        requires
            fs <= 2 * up,
            reach > 0,
            f >= 1,
    ;
    let x = reach * up + 2 * f;
    assert(x * x == (reach * reach) * (up * up) + 2 * (reach * f) * (2 * up) + 4 * ff)
        by (nonlinear_arith)
        requires
            x == reach * up + 2 * f,
            ff == f * f,
    ;
    assert(ff >= 1) by (nonlinear_arith)
        requires
            ff == f * f,
            f >= 1,
    ;
    assert(ff * big <= x * x);
    // From the fine length to the unit.
    let y = reach * (65536 + 1) + 2 * 65536;
    assert(0 <= x * 65536 <= y * f) by (nonlinear_arith)
        requires
            x == reach * (f + 1) + 2 * f,
            y == reach * (65536 + 1) + 2 * 65536,
            f >= 65536,
            reach > 0,
    ;
    let xf = x * 65536;
    let yf = y * f;
    assert(xf * xf <= yf * yf) by (nonlinear_arith)
        requires
            0 <= xf <= yf,
    ;
    assert(xf * xf == 0x1_0000_0000 * (x * x)) by (nonlinear_arith)
        requires
            xf == x * 65536,
    ;
    assert(yf * yf == ff * (y * y)) by (nonlinear_arith)
        requires
            yf == y * f,
            ff == f * f,
    ;
    assert(ff * (0x1_0000_0000 * big) <= ff * (y * y)) by (nonlinear_arith)
        requires
            ff * big <= x * x,
            0x1_0000_0000 * (x * x) <= ff * (y * y),
    ;
    assert(0x1_0000_0000 * big <= y * y) by (nonlinear_arith)
        requires
            ff * (0x1_0000_0000 * big) <= ff * (y * y),
            ff >= 1,
    ;
}

/// Touching is symmetric, and so is the displacement, up to its direction.
pub proof fn lemma_touching_symmetric(a: Sphere, b: Sphere)
    ensures
        a.touching_spec(&b) == b.touching_spec(&a),
        a.disp_spec(&b) is Some == b.disp_spec(&a) is Some,
        a.disp_spec(&b) is Some ==> b.disp_spec(&a).unwrap() == vneg(a.disp_spec(&b).unwrap()),
{
    let wx = b.c.x - a.c.x;
    let wy = b.c.y - a.c.y;
    let wz = b.c.z - a.c.z;
    let reach = a.r + b.r;
    assert((-wx) * (-wx) == wx * wx && (-wy) * (-wy) == wy * wy && (-wz) * (-wz) == wz * wz)
        by (nonlinear_arith);
    let d2 = wx * wx + wy * wy + wz * wz;
    assert(dist2_wide(b.c, a.c) == d2);
    assert(dist2_wide(a.c, b.c) == d2);
    assert(b.r + a.r == reach);
    let dist = fine_len(d2);
    let div = if dist == 0 {
        FINE as int
    } else {
        dist
    };
    let m = reach * ONE - dist;
    assert((-wx) * m == -(wx * m) && (-wy) * m == -(wy * m) && (-wz) * m == -(wz * m))
        by (nonlinear_arith);
    crate::fixed::lemma_adiv_bound(wx * m, div);
    crate::fixed::lemma_adiv_bound(wy * m, div);
    crate::fixed::lemma_adiv_bound(wz * m, div);
    assert(a.disp_spec(&b) == push_out(wx, wy, wz, reach));
    assert(b.disp_spec(&a) == push_out(-wx, -wy, -wz, reach));
}

/// Once the displacement of two overlapping spheres has been added to the second, the
/// pair is tangent but for rounding: there is no displacement left, the two touch only
/// if they are exactly tangent, and their centres are no farther apart than the sum of
/// the radii, one part in `ONE` of it and two raw units. This holds where the centres
/// differ and nothing is clamped.
pub proof fn lemma_disp_separates(a: Sphere, b: Sphere)
    requires
        a.disp_spec(&b) is Some,
        a.c != b.c,
        ({
            let d2 = dist2_wide(b.c, a.c);
            &&& in_range(push_component(b.c.x - a.c.x, d2, a.r + b.r))
            &&& in_range(push_component(b.c.y - a.c.y, d2, a.r + b.r))
            &&& in_range(push_component(b.c.z - a.c.z, d2, a.r + b.r))
            &&& in_range(b.c.x + push_component(b.c.x - a.c.x, d2, a.r + b.r))
            &&& in_range(b.c.y + push_component(b.c.y - a.c.y, d2, a.r + b.r))
            &&& in_range(b.c.z + push_component(b.c.z - a.c.z, d2, a.r + b.r))
        }),
    ensures
        ({
            let moved = b.translated(a.disp_spec(&b).unwrap());
            &&& a.disp_spec(&moved) is None
            &&& a.touching_spec(&moved) ==> dist2_wide(moved.c, a.c) == (a.r + b.r) * (a.r
                + b.r)
            &&& (a.r + b.r) * (a.r + b.r) <= dist2_wide(moved.c, a.c)
            &&& FINE * dist2_wide(moved.c, a.c) <= tangent_bound(a.r + b.r)
        }),
{
    let wx = b.c.x - a.c.x;
    let wy = b.c.y - a.c.y;
    let wz = b.c.z - a.c.z;
    lemma_push_out_separates(wx, wy, wz, a.r + b.r);
    lemma_push_out_tangent(wx, wy, wz, a.r + b.r);
}

/// Once the displacement of two overlapping spheres has been subtracted from the first,
/// the pair is tangent but for rounding, as when it is added to the second. This holds
/// where the centres differ and nothing is clamped.
pub proof fn lemma_disp_separates_first(a: Sphere, b: Sphere)
    requires
        a.disp_spec(&b) is Some,
        a.c != b.c,
        ({
            let d2 = dist2_wide(b.c, a.c);
            &&& in_range(push_component(b.c.x - a.c.x, d2, a.r + b.r))
            &&& in_range(push_component(b.c.y - a.c.y, d2, a.r + b.r))
            &&& in_range(push_component(b.c.z - a.c.z, d2, a.r + b.r))
            &&& in_range(a.c.x - push_component(b.c.x - a.c.x, d2, a.r + b.r))
            &&& in_range(a.c.y - push_component(b.c.y - a.c.y, d2, a.r + b.r))
            &&& in_range(a.c.z - push_component(b.c.z - a.c.z, d2, a.r + b.r))
        }),
    ensures
        ({
            let moved = a.translated(vneg(a.disp_spec(&b).unwrap()));
            &&& moved.disp_spec(&b) is None
            &&& moved.touching_spec(&b) ==> dist2_wide(b.c, moved.c) == (a.r + b.r) * (a.r
                + b.r)
            &&& (a.r + b.r) * (a.r + b.r) <= dist2_wide(b.c, moved.c)
            &&& FINE * dist2_wide(b.c, moved.c) <= tangent_bound(a.r + b.r)
        }),
{
    let wx = b.c.x - a.c.x;
    let wy = b.c.y - a.c.y;
    let wz = b.c.z - a.c.z;
    lemma_push_out_separates(wx, wy, wz, a.r + b.r);
    lemma_push_out_tangent(wx, wy, wz, a.r + b.r);
}

/// Pushing a sphere's centre out along its gap to a box changes the gap by that push, on
/// each axis.
proof fn lemma_axis_gap_pushed(x: int, c: int, h: int, e: int)
    requires
        h >= 0,
        axis_gap(x, c, h) > 0 ==> e >= 0,
        axis_gap(x, c, h) < 0 ==> e <= 0,
        axis_gap(x, c, h) == 0 ==> e == 0,
    ensures
        axis_gap(x + e, c, h) == axis_gap(x, c, h) + e,
{
}

/// Once the displacement of a sphere that overlaps a box has been added to the sphere,
/// the two no longer touch, and the centre is no farther from the box than the radius,
/// one part in `ONE` of it and two raw units. This holds where the box has no negative
/// half size, the centre of the sphere lies outside the box, and nothing is clamped.
pub proof fn lemma_box_disp_separates(s: Sphere, b: AABB)
    requires
        s.disp_spec(&b) is Some,
        b.half_sizes.x >= 0 && b.half_sizes.y >= 0 && b.half_sizes.z >= 0,
        ({
            let gx = axis_gap(s.c.x as int, b.c.x as int, b.half_sizes.x as int);
            let gy = axis_gap(s.c.y as int, b.c.y as int, b.half_sizes.y as int);
            let gz = axis_gap(s.c.z as int, b.c.z as int, b.half_sizes.z as int);
            let d2 = gx * gx + gy * gy + gz * gz;
            &&& gx != 0 || gy != 0 || gz != 0
            &&& in_range(push_component(gx, d2, s.r as int))
            &&& in_range(push_component(gy, d2, s.r as int))
            &&& in_range(push_component(gz, d2, s.r as int))
            &&& in_range(s.c.x + push_component(gx, d2, s.r as int))
            &&& in_range(s.c.y + push_component(gy, d2, s.r as int))
            &&& in_range(s.c.z + push_component(gz, d2, s.r as int))
        }),
    ensures
        ({
            let moved = s.translated(s.disp_spec(&b).unwrap());
            let gx = axis_gap(moved.c.x as int, b.c.x as int, b.half_sizes.x as int);
            let gy = axis_gap(moved.c.y as int, b.c.y as int, b.half_sizes.y as int);
            let gz = axis_gap(moved.c.z as int, b.c.z as int, b.half_sizes.z as int);
            &&& moved.disp_spec(&b) is None
            &&& !moved.touching_spec(&b)
            &&& s.r * s.r <= gx * gx + gy * gy + gz * gz
            &&& FINE * (gx * gx + gy * gy + gz * gz) <= tangent_bound(s.r as int)
        }),
{
    let gx = axis_gap(s.c.x as int, b.c.x as int, b.half_sizes.x as int);
    let gy = axis_gap(s.c.y as int, b.c.y as int, b.half_sizes.y as int);
    let gz = axis_gap(s.c.z as int, b.c.z as int, b.half_sizes.z as int);
    let d2 = gx * gx + gy * gy + gz * gz;
    let r = s.r as int;
    lemma_push_out_separates(gx, gy, gz, r);
    lemma_push_out_tangent(gx, gy, gz, r);
    assert(d2 >= 1) by (nonlinear_arith)
        requires
            d2 == gx * gx + gy * gy + gz * gz,
            gx != 0 || gy != 0 || gz != 0,
    ;
    lemma_fine_len(d2, r);
    let d = fine_len(d2);
    let ex = push_component(gx, d2, r);
    let ey = push_component(gy, d2, r);
    let ez = push_component(gz, d2, r);
    lemma_push_sign(gx, r * ONE - d, d);
    lemma_push_sign(gy, r * ONE - d, d);
    lemma_push_sign(gz, r * ONE - d, d);
    lemma_axis_gap_pushed(s.c.x as int, b.c.x as int, b.half_sizes.x as int, ex);
    lemma_axis_gap_pushed(s.c.y as int, b.c.y as int, b.half_sizes.y as int, ey);
    lemma_axis_gap_pushed(s.c.z as int, b.c.z as int, b.half_sizes.z as int, ez);
}

/// A component stretched by a factor that is not negative keeps its sign.
proof fn lemma_push_sign(w: int, m: int, d: int)
    requires
        m >= 0,
        d >= 1,
    ensures
        w > 0 ==> adiv(w * m, d) >= 0,
        w < 0 ==> adiv(w * m, d) <= 0,
        w == 0 ==> adiv(w * m, d) == 0,
{
    let x = w * m;
    assert((w > 0 ==> x >= 0) && (w < 0 ==> x <= 0) && (w == 0 ==> x == 0)) by (nonlinear_arith)
        requires
            x == w * m,
            m >= 0,
    ;
    let a = if x < 0 {
        -x
    } else {
        x
    };
    assert((a + d - 1) / d >= 0 && (a == 0 ==> (a + d - 1) / d == 0)) by (nonlinear_arith)
        requires
            a >= 0,
            d >= 1,
    ;
}

/// A quotient by `ONE` is within one of the exact quotient.
proof fn lemma_tdiv_near(u: int)
    ensures
        u - ONE < ONE * tdiv(u, ONE as int) < u + ONE,
        u >= 0 ==> ONE * tdiv(u, ONE as int) <= u,
        u <= 0 ==> ONE * tdiv(u, ONE as int) >= u,
{
    let a = abs(u);
    let q = a / 65536;
    assert(a - 65536 < 65536 * q <= a) by (nonlinear_arith)
        requires
            q == a / 65536,
            a >= 0,
    ;
}

/// One component of a lift along a normal, times that component of the normal, is
/// within the size of the component of `n * n * lift / ONE`.
proof fn lemma_lift_component(n: int, lift: int)
    ensures
        ({
            let e = tdiv(n * lift, ONE as int);
            n * n * lift - abs(n) * ONE <= ONE * (n * e) <= n * n * lift + abs(n) * ONE
        }),
{
    let x = n * lift;
    let e = tdiv(x, ONE as int);
    lemma_tdiv_near(x);
    let k = 65536 * e;
    assert(n * x - abs(n) * 65536 <= n * k <= n * x + abs(n) * 65536) by (nonlinear_arith)
        requires
            x - 65536 < k < x + 65536,
    ;
    assert(n * k == 65536 * (n * e) && n * x == n * n * lift) by (nonlinear_arith)
        requires
            k == 65536 * e,
            x == n * lift,
    ;
}

/// Once the displacement of a sphere that touches a plane has been added to the sphere,
/// the centre is one radius above the plane but for rounding: within three raw units.
/// This holds where the normal of the plane has exactly unit length and the new centre
/// is not clamped.
pub proof fn lemma_plane_disp_settles(s: Sphere, p: Plane)
    requires
        s.disp_spec(&p) is Some,
        dot_wide(p.n, p.n) == ONE * ONE,
        ({
            let lift = s.r - signed_distance(s, p);
            &&& in_range(s.c.x + tdiv(p.n.x * lift, ONE as int))
            &&& in_range(s.c.y + tdiv(p.n.y * lift, ONE as int))
            &&& in_range(s.c.z + tdiv(p.n.z * lift, ONE as int))
            &&& in_range(tdiv(p.n.x * lift, ONE as int))
            &&& in_range(tdiv(p.n.y * lift, ONE as int))
            &&& in_range(tdiv(p.n.z * lift, ONE as int))
        }),
    ensures
        ({
            let moved = s.translated(s.disp_spec(&p).unwrap());
            s.r - 3 <= signed_distance(moved, p) <= s.r + 3
        }),
{
    let lift = s.r - signed_distance(s, p);
    let nx = p.n.x as int;
    let ny = p.n.y as int;
    let nz = p.n.z as int;
    let ex = tdiv(nx * lift, ONE as int);
    let ey = tdiv(ny * lift, ONE as int);
    let ez = tdiv(nz * lift, ONE as int);
    let moved = s.translated(s.disp_spec(&p).unwrap());
    assert(moved.c.x == s.c.x + ex && moved.c.y == s.c.y + ey && moved.c.z == s.c.z + ez);
    let before = dot_wide(s.c, p.n);
    let after = dot_wide(moved.c, p.n);
    let gain = nx * ex + ny * ey + nz * ez;
    assert(after == before + gain) by (nonlinear_arith)
        requires
            after == (s.c.x + ex) * nx + (s.c.y + ey) * ny + (s.c.z + ez) * nz,
            before == s.c.x * nx + s.c.y * ny + s.c.z * nz,
            gain == nx * ex + ny * ey + nz * ez,
    ;
    lemma_lift_component(nx, lift);
    lemma_lift_component(ny, lift);
    lemma_lift_component(nz, lift);
    let ax = abs(nx);
    let ay = abs(ny);
    let az = abs(nz);
    let sum = ax + ay + az;
    let unit = nx * nx + ny * ny + nz * nz;
    assert(ax * ax == nx * nx && ay * ay == ny * ny && az * az == nz * nz) by (nonlinear_arith)
        requires
            ax == nx || ax == -nx,
            ay == ny || ay == -ny,
            az == nz || az == -nz,
    ;
    assert(sum * sum <= 3 * unit) by (nonlinear_arith)
        requires
            sum == ax + ay + az,
            unit == ax * ax + ay * ay + az * az,
    ;
    assert(sum < 2 * 65536) by (nonlinear_arith)
        requires
            sum * sum <= 3 * (65536 * 65536),
            sum >= 0,
    ;
    assert(nx * nx * lift + ny * ny * lift + nz * nz * lift == unit * lift) by (nonlinear_arith)
        requires
            unit == nx * nx + ny * ny + nz * nz,
    ;
    assert(unit * lift == 65536 * (65536 * lift)) by (nonlinear_arith)
        requires
            unit == 65536 * 65536,
    ;
    assert(65536 * gain == 65536 * (nx * ex) + 65536 * (ny * ey) + 65536 * (nz * ez));
    assert(abs(nx) * 65536 + abs(ny) * 65536 + abs(nz) * 65536 == sum * 65536);
    // The gain is the lift, in wide units, but for less than two units.
    assert(65536 * lift - 2 * 65536 < gain < 65536 * lift + 2 * 65536);
    lemma_tdiv_near(before);
    lemma_tdiv_near(after);
}

/// An impulse changes the momentum of a sphere along the contact normal and nowhere
/// else: the linear momentum gains the normal scaled by the size of the impulse, the
/// angular momentum gains the contact arm crossed with that gain, and the centre, the
/// radius and the mass stay as they are.
pub proof fn lemma_impulse_along_normal(s: Sphere, disp: Vec3, cfg: Config)
    requires
        sphere_impulsed(s, disp, cfg) is Ok,
    ensures
        ({
            let t = sphere_impulsed(s, disp, cfg)->Ok_0;
            let gain = vscale(contact_normal(disp), impulse_magnitude(s, disp, cfg));
            &&& t.lin_mom == vadd(s.lin_mom, gain)
            &&& t.ang_mom == vadd(s.ang_mom, vcross(contact_arm(s, disp), gain))
            &&& t.c == s.c && t.r == s.r && t.mass == s.mass
        }),
{
}

/// Two spheres of one mass and one radius that do not spin, and whose momenta cancel
/// along a normal, keep the sum of their momenta when each takes the impulse of a
/// contact along that normal, one from either side: the two impulses are equal and
/// opposite, whatever the restitution. This holds where no momentum is clamped.
pub proof fn lemma_opposite_impulses_conserve(a: Sphere, b: Sphere, n: Vec3, cfg: Config)
    requires
        a.mass == b.mass,
        a.r == b.r,
        a.ang_mom == (Vec3 { x: 0, y: 0, z: 0 }),
        b.ang_mom == (Vec3 { x: 0, y: 0, z: 0 }),
        negatable(n),
        negatable(a.lin_mom),
        negatable(b.lin_mom),
        dot_wide(a.lin_mom, vnormalize(n)) + dot_wide(b.lin_mom, vnormalize(n)) == 0,
        sphere_impulsed(b, n, cfg) is Ok,
        ({
            let gain = vscale(contact_normal(n), impulse_magnitude(b, n, cfg));
            &&& in_range(a.lin_mom.x - gain.x) && in_range(b.lin_mom.x + gain.x)
            &&& in_range(a.lin_mom.y - gain.y) && in_range(b.lin_mom.y + gain.y)
            &&& in_range(a.lin_mom.z - gain.z) && in_range(b.lin_mom.z + gain.z)
        }),
    ensures
        sphere_impulsed(a, vneg(n), cfg) is Ok,
        ({
            let ta = sphere_impulsed(a, vneg(n), cfg)->Ok_0;
            let tb = sphere_impulsed(b, n, cfg)->Ok_0;
            &&& ta.lin_mom.x + tb.lin_mom.x == a.lin_mom.x + b.lin_mom.x
            &&& ta.lin_mom.y + tb.lin_mom.y == a.lin_mom.y + b.lin_mom.y
            &&& ta.lin_mom.z + tb.lin_mom.z == a.lin_mom.z + b.lin_mom.z
        }),
{
    let nh = vnormalize(n);
    crate::vector::lemma_vnormalize_neg(n);
    assert(contact_normal(vneg(n)) == vneg(nh));
    let r = a.r as int;
    let arm = vscale(nh, r);
    crate::vector::lemma_vscale_neg(nh, r);
    assert(contact_arm(a, vneg(n)) == vneg(arm));
    assert(contact_arm(b, n) == arm);
    // Neither sphere spins, so each contact point moves as its sphere does.
    assert(contact_velocity(a, vneg(n)) == a.lin_mom);
    assert(contact_velocity(b, n) == b.lin_mom);
    crate::vector::lemma_vdot_neg(a.lin_mom, nh);
    crate::fixed::lemma_tdiv_bound(dot_wide(a.lin_mom, nh), ONE as int);
    assert(vdot(a.lin_mom, vneg(nh)) == vdot(b.lin_mom, nh));
    // The denominators agree.
    assert(inertia(a) == inertia(b));
    let inv = fx_div_spec(ONE as int, inertia(b));
    let c1 = vcross(arm, nh);
    crate::vector::lemma_vcross_neg(arm, nh);
    assert(vcross(vneg(arm), vneg(nh)) == c1);
    let w = vscale(c1, inv);
    crate::vector::lemma_vscale_neg(c1, inv);
    let c2 = vcross(w, arm);
    crate::vector::lemma_vcross_neg(w, arm);
    assert(vcross(w, vneg(arm)) == vneg(c2));
    crate::vector::lemma_vdot_neg(c2, nh);
    assert(vdot(vneg(c2), vneg(nh)) == vdot(c2, nh));
    assert(impulse_denominator(a, vneg(n)) == impulse_denominator(b, n));
    let j = impulse_magnitude(b, n, cfg);
    assert(impulse_magnitude(a, vneg(n), cfg) == j);
    // The gains are opposite.
    crate::vector::lemma_vscale_neg(nh, j);
    assert(vscale(vneg(nh), j) == vneg(vscale(nh, j)));
}

/// A sphere whose centre is exactly one radius above a plane touches the plane, and its
/// displacement is the zero vector.
pub proof fn lemma_resting_on_plane(s: Sphere, p: Plane)
    requires
        s.r >= 0,
        signed_distance(s, p) == s.r,
    ensures
        s.touching_spec(&p),
        s.disp_spec(&p) == Some(Vec3 { x: 0, y: 0, z: 0 }),
{
    assert(p.n.x * 0 == 0 && p.n.y * 0 == 0 && p.n.z * 0 == 0);
}

} // verus!
