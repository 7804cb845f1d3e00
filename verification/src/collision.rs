//! Contacts between the shapes of two collections, and the passes that resolve them.
//!
//! A pass takes the contacts in the order in which they were gathered and tests each pair
//! again before it corrects it, so that a later contact sees what an earlier one changed.

use vstd::prelude::*;
use crate::fixed::{fx_add, fx_div, fx_div_spec, fx_mul, fx_mul_spec, fx_neg, sat, Scalar, ONE};
use crate::geom::{in_range, push_component, Collide, Config, Shape, Sphere};
use crate::vector::{dist2_wide, vadd, vdiv, vdot, vhalf, vnormalize, vscale, vsub, Vec3};

verus! {

/// Two shapes found overlapping: `a` and `b` say which, `mtv` is their displacement.
#[derive(Clone, Copy, PartialEq, Eq, Debug)]
pub struct Contact<Index> {
    pub a: Index,
    pub b: Index,
    pub mtv: Vec3,
}

/// The contact of `a[i]` with `b[j]`, if they have one.
pub open spec fn contact_of<A: Collide<B>, B: Shape>(a: Seq<A>, b: Seq<B>, i: int, j: int) -> Seq<
    Contact<usize>,
> {
    match a[i].disp_spec(&b[j]) {
        Some(d) => seq![Contact { a: i as usize, b: j as usize, mtv: d }],
        None => seq![],
    }
}

/// The contacts of `a[i]` with `b[lo]`, ..., `b[hi - 1]`, in that order.
pub open spec fn row_contacts<A: Collide<B>, B: Shape>(
    a: Seq<A>,
    b: Seq<B>,
    i: int,
    lo: int,
    hi: int,
) -> Seq<Contact<usize>>
    decreases hi - lo,
{
    if hi <= lo {
        seq![]
    } else {
        row_contacts(a, b, i, lo, hi - 1) + contact_of(a, b, i, hi - 1)
    }
}

/// The contacts of the first `m` shapes of `a` with all of `b`, row after row.
pub open spec fn contacts_ab<A: Collide<B>, B: Shape>(a: Seq<A>, b: Seq<B>, m: int) -> Seq<
    Contact<usize>,
>
    decreases m,
{
    if m <= 0 {
        seq![]
    } else {
        contacts_ab(a, b, m - 1) + row_contacts(a, b, m - 1, 0, b.len() as int)
    }
}

/// The contacts of the first `m` shapes of `a`, each with those behind it, row after row.
pub open spec fn contacts_aa<A: Collide<A>>(a: Seq<A>, m: int) -> Seq<Contact<usize>>
    decreases m,
{
    if m <= 0 {
        seq![]
    } else {
        contacts_aa(a, m - 1) + row_contacts(a, a, m - 1, m, a.len() as int)
    }
}

/// Whether every contact names a shape of a collection of `m` and one of a collection of `n`.
pub open spec fn contacts_within(cs: Seq<Contact<usize>>, m: int, n: int) -> bool {
    forall|k: int| 0 <= k < cs.len() ==> (#[trigger] cs[k]).a < m && cs[k].b < n
}

/// Whether no contact pairs a shape with itself.
pub open spec fn contacts_distinct(cs: Seq<Contact<usize>>) -> bool {
    forall|k: int| 0 <= k < cs.len() ==> (#[trigger] cs[k]).a != cs[k].b
}

/// Whether `c` is the contact of `a[i]` with `b[j]`.
pub open spec fn is_contact_of<A: Collide<B>, B: Shape>(
    c: Contact<usize>,
    a: Seq<A>,
    b: Seq<B>,
    i: int,
    j: int,
) -> bool {
    c.a == i && c.b == j && a[i].disp_spec(&b[j]) == Some(c.mtv)
}

/// Whether the list `cs` holds the contact of `a[i]` with `b[j]`.
pub open spec fn holds_contact_of<A: Collide<B>, B: Shape>(
    cs: Seq<Contact<usize>>,
    a: Seq<A>,
    b: Seq<B>,
    i: int,
    j: int,
) -> bool {
    exists|k: int| 0 <= k < cs.len() && is_contact_of(#[trigger] cs[k], a, b, i, j)
}

/// Whether `c` is the contact of `a[i]` with one of `b[lo]`, ..., `b[hi - 1]`.
pub open spec fn is_contact_in_row<A: Collide<B>, B: Shape>(
    c: Contact<usize>,
    a: Seq<A>,
    b: Seq<B>,
    i: int,
    lo: int,
    hi: int,
) -> bool {
    exists|j: int| lo <= j < hi && #[trigger] is_contact_of(c, a, b, i, j)
}

/// Where the row of `a[i]` starts: behind `i` within one collection, at the first shape
/// between two.
pub open spec fn row_start(i: int, behind: bool) -> int {
    if behind {
        i + 1
    } else {
        0
    }
}

/// Whether `c` is the contact of one of the first `m` shapes of `a` with a shape in its
/// row of `b`.
pub open spec fn is_contact_among<A: Collide<B>, B: Shape>(
    c: Contact<usize>,
    a: Seq<A>,
    b: Seq<B>,
    m: int,
    behind: bool,
) -> bool {
    exists|i: int|
        0 <= i < m && #[trigger] is_contact_in_row(c, a, b, i, row_start(i, behind), b.len() as int)
}

/// A row holds the contact of each pair in it that has a displacement, and nothing else.
pub proof fn lemma_row_contacts<A: Collide<B>, B: Shape>(
    a: Seq<A>,
    b: Seq<B>,
    i: int,
    lo: int,
    hi: int,
)
    requires
        0 <= i < a.len(),
        0 <= lo,
        hi <= b.len(),
        a.len() <= usize::MAX,
        b.len() <= usize::MAX,
    ensures
        forall|j: int|
            lo <= j < hi && (#[trigger] a[i].disp_spec(&b[j])) is Some ==> holds_contact_of(
                row_contacts(a, b, i, lo, hi),
                a,
                b,
                i,
                j,
            ),
        forall|k: int|
            0 <= k < row_contacts(a, b, i, lo, hi).len() ==> is_contact_in_row(
                #[trigger] row_contacts(a, b, i, lo, hi)[k],
                a,
                b,
                i,
                lo,
                hi,
            ),
    decreases hi - lo,
{
    if hi > lo {
        lemma_row_contacts(a, b, i, lo, hi - 1);
        let prev = row_contacts(a, b, i, lo, hi - 1);
        let last = contact_of(a, b, i, hi - 1);
        let row = row_contacts(a, b, i, lo, hi);
        assert(row == prev + last);
        assert forall|j: int|
            lo <= j < hi && (#[trigger] a[i].disp_spec(&b[j])) is Some implies holds_contact_of(
            row,
            a,
            b,
            i,
            j,
        ) by {
            if j < hi - 1 {
                assert(holds_contact_of(prev, a, b, i, j));
                let k = choose|k: int|
                    0 <= k < prev.len() && is_contact_of(#[trigger] prev[k], a, b, i, j);
                assert(row[k] == prev[k]);
            } else {
                assert(last.len() == 1);
                assert(row[prev.len() as int] == last[0]);
                assert(is_contact_of(row[prev.len() as int], a, b, i, j));
            }
        }
        assert forall|k: int| 0 <= k < row.len() implies is_contact_in_row(
            #[trigger] row[k],
            a,
            b,
            i,
            lo,
            hi,
        ) by {
            if k < prev.len() {
                assert(row[k] == prev[k]);
                assert(is_contact_in_row(prev[k], a, b, i, lo, hi - 1));
                let j = choose|j: int|
                    lo <= j < hi - 1 && #[trigger] is_contact_of(prev[k], a, b, i, j);
                assert(is_contact_of(row[k], a, b, i, j));
            } else {
                assert(row[k] == last[k - prev.len()]);
                assert(is_contact_of(row[k], a, b, i, hi - 1));
            }
        }
    }
}

/// The contacts between two collections are those of the pairs that have a displacement:
/// each such pair has its contact in the list, and the list holds nothing else.
pub proof fn lemma_contacts_ab<A: Collide<B>, B: Shape>(a: Seq<A>, b: Seq<B>, m: int)
    requires
        0 <= m <= a.len(),
        a.len() <= usize::MAX,
        b.len() <= usize::MAX,
    ensures
        forall|i: int, j: int|
            0 <= i < m && 0 <= j < b.len() && (#[trigger] a[i].disp_spec(&b[j])) is Some
                ==> holds_contact_of(contacts_ab(a, b, m), a, b, i, j),
        forall|k: int|
            0 <= k < contacts_ab(a, b, m).len() ==> is_contact_among(
                #[trigger] contacts_ab(a, b, m)[k],
                a,
                b,
                m,
                false,
            ),
    decreases m,
{
    if m > 0 {
        lemma_contacts_ab(a, b, m - 1);
        lemma_row_contacts(a, b, m - 1, 0, b.len() as int);
        let prev = contacts_ab(a, b, m - 1);
        let row = row_contacts(a, b, m - 1, 0, b.len() as int);
        let all = contacts_ab(a, b, m);
        assert(all == prev + row);
        assert forall|i: int, j: int|
            0 <= i < m && 0 <= j < b.len() && (#[trigger] a[i].disp_spec(
                &b[j],
            )) is Some implies holds_contact_of(all, a, b, i, j) by {
            if i < m - 1 {
                assert(holds_contact_of(prev, a, b, i, j));
                let k = choose|k: int|
                    0 <= k < prev.len() && is_contact_of(#[trigger] prev[k], a, b, i, j);
                assert(all[k] == prev[k]);
            } else {
                assert(holds_contact_of(row, a, b, i, j));
                let k = choose|k: int|
                    0 <= k < row.len() && is_contact_of(#[trigger] row[k], a, b, i, j);
                assert(all[prev.len() + k] == row[k]);
            }
        }
        assert forall|k: int| 0 <= k < all.len() implies is_contact_among(
            #[trigger] all[k],
            a,
            b,
            m,
            false,
        ) by {
            if k < prev.len() {
                assert(all[k] == prev[k]);
                assert(is_contact_among(prev[k], a, b, m - 1, false));
                let i = choose|i: int|
                    0 <= i < m - 1 && #[trigger] is_contact_in_row(
                        prev[k],
                        a,
                        b,
                        i,
                        row_start(i, false),
                        b.len() as int,
                    );
                assert(is_contact_in_row(all[k], a, b, i, row_start(i, false), b.len() as int));
            } else {
                assert(all[k] == row[k - prev.len()]);
                assert(is_contact_in_row(
                    all[k],
                    a,
                    b,
                    m - 1,
                    row_start(m - 1, false),
                    b.len() as int,
                ));
            }
        }
    }
}

/// The contacts within one collection are those of the pairs, first index below second,
/// that have a displacement: each such pair has its contact in the list, and the list
/// holds nothing else.
pub proof fn lemma_contacts_aa<A: Collide<A>>(a: Seq<A>, m: int)
    requires
        0 <= m <= a.len(),
        a.len() <= usize::MAX,
    ensures
        forall|i: int, j: int|
            0 <= i < m && i < j < a.len() && (#[trigger] a[i].disp_spec(&a[j])) is Some
                ==> holds_contact_of(contacts_aa(a, m), a, a, i, j),
        forall|k: int|
            0 <= k < contacts_aa(a, m).len() ==> is_contact_among(
                #[trigger] contacts_aa(a, m)[k],
                a,
                a,
                m,
                true,
            ),
    decreases m,
{
    if m > 0 {
        lemma_contacts_aa(a, m - 1);
        lemma_row_contacts(a, a, m - 1, m, a.len() as int);
        let prev = contacts_aa(a, m - 1);
        let row = row_contacts(a, a, m - 1, m, a.len() as int);
        let all = contacts_aa(a, m);
        assert(all == prev + row);
        assert forall|i: int, j: int|
            0 <= i < m && i < j < a.len() && (#[trigger] a[i].disp_spec(
                &a[j],
            )) is Some implies holds_contact_of(all, a, a, i, j) by {
            if i < m - 1 {
                assert(holds_contact_of(prev, a, a, i, j));
                let k = choose|k: int|
                    0 <= k < prev.len() && is_contact_of(#[trigger] prev[k], a, a, i, j);
                assert(all[k] == prev[k]);
            } else {
                assert(holds_contact_of(row, a, a, i, j));
                let k = choose|k: int|
                    0 <= k < row.len() && is_contact_of(#[trigger] row[k], a, a, i, j);
                assert(all[prev.len() + k] == row[k]);
            }
        }
        assert forall|k: int| 0 <= k < all.len() implies is_contact_among(
            #[trigger] all[k],
            a,
            a,
            m,
            true,
        ) by {
            if k < prev.len() {
                assert(all[k] == prev[k]);
                assert(is_contact_among(prev[k], a, a, m - 1, true));
                let i = choose|i: int|
                    0 <= i < m - 1 && #[trigger] is_contact_in_row(
                        prev[k],
                        a,
                        a,
                        i,
                        row_start(i, true),
                        a.len() as int,
                    );
                assert(is_contact_in_row(all[k], a, a, i, row_start(i, true), a.len() as int));
            } else {
                assert(all[k] == row[k - prev.len()]);
                assert(is_contact_in_row(
                    all[k],
                    a,
                    a,
                    m - 1,
                    row_start(m - 1, true),
                    a.len() as int,
                ));
            }
        }
    }
}

/// Tests every shape of `a` against every shape of `b`.
pub fn gather_contacts_ab<A: Collide<B>, B: Shape>(a: &[A], b: &[B]) -> (r: Vec<Contact<usize>>)
    ensures
        r@ == contacts_ab(a@, b@, a@.len() as int),
        contacts_within(r@, a@.len() as int, b@.len() as int),
        (forall|i: int, j: int|
            0 <= i < a@.len() && 0 <= j < b@.len() ==> !(#[trigger] a@[i].touching_spec(&b@[j])))
            ==> r@.len() == 0,
{
    let mut out: Vec<Contact<usize>> = Vec::new();
    let mut i: usize = 0;
    while i < a.len()
        invariant
            i <= a@.len(),
            out@ == contacts_ab(a@, b@, i as int),
            contacts_within(out@, a@.len() as int, b@.len() as int),
            (forall|i: int, j: int|
                0 <= i < a@.len() && 0 <= j < b@.len() ==> !(#[trigger] a@[i].touching_spec(
                    &b@[j],
                ))) ==> out@.len() == 0,
        decreases a@.len() - i,
    {
        let ghost before = out@;
        let mut j: usize = 0;
        while j < b.len()
            invariant
                i < a@.len(),
                j <= b@.len(),
                before == contacts_ab(a@, b@, i as int),
                out@ == before + row_contacts(a@, b@, i as int, 0, j as int),
                contacts_within(out@, a@.len() as int, b@.len() as int),
                (forall|i: int, j: int|
                    0 <= i < a@.len() && 0 <= j < b@.len() ==> !(#[trigger] a@[i].touching_spec(
                        &b@[j],
                    ))) ==> out@.len() == 0,
            decreases b@.len() - j,
        {
            proof {
                a@[i as int].lemma_disp_touching(&b@[j as int]);
            }
            if let Some(d) = a[i].disp(&b[j]) {
                out.push(Contact { a: i, b: j, mtv: d });
            }
            j += 1;
        }
        i += 1;
    }
    out
}

/// Tests every shape of `a` against every shape behind it, so each pair once.
pub fn gather_contacts_aa<A: Collide<A>>(a: &[A]) -> (r: Vec<Contact<usize>>)
    ensures
        r@ == contacts_aa(a@, a@.len() as int),
        contacts_within(r@, a@.len() as int, a@.len() as int),
        forall|k: int| 0 <= k < r@.len() ==> (#[trigger] r@[k]).a < r@[k].b,
        (forall|i: int, j: int|
            0 <= i < j < a@.len() ==> !(#[trigger] a@[i].touching_spec(&a@[j]))) ==> r@.len()
            == 0,
{
    let mut out: Vec<Contact<usize>> = Vec::new();
    let mut i: usize = 0;
    while i < a.len()
        invariant
            i <= a@.len(),
            out@ == contacts_aa(a@, i as int),
            contacts_within(out@, a@.len() as int, a@.len() as int),
            forall|k: int| 0 <= k < out@.len() ==> (#[trigger] out@[k]).a < out@[k].b,
            (forall|i: int, j: int|
                0 <= i < j < a@.len() ==> !(#[trigger] a@[i].touching_spec(&a@[j])))
                ==> out@.len() == 0,
        decreases a@.len() - i,
    {
        let ghost before = out@;
        let mut j: usize = i + 1;
        while j < a.len()
            invariant
                i < a@.len(),
                i < j <= a@.len(),
                before == contacts_aa(a@, i as int),
                out@ == before + row_contacts(a@, a@, i as int, i + 1, j as int),
                contacts_within(out@, a@.len() as int, a@.len() as int),
                forall|k: int| 0 <= k < out@.len() ==> (#[trigger] out@[k]).a < out@[k].b,
                (forall|i: int, j: int|
                    0 <= i < j < a@.len() ==> !(#[trigger] a@[i].touching_spec(&a@[j])))
                    ==> out@.len() == 0,
            decreases a@.len() - j,
        {
            proof {
                a@[i as int].lemma_disp_touching(&a@[j as int]);
            }
            if let Some(d) = a[i].disp(&a[j]) {
                out.push(Contact { a: i, b: j, mtv: d });
            }
            j += 1;
        }
        i += 1;
    }
    out
}

/// The velocity `v` after a bounce off a contact whose displacement is `disp`: the part
/// along the contact normal is taken away and given back reversed, scaled by `e`.
pub open spec fn reflected(v: Vec3, disp: Vec3, e: int) -> Vec3 {
    let n = vnormalize(disp);
    vadd(v, vscale(n, sat(-fx_mul_spec(sat(ONE + e), vdot(v, n)))))
}

/// Computes `reflected`.
pub fn reflect(v: &Vec3, disp: &Vec3, e: Scalar) -> (r: Vec3)
    ensures
        r == reflected(*v, *disp, e as int),
{
    let n: Vec3 = disp.normalize();
    v.plus(&n.scaled(fx_neg(fx_mul(fx_add(ONE, e), v.dot(&n)))))
}

/// A body and its velocity after its contact with a static shape is resolved: where the
/// two still overlap, the body is moved out by the whole displacement and bounces.
pub open spec fn settled_stat<A: Collide<B>, B: Shape>(
    body: A,
    vel: Vec3,
    obstacle: B,
    cfg: Config,
) -> (A, Vec3) {
    match body.disp_spec(&obstacle) {
        None => (body, vel),
        Some(d) => {
            let moved = body.translated(d);
            (
                match moved.impulsed(d, cfg) {
                    Ok(bounced) => bounced,
                    Err(_) => moved,
                },
                reflected(vel, d, cfg.restitution as int),
            )
        },
    }
}

/// The bodies and velocities after the contacts have been resolved one after another.
pub open spec fn restituted_stat<A: Collide<B>, B: Shape>(
    bodies: Seq<A>,
    vels: Seq<Vec3>,
    statics: Seq<B>,
    contacts: Seq<Contact<usize>>,
    cfg: Config,
) -> (Seq<A>, Seq<Vec3>)
    decreases contacts.len(),
{
    if contacts.len() == 0 {
        (bodies, vels)
    } else {
        let prev = restituted_stat(bodies, vels, statics, contacts.drop_last(), cfg);
        let c = contacts.last();
        let now = settled_stat(prev.0[c.a as int], prev.1[c.a as int], statics[c.b as int], cfg);
        (prev.0.update(c.a as int, now.0), prev.1.update(c.a as int, now.1))
    }
}

/// Resolves the contacts of dynamic bodies with static shapes. The static shapes are
/// left as they are.
pub fn restitute_dyn_stat<A: Collide<B>, B: Shape>(
    dynamics: &mut [A],
    velocities: &mut [Vec3],
    statics: &[B],
    contacts: &[Contact<usize>],
    cfg: &Config,
)
    requires
        contacts_within(contacts@, old(dynamics)@.len() as int, statics@.len() as int),
        contacts_within(contacts@, old(velocities)@.len() as int, statics@.len() as int),
        forall|i: int|
            0 <= i < old(dynamics)@.len() ==> (#[trigger] old(dynamics)@[i]).movable() && old(
                dynamics,
            )@[i].dynamic(),
    ensures
        (final(dynamics)@, final(velocities)@) == restituted_stat(
            old(dynamics)@,
            old(velocities)@,
            statics@,
            contacts@,
            *cfg,
        ),
        final(dynamics)@.len() == old(dynamics)@.len(),
        final(velocities)@.len() == old(velocities)@.len(),
{
    let mut k: usize = 0;
    while k < contacts.len()
        invariant
            k <= contacts@.len(),
            dynamics@.len() == old(dynamics)@.len(),
            velocities@.len() == old(velocities)@.len(),
            contacts_within(contacts@, dynamics@.len() as int, statics@.len() as int),
            contacts_within(contacts@, velocities@.len() as int, statics@.len() as int),
            forall|i: int|
                0 <= i < dynamics@.len() ==> (#[trigger] dynamics@[i]).movable()
                    && dynamics@[i].dynamic(),
            (dynamics@, velocities@) == restituted_stat(
                old(dynamics)@,
                old(velocities)@,
                statics@,
                contacts@.take(k as int),
                *cfg,
            ),
        decreases contacts@.len() - k,
    {
        let a: usize = contacts[k].a;
        let b: usize = contacts[k].b;
        proof {
            assert(contacts@.take(k + 1).drop_last() == contacts@.take(k as int));
            assert(contacts@.take(k + 1).last() == contacts@[k as int]);
        }
        if let Some(d) = dynamics[a].disp(&statics[b]) {
            dynamics[a].translate(d);
            let _ = dynamics[a].apply_impulse(d, cfg);
            velocities[a] = reflect(&velocities[a], &d, cfg.restitution);
        }
        k += 1;
    }
    proof {
        assert(contacts@.take(contacts@.len() as int) == contacts@);
    }
}

/// Whether two masses allow an exchange of momentum.
pub open spec fn masses_usable(ma: int, mb: int) -> bool {
    ma != 0 && mb != 0 && ma + mb != 0
}

/// The mass that two bodies show to each other: `ma mb / (ma + mb)`.
pub open spec fn reduced_mass(ma: int, mb: int) -> int {
    fx_div_spec(fx_mul_spec(ma, mb), sat(ma + mb))
}

/// The size of the impulse that two bodies exchange, from their velocities `ua` and `ub`
/// and the displacement from the first to the second: `(1 + e)` times the speed at which
/// they close in along the contact normal times their reduced mass.
pub open spec fn exchange_size(ua: Vec3, ub: Vec3, ma: int, mb: int, disp: Vec3, e: int) -> int {
    fx_mul_spec(
        fx_mul_spec(sat(ONE + e), vdot(vsub(ua, ub), vnormalize(disp))),
        reduced_mass(ma, mb),
    )
}

/// The impulse that the first sphere loses and the second gains; the velocity of each is
/// its linear momentum over its mass.
pub open spec fn momentum_impulse(a: Sphere, b: Sphere, disp: Vec3, e: int) -> Vec3 {
    vscale(
        vnormalize(disp),
        exchange_size(
            vdiv(a.lin_mom, a.mass as int),
            vdiv(b.lin_mom, b.mass as int),
            a.mass as int,
            b.mass as int,
            disp,
            e,
        ),
    )
}

/// Two dynamic bodies and their velocities after their contact is resolved. Where the two
/// still overlap, the first moves back by half the displacement and the second forward
/// by the rest; where their masses allow it, one impulse is taken from the momentum of
/// the first and given to the second, and the velocities change by that impulse over
/// each mass.
pub open spec fn settled_pair(a: Sphere, va: Vec3, b: Sphere, vb: Vec3, cfg: Config) -> (
    Sphere,
    Vec3,
    Sphere,
    Vec3,
) {
    match a.disp_spec(&b) {
        None => (a, va, b, vb),
        Some(d) => {
            let half = vhalf(d);
            let ca = vsub(a.c, half);
            let cb = vadd(b.c, vsub(d, half));
            if masses_usable(a.mass as int, b.mass as int) {
                let e = cfg.restitution as int;
                let n = vnormalize(d);
                let push = momentum_impulse(a, b, d, e);
                let j = exchange_size(va, vb, a.mass as int, b.mass as int, d, e);
                (
                    Sphere { c: ca, lin_mom: vsub(a.lin_mom, push), ..a },
                    vsub(va, vscale(n, fx_div_spec(j, a.mass as int))),
                    Sphere { c: cb, lin_mom: vadd(b.lin_mom, push), ..b },
                    vadd(vb, vscale(n, fx_div_spec(j, b.mass as int))),
                )
            } else {
                (Sphere { c: ca, ..a }, va, Sphere { c: cb, ..b }, vb)
            }
        },
    }
}

/// Computes `exchange_size`.
fn exchange_size_of(ua: &Vec3, ub: &Vec3, ma: Scalar, mb: Scalar, disp: &Vec3, e: Scalar) -> (r:
    Scalar)
    requires
        masses_usable(ma as int, mb as int),
    ensures
        r == exchange_size(*ua, *ub, ma as int, mb as int, *disp, e as int),
{
    let n: Vec3 = disp.normalize();
    let closing: Scalar = ua.minus(ub).dot(&n);
    let reduced: Scalar = fx_div(fx_mul(ma, mb), fx_add(ma, mb));
    fx_mul(fx_mul(fx_add(ONE, e), closing), reduced)
}

/// Resolves the contact of two dynamic bodies, if they still have one.
pub fn settle_pair(a: &Sphere, va: &Vec3, b: &Sphere, vb: &Vec3, cfg: &Config) -> (r: (
    Sphere,
    Vec3,
    Sphere,
    Vec3,
))
    ensures
        r == settled_pair(*a, *va, *b, *vb, *cfg),
{
    match a.disp(b) {
        None => (*a, *va, *b, *vb),
        Some(d) => {
            let half: Vec3 = d.halved();
            let mut a2: Sphere = *a;
            let mut b2: Sphere = *b;
            let mut va2: Vec3 = *va;
            let mut vb2: Vec3 = *vb;
            a2.c = a.c.minus(&half);
            b2.c = b.c.plus(&d.minus(&half));
            if a.mass != 0 && b.mass != 0 && a.mass as i64 + b.mass as i64 != 0 {
                let n: Vec3 = d.normalize();
                let jp: Scalar = exchange_size_of(
                    &a.lin_mom.divided(a.mass),
                    &b.lin_mom.divided(b.mass),
                    a.mass,
                    b.mass,
                    &d,
                    cfg.restitution,
                );
                let push: Vec3 = n.scaled(jp);
                let j: Scalar = exchange_size_of(va, vb, a.mass, b.mass, &d, cfg.restitution);
                a2.lin_mom = a.lin_mom.minus(&push);
                b2.lin_mom = b.lin_mom.plus(&push);
                va2 = va.minus(&n.scaled(fx_div(j, a.mass)));
                vb2 = vb.plus(&n.scaled(fx_div(j, b.mass)));
            }
            (a2, va2, b2, vb2)
        },
    }
}

/// The two collections and their velocities after the contacts between them have been
/// resolved one after another.
pub open spec fn restituted_dyn_dyn(
    ba: Seq<Sphere>,
    va: Seq<Vec3>,
    bb: Seq<Sphere>,
    vb: Seq<Vec3>,
    contacts: Seq<Contact<usize>>,
    cfg: Config,
) -> (Seq<Sphere>, Seq<Vec3>, Seq<Sphere>, Seq<Vec3>)
    decreases contacts.len(),
{
    if contacts.len() == 0 {
        (ba, va, bb, vb)
    } else {
        let prev = restituted_dyn_dyn(ba, va, bb, vb, contacts.drop_last(), cfg);
        let c = contacts.last();
        let now = settled_pair(
            prev.0[c.a as int],
            prev.1[c.a as int],
            prev.2[c.b as int],
            prev.3[c.b as int],
            cfg,
        );
        (
            prev.0.update(c.a as int, now.0),
            prev.1.update(c.a as int, now.1),
            prev.2.update(c.b as int, now.2),
            prev.3.update(c.b as int, now.3),
        )
    }
}

/// The collection and its velocities after the contacts within it have been resolved one
/// after another.
pub open spec fn restituted_dyns(
    bodies: Seq<Sphere>,
    vels: Seq<Vec3>,
    contacts: Seq<Contact<usize>>,
    cfg: Config,
) -> (Seq<Sphere>, Seq<Vec3>)
    decreases contacts.len(),
{
    if contacts.len() == 0 {
        (bodies, vels)
    } else {
        let prev = restituted_dyns(bodies, vels, contacts.drop_last(), cfg);
        let c = contacts.last();
        let now = settled_pair(
            prev.0[c.a as int],
            prev.1[c.a as int],
            prev.0[c.b as int],
            prev.1[c.b as int],
            cfg,
        );
        (
            prev.0.update(c.a as int, now.0).update(c.b as int, now.2),
            prev.1.update(c.a as int, now.1).update(c.b as int, now.3),
        )
    }
}

/// Resolves the contacts between two collections of dynamic bodies.
pub fn restitute_dyn_dyn(
    dynamics_a: &mut [Sphere],
    velocities_a: &mut [Vec3],
    dynamics_b: &mut [Sphere],
    velocities_b: &mut [Vec3],
    contacts: &[Contact<usize>],
    cfg: &Config,
)
    requires
        contacts_within(contacts@, old(dynamics_a)@.len() as int, old(dynamics_b)@.len() as int),
        contacts_within(
            contacts@,
            old(velocities_a)@.len() as int,
            old(velocities_b)@.len() as int,
        ),
    ensures
        (final(dynamics_a)@, final(velocities_a)@, final(dynamics_b)@, final(velocities_b)@)
            == restituted_dyn_dyn(
            old(dynamics_a)@,
            old(velocities_a)@,
            old(dynamics_b)@,
            old(velocities_b)@,
            contacts@,
            *cfg,
        ),
        final(dynamics_a)@.len() == old(dynamics_a)@.len(),
        final(velocities_a)@.len() == old(velocities_a)@.len(),
        final(dynamics_b)@.len() == old(dynamics_b)@.len(),
        final(velocities_b)@.len() == old(velocities_b)@.len(),
{
    let mut k: usize = 0;
    while k < contacts.len()
        invariant
            k <= contacts@.len(),
            dynamics_a@.len() == old(dynamics_a)@.len(),
            dynamics_b@.len() == old(dynamics_b)@.len(),
            velocities_a@.len() == old(velocities_a)@.len(),
            velocities_b@.len() == old(velocities_b)@.len(),
            contacts_within(contacts@, dynamics_a@.len() as int, dynamics_b@.len() as int),
            contacts_within(contacts@, velocities_a@.len() as int, velocities_b@.len() as int),
            (dynamics_a@, velocities_a@, dynamics_b@, velocities_b@) == restituted_dyn_dyn(
                old(dynamics_a)@,
                old(velocities_a)@,
                old(dynamics_b)@,
                old(velocities_b)@,
                contacts@.take(k as int),
                *cfg,
            ),
        decreases contacts@.len() - k,
    {
        let a: usize = contacts[k].a;
        let b: usize = contacts[k].b;
        proof {
            assert(contacts@.take(k + 1).drop_last() == contacts@.take(k as int));
            assert(contacts@.take(k + 1).last() == contacts@[k as int]);
        }
        let now: (Sphere, Vec3, Sphere, Vec3) = settle_pair(
            &dynamics_a[a],
            &velocities_a[a],
            &dynamics_b[b],
            &velocities_b[b],
            cfg,
        );
        dynamics_a[a] = now.0;
        velocities_a[a] = now.1;
        dynamics_b[b] = now.2;
        velocities_b[b] = now.3;
        k += 1;
    }
    proof {
        assert(contacts@.take(contacts@.len() as int) == contacts@);
    }
}

/// Resolves the contacts within one collection of dynamic bodies.
pub fn restitute_dyns(
    dynamics: &mut [Sphere],
    velocities: &mut [Vec3],
    contacts: &[Contact<usize>],
    cfg: &Config,
)
    requires
        contacts_within(contacts@, old(dynamics)@.len() as int, old(dynamics)@.len() as int),
        contacts_within(contacts@, old(velocities)@.len() as int, old(velocities)@.len() as int),
        contacts_distinct(contacts@),
    ensures
        (final(dynamics)@, final(velocities)@) == restituted_dyns(
            old(dynamics)@,
            old(velocities)@,
            contacts@,
            *cfg,
        ),
        final(dynamics)@.len() == old(dynamics)@.len(),
        final(velocities)@.len() == old(velocities)@.len(),
{
    let mut k: usize = 0;
    while k < contacts.len()
        invariant
            k <= contacts@.len(),
            dynamics@.len() == old(dynamics)@.len(),
            velocities@.len() == old(velocities)@.len(),
            contacts_within(contacts@, dynamics@.len() as int, dynamics@.len() as int),
            contacts_within(contacts@, velocities@.len() as int, velocities@.len() as int),
            (dynamics@, velocities@) == restituted_dyns(
                old(dynamics)@,
                old(velocities)@,
                contacts@.take(k as int),
                *cfg,
            ),
        decreases contacts@.len() - k,
    {
        let a: usize = contacts[k].a;
        let b: usize = contacts[k].b;
        proof {
            assert(contacts@.take(k + 1).drop_last() == contacts@.take(k as int));
            assert(contacts@.take(k + 1).last() == contacts@[k as int]);
        }
        let now: (Sphere, Vec3, Sphere, Vec3) = settle_pair(
            &dynamics[a],
            &velocities[a],
            &dynamics[b],
            &velocities[b],
            cfg,
        );
        dynamics[a] = now.0;
        velocities[a] = now.1;
        dynamics[b] = now.2;
        velocities[b] = now.3;
        k += 1;
    }
    proof {
        assert(contacts@.take(contacts@.len() as int) == contacts@);
    }
}

/// One exchange leaves the sum of the two linear momenta as it was, for any masses and
/// any restitution. This holds where neither new momentum is clamped.
pub proof fn lemma_exchange_conserves_momentum(
    a: Sphere,
    va: Vec3,
    b: Sphere,
    vb: Vec3,
    cfg: Config,
)
    requires
        a.disp_spec(&b) is Some && masses_usable(a.mass as int, b.mass as int) ==> ({
            let push = momentum_impulse(a, b, a.disp_spec(&b).unwrap(), cfg.restitution as int);
            &&& in_range(a.lin_mom.x - push.x) && in_range(b.lin_mom.x + push.x)
            &&& in_range(a.lin_mom.y - push.y) && in_range(b.lin_mom.y + push.y)
            &&& in_range(a.lin_mom.z - push.z) && in_range(b.lin_mom.z + push.z)
        }),
    ensures
        ({
            let now = settled_pair(a, va, b, vb, cfg);
            &&& now.0.lin_mom.x + now.2.lin_mom.x == a.lin_mom.x + b.lin_mom.x
            &&& now.0.lin_mom.y + now.2.lin_mom.y == a.lin_mom.y + b.lin_mom.y
            &&& now.0.lin_mom.z + now.2.lin_mom.z == a.lin_mom.z + b.lin_mom.z
        }),
{
}

/// Once the contact of two overlapping spheres has been resolved, the pair is tangent
/// but for rounding, so that resolving it again changes nothing. This holds where the
/// centres differ and no position is clamped.
pub proof fn lemma_settled_pair_is_settled(a: Sphere, va: Vec3, b: Sphere, vb: Vec3, cfg: Config)
    requires
        a.disp_spec(&b) is Some,
        a.c != b.c,
        ({
            let d2 = dist2_wide(b.c, a.c);
            let dx = push_component(b.c.x - a.c.x, d2, a.r + b.r);
            let dy = push_component(b.c.y - a.c.y, d2, a.r + b.r);
            let dz = push_component(b.c.z - a.c.z, d2, a.r + b.r);
            &&& in_range(dx) && in_range(dy) && in_range(dz)
            &&& in_range(a.c.x - crate::fixed::tdiv(dx, 2)) && in_range(b.c.x + dx)
            &&& in_range(a.c.y - crate::fixed::tdiv(dy, 2)) && in_range(b.c.y + dy)
            &&& in_range(a.c.z - crate::fixed::tdiv(dz, 2)) && in_range(b.c.z + dz)
        }),
    ensures
        ({
            let now = settled_pair(a, va, b, vb, cfg);
            &&& now.0.disp_spec(&now.2) is None
            &&& settled_pair(now.0, now.1, now.2, now.3, cfg) == now
            &&& (a.r + b.r) * (a.r + b.r) <= dist2_wide(now.2.c, now.0.c)
            &&& crate::geom::FINE * dist2_wide(now.2.c, now.0.c) <= crate::geom::tangent_bound(
                a.r + b.r,
            )
        }),
{
    let wx = b.c.x - a.c.x;
    let wy = b.c.y - a.c.y;
    let wz = b.c.z - a.c.z;
    crate::geom::lemma_push_out_separates(wx, wy, wz, a.r + b.r);
    crate::geom::lemma_push_out_tangent(wx, wy, wz, a.r + b.r);
    let d2 = dist2_wide(b.c, a.c);
    let dx = push_component(wx, d2, a.r + b.r);
    let dy = push_component(wy, d2, a.r + b.r);
    let dz = push_component(wz, d2, a.r + b.r);
    crate::fixed::lemma_tdiv_bound(dx, 2);
    crate::fixed::lemma_tdiv_bound(dy, 2);
    crate::fixed::lemma_tdiv_bound(dz, 2);
    let now = settled_pair(a, va, b, vb, cfg);
    assert(now.2.c.x - now.0.c.x == wx + dx);
    assert(now.2.c.y - now.0.c.y == wy + dy);
    assert(now.2.c.z - now.0.c.z == wz + dz);
    assert(now.0.r + now.2.r == a.r + b.r);
}

} // verus!
