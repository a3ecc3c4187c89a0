//! The core of the tracer: geometric preprocessing of the coils, the
//! Biot-Savart field evaluator, the Runge-Kutta field-line integrator with
//! the toroidal containment policy, and the multi-particle driver.

use crate::constants::{CURRENT, FOUR, MAJOR_RADIUS, MINOR_RADIUS, MIU, ONE, PI, SIX, TWO, ZERO};
use crate::point::{
    spec_displacement, spec_distance, spec_norm, spec_unit_vector, Point,
};
use crate::scalar::{
    add_bits, div_bits, gt_bits, mul_bits, spec_add, spec_div, spec_gt, spec_mul, spec_sub,
    sub_bits,
};
use vstd::prelude::*;

verus! {

/// The inner views of a vector of vectors of points.
pub open spec fn view2(v: Vec<Vec<Point>>) -> Seq<Seq<Point>> {
    Seq::new(v@.len(), |i: int| v@[i]@)
}

/// The displacement vectors of a coil: one per adjacent point pair, in point
/// order.
pub open spec fn seq_displacements(coil: Seq<Point>) -> Seq<Point> {
    Seq::new(
        if coil.len() >= 1 {
            (coil.len() - 1) as nat
        } else {
            0
        },
        |i: int| spec_displacement(coil[i + 1], coil[i]),
    )
}

/// The unit tangent vectors of a coil's displacement vectors, in order.
pub open spec fn seq_tangents(disp: Seq<Point>) -> Seq<Point> {
    Seq::new(disp.len(), |i: int| spec_unit_vector(disp[i]))
}

/// One displacement vector per adjacent point pair of the coil.
pub fn compute_displacements(coil: &Vec<Point>) -> (r: Vec<Point>)
    ensures
        r@ == seq_displacements(coil@),
        coil@.len() >= 1 ==> r@.len() == coil@.len() - 1,
{
    let mut r: Vec<Point> = Vec::new();
    if coil.len() == 0 {
        assert(r@ =~= seq_displacements(coil@));
        return r;
    }
    let n = coil.len();
    let mut i: usize = 0;
    while i < n - 1
        invariant
            n == coil@.len(),
            1 <= n,
            i <= n - 1,
            r@.len() == i,
            forall|j: int|
                0 <= j < i ==> r@[j] == spec_displacement(coil@[j + 1], coil@[j]),
        decreases n - 1 - i,
    {
        r.push(coil[i + 1].get_displacement(&coil[i]));
        i = i + 1;
    }
    assert(r@ =~= seq_displacements(coil@));
    r
}

/// The displacement vectors of every coil, in coil order.
pub fn compute_all_displacements(coils: &Vec<Vec<Point>>) -> (r: Vec<Vec<Point>>)
    ensures
        r@.len() == coils@.len(),
        forall|c: int|
            0 <= c < coils@.len() ==> (#[trigger] r@[c])@ == seq_displacements(view2(*coils)[c]),
{
    let mut r: Vec<Vec<Point>> = Vec::new();
    let mut c: usize = 0;
    while c < coils.len()
        invariant
            c <= coils@.len(),
            r@.len() == c,
            forall|j: int|
                0 <= j < c ==> (#[trigger] r@[j])@ == seq_displacements(view2(*coils)[j]),
        decreases coils@.len() - c,
    {
        r.push(compute_displacements(&coils[c]));
        c = c + 1;
    }
    r
}

/// The unit tangent of every displacement vector of one coil, in order.
pub fn compute_e_roof(coil_displacements: &Vec<Point>) -> (r: Vec<Point>)
    ensures
        r@ == seq_tangents(coil_displacements@),
        r@.len() == coil_displacements@.len(),
{
    let mut r: Vec<Point> = Vec::new();
    let mut i: usize = 0;
    while i < coil_displacements.len()
        invariant
            i <= coil_displacements@.len(),
            r@.len() == i,
            forall|j: int|
                0 <= j < i ==> r@[j] == spec_unit_vector(coil_displacements@[j]),
        decreases coil_displacements@.len() - i,
    {
        r.push(coil_displacements[i].get_unit_vector());
        i = i + 1;
    }
    assert(r@ =~= seq_tangents(coil_displacements@));
    r
}

/// The unit tangents of every coil's displacement vectors, in coil order.
pub fn compute_all_e_roof(all_displacements: &Vec<Vec<Point>>) -> (r: Vec<Vec<Point>>)
    ensures
        r@.len() == all_displacements@.len(),
        forall|c: int|
            0 <= c < all_displacements@.len() ==> (#[trigger] r@[c])@ == seq_tangents(
                view2(*all_displacements)[c],
            ),
{
    let mut r: Vec<Vec<Point>> = Vec::new();
    let mut c: usize = 0;
    while c < all_displacements.len()
        invariant
            c <= all_displacements@.len(),
            r@.len() == c,
            forall|j: int|
                0 <= j < c ==> (#[trigger] r@[j])@ == seq_tangents(view2(*all_displacements)[j]),
        decreases all_displacements@.len() - c,
    {
        r.push(compute_e_roof(&all_displacements[c]));
        c = c + 1;
    }
    r
}

/// The coil set and its preprocessed geometry fit together: one displacement
/// and one tangent sequence per coil, each covering every adjacent point
/// pair, and no coil is empty.
pub open spec fn geometry_wf(coils: Seq<Seq<Point>>, disps: Seq<Seq<Point>>, ers: Seq<Seq<Point>>) -> bool {
    &&& disps.len() == coils.len()
    &&& ers.len() == coils.len()
    &&& forall|c: int| 0 <= c < coils.len() ==> (#[trigger] coils[c]).len() >= 1
    &&& forall|c: int| 0 <= c < coils.len() ==> (#[trigger] disps[c]).len() >= coils[c].len() - 1
    &&& forall|c: int| 0 <= c < coils.len() ==> (#[trigger] ers[c]).len() >= coils[c].len() - 1
}

/// The Biot-Savart prefactor, (mu * current) / (4 * pi).
pub open spec fn spec_multiplier() -> u64 {
    spec_div(spec_mul(MIU, CURRENT), spec_mul(FOUR, PI))
}

/// One segment's contribution to the field at `particle`, folded onto the
/// running sum `b`: the closed-form line-integral weight of a straight finite
/// wire segment, crossed with the scaled tangent. Mind the sign convention:
/// the `y` component of the cross product enters the sum inverted; it is part
/// of the defined behavior, held in place by the tests' double-arithmetic
/// oracle.
pub open spec fn spec_segment_field(
    particle: Point,
    p_i: Point,
    p_i1: Point,
    disp: Point,
    tangent: Point,
    b: Point,
) -> Point {
    let rmi = spec_displacement(particle, p_i);
    let rmf = spec_displacement(particle, p_i1);
    let ux = spec_mul(spec_multiplier(), tangent.x);
    let uy = spec_mul(spec_multiplier(), tangent.y);
    let uz = spec_mul(spec_multiplier(), tangent.z);
    let dn = spec_norm(disp);
    let ni = spec_norm(rmi);
    let nf = spec_norm(rmf);
    let c = spec_mul(
        spec_div(spec_mul(spec_mul(TWO, dn), spec_add(ni, nf)), spec_mul(ni, nf)),
        spec_div(ONE, spec_sub(spec_mul(spec_add(ni, nf), spec_add(ni, nf)), spec_mul(dn, dn))),
    );
    let vx = spec_mul(rmi.x, c);
    let vy = spec_mul(rmi.y, c);
    let vz = spec_mul(rmi.z, c);
    Point {
        x: spec_add(b.x, spec_sub(spec_mul(uy, vz), spec_mul(uz, vy))),
        y: spec_sub(b.y, spec_sub(spec_mul(ux, vz), spec_mul(uz, vx))),
        z: spec_add(b.z, spec_sub(spec_mul(ux, vy), spec_mul(uy, vx))),
    }
}

/// The running field sum after folding in the segments of one coil from
/// index `i` on, starting from the accumulator `b`.
pub open spec fn spec_field_coil_from(
    particle: Point,
    coil: Seq<Point>,
    disp: Seq<Point>,
    er: Seq<Point>,
    b: Point,
    i: int,
) -> Point
    decreases coil.len() - i,
{
    if i < 0 || i >= coil.len() - 1 {
        b
    } else {
        spec_field_coil_from(
            particle,
            coil,
            disp,
            er,
            spec_segment_field(particle, coil[i], coil[i + 1], disp[i], er[i], b),
            i + 1,
        )
    }
}

/// The running field sum after folding in every segment of the coils from
/// index `c` on, starting from the accumulator `b`.
pub open spec fn spec_field_coils_from(
    particle: Point,
    coils: Seq<Seq<Point>>,
    disps: Seq<Seq<Point>>,
    ers: Seq<Seq<Point>>,
    b: Point,
    c: int,
) -> Point
    decreases coils.len() - c,
{
    if c < 0 || c >= coils.len() {
        b
    } else {
        spec_field_coils_from(
            particle,
            coils,
            disps,
            ers,
            spec_field_coil_from(particle, coils[c], disps[c], ers[c], b, 0),
            c + 1,
        )
    }
}

/// The net magnetic field at `particle`: the Biot-Savart sum over every
/// segment of every coil, folded in coil order and point order from zero.
pub open spec fn spec_magnetic_field(
    particle: Point,
    coils: Seq<Seq<Point>>,
    disps: Seq<Seq<Point>>,
    ers: Seq<Seq<Point>>,
) -> Point {
    spec_field_coils_from(particle, coils, disps, ers, Point { x: ZERO, y: ZERO, z: ZERO }, 0)
}

/// The net magnetic field at the particle's position, summed over every coil
/// segment in coil order and point order.
pub fn compute_magnetic_field(
    particle: &Point,
    coils: &Vec<Vec<Point>>,
    displacements: &Vec<Vec<Point>>,
    e_roof: &Vec<Vec<Point>>,
) -> (b: Point)
    requires
        geometry_wf(view2(*coils), view2(*displacements), view2(*e_roof)),
    ensures
        b == spec_magnetic_field(
            *particle,
            view2(*coils),
            view2(*displacements),
            view2(*e_roof),
        ),
{
    let ghost cs = view2(*coils);
    let ghost ds = view2(*displacements);
    let ghost es = view2(*e_roof);
    let multiplier = div_bits(mul_bits(MIU, CURRENT), mul_bits(FOUR, PI));
    let mut b = Point { x: ZERO, y: ZERO, z: ZERO };
    let mut c: usize = 0;
    while c < coils.len()
        invariant
            geometry_wf(cs, ds, es),
            cs == view2(*coils),
            ds == view2(*displacements),
            es == view2(*e_roof),
            cs.len() == coils@.len(),
            multiplier == spec_multiplier(),
            c <= coils@.len(),
            spec_field_coils_from(*particle, cs, ds, es, b, c as int) == spec_magnetic_field(
                *particle,
                cs,
                ds,
                es,
            ),
        decreases coils@.len() - c,
    {
        let coil = &coils[c];
        let n = coil.len();
        assert(coil@ == cs[c as int]);
        assert(n >= 1);
        let mut i: usize = 0;
        while i < n - 1
            invariant
                geometry_wf(cs, ds, es),
                cs == view2(*coils),
                ds == view2(*displacements),
                es == view2(*e_roof),
                cs.len() == coils@.len(),
                multiplier == spec_multiplier(),
                c < coils@.len(),
                coil == &coils[c as int],
                coil@ == cs[c as int],
                n == coil@.len(),
                1 <= n,
                i <= n - 1,
                spec_field_coils_from(
                    *particle,
                    cs,
                    ds,
                    es,
                    spec_field_coil_from(*particle, cs[c as int], ds[c as int], es[c as int], b, i as int),
                    c as int + 1,
                ) == spec_magnetic_field(*particle, cs, ds, es),
            decreases n - 1 - i,
        {
            let ghost b_old = b;
            let rmi = particle.get_displacement(&coil[i]);
            let rmf = particle.get_displacement(&coil[i + 1]);
            let t = &e_roof[c][i];
            let u = Point {
                x: mul_bits(multiplier, t.x),
                y: mul_bits(multiplier, t.y),
                z: mul_bits(multiplier, t.z),
            };
            let dnorm = displacements[c][i].get_norm();
            let ni = rmi.get_norm();
            let nf = rmf.get_norm();
            let sum = add_bits(ni, nf);
            let c1 = div_bits(mul_bits(mul_bits(TWO, dnorm), sum), mul_bits(ni, nf));
            let c2 = div_bits(ONE, sub_bits(mul_bits(sum, sum), mul_bits(dnorm, dnorm)));
            let cc = mul_bits(c1, c2);
            let v = Point {
                x: mul_bits(rmi.x, cc),
                y: mul_bits(rmi.y, cc),
                z: mul_bits(rmi.z, cc),
            };
            b = Point {
                x: add_bits(b.x, sub_bits(mul_bits(u.y, v.z), mul_bits(u.z, v.y))),
                y: sub_bits(b.y, sub_bits(mul_bits(u.x, v.z), mul_bits(u.z, v.x))),
                z: add_bits(b.z, sub_bits(mul_bits(u.x, v.y), mul_bits(u.y, v.x))),
            };
            proof {
                assert(b == spec_segment_field(
                    *particle,
                    cs[c as int][i as int],
                    cs[c as int][i as int + 1],
                    ds[c as int][i as int],
                    es[c as int][i as int],
                    b_old,
                ));
            }
            i = i + 1;
        }
        c = c + 1;
    }
    b
}

/// A field-evaluator output, renormalized to unit length and scaled by the
/// step size: each Runge-Kutta stage advances by exactly `h` along the
/// field's direction.
pub open spec fn spec_rk_scaled(kf: Point, h: u64) -> Point {
    let n = spec_norm(kf);
    Point {
        x: spec_mul(spec_div(kf.x, n), h),
        y: spec_mul(spec_div(kf.y, n), h),
        z: spec_mul(spec_div(kf.z, n), h),
    }
}

/// The midpoint probe `p + k / 2`.
pub open spec fn spec_half_advance(p: Point, k: Point) -> Point {
    Point {
        x: spec_add(spec_div(k.x, TWO), p.x),
        y: spec_add(spec_div(k.y, TWO), p.y),
        z: spec_add(spec_div(k.z, TWO), p.z),
    }
}

/// The endpoint probe `p + k`.
pub open spec fn spec_full_advance(p: Point, k: Point) -> Point {
    Point {
        x: spec_add(k.x, p.x),
        y: spec_add(k.y, p.y),
        z: spec_add(k.z, p.z),
    }
}

/// The Runge-Kutta combination `p + (k1 + 2 k2 + 2 k3 + k4) / 6`.
pub open spec fn spec_rk4_combine(p: Point, k1: Point, k2: Point, k3: Point, k4: Point) -> Point {
    Point {
        x: spec_add(
            p.x,
            spec_div(
                spec_add(
                    spec_add(spec_add(k1.x, spec_mul(TWO, k2.x)), spec_mul(TWO, k3.x)),
                    k4.x,
                ),
                SIX,
            ),
        ),
        y: spec_add(
            p.y,
            spec_div(
                spec_add(
                    spec_add(spec_add(k1.y, spec_mul(TWO, k2.y)), spec_mul(TWO, k3.y)),
                    k4.y,
                ),
                SIX,
            ),
        ),
        z: spec_add(
            p.z,
            spec_div(
                spec_add(
                    spec_add(spec_add(k1.z, spec_mul(TWO, k2.z)), spec_mul(TWO, k3.z)),
                    k4.z,
                ),
                SIX,
            ),
        ),
    }
}

/// The raw Runge-Kutta result of one step of size `h` from `p`, before the
/// containment check: four field evaluations, each renormalized and scaled.
pub open spec fn spec_step_result(
    p: Point,
    coils: Seq<Seq<Point>>,
    disps: Seq<Seq<Point>>,
    ers: Seq<Seq<Point>>,
    h: u64,
) -> Point {
    let k1 = spec_rk_scaled(spec_magnetic_field(p, coils, disps, ers), h);
    let p1 = spec_half_advance(p, k1);
    let k2 = spec_rk_scaled(spec_magnetic_field(p1, coils, disps, ers), h);
    let p2 = spec_half_advance(p, k2);
    let k3 = spec_rk_scaled(spec_magnetic_field(p2, coils, disps, ers), h);
    let p3 = spec_full_advance(p, k3);
    let k4 = spec_rk_scaled(spec_magnetic_field(p3, coils, disps, ers), h);
    spec_rk4_combine(p, k1, k2, k3, k4)
}

/// Whether a step result has left the confinement volume: its distance to
/// the projection of its (x, y) onto the major-radius circle exceeds the
/// minor radius.
pub open spec fn spec_diverged(result: Point) -> bool {
    let p = Point { x: result.x, y: result.y, z: ZERO };
    let pn = spec_norm(p);
    let origin = Point {
        x: spec_div(spec_mul(MAJOR_RADIUS, p.x), pn),
        y: spec_div(spec_mul(MAJOR_RADIUS, p.y), pn),
        z: ZERO,
    };
    spec_gt(spec_distance(result, origin), MINOR_RADIUS)
}

/// A particle is either active at a position or has left the confinement
/// volume; a diverged particle is frozen and never integrated again.
#[derive(Clone, Copy, Debug, PartialEq, Eq, Structural)]
pub enum ParticleState {
    Active(Point),
    Diverged,
}

/// One Runge-Kutta step from `p`: the raw result where the particle stays
/// confined, and the diverged state where it escapes.
pub open spec fn spec_simulate_step(
    p: Point,
    coils: Seq<Seq<Point>>,
    disps: Seq<Seq<Point>>,
    ers: Seq<Seq<Point>>,
    h: u64,
) -> ParticleState {
    let result = spec_step_result(p, coils, disps, ers, h);
    if spec_diverged(result) {
        ParticleState::Diverged
    } else {
        ParticleState::Active(result)
    }
}

/// Advances a particle at `particle` by one step of size `step_size`: a
/// classic RK4 sweep whose four stage vectors are each renormalized to unit
/// length before scaling, followed by the toroidal containment check.
pub fn simulate_step(
    particle: &Point,
    coils: &Vec<Vec<Point>>,
    displacements: &Vec<Vec<Point>>,
    e_roof: &Vec<Vec<Point>>,
    step_size: u64,
) -> (r: ParticleState)
    requires
        geometry_wf(view2(*coils), view2(*displacements), view2(*e_roof)),
    ensures
        r == spec_simulate_step(
            *particle,
            view2(*coils),
            view2(*displacements),
            view2(*e_roof),
            step_size,
        ),
{
    let k1f = compute_magnetic_field(particle, coils, displacements, e_roof);
    let k1 = rk_scaled(&k1f, step_size);
    let p1 = half_advance(particle, &k1);
    let k2f = compute_magnetic_field(&p1, coils, displacements, e_roof);
    let k2 = rk_scaled(&k2f, step_size);
    let p2 = half_advance(particle, &k2);
    let k3f = compute_magnetic_field(&p2, coils, displacements, e_roof);
    let k3 = rk_scaled(&k3f, step_size);
    let p3 = full_advance(particle, &k3);
    let k4f = compute_magnetic_field(&p3, coils, displacements, e_roof);
    let k4 = rk_scaled(&k4f, step_size);
    let result = rk4_combine(particle, &k1, &k2, &k3, &k4);
    let p = Point { x: result.x, y: result.y, z: ZERO };
    let pn = p.get_norm();
    let origin = Point {
        x: div_bits(mul_bits(MAJOR_RADIUS, p.x), pn),
        y: div_bits(mul_bits(MAJOR_RADIUS, p.y), pn),
        z: ZERO,
    };
    let distance = result.get_distance(&origin);
    if gt_bits(distance, MINOR_RADIUS) {
        ParticleState::Diverged
    } else {
        ParticleState::Active(result)
    }
}

/// Renormalizes a stage vector to unit length and scales it by `h`.
fn rk_scaled(kf: &Point, h: u64) -> (r: Point)
    ensures
        r == spec_rk_scaled(*kf, h),
{
    let n = kf.get_norm();
    Point {
        x: mul_bits(div_bits(kf.x, n), h),
        y: mul_bits(div_bits(kf.y, n), h),
        z: mul_bits(div_bits(kf.z, n), h),
    }
}

/// The midpoint probe `p + k / 2`.
fn half_advance(p: &Point, k: &Point) -> (r: Point)
    ensures
        r == spec_half_advance(*p, *k),
{
    Point {
        x: add_bits(div_bits(k.x, TWO), p.x),
        y: add_bits(div_bits(k.y, TWO), p.y),
        z: add_bits(div_bits(k.z, TWO), p.z),
    }
}

/// The endpoint probe `p + k`.
fn full_advance(p: &Point, k: &Point) -> (r: Point)
    ensures
        r == spec_full_advance(*p, *k),
{
    Point {
        x: add_bits(k.x, p.x),
        y: add_bits(k.y, p.y),
        z: add_bits(k.z, p.z),
    }
}

/// The sentinel position that stands for a diverged particle in tabular
/// output: the minor radius in all three coordinates.
pub open spec fn sentinel() -> Point {
    Point { x: MINOR_RADIUS, y: MINOR_RADIUS, z: MINOR_RADIUS }
}

/// The position a particle state shows in a snapshot: its position while
/// active, the sentinel once diverged.
pub open spec fn spec_render_state(s: ParticleState) -> Point {
    match s {
        ParticleState::Active(p) => p,
        ParticleState::Diverged => sentinel(),
    }
}

/// The snapshot row of every particle, in particle order.
pub open spec fn spec_render_all(states: Seq<ParticleState>) -> Seq<Point> {
    Seq::new(states.len(), |i: int| spec_render_state(states[i]))
}

/// One step of one particle: a diverged particle stays diverged, an active
/// one takes a Runge-Kutta step.
pub open spec fn spec_advance_state(
    s: ParticleState,
    coils: Seq<Seq<Point>>,
    disps: Seq<Seq<Point>>,
    ers: Seq<Seq<Point>>,
    h: u64,
) -> ParticleState {
    match s {
        ParticleState::Diverged => ParticleState::Diverged,
        ParticleState::Active(p) => spec_simulate_step(p, coils, disps, ers, h),
    }
}

/// One step of every particle, in particle order.
pub open spec fn spec_advance_all(
    states: Seq<ParticleState>,
    coils: Seq<Seq<Point>>,
    disps: Seq<Seq<Point>>,
    ers: Seq<Seq<Point>>,
    h: u64,
) -> Seq<ParticleState> {
    Seq::new(states.len(), |i: int| spec_advance_state(states[i], coils, disps, ers, h))
}

/// The particle states after `t` steps from `init`.
pub open spec fn spec_states_at(
    init: Seq<ParticleState>,
    t: int,
    coils: Seq<Seq<Point>>,
    disps: Seq<Seq<Point>>,
    ers: Seq<Seq<Point>>,
    h: u64,
) -> Seq<ParticleState>
    decreases t,
{
    if t <= 0 {
        init
    } else {
        spec_advance_all(spec_states_at(init, t - 1, coils, disps, ers, h), coils, disps, ers, h)
    }
}

/// The snapshots of a run of `total` steps with write frequency `f`: one per
/// step in `{0, f, 2f, ...}` up to `total`, each the step index paired with
/// the rendered particle rows at that step.
pub open spec fn spec_snapshots(
    init: Seq<ParticleState>,
    total: int,
    f: int,
    coils: Seq<Seq<Point>>,
    disps: Seq<Seq<Point>>,
    ers: Seq<Seq<Point>>,
    h: u64,
) -> Seq<(int, Seq<Point>)> {
    Seq::new(
        (total / f + 1) as nat,
        |j: int| (j * f, spec_render_all(spec_states_at(init, j * f, coils, disps, ers, h))),
    )
}

/// One snapshot handed to the output collaborator: the step index and one
/// row per particle, in particle order.
#[derive(Debug)]
pub struct Snapshot {
    pub step: u32,
    pub points: Vec<Point>,
}

/// The mathematical content of a snapshot sequence: step indices paired with
/// row sequences.
pub open spec fn snaps_view(snaps: Seq<Snapshot>) -> Seq<(int, Seq<Point>)> {
    Seq::new(snaps.len(), |j: int| (snaps[j].step as int, snaps[j].points@))
}

/// The snapshot row of every particle, in particle order: a diverged
/// particle shows the sentinel position.
pub fn render_points(particles: &Vec<ParticleState>) -> (r: Vec<Point>)
    ensures
        r@ == spec_render_all(particles@),
{
    let mut r: Vec<Point> = Vec::new();
    let mut i: usize = 0;
    while i < particles.len()
        invariant
            i <= particles@.len(),
            r@.len() == i,
            forall|j: int| 0 <= j < i ==> r@[j] == spec_render_state(particles@[j]),
        decreases particles@.len() - i,
    {
        match particles[i] {
            ParticleState::Active(p) => r.push(p),
            ParticleState::Diverged => r.push(
                Point { x: MINOR_RADIUS, y: MINOR_RADIUS, z: MINOR_RADIUS },
            ),
        }
        i = i + 1;
    }
    assert(r@ =~= spec_render_all(particles@));
    r
}

/// Advances every particle by one step, in particle order: an active
/// particle takes a Runge-Kutta step, a diverged one is left untouched.
pub fn advance_particles(
    particles: &mut Vec<ParticleState>,
    coils: &Vec<Vec<Point>>,
    displacements: &Vec<Vec<Point>>,
    e_roof: &Vec<Vec<Point>>,
    step_size: u64,
)
    requires
        geometry_wf(view2(*coils), view2(*displacements), view2(*e_roof)),
    ensures
        final(particles)@ == spec_advance_all(
            old(particles)@,
            view2(*coils),
            view2(*displacements),
            view2(*e_roof),
            step_size,
        ),
{
    let ghost cs = view2(*coils);
    let ghost ds = view2(*displacements);
    let ghost es = view2(*e_roof);
    let n = particles.len();
    let mut i: usize = 0;
    while i < n
        invariant
            geometry_wf(cs, ds, es),
            cs == view2(*coils),
            ds == view2(*displacements),
            es == view2(*e_roof),
            n == old(particles)@.len(),
            particles@.len() == n,
            i <= n,
            forall|j: int|
                0 <= j < i ==> particles@[j] == spec_advance_state(
                    old(particles)@[j],
                    cs,
                    ds,
                    es,
                    step_size,
                ),
            forall|j: int| i <= j < n ==> particles@[j] == old(particles)@[j],
        decreases n - i,
    {
        match particles[i] {
            ParticleState::Diverged => {},
            ParticleState::Active(p) => {
                let ns = simulate_step(&p, coils, displacements, e_roof, step_size);
                particles.set(i, ns);
            },
        }
        i = i + 1;
    }
    assert(particles@ =~= spec_advance_all(old(particles)@, cs, ds, es, step_size));
}

/// How the snapshot count changes from one step to the next: it grows by one
/// exactly on the steps the write frequency divides.
proof fn lemma_cadence(s: int, f: int)
    requires
        1 <= f,
        1 <= s,
    ensures
        s % f == 0 ==> s / f == (s - 1) / f + 1 && s == (s / f) * f,
        s % f != 0 ==> s / f == (s - 1) / f,
{
    vstd::arithmetic::div_mod::lemma_fundamental_div_mod(s, f);
    let q = s / f;
    let r = s % f;
    assert(s == f * q + r);
    if r == 0 {
        assert(q >= 1) by (nonlinear_arith)
            requires
                s == f * q + r,
                r == 0,
                s >= 1,
                f >= 1,
        ;
        assert(s - 1 == (q - 1) * f + (f - 1)) by (nonlinear_arith)
            requires
                s == f * q + r,
                r == 0,
        ;
        vstd::arithmetic::div_mod::lemma_fundamental_div_mod_converse(s - 1, f, q - 1, f - 1);
        assert(s == q * f) by (nonlinear_arith)
            requires
                s == f * q + r,
                r == 0,
        ;
    } else {
        assert(s - 1 == q * f + (r - 1)) by (nonlinear_arith)
            requires
                s == f * q + r,
        ;
        vstd::arithmetic::div_mod::lemma_fundamental_div_mod_converse(s - 1, f, q, r - 1);
    }
}

/// Runs the whole simulation: `total_steps` Runge-Kutta steps of size
/// `step_size` over every particle, freezing a particle once it diverges,
/// and collecting a snapshot of every particle at step 0 and at every step
/// the write frequency divides, in step order.
pub fn simulate_particles(
    particles: &mut Vec<ParticleState>,
    total_steps: u32,
    step_size: u64,
    coils: &Vec<Vec<Point>>,
    displacements: &Vec<Vec<Point>>,
    e_roof: &Vec<Vec<Point>>,
    write_frequency: u32,
) -> (snaps: Vec<Snapshot>)
    requires
        geometry_wf(view2(*coils), view2(*displacements), view2(*e_roof)),
        write_frequency >= 1,
        total_steps < u32::MAX,
    ensures
        final(particles)@ == spec_states_at(
            old(particles)@,
            total_steps as int,
            view2(*coils),
            view2(*displacements),
            view2(*e_roof),
            step_size,
        ),
        snaps_view(snaps@) == spec_snapshots(
            old(particles)@,
            total_steps as int,
            write_frequency as int,
            view2(*coils),
            view2(*displacements),
            view2(*e_roof),
            step_size,
        ),
        snaps@.len() == total_steps as int / write_frequency as int + 1,
{
    let ghost cs = view2(*coils);
    let ghost ds = view2(*displacements);
    let ghost es = view2(*e_roof);
    let ghost init = particles@;
    let ghost f = write_frequency as int;
    let mut snaps: Vec<Snapshot> = Vec::new();
    let first = render_points(particles);
    snaps.push(Snapshot { step: 0, points: first });
    proof {
        vstd::arithmetic::div_mod::lemma_div_basics(f);
        let rhs = spec_snapshots(init, 0, f, cs, ds, es, step_size);
        assert(spec_states_at(init, 0, cs, ds, es, step_size) == init);
        assert(rhs[0].1 == spec_render_all(init));
        assert(snaps_view(snaps@) =~= rhs);
    }
    let mut step: u32 = 1;
    while step <= total_steps
        invariant
            geometry_wf(cs, ds, es),
            cs == view2(*coils),
            ds == view2(*displacements),
            es == view2(*e_roof),
            init == old(particles)@,
            f == write_frequency as int,
            1 <= f,
            total_steps < u32::MAX,
            1 <= step <= total_steps + 1,
            particles@ == spec_states_at(init, step as int - 1, cs, ds, es, step_size),
            snaps@.len() == (step as int - 1) / f + 1,
            snaps_view(snaps@) == spec_snapshots(init, step as int - 1, f, cs, ds, es, step_size),
        decreases total_steps + 1 - step,
    {
        let ghost s = step as int;
        advance_particles(particles, coils, displacements, e_roof, step_size);
        proof {
            lemma_cadence(s, f);
            vstd::arithmetic::div_mod::lemma_div_pos_is_pos(s - 1, f);
            assert(particles@ == spec_states_at(init, s, cs, ds, es, step_size));
        }
        let ghost old_snaps = snaps@;
        let ghost prev = spec_snapshots(init, s - 1, f, cs, ds, es, step_size);
        let ghost cur = spec_snapshots(init, s, f, cs, ds, es, step_size);
        if step % write_frequency == 0 {
            let rows = render_points(particles);
            snaps.push(Snapshot { step, points: rows });
            proof {
                assert(snaps_view(old_snaps) == prev);
                assert(cur.len() == prev.len() + 1);
                assert(s == (s / f) * f);
                assert forall|j: int| 0 <= j < cur.len() implies snaps_view(snaps@)[j] == cur[j] by {
                    if j < prev.len() {
                        assert(snaps_view(snaps@)[j] == snaps_view(old_snaps)[j]);
                        assert(cur[j] == prev[j]);
                    } else {
                        assert(j == s / f);
                        assert(j * f == s) by (nonlinear_arith)
                            requires
                                j == s / f,
                                s == (s / f) * f,
                        ;
                        assert(snaps@[j].step as int == s);
                        assert(snaps@[j].points@ == spec_render_all(
                            spec_states_at(init, s, cs, ds, es, step_size),
                        ));
                        assert(cur[j] == (
                            j * f,
                            spec_render_all(spec_states_at(init, j * f, cs, ds, es, step_size)),
                        ));
                    }
                }
                assert(snaps_view(snaps@) =~= cur);
            }
        } else {
            proof {
                assert(snaps_view(old_snaps) == prev);
                assert(cur.len() == prev.len());
                assert forall|j: int| 0 <= j < cur.len() implies snaps_view(snaps@)[j] == cur[j] by {
                    assert(cur[j] == prev[j]);
                }
                assert(snaps_view(snaps@) =~= cur);
            }
        }
        step = step + 1;
    }
    snaps
}

/// The geometry preprocessor's output lengths: a coil of n points yields
/// exactly n - 1 displacement vectors and n - 1 unit tangents.
pub proof fn lemma_geometry_lengths(coil: Seq<Point>)
    requires
        coil.len() >= 1,
    ensures
        seq_displacements(coil).len() == coil.len() - 1,
        seq_tangents(seq_displacements(coil)).len() == coil.len() - 1,
{
}

/// The preprocessor's output is exactly the geometry the field evaluator
/// asks for: over a coil set without empty coils, the displacement and
/// tangent sequences cover every adjacent point pair.
pub proof fn lemma_preprocessed_geometry_wf(
    coils: Seq<Seq<Point>>,
    disps: Seq<Seq<Point>>,
    ers: Seq<Seq<Point>>,
)
    requires
        disps.len() == coils.len(),
        ers.len() == coils.len(),
        forall|c: int| 0 <= c < coils.len() ==> (#[trigger] coils[c]).len() >= 1,
        forall|c: int| 0 <= c < coils.len() ==> (#[trigger] disps[c]) == seq_displacements(coils[c]),
        forall|c: int| 0 <= c < coils.len() ==> (#[trigger] ers[c]) == seq_tangents(disps[c]),
    ensures
        geometry_wf(coils, disps, ers),
{
}

/// The particle count invariant: stepping never adds or removes a particle,
/// so after any number of steps the state sequence has the initial length.
pub proof fn lemma_particle_count(
    init: Seq<ParticleState>,
    t: int,
    coils: Seq<Seq<Point>>,
    disps: Seq<Seq<Point>>,
    ers: Seq<Seq<Point>>,
    h: u64,
)
    ensures
        spec_states_at(init, t, coils, disps, ers, h).len() == init.len(),
    decreases t,
{
    if t > 0 {
        lemma_particle_count(init, t - 1, coils, disps, ers, h);
    }
}

/// The divergence freeze: a particle diverged after `t1` steps is still
/// diverged after any `t2 >= t1` steps, and every snapshot taken from then
/// on shows the sentinel position in its row.
pub proof fn lemma_divergence_freeze(
    init: Seq<ParticleState>,
    i: int,
    t1: int,
    t2: int,
    coils: Seq<Seq<Point>>,
    disps: Seq<Seq<Point>>,
    ers: Seq<Seq<Point>>,
    h: u64,
)
    requires
        0 <= i < init.len(),
        0 <= t1 <= t2,
        spec_states_at(init, t1, coils, disps, ers, h)[i] is Diverged,
    ensures
        spec_states_at(init, t2, coils, disps, ers, h)[i] is Diverged,
        spec_render_all(spec_states_at(init, t2, coils, disps, ers, h))[i] == sentinel(),
    decreases t2 - t1,
{
    lemma_particle_count(init, t2, coils, disps, ers, h);
    if t2 > t1 {
        lemma_divergence_freeze(init, i, t1, t2 - 1, coils, disps, ers, h);
        lemma_particle_count(init, t2 - 1, coils, disps, ers, h);
    }
}

/// Determinism: two snapshot sequences produced from the same initial
/// particles, coil geometry, step size and write frequency are equal, row
/// for row -- the run is a function of its inputs alone.
pub proof fn lemma_run_deterministic(
    a: Seq<Snapshot>,
    b: Seq<Snapshot>,
    init: Seq<ParticleState>,
    total: int,
    f: int,
    coils: Seq<Seq<Point>>,
    disps: Seq<Seq<Point>>,
    ers: Seq<Seq<Point>>,
    h: u64,
)
    requires
        snaps_view(a) == spec_snapshots(init, total, f, coils, disps, ers, h),
        snaps_view(b) == spec_snapshots(init, total, f, coils, disps, ers, h),
    ensures
        a.len() == b.len(),
        forall|j: int|
            0 <= j < a.len() ==> #[trigger] a[j].step == b[j].step && a[j].points@ == b[j].points@,
{
    assert(snaps_view(a).len() == a.len());
    assert(snaps_view(b).len() == b.len());
    assert forall|j: int|
        0 <= j < a.len() implies #[trigger] a[j].step == b[j].step && a[j].points@
        == b[j].points@ by {
        assert(snaps_view(a)[j] == snaps_view(b)[j]);
        assert(snaps_view(a)[j].0 == a[j].step as int);
        assert(snaps_view(a)[j].1 == a[j].points@);
    }
}

/// The Runge-Kutta combination `p + (k1 + 2 k2 + 2 k3 + k4) / 6`.
fn rk4_combine(p: &Point, k1: &Point, k2: &Point, k3: &Point, k4: &Point) -> (r: Point)
    ensures
        r == spec_rk4_combine(*p, *k1, *k2, *k3, *k4),
{
    Point {
        x: add_bits(
            p.x,
            div_bits(
                add_bits(
                    add_bits(add_bits(k1.x, mul_bits(TWO, k2.x)), mul_bits(TWO, k3.x)),
                    k4.x,
                ),
                SIX,
            ),
        ),
        y: add_bits(
            p.y,
            div_bits(
                add_bits(
                    add_bits(add_bits(k1.y, mul_bits(TWO, k2.y)), mul_bits(TWO, k3.y)),
                    k4.y,
                ),
                SIX,
            ),
        ),
        z: add_bits(
            p.z,
            div_bits(
                add_bits(
                    add_bits(add_bits(k1.z, mul_bits(TWO, k2.z)), mul_bits(TWO, k3.z)),
                    k4.z,
                ),
                SIX,
            ),
        ),
    }
}

} // verus!
