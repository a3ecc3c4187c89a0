use bs_solctra_rs::constants::MINOR_RADIUS;
use bs_solctra_rs::point::Point;
use bs_solctra_rs::simulation::{
    compute_all_displacements, compute_all_e_roof, compute_magnetic_field, simulate_particles,
    simulate_step, ParticleState,
};

const R_MAJOR: f64 = 0.2381;
const R_MINOR: f64 = 0.0944165;
const MU: f64 = 1.2566e-06;
const COIL_CURRENT: f64 = -4350.0;

fn pt(x: f64, y: f64, z: f64) -> Point {
    Point { x: x.to_bits(), y: y.to_bits(), z: z.to_bits() }
}

fn fx(p: &Point) -> (f64, f64, f64) {
    (f64::from_bits(p.x), f64::from_bits(p.y), f64::from_bits(p.z))
}

/// A ring of `n` segments with radius `r`, centred at `c`, spanned by the
/// orthonormal pair (`a`, `b`); `n + 1` points, the last closing the loop.
fn ring(c: [f64; 3], a: [f64; 3], b: [f64; 3], r: f64, n: usize) -> Vec<Point> {
    let mut points = Vec::new();
    for k in 0..=n {
        let t = 2.0 * std::f64::consts::PI * (k % n) as f64 / n as f64;
        let (ct, st) = (t.cos(), t.sin());
        points.push(pt(
            c[0] + r * (ct * a[0] + st * b[0]),
            c[1] + r * (ct * a[1] + st * b[1]),
            c[2] + r * (ct * a[2] + st * b[2]),
        ));
    }
    points
}

/// A small toroidal coil set: rings wrapped around the major-radius circle.
fn toroidal_coils() -> Vec<Vec<Point>> {
    let mut coils = Vec::new();
    for k in 0..4 {
        let phi = 2.0 * std::f64::consts::PI * k as f64 / 4.0;
        let (cp, sp) = (phi.cos(), phi.sin());
        coils.push(ring(
            [R_MAJOR * cp, R_MAJOR * sp, 0.0],
            [cp, sp, 0.0],
            [0.0, 0.0, 1.0],
            0.07,
            16,
        ));
    }
    coils
}

// A plain f64 model of the same algorithm, used as an oracle: the library
// computes on IEEE-754 doubles carried as bits, so its results must agree
// with hardware double arithmetic bit for bit.

fn ref_norm(p: (f64, f64, f64)) -> f64 {
    (p.0 * p.0 + p.1 * p.1 + p.2 * p.2).sqrt()
}

fn ref_field(
    particle: (f64, f64, f64),
    coils: &[Vec<(f64, f64, f64)>],
    disps: &[Vec<(f64, f64, f64)>],
    e_roof: &[Vec<(f64, f64, f64)>],
) -> (f64, f64, f64) {
    let multiplier = (MU * COIL_CURRENT) / (4.0 * std::f64::consts::PI);
    let mut b = (0.0f64, 0.0f64, 0.0f64);
    for c in 0..coils.len() {
        for i in 0..coils[c].len() - 1 {
            let p0 = coils[c][i];
            let p1 = coils[c][i + 1];
            let rmi = (particle.0 - p0.0, particle.1 - p0.1, particle.2 - p0.2);
            let rmf = (particle.0 - p1.0, particle.1 - p1.1, particle.2 - p1.2);
            let t = e_roof[c][i];
            let u = (multiplier * t.0, multiplier * t.1, multiplier * t.2);
            let dn = ref_norm(disps[c][i]);
            let ni = ref_norm(rmi);
            let nf = ref_norm(rmf);
            let cc = ((2.0 * dn * (ni + nf)) / (ni * nf))
                * ((1.0) / ((ni + nf) * (ni + nf) - dn * dn));
            let v = (rmi.0 * cc, rmi.1 * cc, rmi.2 * cc);
            b.0 = b.0 + ((u.1 * v.2) - (u.2 * v.1));
            b.1 = b.1 - ((u.0 * v.2) - (u.2 * v.0));
            b.2 = b.2 + ((u.0 * v.1) - (u.1 * v.0));
        }
    }
    b
}

fn ref_step(
    particle: (f64, f64, f64),
    coils: &[Vec<(f64, f64, f64)>],
    disps: &[Vec<(f64, f64, f64)>],
    e_roof: &[Vec<(f64, f64, f64)>],
    h: f64,
) -> ((f64, f64, f64), bool) {
    let scale = |k: (f64, f64, f64)| {
        let n = ref_norm(k);
        ((k.0 / n) * h, (k.1 / n) * h, (k.2 / n) * h)
    };
    let k1 = scale(ref_field(particle, coils, disps, e_roof));
    let p1 = (k1.0 / 2.0 + particle.0, k1.1 / 2.0 + particle.1, k1.2 / 2.0 + particle.2);
    let k2 = scale(ref_field(p1, coils, disps, e_roof));
    let p2 = (k2.0 / 2.0 + particle.0, k2.1 / 2.0 + particle.1, k2.2 / 2.0 + particle.2);
    let k3 = scale(ref_field(p2, coils, disps, e_roof));
    let p3 = (k3.0 + particle.0, k3.1 + particle.1, k3.2 + particle.2);
    let k4 = scale(ref_field(p3, coils, disps, e_roof));
    let result = (
        particle.0 + (k1.0 + 2.0 * k2.0 + 2.0 * k3.0 + k4.0) / 6.0,
        particle.1 + (k1.1 + 2.0 * k2.1 + 2.0 * k3.1 + k4.1) / 6.0,
        particle.2 + (k1.2 + 2.0 * k2.2 + 2.0 * k3.2 + k4.2) / 6.0,
    );
    let p = (result.0, result.1, 0.0);
    let origin = (
        R_MAJOR * p.0 / ref_norm(p),
        R_MAJOR * p.1 / ref_norm(p),
        0.0,
    );
    let d = (result.0 - origin.0, result.1 - origin.1, result.2 - origin.2);
    let distance = (d.0 * d.0 + d.1 * d.1 + d.2 * d.2).sqrt();
    (result, distance > R_MINOR)
}

fn as_f64_coils(coils: &[Vec<Point>]) -> Vec<Vec<(f64, f64, f64)>> {
    coils.iter().map(|c| c.iter().map(fx).collect()).collect()
}

#[test]
fn geometry_lengths_and_tangent_norms() {
    let coils = toroidal_coils();
    let disps = compute_all_displacements(&coils);
    let tangents = compute_all_e_roof(&disps);
    assert_eq!(disps.len(), coils.len());
    assert_eq!(tangents.len(), coils.len());
    for c in 0..coils.len() {
        assert_eq!(disps[c].len(), coils[c].len() - 1);
        assert_eq!(tangents[c].len(), coils[c].len() - 1);
        for t in &tangents[c] {
            let n = ref_norm(fx(t));
            assert!((n - 1.0).abs() < 1e-9, "tangent norm {n} is not unit");
        }
    }
}

#[test]
fn field_cancels_at_centre_of_symmetric_coil() {
    let coil = ring([0.0, 0.0, 0.0], [1.0, 0.0, 0.0], [0.0, 1.0, 0.0], 0.3, 64);
    let coils = vec![coil];
    let disps = compute_all_displacements(&coils);
    let tangents = compute_all_e_roof(&disps);
    let b = compute_magnetic_field(&pt(0.0, 0.0, 0.0), &coils, &disps, &tangents);
    let (bx, by, bz) = fx(&b);
    assert!(bx.abs() < 1e-12, "planar field component x = {bx}");
    assert!(by.abs() < 1e-12, "planar field component y = {by}");
    assert!(bz.abs() > 1e-6, "axial field component z = {bz} vanished");
}

#[test]
fn field_matches_double_arithmetic() {
    let coils = toroidal_coils();
    let disps = compute_all_displacements(&coils);
    let tangents = compute_all_e_roof(&disps);
    let fc = as_f64_coils(&coils);
    let fd = as_f64_coils(&disps);
    let ft = as_f64_coils(&tangents);
    for probe in [(0.14557183, 0.0, 0.0), (0.2381, 0.0, 0.01), (0.0, 0.25, -0.02)] {
        let b = compute_magnetic_field(
            &pt(probe.0, probe.1, probe.2),
            &coils,
            &disps,
            &tangents,
        );
        let want = ref_field(probe, &fc, &fd, &ft);
        assert_eq!(b.x, want.0.to_bits());
        assert_eq!(b.y, want.1.to_bits());
        assert_eq!(b.z, want.2.to_bits());
    }
}

#[test]
fn step_matches_double_arithmetic() {
    let coils = toroidal_coils();
    let disps = compute_all_displacements(&coils);
    let tangents = compute_all_e_roof(&disps);
    let fc = as_f64_coils(&coils);
    let fd = as_f64_coils(&disps);
    let ft = as_f64_coils(&tangents);
    let start = (0.14557183, 0.0, 0.0);
    let h = 0.01f64;
    let got = simulate_step(&pt(start.0, start.1, start.2), &coils, &disps, &tangents, h.to_bits());
    let (want, diverged) = ref_step(start, &fc, &fd, &ft, h);
    if diverged {
        assert_eq!(got, ParticleState::Diverged);
    } else {
        assert_eq!(got, ParticleState::Active(pt(want.0, want.1, want.2)));
    }
}

#[test]
fn snapshot_cadence_and_particle_count() {
    let coils = toroidal_coils();
    let disps = compute_all_displacements(&coils);
    let tangents = compute_all_e_roof(&disps);
    let mut particles = vec![
        ParticleState::Active(pt(0.2381, 0.0, 0.0)),
        ParticleState::Active(pt(0.22, 0.01, 0.0)),
    ];
    let snaps = simulate_particles(
        &mut particles,
        10,
        0.001f64.to_bits(),
        &coils,
        &disps,
        &tangents,
        3,
    );
    assert_eq!(particles.len(), 2);
    assert_eq!(snaps.len(), 4);
    let steps: Vec<u32> = snaps.iter().map(|s| s.step).collect();
    assert_eq!(steps, vec![0, 3, 6, 9]);
    for s in &snaps {
        assert_eq!(s.points.len(), 2);
    }
}

#[test]
fn divergent_particle_freezes_at_sentinel() {
    let coils = toroidal_coils();
    let disps = compute_all_displacements(&coils);
    let tangents = compute_all_e_roof(&disps);
    let mut particles = vec![ParticleState::Active(pt(10.0, 0.0, 0.0))];
    let snaps = simulate_particles(
        &mut particles,
        4,
        0.01f64.to_bits(),
        &coils,
        &disps,
        &tangents,
        1,
    );
    assert_eq!(particles[0], ParticleState::Diverged);
    assert_eq!(snaps.len(), 5);
    assert_eq!(snaps[0].points[0], pt(10.0, 0.0, 0.0));
    for s in &snaps[1..] {
        let row = &s.points[0];
        assert_eq!(row.x, MINOR_RADIUS);
        assert_eq!(row.y, MINOR_RADIUS);
        assert_eq!(row.z, MINOR_RADIUS);
    }
}

#[test]
fn identical_runs_give_identical_snapshots() {
    let coils = toroidal_coils();
    let disps = compute_all_displacements(&coils);
    let tangents = compute_all_e_roof(&disps);
    let start = vec![
        ParticleState::Active(pt(0.14557183, 0.0, 0.0)),
        ParticleState::Active(pt(0.2381, 0.0, 0.02)),
    ];
    let mut first = start.clone();
    let mut second = start.clone();
    let h = 0.001f64.to_bits();
    let a = simulate_particles(&mut first, 6, h, &coils, &disps, &tangents, 2);
    let b = simulate_particles(&mut second, 6, h, &coils, &disps, &tangents, 2);
    assert_eq!(first, second);
    assert_eq!(a.len(), b.len());
    for (sa, sb) in a.iter().zip(b.iter()) {
        assert_eq!(sa.step, sb.step);
        assert_eq!(sa.points, sb.points);
    }
}

#[test]
fn one_point_coil_has_no_segments() {
    let coils = vec![vec![pt(0.1, 0.2, 0.3)]];
    let disps = compute_all_displacements(&coils);
    let tangents = compute_all_e_roof(&disps);
    assert_eq!(disps[0].len(), 0);
    assert_eq!(tangents[0].len(), 0);
}

#[test]
fn empty_particle_set_still_snapshots() {
    let coils = toroidal_coils();
    let disps = compute_all_displacements(&coils);
    let tangents = compute_all_e_roof(&disps);
    let mut particles: Vec<ParticleState> = Vec::new();
    let snaps = simulate_particles(
        &mut particles,
        5,
        0.001f64.to_bits(),
        &coils,
        &disps,
        &tangents,
        2,
    );
    assert_eq!(particles.len(), 0);
    let steps: Vec<u32> = snaps.iter().map(|s| s.step).collect();
    assert_eq!(steps, vec![0, 2, 4]);
    for s in &snaps {
        assert_eq!(s.points.len(), 0);
    }
}
