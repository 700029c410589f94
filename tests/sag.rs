use fibre_sim::chain::State;

#[derive(Clone, Copy, Debug, PartialEq)]
struct Particle {
    x: f64,
    y: f64,
    vx: f64,
    vy: f64,
    m: f64,
}

fn particle(x: f64, y: f64) -> Particle {
    Particle { x, y, vx: 0.0, vy: 0.0, m: 1.0 }
}

/// Spring pull of `other` on `p` with constant `k` and rest length `x0`.
fn pull(p: &Particle, other: &Particle, k: f64, x0: f64) -> (f64, f64) {
    let (dx, dy) = (other.x - p.x, other.y - p.y);
    let dist = (dx * dx + dy * dy).sqrt();
    if dist == 0.0 {
        return (0.0, 0.0);
    }
    let s = k * (dist - x0) / dist;
    (s * dx, s * dy)
}

fn chain(xs: &[f64]) -> State<Particle, (f64, f64)> {
    let nodes: Vec<Particle> = xs.iter().map(|&x| particle(x, 0.0)).collect();
    State::new(nodes, (0.0, 0.0)).unwrap()
}

fn step(s: &mut State<Particle, (f64, f64)>, k: f64, x0: f64, g: f64, c: f64, dt: f64) {
    let spring = |a: &Particle, b: &Particle| pull(a, b, k, x0);
    let load = |l: &(f64, f64), r: &(f64, f64), p: &Particle| {
        (r.0 - l.0 - c * p.vx, r.1 - l.1 - p.m * g - c * p.vy)
    };
    let integrate = |p: &Particle, f: &(f64, f64)| {
        let vx = p.vx + f.0 / p.m * dt;
        let vy = p.vy + f.1 / p.m * dt;
        let q = Particle { x: p.x + vx * dt, y: p.y + vy * dt, vx, vy, m: p.m };
        if q.x.is_finite() && q.y.is_finite() && vx.is_finite() && vy.is_finite() {
            Some(q)
        } else {
            None
        }
    };
    s.step(spring, load, integrate).unwrap();
}

#[test]
fn displaced_interior_node_moves_toward_centre() {
    let mut s = chain(&[-1.0, 0.5, 1.0]);
    step(&mut s, 1.0, 0.0, 0.0, 0.0, 0.01);
    let x = s.nodes()[1].x;
    assert!(x < 0.5 && x > 0.0);
    assert_eq!(s.nodes()[1].y, 0.0);
}

#[test]
fn centred_interior_node_stays_put() {
    let mut s = chain(&[-1.0, 0.0, 1.0]);
    step(&mut s, 1.0, 0.0, 0.0, 0.0, 0.01);
    assert_eq!(s.nodes()[1], particle(0.0, 0.0));
}

#[test]
fn anchors_are_bit_identical_under_gravity() {
    let mut s = chain(&[-2.0, -1.0, 0.0, 1.0, 2.0]);
    let first = s.nodes()[0];
    let last = s.nodes()[4];
    for _ in 0..200 {
        step(&mut s, 50.0, 1.0, 9.81, 0.1, 0.001);
    }
    assert_eq!(s.nodes()[0], first);
    assert_eq!(s.nodes()[4], last);
    assert!(s.nodes()[2].y < 0.0);
}

#[test]
fn two_nodes_at_rest_length_stay_in_equilibrium() {
    let mut s = chain(&[0.0, 1.0]);
    for _ in 0..100 {
        step(&mut s, 3.0, 1.0, 0.0, 0.0, 0.01);
    }
    assert_eq!(s.nodes()[0], particle(0.0, 0.0));
    assert_eq!(s.nodes()[1], particle(1.0, 0.0));
    assert_eq!(s.tensions(), &vec![(0.0, 0.0)]);
}

#[test]
fn spring_pulls_are_exact_opposites() {
    let mut s = chain(&[-1.0, 0.3, 1.0]);
    step(&mut s, 2.5, 0.1, 0.0, 0.0, 0.01);
    let before = chain(&[-1.0, 0.3, 1.0]);
    let (a, b) = (&before.nodes()[0], &before.nodes()[1]);
    let t = s.tensions()[0];
    assert_eq!(t, pull(a, b, 2.5, 0.1));
    assert_eq!((-t.0, -t.1), pull(b, a, 2.5, 0.1));
}
