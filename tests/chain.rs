use fibre_sim::chain::{straight_node_count, ChainError, State};

/// A unit spring of zero rest length: its pull on the first node.
fn pull(a: &i64, b: &i64) -> i64 {
    b - a
}

/// The right spring pulls forward; the left one's reaction pulls back.
fn net(left: &i64, right: &i64, _: &i64) -> i64 {
    right - left
}

fn half_net(left: &i64, right: &i64, _: &i64) -> i64 {
    (right - left) / 2
}

fn shift(n: &i64, f: &i64) -> Option<i64> {
    n.checked_add(*f)
}

#[test]
fn new_rejects_single_node() {
    let r = State::<i64, i64>::new(vec![5], 0);
    assert!(matches!(r, Err(ChainError::InvalidTopology)));
}

#[test]
fn new_rejects_empty_chain() {
    let r = State::<i64, i64>::new(vec![], 0);
    assert!(matches!(r, Err(ChainError::InvalidTopology)));
}

#[test]
fn anchor_forces_are_the_zero_force_after_every_step() {
    // Any value may serve as the zero force; the anchors' entries are reset to it each step.
    let mut s = State::new(vec![0i64, 10, 30, 40], -99).unwrap();
    assert_eq!(s.forces(), &vec![-99, -99, -99, -99]);
    for _ in 0..3 {
        s.step(pull, net, shift).unwrap();
        assert_eq!(s.forces()[0], -99);
        assert_eq!(s.forces()[3], -99);
    }
}

#[test]
fn new_keeps_nodes_and_forces() {
    let s = State::new(vec![1i64, 2, 3], 0i64).unwrap();
    assert_eq!(s.nodes(), &vec![1, 2, 3]);
    assert_eq!(s.forces(), &vec![0, 0, 0]);
    assert!(s.tensions().is_empty());
    assert_eq!(s.spring_count(), 2);
}

#[test]
fn step_reads_only_previous_state() {
    let mut s = State::new(vec![0i64, 10, 30, 40], 0i64).unwrap();
    assert_eq!(s.step(pull, net, shift), Ok(()));
    // Node 2 sees node 1 as it was before the step (10), not its new value.
    assert_eq!(s.tensions(), &vec![10, 20, 10]);
    assert_eq!(s.forces(), &vec![0, 10, -10, 0]);
    assert_eq!(s.nodes(), &vec![0, 20, 20, 40]);
}

#[test]
fn anchors_stay_over_many_steps() {
    let mut s = State::new(vec![-7i64, 3, 100, -4, 12], 0i64).unwrap();
    for _ in 0..50 {
        s.step(pull, half_net, shift).unwrap();
        assert_eq!(s.nodes()[0], -7);
        assert_eq!(s.nodes()[4], 12);
        assert_eq!(s.nodes().len(), 5);
    }
}

#[test]
fn two_node_chain_never_moves() {
    let mut s = State::new(vec![-3i64, 9], 0i64).unwrap();
    for _ in 0..10 {
        s.step(pull, net, shift).unwrap();
    }
    assert_eq!(s.nodes(), &vec![-3, 9]);
    assert_eq!(s.forces(), &vec![0, 0]);
    assert_eq!(s.tensions(), &vec![12]);
}

#[test]
fn divergence_fails_and_keeps_nodes() {
    let mut s = State::new(vec![0i64, i64::MAX - 1, 0], 0i64).unwrap();
    // Adding the force to the middle node overflows.
    let r = s.step(pull, |_: &i64, _: &i64, _: &i64| i64::MAX, shift);
    assert_eq!(r, Err(ChainError::NumericalDivergence));
    assert_eq!(s.nodes(), &vec![0, i64::MAX - 1, 0]);
    assert_eq!(s.forces(), &vec![0, i64::MAX, 0]);
}

#[test]
fn each_spring_tension_is_shared_by_its_two_nodes() {
    let mut s = State::new(vec![0i64, 4, 5, 11, 20], 0i64).unwrap();
    let calls = std::cell::Cell::new(0);
    let counted = |a: &i64, b: &i64| {
        calls.set(calls.get() + 1);
        b - a
    };
    s.step(counted, net, shift).unwrap();
    // One evaluation per spring, not two.
    assert_eq!(calls.get(), 4);
    assert_eq!(s.tensions(), &vec![4, 1, 6, 9]);
    assert_eq!(s.forces(), &vec![0, -3, 5, 3, 0]);
    assert_eq!(s.nodes(), &vec![0, 1, 10, 14, 20]);
}

#[test]
fn straight_layout_has_one_node_more_than_segments() {
    assert_eq!(straight_node_count(1), Ok(2));
    assert_eq!(straight_node_count(1000), Ok(1001));
    assert_eq!(straight_node_count(0), Err(ChainError::InvalidTopology));
    assert_eq!(straight_node_count(usize::MAX), Err(ChainError::InvalidTopology));
}
