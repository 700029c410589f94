use vstd::prelude::*;

verus! {

/// Why a chain cannot be built or advanced.
#[derive(Debug, Clone, Copy, PartialEq, Eq, Structural)]
pub enum ChainError {
    /// Fewer than two nodes: no spring can join them.
    InvalidTopology,
    /// A mass, spring constant or timestep outside its allowed range; checked
    /// by the caller that holds the physical parameters.
    InvalidPhysicalParameter,
    /// Integration produced a state that cannot be represented (overflow or NaN).
    NumericalDivergence,
}

/// True when `i` indexes a free (interior) node of a chain of `len` nodes.
pub open spec fn is_free(len: int, i: int) -> bool {
    1 <= i < len - 1
}

/// `next` keeps the length and both anchors of `prev`.
pub open spec fn anchors_kept<N>(prev: Seq<N>, next: Seq<N>) -> bool {
    &&& next.len() == prev.len()
    &&& next[0] == prev[0]
    &&& next[next.len() - 1] == prev[prev.len() - 1]
}

/// The spring phase of a step: one tension per spring, each one that `spring`
/// may return for the spring's two nodes, read from `prev`. Tension `i` is the
/// pull of spring `i` on node `i`; its reaction on node `i + 1` is the same
/// value, negated by whoever combines it.
pub open spec fn tensions_from<N, F, FS: Fn(&N, &N) -> F>(
    spring: FS,
    prev: Seq<N>,
    tensions: Seq<F>,
) -> bool {
    &&& tensions.len() == prev.len() - 1
    &&& forall|i: int|
        0 <= i < prev.len() - 1 ==> spring.ensures(
            (&prev[i], &prev[i + 1]),
            #[trigger] tensions[i],
        )
}

/// The force phase of a step: the buffer is built afresh with one entry per
/// node. Each free node's force is one that `load` may return for the tensions
/// of the springs on its left and right and for the node itself as it was in
/// `prev`; the anchors, which receive no force, get `zero`.
pub open spec fn forces_from<N, F, FL: Fn(&F, &F, &N) -> F>(
    load: FL,
    prev: Seq<N>,
    tensions: Seq<F>,
    zero: F,
    forces: Seq<F>,
) -> bool {
    &&& forces.len() == prev.len()
    &&& forces[0] == zero
    &&& forces[forces.len() - 1] == zero
    &&& forall|i: int|
        is_free(prev.len() as int, i) ==> load.ensures(
            (&tensions[i - 1], &tensions[i], &prev[i]),
            #[trigger] forces[i],
        )
}

/// The integration phase of a successful step: each free node of `next` is a
/// value that `integrate` may return for the same node of `prev` and its
/// entry of `forces`; the anchors are those of `prev`.
pub open spec fn integrated<N, F, FI: Fn(&N, &F) -> Option<N>>(
    integrate: FI,
    prev: Seq<N>,
    forces: Seq<F>,
    next: Seq<N>,
) -> bool {
    &&& anchors_kept(prev, next)
    &&& forall|i: int|
        is_free(prev.len() as int, i) ==> integrate.ensures(
            (&prev[i], &forces[i]),
            Some(#[trigger] next[i]),
        )
}

/// The number of nodes of a chain laid out in `subdivisions` segments: one
/// more than the segments. At least one segment is needed.
pub fn straight_node_count(subdivisions: usize) -> (r: Result<usize, ChainError>)
    ensures
        1 <= subdivisions < usize::MAX <==> r is Ok,
        r matches Ok(n) ==> n == subdivisions + 1,
        r matches Err(e) ==> e == ChainError::InvalidTopology,
{
    if subdivisions == 0 || subdivisions == usize::MAX {
        Err(ChainError::InvalidTopology)
    } else {
        Ok(subdivisions + 1)
    }
}

/// During the commit of a step, free node `j` is still held in `fresh` when
/// `j < k`, and already stored in `nodes` otherwise.
spec fn fresh_or_node<N>(fresh: Seq<N>, nodes: Seq<N>, k: int, j: int) -> N {
    if j < k {
        fresh[j - 1]
    } else {
        nodes[j]
    }
}

/// The ordered nodes of a chain, the first and last of which are pinned
/// anchors, with the spring tensions and the force buffer of the last step,
/// and the zero force that the buffer starts from.
pub struct State<N, F> {
    nodes: Vec<N>,
    tensions: Vec<F>,
    forces: Vec<F>,
    zero: F,
}

impl<N, F: Copy> State<N, F> {
    /// The nodes, in chain order.
    pub closed spec fn nodes_view(&self) -> Seq<N> {
        self.nodes@
    }

    /// The tensions of the last step, one per spring; empty before the first step.
    pub closed spec fn tensions_view(&self) -> Seq<F> {
        self.tensions@
    }

    /// The force buffer: one entry per node.
    pub closed spec fn forces_view(&self) -> Seq<F> {
        self.forces@
    }

    /// The zero force.
    pub closed spec fn zero_view(&self) -> F {
        self.zero
    }

    /// At least one spring, one force entry per node, and no force on the
    /// anchors.
    pub open spec fn wf(&self) -> bool {
        &&& self.nodes_view().len() >= 2
        &&& self.forces_view().len() == self.nodes_view().len()
        &&& self.forces_view()[0] == self.zero_view()
        &&& self.forces_view()[self.forces_view().len() - 1] == self.zero_view()
    }

    /// Builds a chain from its nodes, with a force buffer of one `zero` per
    /// node. Refused as an invalid topology when there are fewer than two
    /// nodes.
    pub fn new(node_list: Vec<N>, zero: F) -> (r: Result<Self, ChainError>)
        ensures
            node_list@.len() >= 2 <==> r is Ok,
            r matches Ok(s) ==> {
                &&& s.wf()
                &&& s.nodes_view() == node_list@
                &&& s.zero_view() == zero
                &&& s.forces_view() == Seq::new(node_list@.len(), |i: int| zero)
                &&& s.tensions_view().len() == 0
            },
            r matches Err(e) ==> e == ChainError::InvalidTopology,
    {
        if node_list.len() < 2 {
            return Err(ChainError::InvalidTopology);
        }
        let mut forces: Vec<F> = Vec::new();
        let mut i: usize = 0;
        while i < node_list.len()
            invariant
                i <= node_list@.len(),
                forces@ == Seq::new(i as nat, |j: int| zero),
            decreases node_list@.len() - i,
        {
            forces.push(zero);
            i += 1;
        }
        Ok(State { nodes: node_list, tensions: Vec::new(), forces, zero })
    }

    /// The nodes, in chain order.
    pub fn nodes(&self) -> (r: &Vec<N>)
        ensures
            r@ == self.nodes_view(),
    {
        &self.nodes
    }

    /// The spring tensions of the last step.
    pub fn tensions(&self) -> (r: &Vec<F>)
        ensures
            r@ == self.tensions_view(),
    {
        &self.tensions
    }

    /// The force buffer of the last step.
    pub fn forces(&self) -> (r: &Vec<F>)
        ensures
            r@ == self.forces_view(),
    {
        &self.forces
    }

    /// Number of springs: one between each adjacent pair of nodes.
    pub fn spring_count(&self) -> (r: usize)
        requires
            self.wf(),
        ensures
            r == self.nodes_view().len() - 1,
    {
        self.nodes.len() - 1
    }

    /// Advances the chain by one time step.
    ///
    /// Every phase reads the nodes as they were before the step. First the
    /// tension of each spring is computed once by `spring`. Then the force on
    /// each free node is computed by `load` from the tensions of its two
    /// springs and the node, and stored in a buffer built afresh, whose
    /// anchor entries are the zero force. The two nodes of a spring are handed
    /// the same tension, so its pulls on them are exact opposites when `load`
    /// negates the tension of the left spring. Last, every free node is replaced by what `integrate` makes
    /// of it and its force. The anchors are never touched. When `integrate`
    /// reports a state that cannot be represented for some node, the step fails
    /// with `NumericalDivergence` and the nodes are left as they were.
    pub fn step<FS, FL, FI>(
        &mut self,
        spring: FS,
        load: FL,
        integrate: FI,
    ) -> (r: Result<(), ChainError>) where
        FS: Fn(&N, &N) -> F,
        FL: Fn(&F, &F, &N) -> F,
        FI: Fn(&N, &F) -> Option<N>,

        requires
            old(self).wf(),
            forall|i: int|
                0 <= i < old(self).nodes_view().len() - 1 ==> #[trigger] spring.requires(
                    (&old(self).nodes_view()[i], &old(self).nodes_view()[i + 1]),
                ),
            forall|i: int, left: F, right: F|
                is_free(old(self).nodes_view().len() as int, i) ==> #[trigger] load.requires(
                    (&left, &right, &old(self).nodes_view()[i]),
                ),
            forall|i: int, f: F|
                is_free(old(self).nodes_view().len() as int, i) ==> #[trigger] integrate.requires(
                    (&old(self).nodes_view()[i], &f),
                ),
        ensures
            final(self).wf(),
            tensions_from(spring, old(self).nodes_view(), final(self).tensions_view()),
            final(self).zero_view() == old(self).zero_view(),
            forces_from(
                load,
                old(self).nodes_view(),
                final(self).tensions_view(),
                old(self).zero_view(),
                final(self).forces_view(),
            ),
            r is Ok ==> integrated(
                integrate,
                old(self).nodes_view(),
                final(self).forces_view(),
                final(self).nodes_view(),
            ),
            r is Err ==> {
                &&& r == Err::<(), ChainError>(ChainError::NumericalDivergence)
                &&& final(self).nodes_view() == old(self).nodes_view()
                &&& exists|i: int|
                    is_free(old(self).nodes_view().len() as int, i) && #[trigger] integrate.ensures(
                        (&old(self).nodes_view()[i], &final(self).forces_view()[i]),
                        None,
                    )
            },
    {
        let n = self.nodes.len();
        let ghost prev = self.nodes@;

        // Spring phase: each tension once.
        let mut tensions: Vec<F> = Vec::new();
        let mut i: usize = 0;
        while i + 1 < n
            invariant
                n == prev.len(),
                n >= 2,
                i < n,
                self.nodes@ == prev,
                self.forces@ == old(self).forces@,
                self.zero == old(self).zero,
                prev == old(self).nodes@,
                tensions@.len() == i,
                forall|j: int|
                    0 <= j < n - 1 ==> #[trigger] spring.requires((&prev[j], &prev[j + 1])),
                forall|j: int|
                    0 <= j < i ==> spring.ensures(
                        (&prev[j], &prev[j + 1]),
                        #[trigger] tensions@[j],
                    ),
            decreases n - i,
        {
            let t = spring(&self.nodes[i], &self.nodes[i + 1]);
            tensions.push(t);
            i += 1;
        }
        self.tensions = tensions;
        assert(tensions_from(spring, prev, self.tensions@));

        // Force phase: the buffer is rebuilt from zero, from the tensions and
        // the nodes as they were before the step.
        let zero = self.zero;
        let mut forces: Vec<F> = Vec::new();
        forces.push(zero);
        let mut i: usize = 1;
        while i + 1 < n
            invariant
                n == prev.len(),
                n >= 2,
                1 <= i < n,
                self.nodes@ == prev,
                self.zero == zero,
                prev == old(self).nodes@,
                zero == old(self).zero,
                tensions_from(spring, prev, self.tensions@),
                forces@.len() == i,
                forces@[0] == zero,
                forall|j: int, left: F, right: F|
                    is_free(n as int, j) ==> #[trigger] load.requires((&left, &right, &prev[j])),
                forall|j: int|
                    1 <= j < i ==> load.ensures(
                        (&self.tensions@[j - 1], &self.tensions@[j], &prev[j]),
                        #[trigger] forces@[j],
                    ),
            decreases n - i,
        {
            let f = load(&self.tensions[i - 1], &self.tensions[i], &self.nodes[i]);
            forces.push(f);
            i += 1;
        }
        forces.push(zero);
        self.forces = forces;
        assert(forces_from(load, prev, self.tensions@, zero, self.forces@));
        let ghost forces = self.forces@;

        // Integration phase: every new node is computed before any is stored.
        let mut fresh: Vec<N> = Vec::new();
        let mut i: usize = 1;
        while i + 1 < n
            invariant
                n == prev.len(),
                n >= 2,
                1 <= i < n,
                self.nodes@ == prev,
                prev == old(self).nodes@,
                zero == old(self).zero,
                self.zero == zero,
                self.forces@ == forces,
                forces.len() == n,
                forces_from(load, prev, self.tensions@, zero, forces) && tensions_from(spring, prev, self.tensions@),
                fresh@.len() == i - 1,
                forall|j: int, f: F|
                    is_free(n as int, j) ==> #[trigger] integrate.requires((&prev[j], &f)),
                forall|j: int|
                    1 <= j < i ==> integrate.ensures(
                        (&prev[j], &self.forces@[j]),
                        Some(#[trigger] fresh@[j - 1]),
                    ),
            decreases n - i,
        {
            let moved = integrate(&self.nodes[i], &self.forces[i]);
            match moved {
                Some(v) => fresh.push(v),
                None => {
                    assert(is_free(n as int, i as int));
                    assert(integrate.ensures(
                        (&old(self).nodes_view()[i as int], &self.forces_view()[i as int]),
                        None,
                    ));
                    return Err(ChainError::NumericalDivergence);
                },
            }
            i += 1;
        }

        // Commit, from the last free node down to the first.
        let mut k: usize = n - 1;
        while k > 1
            invariant
                n == prev.len(),
                n >= 2,
                1 <= k < n,
                fresh@.len() == k - 1,
                self.zero == zero,
                zero == old(self).zero,
                self.forces@ == forces,
                forces.len() == n,
                forces_from(load, prev, self.tensions@, zero, forces) && tensions_from(spring, prev, self.tensions@),
                self.nodes@.len() == n,
                forall|j: int| 0 <= j < k ==> self.nodes@[j] == prev[j],
                self.nodes@[n - 1] == prev[n - 1],
                forall|j: int|
                    1 <= j < n - 1 ==> integrate.ensures(
                        (&prev[j], &self.forces@[j]),
                        Some(#[trigger] fresh_or_node(fresh@, self.nodes@, k as int, j)),
                    ),
            decreases k,
        {
            let ghost fresh_before = fresh@;
            let ghost nodes_before = self.nodes@;
            let v = fresh.pop().unwrap();
            k -= 1;
            self.nodes.set(k, v);
            assert forall|j: int| 1 <= j < n - 1 implies integrate.ensures(
                (&prev[j], &self.forces@[j]),
                Some(#[trigger] fresh_or_node(fresh@, self.nodes@, k as int, j)),
            ) by {
                assert(fresh_or_node(fresh@, self.nodes@, k as int, j) == fresh_or_node(
                    fresh_before,
                    nodes_before,
                    k + 1,
                    j,
                ));
            }
        }
        assert forall|j: int| is_free(n as int, j) implies integrate.ensures(
            (&prev[j], &forces[j]),
            Some(#[trigger] self.nodes@[j]),
        ) by {
            assert(fresh_or_node(fresh@, self.nodes@, 1, j) == self.nodes@[j]);
        }
        Ok(())
    }
}

/// What one call of `State::step` makes of the nodes `prev`, given the force
/// buffer `forces` that it leaves: either the integrated chain, or, when the
/// step failed, the same chain.
pub open spec fn stepped<N, F, FI: Fn(&N, &F) -> Option<N>>(
    integrate: FI,
    prev: Seq<N>,
    forces: Seq<F>,
    next: Seq<N>,
) -> bool {
    integrated(integrate, prev, forces, next) || next == prev
}

/// A run of steps: `run[0]` is a chain of at least two nodes, and each later
/// entry is what a step made of the one before it, with the matching force
/// buffer in `forces`.
pub open spec fn is_run<N, F, FI: Fn(&N, &F) -> Option<N>>(
    integrate: FI,
    run: Seq<Seq<N>>,
    forces: Seq<Seq<F>>,
) -> bool {
    &&& run.len() == forces.len() + 1
    &&& run[0].len() >= 2
    &&& forall|j: int|
        0 <= j < forces.len() ==> stepped(integrate, run[j], #[trigger] forces[j], run[j + 1])
}

/// Boundary invariance: however many steps a chain is advanced by, its first
/// and last node stay exactly what they were, and its length is kept.
pub proof fn lemma_anchors_fixed<N, F, FI: Fn(&N, &F) -> Option<N>>(
    integrate: FI,
    run: Seq<Seq<N>>,
    forces: Seq<Seq<F>>,
)
    requires
        is_run(integrate, run, forces),
    ensures
        anchors_kept(run[0], run[run.len() - 1]),
    decreases forces.len(),
{
    if forces.len() > 0 {
        let m = forces.len() - 1;
        let shorter = run.take(run.len() - 1);
        assert(is_run(integrate, shorter, forces.take(m))) by {
            assert forall|j: int| 0 <= j < m implies stepped(
                integrate,
                shorter[j],
                #[trigger] forces.take(m)[j],
                shorter[j + 1],
            ) by {
                assert(stepped(integrate, run[j], forces[j], run[j + 1]));
            }
        }
        lemma_anchors_fixed(integrate, shorter, forces.take(m));
        assert(stepped(integrate, run[m], forces[m], run[m + 1]));
    }
}

/// A chain of two nodes has no free node: however many steps it is advanced
/// by, it stays exactly as it was.
pub proof fn lemma_two_nodes_stay<N, F, FI: Fn(&N, &F) -> Option<N>>(
    integrate: FI,
    run: Seq<Seq<N>>,
    forces: Seq<Seq<F>>,
)
    requires
        is_run(integrate, run, forces),
        run[0].len() == 2,
    ensures
        run[run.len() - 1] == run[0],
{
    assert forall|j: int| 0 <= j < run.len() implies #[trigger] run[j] == run[0] by {
        lemma_prefix_stays(integrate, run, forces, j);
    }
}

proof fn lemma_prefix_stays<N, F, FI: Fn(&N, &F) -> Option<N>>(
    integrate: FI,
    run: Seq<Seq<N>>,
    forces: Seq<Seq<F>>,
    j: int,
)
    requires
        is_run(integrate, run, forces),
        run[0].len() == 2,
        0 <= j < run.len(),
    ensures
        run[j] == run[0],
    decreases j,
{
    if j > 0 {
        lemma_prefix_stays(integrate, run, forces, j - 1);
        assert(stepped(integrate, run[j - 1], forces[j - 1], run[j]));
        assert(run[j] =~= run[j - 1]);
    }
}

} // verus!
