//! The reverse-pass scheduler shared by the scalar and dense tapes:
//! reachability, dependency counting, and a ready queue that always releases
//! the highest node id.
use vstd::prelude::*;
use crate::dispatch::BinaryOp;

verus! {

/// Operation recorded for a tape node; inputs are indices of earlier nodes.
#[derive(Debug, Clone, Copy, PartialEq, Eq, Structural)]
pub enum GraphOp {
    Leaf,
    Binary { op: BinaryOp, lhs: usize, rhs: usize },
}

/// Every input of every node precedes it: the tape grows only by append.
pub open spec fn inputs_precede(ops: Seq<GraphOp>) -> bool {
    forall|i: int| 0 <= i < ops.len() ==> match #[trigger] ops[i] {
        GraphOp::Leaf => true,
        GraphOp::Binary { lhs, rhs, .. } => lhs < i && rhs < i,
    }
}

/// How many of a node's input slots refer to node `j` (0, 1 or 2).
pub open spec fn slots(op: GraphOp, j: int) -> int {
    match op {
        GraphOp::Leaf => 0,
        GraphOp::Binary { lhs, rhs, .. } => (if lhs == j { 1int } else { 0 }) + (if rhs == j { 1int } else { 0 }),
    }
}

/// Reachability marks after visiting the nodes `i..` from the top down: the
/// root is marked, and a marked binary node marks both of its inputs.
pub open spec fn marks_from(ops: Seq<GraphOp>, root: int, i: int) -> Seq<bool>
    decreases ops.len() - i,
{
    if i >= ops.len() {
        Seq::new(ops.len(), |j: int| j == root)
    } else {
        let m = marks_from(ops, root, i + 1);
        match ops[i] {
            GraphOp::Leaf => m,
            GraphOp::Binary { lhs, rhs, .. } => if m[i] {
                m.update(lhs as int, true).update(rhs as int, true)
            } else {
                m
            },
        }
    }
}

/// The nodes reachable from `root` through input edges.
pub open spec fn reachable(ops: Seq<GraphOp>, root: int) -> Seq<bool> {
    marks_from(ops, root, 0)
}

/// Input slots of the reachable nodes below `t` that refer to `j`.
pub open spec fn pending_below(ops: Seq<GraphOp>, reach: Seq<bool>, j: int, t: int) -> int
    decreases t,
{
    if t <= 0 {
        0
    } else {
        pending_below(ops, reach, j, t - 1) + if reach[t - 1] { slots(ops[t - 1], j) } else { 0 }
    }
}

/// The reachable nodes below `t`, highest first.
pub open spec fn desc_below(reach: Seq<bool>, t: int) -> Seq<usize>
    decreases t,
{
    if t <= 0 {
        Seq::empty()
    } else if reach[t - 1] {
        seq![(t - 1) as usize] + desc_below(reach, t - 1)
    } else {
        desc_below(reach, t - 1)
    }
}

/// The reachable nodes, highest id first: the order the scheduler runs them.
pub open spec fn execution_order_spec(ops: Seq<GraphOp>, root: int) -> Seq<usize> {
    desc_below(reachable(ops, root), ops.len() as int)
}

/// The nodes ready once every reachable node at or above `t` has run.
pub open spec fn ready_set(ops: Seq<GraphOp>, reach: Seq<bool>, t: int) -> Set<usize> {
    Set::new(|j: usize| (j as int) < t && reach[j as int] && pending_below(ops, reach, j as int, t) == 0)
}

/// The queue's length at its longest while the nodes of `order` run: one
/// after seeding with the root, then the ready count after each node.
pub open spec fn max_ready(ops: Seq<GraphOp>, reach: Seq<bool>, order: Seq<usize>) -> nat
    decreases order.len(),
{
    if order.len() == 0 {
        1
    } else {
        let p = max_ready(ops, reach, order.drop_last());
        let c = ready_set(ops, reach, order.last() as int).len();
        if p >= c {
            p
        } else {
            c
        }
    }
}

/// Largest tape the scheduler handles: dependency counts stay below the
/// address width.
pub const MAX_TAPE_NODES: usize = usize::MAX / 2;

// ---------------------------------------------------------------------------
// Lemmas on reachability.

proof fn lemma_marks_len(ops: Seq<GraphOp>, root: int, i: int)
    requires
        inputs_precede(ops),
        0 <= i,
    ensures
        marks_from(ops, root, i).len() == ops.len(),
    decreases ops.len() - i,
{
    if i < ops.len() {
        lemma_marks_len(ops, root, i + 1);
        assert(ops[i] matches GraphOp::Binary { lhs, rhs, .. } ==> lhs < i && rhs < i);
    }
}

/// Visiting node `i` only marks nodes below it, so marks at `i` and above are
/// already final once the top-down walk has passed them.
proof fn lemma_marks_stable(ops: Seq<GraphOp>, root: int, i: int, j: int)
    requires
        inputs_precede(ops),
        0 <= i <= j < ops.len(),
    ensures
        marks_from(ops, root, i)[j] == marks_from(ops, root, j)[j],
    decreases j - i,
{
    lemma_marks_len(ops, root, i);
    lemma_marks_len(ops, root, i + 1);
    if i < j {
        lemma_marks_stable(ops, root, i + 1, j);
        assert(ops[i] matches GraphOp::Binary { lhs, rhs, .. } ==> lhs < i && rhs < i);
    }
}

/// Marks only grow as the walk descends.
proof fn lemma_marks_monotone(ops: Seq<GraphOp>, root: int, i: int, j: int)
    requires
        inputs_precede(ops),
        0 <= i < ops.len(),
        0 <= j < ops.len(),
        marks_from(ops, root, i + 1)[j],
    ensures
        marks_from(ops, root, i)[j],
{
    lemma_marks_len(ops, root, i + 1);
    assert(ops[i] matches GraphOp::Binary { lhs, rhs, .. } ==> lhs < i && rhs < i);
}

proof fn lemma_marks_monotone_to(ops: Seq<GraphOp>, root: int, lo: int, hi: int, j: int)
    requires
        inputs_precede(ops),
        0 <= lo <= hi <= ops.len(),
        0 <= j < ops.len(),
        marks_from(ops, root, hi)[j],
    ensures
        marks_from(ops, root, lo)[j],
    decreases hi - lo,
{
    lemma_marks_len(ops, root, hi);
    if lo < hi {
        lemma_marks_monotone_to(ops, root, lo + 1, hi, j);
        lemma_marks_monotone(ops, root, lo, j);
    }
}

/// The inputs of a reachable binary node are reachable.
pub proof fn lemma_inputs_reachable(ops: Seq<GraphOp>, root: int, i: int)
    requires
        inputs_precede(ops),
        0 <= i < ops.len(),
        reachable(ops, root)[i],
    ensures
        ops[i] matches GraphOp::Binary { lhs, rhs, .. } ==> reachable(ops, root)[lhs as int] && reachable(ops, root)[rhs as int],
{
    lemma_marks_stable(ops, root, 0, i);
    lemma_marks_len(ops, root, i + 1);
    lemma_marks_stable(ops, root, i, i);
    if let GraphOp::Binary { lhs, rhs, .. } = ops[i] {
        assert(lhs < i && rhs < i);
        assert(marks_from(ops, root, i + 1)[i] == marks_from(ops, root, i)[i]);
        assert(marks_from(ops, root, i)[lhs as int]);
        assert(marks_from(ops, root, i)[rhs as int]);
        lemma_marks_monotone_to(ops, root, 0, i, lhs as int);
        lemma_marks_monotone_to(ops, root, 0, i, rhs as int);
    }
}

/// A node other than the root is marked only by a marked node above it that
/// uses it as an input; nothing above the root is marked.
proof fn lemma_marked_has_consumer(ops: Seq<GraphOp>, root: int, i: int, j: int)
    requires
        inputs_precede(ops),
        0 <= root < ops.len(),
        0 <= i <= ops.len(),
        0 <= j < ops.len(),
        marks_from(ops, root, i)[j],
    ensures
        j <= root,
        j != root ==> exists|k: int| i <= k < ops.len() && j < k && #[trigger] marks_from(ops, root, 0)[k] && slots(ops[k], j) > 0,
    decreases ops.len() - i,
{
    lemma_marks_len(ops, root, i);
    if i < ops.len() {
        lemma_marks_len(ops, root, i + 1);
        let m = marks_from(ops, root, i + 1);
        if m[j] {
            lemma_marked_has_consumer(ops, root, i + 1, j);
            if j != root {
                let k = choose|k: int| i + 1 <= k < ops.len() && j < k && #[trigger] marks_from(ops, root, 0)[k] && slots(ops[k], j) > 0;
                assert(i <= k);
            }
        } else {
            assert(ops[i] matches GraphOp::Binary { lhs, rhs, .. } ==> lhs < i && rhs < i);
            assert(ops[i] matches GraphOp::Binary { lhs, rhs, .. } && m[i] && (lhs == j || rhs == j));
            assert(marks_from(ops, root, i)[i] == m[i]);
            lemma_marks_stable(ops, root, 0, i);
            lemma_marked_has_consumer(ops, root, i + 1, i);
            assert(slots(ops[i], j) > 0);
            assert(marks_from(ops, root, 0)[i]);
        }
    } else {
        assert(j == root);
    }
}

// ---------------------------------------------------------------------------
// Lemmas on dependency counts and the descending order.

proof fn lemma_pending_nonneg(ops: Seq<GraphOp>, reach: Seq<bool>, j: int, t: int)
    ensures
        0 <= pending_below(ops, reach, j, t) <= 2 * (if t < 0 { 0 } else { t }),
    decreases t,
{
    if t > 0 {
        lemma_pending_nonneg(ops, reach, j, t - 1);
    }
}

/// Nodes at or below `j` never use `j` as an input.
proof fn lemma_pending_low(ops: Seq<GraphOp>, reach: Seq<bool>, j: int, t: int)
    requires
        inputs_precede(ops),
        t <= j + 1,
        t <= ops.len(),
    ensures
        pending_below(ops, reach, j, t) == 0,
    decreases t,
{
    if t > 0 {
        lemma_pending_low(ops, reach, j, t - 1);
        assert(ops[t - 1] matches GraphOp::Binary { lhs, rhs, .. } ==> lhs < t - 1 && rhs < t - 1);
    }
}

/// Unreachable nodes between `m` and `t` contribute nothing.
proof fn lemma_pending_skip(ops: Seq<GraphOp>, reach: Seq<bool>, j: int, m: int, t: int)
    requires
        0 <= m <= t,
        forall|x: int| m <= x < t ==> !reach[x],
    ensures
        pending_below(ops, reach, j, t) == pending_below(ops, reach, j, m),
    decreases t - m,
{
    if m < t {
        lemma_pending_skip(ops, reach, j, m, t - 1);
    }
}

proof fn lemma_desc_skip(reach: Seq<bool>, m: int, t: int)
    requires
        0 <= m <= t,
        forall|x: int| m <= x < t ==> !reach[x],
    ensures
        desc_below(reach, t) == desc_below(reach, m),
    decreases t - m,
{
    if m < t {
        lemma_desc_skip(reach, m, t - 1);
    }
}

pub proof fn lemma_desc_len(reach: Seq<bool>, t: int)
    requires
        t <= usize::MAX,
    ensures
        desc_below(reach, t).len() <= if t < 0 { 0 } else { t },
        forall|x: int| 0 <= x < desc_below(reach, t).len() ==> #[trigger] desc_below(reach, t)[x] < t && reach[desc_below(reach, t)[x] as int],
        t > 0 && (exists|x: int| 0 <= x < t && reach[x]) ==> desc_below(reach, t).len() > 0,
    decreases t,
{
    if t > 0 {
        lemma_desc_len(reach, t - 1);
        let d = desc_below(reach, t);
        let e = desc_below(reach, t - 1);
        assert forall|x: int| 0 <= x < d.len() implies #[trigger] d[x] < t && reach[d[x] as int] by {
            if reach[t - 1] && x > 0 {
                assert(d[x] == e[x - 1]);
            }
        }
        if !reach[t - 1] && (exists|x: int| 0 <= x < t && reach[x]) {
            let x = choose|x: int| 0 <= x < t && reach[x];
            assert(x < t - 1);
        }
    }
}

/// The first node of the descending list is the highest reachable node below
/// `t`, and the rest is the descending list below it.
proof fn lemma_desc_head(reach: Seq<bool>, t: int)
    requires
        0 <= t <= usize::MAX,
        desc_below(reach, t).len() > 0,
    ensures
        ({
            let m = desc_below(reach, t)[0] as int;
            &&& 0 <= m < t
            &&& reach[m]
            &&& forall|x: int| m < x < t ==> !reach[x]
            &&& desc_below(reach, t) == seq![m as usize] + desc_below(reach, m)
        }),
    decreases t,
{
    if t > 0 && !reach[t - 1] {
        lemma_desc_head(reach, t - 1);
    }
}

/// Descending lists differ by at most the width of the range between them.
proof fn lemma_desc_diff(reach: Seq<bool>, t: int, n: int)
    requires
        0 <= t <= n,
    ensures
        desc_below(reach, n).len() <= desc_below(reach, t).len() + (n - t),
    decreases n - t,
{
    if t < n {
        lemma_desc_diff(reach, t, n - 1);
    }
}

/// A sequence of distinct values below `t` has at most `t` entries.
proof fn lemma_distinct_below(q: Seq<usize>, t: int)
    requires
        q.no_duplicates(),
        0 <= t,
        forall|i: int| 0 <= i < q.len() ==> q[i] < t,
    ensures
        q.len() <= t,
    decreases t,
{
    if t == 0 {
        if q.len() > 0 {
            assert(q[0] < 0);
        }
    } else if exists|k: int| 0 <= k < q.len() && q[k] == t - 1 {
        let k = choose|k: int| 0 <= k < q.len() && q[k] == t - 1;
        let r = q.remove(k);
        q.remove_ensures(k);
        assert forall|a: int, b: int| 0 <= a < r.len() && 0 <= b < r.len() && a != b implies r[a] != r[b] by {
            let a2 = if a < k { a } else { a + 1 };
            let b2 = if b < k { b } else { b + 1 };
            assert(q[a2] != q[b2]);
        }
        assert forall|i: int| 0 <= i < r.len() implies r[i] < t - 1 by {
            let i2 = if i < k { i } else { i + 1 };
            assert(q[i2] != q[k]);
        }
        lemma_distinct_below(r, t - 1);
    } else {
        lemma_distinct_below(q, t - 1);
    }
}

// ---------------------------------------------------------------------------
// Executable pieces.

/// Reachability from `root`, by one top-down pass over the tape.
pub fn compute_reachable(ops: &Vec<GraphOp>, root: usize) -> (r: Vec<bool>)
    requires
        inputs_precede(ops@),
        root < ops@.len(),
    ensures
        r@ == reachable(ops@, root as int),
{
    let n = ops.len();
    let mut marks: Vec<bool> = Vec::new();
    let mut j: usize = 0;
    while j < n
        invariant
            j <= n == ops@.len(),
            marks@ == Seq::new(j as nat, |x: int| x == root),
        decreases n - j,
    {
        marks.push(j == root);
        j = j + 1;
        assert(marks@ =~= Seq::new(j as nat, |x: int| x == root));
    }
    let mut i: usize = n;
    while i > 0
        invariant
            i <= n == ops@.len(),
            inputs_precede(ops@),
            marks@ == marks_from(ops@, root as int, i as int),
        decreases i,
    {
        i = i - 1;
        proof { lemma_marks_len(ops@, root as int, i + 1); }
        match ops[i] {
            GraphOp::Leaf => {},
            GraphOp::Binary { lhs, rhs, .. } => {
                assert(lhs < i && rhs < i);
                if marks[i] {
                    marks.set(lhs, true);
                    marks.set(rhs, true);
                }
            },
        }
    }
    marks
}

/// For each node, the input slots of reachable nodes that refer to it.
pub fn compute_dependencies(ops: &Vec<GraphOp>, reach: &Vec<bool>) -> (r: Vec<usize>)
    requires
        inputs_precede(ops@),
        reach@.len() == ops@.len(),
        ops@.len() <= MAX_TAPE_NODES,
    ensures
        r@.len() == ops@.len(),
        forall|j: int| 0 <= j < ops@.len() ==> #[trigger] r@[j] == pending_below(ops@, reach@, j, ops@.len() as int),
{
    let n = ops.len();
    let mut pending: Vec<usize> = vec![0usize; n];
    let mut i: usize = 0;
    while i < n
        invariant
            i <= n == ops@.len() == reach@.len(),
            n <= MAX_TAPE_NODES,
            inputs_precede(ops@),
            pending@.len() == n,
            forall|j: int| 0 <= j < n ==> #[trigger] pending@[j] == pending_below(ops@, reach@, j, i as int),
        decreases n - i,
    {
        proof {
            assert forall|j: int| 0 <= j < n implies pending_below(ops@, reach@, j, i + 1)
                == pending_below(ops@, reach@, j, i as int) + if reach@[i as int] { slots(ops@[i as int], j) } else { 0 } by {}
        }
        if reach[i] {
            match ops[i] {
                GraphOp::Leaf => {},
                GraphOp::Binary { lhs, rhs, .. } => {
                    proof {
                        assert(lhs < i && rhs < i);
                        lemma_pending_nonneg(ops@, reach@, lhs as int, i as int);
                        lemma_pending_nonneg(ops@, reach@, rhs as int, i as int);
                    }
                    pending.set(lhs, pending[lhs] + 1);
                    pending.set(rhs, pending[rhs] + 1);
                },
            }
        }
        i = i + 1;
    }
    pending
}

/// Ready nodes, released highest id first.
pub struct ReadyQueue {
    items: Vec<usize>,
    pushes: usize,
    pops: usize,
    max_len: usize,
}

impl ReadyQueue {
    pub closed spec fn items(&self) -> Seq<usize> {
        self.items@
    }

    pub closed spec fn pushes(&self) -> nat {
        self.pushes as nat
    }

    pub closed spec fn pops(&self) -> nat {
        self.pops as nat
    }

    pub closed spec fn max_len(&self) -> nat {
        self.max_len as nat
    }

    pub fn is_empty(&self) -> (r: bool)
        ensures
            r == (self.items().len() == 0),
    {
        self.items.len() == 0
    }

    pub fn pushes_count(&self) -> (r: usize)
        ensures
            r == self.pushes(),
    {
        self.pushes
    }

    pub fn pops_count(&self) -> (r: usize)
        ensures
            r == self.pops(),
    {
        self.pops
    }

    pub fn max_len_count(&self) -> (r: usize)
        ensures
            r == self.max_len(),
    {
        self.max_len
    }

    pub fn with_capacity(capacity: usize) -> (r: ReadyQueue)
        ensures
            r.items().len() == 0,
            r.pushes() == 0,
            r.pops() == 0,
            r.max_len() == 0,
    {
        ReadyQueue { items: Vec::with_capacity(capacity), pushes: 0, pops: 0, max_len: 0 }
    }

    pub fn push(&mut self, node: usize)
        requires
            old(self).pushes() < usize::MAX,
        ensures
            final(self).items() == old(self).items().push(node),
            final(self).pushes() == old(self).pushes() + 1,
            final(self).pops() == old(self).pops(),
            final(self).max_len() == if old(self).max_len() >= old(self).items().len() + 1 {
                old(self).max_len()
            } else {
                old(self).items().len() + 1
            },
    {
        self.items.push(node);
        self.pushes = self.pushes + 1;
        if self.max_len < self.items.len() {
            self.max_len = self.items.len();
        }
    }

    /// Removes and returns the highest id, if any.
    pub fn pop(&mut self) -> (r: Option<usize>)
        requires
            old(self).pops() < usize::MAX,
        ensures
            old(self).items().len() == 0 ==> r is None && *final(self) == *old(self),
            old(self).items().len() > 0 ==> exists|k: int| 0 <= k < old(self).items().len()
                && r == Some(old(self).items()[k])
                && final(self).items() == old(self).items().remove(k)
                && (forall|x: int| 0 <= x < old(self).items().len() ==> #[trigger] old(self).items()[x] <= old(self).items()[k]),
            old(self).items().len() > 0 ==> final(self).pops() == old(self).pops() + 1,
            final(self).pushes() == old(self).pushes(),
            final(self).max_len() == old(self).max_len(),
    {
        if self.items.len() == 0 {
            return None;
        }
        let mut best: usize = 0;
        let mut i: usize = 1;
        while i < self.items.len()
            invariant
                1 <= i <= self.items@.len(),
                best < self.items@.len(),
                forall|x: int| 0 <= x < i ==> #[trigger] self.items@[x] <= self.items@[best as int],
            decreases self.items@.len() - i,
        {
            if self.items[i] > self.items[best] {
                best = i;
            }
            i = i + 1;
        }
        let node = self.items.remove(best);
        self.pops = self.pops + 1;
        Some(node)
    }
}

/// Outcome of the reverse-pass scheduler.
pub struct Schedule {
    pub order: Vec<usize>,
    pub pushes: usize,
    pub pops: usize,
    pub max_len: usize,
    pub pending: Vec<usize>,
}

/// Releases one dependency of `node`; once none is left the node is ready.
/// A release with nothing pending is refused.
pub fn complete_dependency(pending: &mut Vec<usize>, node: usize, queue: &mut ReadyQueue) -> (r: Result<(), ()>)
    requires
        node < old(pending)@.len(),
        old(queue).pushes() < usize::MAX,
    ensures
        old(pending)@[node as int] == 0 ==> r is Err && *final(pending) == *old(pending) && *final(queue) == *old(queue),
        old(pending)@[node as int] > 0 ==> r is Ok && final(pending)@ == old(pending)@.update(node as int, (old(pending)@[node as int] - 1) as usize),
        old(pending)@[node as int] == 1 ==> final(queue).items() == old(queue).items().push(node)
            && final(queue).pushes() == old(queue).pushes() + 1
            && final(queue).pops() == old(queue).pops()
            && final(queue).max_len() == if old(queue).max_len() >= old(queue).items().len() + 1 {
                old(queue).max_len()
            } else {
                old(queue).items().len() + 1
            },
        old(pending)@[node as int] != 1 ==> *final(queue) == *old(queue),
{
    if pending[node] == 0 {
        return Err(());
    }
    let left = pending[node] - 1;
    pending.set(node, left);
    if left == 0 {
        queue.push(node);
    }
    Ok(())
}

/// Runs the reverse pass from `root`: seeds the queue with the root, then
/// repeatedly pops the highest ready node and releases one dependency per
/// input slot. The nodes run are exactly the reachable ones, highest id
/// first, and every dependency count ends at zero.
#[verifier::rlimit(60)]
#[verifier::spinoff_prover]
pub fn run_schedule(ops: &Vec<GraphOp>, root: usize) -> (r: Result<Schedule, usize>)
    requires
        inputs_precede(ops@),
        root < ops@.len(),
        ops@.len() <= MAX_TAPE_NODES,
    ensures
        r matches Ok(s) && s.order@ == execution_order_spec(ops@, root as int)
            && s.pops == s.order@.len() && s.pushes == s.pops
            && 1 <= s.max_len <= ops@.len()
            && s.max_len == max_ready(ops@, reachable(ops@, root as int), s.order@)
            && s.pending@.len() == ops@.len()
            && (forall|j: int| 0 <= j < ops@.len() ==> #[trigger] s.pending@[j] == 0),
{
    let n = ops.len();
    let reach = compute_reachable(ops, root);
    proof { lemma_marks_len(ops@, root as int, 0); }
    let mut pending = compute_dependencies(ops, &reach);
    let ghost rs = reach@;
    let ghost full = desc_below(rs, n as int);
    proof {
        lemma_marks_len(ops@, root as int, 0);
        // the root has no reachable consumer
        lemma_marks_len(ops@, root as int, n as int);
        lemma_marks_monotone_to(ops@, root as int, 0, n as int, root as int);
        assert(rs[root as int]);
        assert forall|i: int| 0 <= i < n && rs[i] implies i <= root by {
            lemma_marked_has_consumer(ops@, root as int, 0, i);
        }
        lemma_pending_skip(ops@, rs, root as int, root + 1, n as int);
        lemma_pending_low(ops@, rs, root as int, root + 1);
        // every other reachable node waits on at least one consumer
        assert forall|j: int| 0 <= j < n && rs[j] && j != root implies pending_below(ops@, rs, j, n as int) > 0 by {
            lemma_marked_has_consumer(ops@, root as int, 0, j);
            let k = choose|k: int| 0 <= k < n && j < k && #[trigger] marks_from(ops@, root as int, 0)[k] && slots(ops@[k], j) > 0;
            lemma_pending_pos(ops@, rs, j, k, n as int);
        }
    }
    let mut queue = ReadyQueue::with_capacity(if n > 0 { n } else { 1 });
    queue.push(root);
    let mut order: Vec<usize> = Vec::with_capacity(n);
    let ghost mut t: int = n as int;
    proof {
        assert(order@ + desc_below(rs, t) =~= full);
        assert(queue.items()[0] == root);
        assert forall|j: int| 0 <= j < t && rs[j] && #[trigger] pending@[j] == 0 implies queue.items().contains(j as usize) by {
            assert(j == root);
        }
        lemma_queue_len(queue.items(), ops@, rs, pending@, t);
    }
    while !queue.is_empty()
        invariant
            n == ops@.len() == rs.len() == pending@.len(),
            n <= MAX_TAPE_NODES,
            inputs_precede(ops@),
            rs == reachable(ops@, root as int),
            full == desc_below(rs, n as int),
            0 <= t <= n,
            order@ + desc_below(rs, t) == full,
            forall|j: int| 0 <= j < n ==> #[trigger] pending@[j] == pending_below(ops@, rs, j, t),
            queue.items().no_duplicates(),
            forall|x: int| 0 <= x < queue.items().len() ==> rs[#[trigger] queue.items()[x] as int] && queue.items()[x] < t
                && pending@[queue.items()[x] as int] == 0,
            forall|j: int| 0 <= j < t && rs[j] && #[trigger] pending@[j] == 0 ==> queue.items().contains(j as usize),
            queue.pushes() == queue.pops() + queue.items().len(),
            queue.pops() == order@.len(),
            1 <= queue.max_len() <= n,
            queue.items().len() <= queue.max_len(),
            queue.items().len() == ready_set(ops@, rs, t).len(),
            queue.max_len() == max_ready(ops@, rs, order@),
        decreases t,
    {
        proof {
            lemma_distinct_below(queue.items(), t);
            lemma_desc_diff(rs, t, n as int);
            lemma_desc_len(rs, t);
            let x0 = queue.items()[0] as int;
            assert(rs[x0] && x0 < t);
            lemma_desc_head(rs, t);
        }
        let ghost old_queue = queue.items();
        let ghost m_spec = desc_below(rs, t)[0] as int;
        proof {
            lemma_pending_skip(ops@, rs, m_spec, m_spec + 1, t);
            lemma_pending_low(ops@, rs, m_spec, m_spec + 1);
            assert(pending@[m_spec] == 0);
            assert(queue.items().contains(m_spec as usize));
        }
        let m = match queue.pop() {
            Some(m) => m,
            None => { return Ok(Schedule { order, pushes: 0, pops: 0, max_len: 0, pending }); },
        };
        proof {
            let k = choose|k: int| 0 <= k < old_queue.len() && Some(m) == Some(old_queue[k])
                && queue.items() == old_queue.remove(k)
                && (forall|x: int| 0 <= x < old_queue.len() ==> #[trigger] old_queue[x] <= old_queue[k]);
            let km = choose|km: int| 0 <= km < old_queue.len() && old_queue[km] == m_spec as usize;
            assert(old_queue[km] <= m);
            assert(m as int == m_spec);
            old_queue.remove_ensures(k);
            assert forall|x: int| 0 <= x < queue.items().len() implies (#[trigger] queue.items()[x]) != m by {
                let x2 = if x < k { x } else { x + 1 };
                assert(old_queue[x2] != old_queue[k]);
            }
            assert forall|a: int, b: int| 0 <= a < queue.items().len() && 0 <= b < queue.items().len() && a != b
                implies queue.items()[a] != queue.items()[b] by {
                let a2 = if a < k { a } else { a + 1 };
                let b2 = if b < k { b } else { b + 1 };
                assert(old_queue[a2] != old_queue[b2]);
            }
            assert forall|x: int| 0 <= x < old_queue.len() && old_queue[x] != m implies queue.items().contains(#[trigger] old_queue[x]) by {
                if x < k {
                    assert(queue.items()[x] == old_queue[x]);
                } else {
                    assert(x != k);
                    assert(queue.items()[x - 1] == old_queue[x]);
                }
            }
            // the slot counts below t and below m differ by m's own slots
            assert forall|j: int| 0 <= j < n implies pending_below(ops@, rs, j, t)
                == pending_below(ops@, rs, j, m as int) + slots(ops@[m as int], j) by {
                lemma_pending_skip(ops@, rs, j, m + 1, t);
            }
            assert(order@.push(m) + desc_below(rs, m as int) =~= full);
        }
        let ghost order_before = order@;
        let ghost max_before = queue.max_len();
        let ghost len_before = old_queue.len();
        order.push(m);
        let ghost t_old = t;
        proof { t = m as int; }
        match ops[m] {
            GraphOp::Leaf => {
                proof {
                    assert forall|j: int| 0 <= j < t && rs[j] && #[trigger] pending@[j] == 0 implies queue.items().contains(j as usize) by {
                        assert(old_queue.contains(j as usize));
                        let x = choose|x: int| 0 <= x < old_queue.len() && old_queue[x] == j as usize;
                        assert(old_queue[x] != m);
                    }
                    lemma_queue_len(queue.items(), ops@, rs, pending@, t);
                    assert(order@.drop_last() =~= order_before);
                }
            },
            GraphOp::Binary { lhs, rhs, .. } => {
                let ghost q0 = queue.items();
                proof {
                    assert(lhs < m && rhs < m);
                    lemma_inputs_reachable(ops@, root as int, m as int);
                    lemma_pending_nonneg(ops@, rs, lhs as int, m as int);
                    lemma_pending_nonneg(ops@, rs, rhs as int, m as int);
                    lemma_distinct_below(queue.items(), t);
                    lemma_distinct_below(old_queue, t_old);
                    assert(!q0.contains(lhs));
                    assert(!q0.contains(rhs));
                }
                match complete_dependency(&mut pending, lhs, &mut queue) {
                    Ok(()) => {},
                    Err(()) => { return Err(lhs); },
                }
                let ghost q1 = queue.items();
                proof {
                    assert forall|x: int| 0 <= x < q1.len() implies #[trigger] q1[x] < t by {
                        if x < q0.len() {
                            assert(q1[x] == q0[x]);
                        }
                    }
                    assert(q1.no_duplicates());
                    lemma_distinct_below(q1, t);
                }
                match complete_dependency(&mut pending, rhs, &mut queue) {
                    Ok(()) => {},
                    Err(()) => { return Err(rhs); },
                }
                proof {
                    assert forall|j: int| 0 <= j < n implies #[trigger] pending@[j] == pending_below(ops@, rs, j, t) by {}
                    assert(queue.items().no_duplicates()) by {
                        if lhs != rhs {
                            assert(!q1.contains(rhs));
                        }
                    }
                    assert forall|x: int| 0 <= x < queue.items().len() implies rs[#[trigger] queue.items()[x] as int] && queue.items()[x] < t
                        && pending@[queue.items()[x] as int] == 0 by {
                        if x < q0.len() {
                            assert(queue.items()[x] == q0[x] || x >= q0.len());
                        }
                    }
                    lemma_distinct_below(queue.items(), t);
                    assert forall|j: int| 0 <= j < t && rs[j] && #[trigger] pending@[j] == 0 implies queue.items().contains(j as usize) by {
                        if j != lhs && j != rhs {
                            assert(old_queue.contains(j as usize));
                            let x = choose|x: int| 0 <= x < old_queue.len() && old_queue[x] == j as usize;
                            assert(old_queue[x] != m);
                            assert(q0.contains(j as usize));
                            let y = choose|y: int| 0 <= y < q0.len() && q0[y] == j as usize;
                            assert(queue.items()[y] == j as usize);
                        } else if j == rhs {
                            assert(queue.items().last() == rhs);
                        } else {
                            assert(q1.last() == lhs);
                            assert(queue.items()[q1.len() - 1] == lhs);
                        }
                    }
                    lemma_queue_len(queue.items(), ops@, rs, pending@, t);
                    assert(order@.drop_last() =~= order_before);
                }
            },
        }
    }
    proof {
        // nothing reachable is left below t
        lemma_desc_len(rs, t);
        if desc_below(rs, t).len() > 0 {
            lemma_desc_head(rs, t);
            let m2 = desc_below(rs, t)[0] as int;
            lemma_pending_skip(ops@, rs, m2, m2 + 1, t);
            lemma_pending_low(ops@, rs, m2, m2 + 1);
            assert(pending@[m2] == 0);
            assert(queue.items().contains(m2 as usize));
        }
        assert(order@ =~= full);
        assert forall|j: int| 0 <= j < n implies #[trigger] pending@[j] == 0 by {
            assert forall|x: int| 0 <= x < t implies !rs[x] by {
                if rs[x] {
                    assert(exists|y: int| 0 <= y < t && rs[y]);
                }
            }
            lemma_pending_skip(ops@, rs, j, 0, t);
        }
    }
    Ok(Schedule { order, pushes: queue.pushes_count(), pops: queue.pops_count(), max_len: queue.max_len_count(), pending })
}

proof fn lemma_desc_strict(reach: Seq<bool>, t: int)
    requires
        0 <= t <= usize::MAX,
    ensures
        forall|x: int, y: int| 0 <= x < y < desc_below(reach, t).len() ==> desc_below(reach, t)[x] > desc_below(reach, t)[y],
        forall|j: int| 0 <= j < t ==> (reach[j] <==> desc_below(reach, t).contains(j as usize)),
    decreases t,
{
    lemma_desc_len(reach, t);
    if t > 0 {
        lemma_desc_strict(reach, t - 1);
        lemma_desc_len(reach, t - 1);
        let d = desc_below(reach, t);
        let e = desc_below(reach, t - 1);
        if reach[t - 1] {
            assert forall|x: int, y: int| 0 <= x < y < d.len() implies d[x] > d[y] by {
                assert(d[y] == e[y - 1]);
                if x > 0 {
                    assert(d[x] == e[x - 1]);
                }
            }
            assert forall|j: int| 0 <= j < t implies (reach[j] <==> d.contains(j as usize)) by {
                if j == t - 1 {
                    assert(d[0] == j as usize);
                } else if reach[j] {
                    let k = choose|k: int| 0 <= k < e.len() && e[k] == j as usize;
                    assert(d[k + 1] == j as usize);
                } else if d.contains(j as usize) {
                    let k = choose|k: int| 0 <= k < d.len() && d[k] == j as usize;
                    assert(k > 0);
                    assert(e[k - 1] == j as usize);
                }
            }
        } else {
            assert forall|j: int| 0 <= j < t implies (reach[j] <==> d.contains(j as usize)) by {
                if j == t - 1 && d.contains(j as usize) {
                    let k = choose|k: int| 0 <= k < d.len() && d[k] == j as usize;
                }
            }
        }
    }
}

/// The backward pass runs exactly the nodes reachable from the root, and
/// every node runs before each of its inputs: if the node at position `a`
/// of the execution order uses the node at position `b` as an input, then
/// `a < b`.
pub proof fn lemma_consumer_runs_before_input(ops: Seq<GraphOp>, root: int, a: int, b: int)
    requires
        inputs_precede(ops),
        0 <= root < ops.len() <= usize::MAX,
        0 <= a < execution_order_spec(ops, root).len(),
        0 <= b < execution_order_spec(ops, root).len(),
        slots(ops[execution_order_spec(ops, root)[a] as int], execution_order_spec(ops, root)[b] as int) > 0,
    ensures
        a < b,
        forall|j: int| 0 <= j < ops.len() ==> (reachable(ops, root)[j] <==> execution_order_spec(ops, root).contains(j as usize)),
{
    let reach = reachable(ops, root);
    let n = ops.len() as int;
    lemma_desc_strict(reach, n);
    lemma_desc_len(reach, n);
    let order = execution_order_spec(ops, root);
    let c = order[a] as int;
    assert(ops[c] matches GraphOp::Binary { lhs, rhs, .. } ==> lhs < c && rhs < c);
    if a >= b {
        if a > b {
            assert(order[b] > order[a]);
        }
    }
}

/// A queue holding exactly the ready nodes, once each, is as long as the
/// ready set is large.
proof fn lemma_queue_len(q: Seq<usize>, ops: Seq<GraphOp>, reach: Seq<bool>, pending: Seq<usize>, t: int)
    requires
        q.no_duplicates(),
        forall|j: int| 0 <= j < pending.len() ==> #[trigger] pending[j] == pending_below(ops, reach, j, t),
        forall|x: int| 0 <= x < q.len() ==> reach[#[trigger] q[x] as int] && q[x] < t && q[x] < pending.len()
            && pending[q[x] as int] == 0,
        forall|j: int| 0 <= j < t && reach[j] && #[trigger] pending[j] == 0 ==> q.contains(j as usize),
        t <= pending.len(),
    ensures
        q.len() == ready_set(ops, reach, t).len(),
{
    assert(q.to_set() =~= ready_set(ops, reach, t)) by {
        assert forall|x: usize| q.to_set().contains(x) <==> ready_set(ops, reach, t).contains(x) by {
            if q.contains(x) {
                let k = choose|k: int| 0 <= k < q.len() && q[k] == x;
                assert(pending[q[k] as int] == 0);
            }
            if ready_set(ops, reach, t).contains(x) {
                assert(pending[x as int] == 0);
            }
        }
    }
    q.unique_seq_to_set();
}

/// A reachable consumer `k` below `t` makes the slot count of `j` positive.
proof fn lemma_pending_pos(ops: Seq<GraphOp>, reach: Seq<bool>, j: int, k: int, t: int)
    requires
        0 <= k < t,
        reach[k],
        slots(ops[k], j) > 0,
    ensures
        pending_below(ops, reach, j, t) > 0,
    decreases t,
{
    lemma_pending_nonneg(ops, reach, j, t - 1);
    if k < t - 1 {
        lemma_pending_pos(ops, reach, j, k, t - 1);
    }
}

} // verus!
