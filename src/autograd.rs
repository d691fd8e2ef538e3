//! Reverse-mode autograd tapes. A tape records leaves and binary operations
//! routed through the dispatcher; a backward pass yields the deterministic
//! schedule of rule applications and its telemetry.
use vstd::prelude::*;
use crate::dispatch::{
    implied_bits, route_binary, route_spec, route_tensor_binary, dense_check_spec, dispatch_keyset_for_tensors,
    BinaryOp, DispatchDecision, DispatchError,
};
use crate::meta::{canonical_strides, clamp_usize, DType, Device, ExecutionMode, MetaView, TensorMeta};
use crate::schedule::{execution_order_spec, inputs_precede, lemma_desc_len, max_ready, reachable, run_schedule, GraphOp, MAX_TAPE_NODES};

verus! {

/// Index of a node of a scalar [`Tape`].
#[derive(Debug, Clone, Copy, PartialEq, Eq, Structural, Hash)]
pub struct NodeId(pub usize);

/// Index of a node of a [`TensorTape`].
#[derive(Debug, Clone, Copy, PartialEq, Eq, Structural, Hash)]
pub struct TensorNodeId(pub usize);

/// What a backward call does when nested deeper than allowed.
#[derive(Debug, Clone, Copy, PartialEq, Eq, Structural)]
pub enum ReentrantPolicy {
    StrictFail,
    HardenedBoundedFallback,
}

/// Reentrancy limits of a backward call.
#[derive(Debug, Clone, Copy, PartialEq, Eq, Structural)]
pub struct BackwardOptions {
    pub max_reentrant_depth: usize,
    pub current_reentrant_depth: usize,
    pub policy: ReentrantPolicy,
}

impl BackwardOptions {
    pub fn strict_default() -> (r: BackwardOptions)
        ensures
            r == (BackwardOptions { max_reentrant_depth: 0, current_reentrant_depth: 0, policy: ReentrantPolicy::StrictFail }),
    {
        BackwardOptions { max_reentrant_depth: 0, current_reentrant_depth: 0, policy: ReentrantPolicy::StrictFail }
    }

    pub fn hardened_default() -> (r: BackwardOptions)
        ensures
            r == (BackwardOptions {
                max_reentrant_depth: 2,
                current_reentrant_depth: 0,
                policy: ReentrantPolicy::HardenedBoundedFallback,
            }),
    {
        BackwardOptions { max_reentrant_depth: 2, current_reentrant_depth: 0, policy: ReentrantPolicy::HardenedBoundedFallback }
    }

    pub fn for_mode(mode: ExecutionMode) -> (r: BackwardOptions)
        ensures
            mode == ExecutionMode::Strict ==> r == (BackwardOptions {
                max_reentrant_depth: 0,
                current_reentrant_depth: 0,
                policy: ReentrantPolicy::StrictFail,
            }),
            mode == ExecutionMode::Hardened ==> r == (BackwardOptions {
                max_reentrant_depth: 2,
                current_reentrant_depth: 0,
                policy: ReentrantPolicy::HardenedBoundedFallback,
            }),
    {
        match mode {
            ExecutionMode::Strict => BackwardOptions::strict_default(),
            ExecutionMode::Hardened => BackwardOptions::hardened_default(),
        }
    }
}

/// Telemetry of a scalar backward pass.
#[derive(Debug, Clone, PartialEq, Eq)]
pub struct SchedulerTelemetry {
    pub execution_order: Vec<NodeId>,
    pub queue_pushes: usize,
    pub queue_pops: usize,
    pub max_queue_len: usize,
    pub dependency_snapshot: Vec<usize>,
    pub reentrant_depth: usize,
    pub reentrant_guard_triggered: bool,
    pub hardened_fallback_used: bool,
}

/// Telemetry of a dense backward pass.
#[derive(Debug, Clone, PartialEq, Eq)]
pub struct TensorSchedulerTelemetry {
    pub execution_order: Vec<TensorNodeId>,
    pub queue_pushes: usize,
    pub queue_pops: usize,
    pub max_queue_len: usize,
    pub dependency_snapshot: Vec<usize>,
    pub reentrant_depth: usize,
    pub reentrant_guard_triggered: bool,
    pub hardened_fallback_used: bool,
}

/// A forward operation recorded on a scalar tape.
#[derive(Debug, Clone, PartialEq, Eq)]
pub struct OperationEvent {
    pub op: BinaryOp,
    pub lhs: NodeId,
    pub rhs: NodeId,
    pub out: NodeId,
    pub decision: DispatchDecision,
}

/// A forward operation recorded on a dense tape.
#[derive(Debug, Clone, PartialEq, Eq)]
pub struct TensorOperationEvent {
    pub op: BinaryOp,
    pub lhs: TensorNodeId,
    pub rhs: TensorNodeId,
    pub out: TensorNodeId,
    pub decision: DispatchDecision,
}

/// One rule application of a scalar backward pass, in execution order.
#[derive(Debug, Clone, Copy, PartialEq, Eq)]
pub struct BackwardStep {
    pub node: NodeId,
    pub rule: &'static str,
}

/// One rule application of a dense backward pass, in execution order.
#[derive(Debug, Clone, Copy, PartialEq, Eq)]
pub struct TensorBackwardStep {
    pub node: TensorNodeId,
    pub incoming_grad_len: usize,
    pub rule: &'static str,
}

/// The schedule of a scalar backward pass.
#[derive(Debug, Clone, PartialEq, Eq)]
pub struct BackwardPlan {
    pub steps: Vec<BackwardStep>,
    pub telemetry: SchedulerTelemetry,
}

/// The schedule of a dense backward pass.
#[derive(Debug, Clone, PartialEq, Eq)]
pub struct TensorBackwardPlan {
    pub steps: Vec<TensorBackwardStep>,
    pub telemetry: TensorSchedulerTelemetry,
}

/// Failures of the tapes.
#[derive(Debug, Clone, Copy, PartialEq, Eq)]
pub enum AutogradError {
    UnknownNode(NodeId),
    UnknownTensorNode(TensorNodeId),
    Dispatch(DispatchError),
    ReentrantDepthExceeded { current: usize, max: usize },
    DependencyUnderflow { node: NodeId },
    TensorDependencyUnderflow { node: TensorNodeId },
    TensorGradientShapeMismatch { node: TensorNodeId, expected: usize, actual: usize },
}

/// The backward rule recorded for a node.
pub open spec fn rule_of(op: GraphOp) -> &'static str {
    match op {
        GraphOp::Leaf => "leaf",
        GraphOp::Binary { op, .. } => match op {
            BinaryOp::Add => "d(a+b)/da=1; d(a+b)/db=1",
            BinaryOp::Sub => "d(a-b)/da=1; d(a-b)/db=-1",
            BinaryOp::Mul => "d(a*b)/da=b; d(a*b)/db=a",
            BinaryOp::Div => "d(a/b)/da=1/b; d(a/b)/db=-(a/b^2)",
        },
    }
}

fn rule_for(op: GraphOp) -> (r: &'static str)
    ensures
        r == rule_of(op),
{
    match op {
        GraphOp::Leaf => "leaf",
        GraphOp::Binary { op, .. } => match op {
            BinaryOp::Add => "d(a+b)/da=1; d(a+b)/db=1",
            BinaryOp::Sub => "d(a-b)/da=1; d(a-b)/db=-1",
            BinaryOp::Mul => "d(a*b)/da=b; d(a*b)/db=a",
            BinaryOp::Div => "d(a/b)/da=1/b; d(a/b)/db=-(a/b^2)",
        },
    }
}

/// The steps of a scalar pass that runs `order`: one per node run, in
/// order, naming the node's rule.
pub open spec fn scalar_steps(ops: Seq<GraphOp>, order: Seq<usize>) -> Seq<BackwardStep> {
    order.map_values(|i: usize| BackwardStep { node: NodeId(i), rule: rule_of(ops[i as int]) })
}

/// The reentrancy outcome: `None` when the call must fail, else the
/// recorded depth and whether the hardened fallback fired.
pub open spec fn reentry(options: BackwardOptions) -> Option<(usize, bool)> {
    if options.current_reentrant_depth > options.max_reentrant_depth {
        match options.policy {
            ReentrantPolicy::StrictFail => None,
            ReentrantPolicy::HardenedBoundedFallback => Some((options.max_reentrant_depth, true)),
        }
    } else {
        Some((options.current_reentrant_depth, false))
    }
}

fn check_reentry(options: BackwardOptions) -> (r: Option<(usize, bool)>)
    ensures
        r == reentry(options),
{
    if options.current_reentrant_depth > options.max_reentrant_depth {
        match options.policy {
            ReentrantPolicy::StrictFail => None,
            ReentrantPolicy::HardenedBoundedFallback => Some((options.max_reentrant_depth, true)),
        }
    } else {
        Some((options.current_reentrant_depth, false))
    }
}

/// A scalar autograd tape: the graph of leaves and binary operations.
pub struct Tape {
    ops: Vec<GraphOp>,
    requires_grad: Vec<bool>,
}

impl Tape {
    pub closed spec fn spec_ops(&self) -> Seq<GraphOp> {
        self.ops@
    }

    pub closed spec fn spec_requires_grad(&self) -> Seq<bool> {
        self.requires_grad@
    }

    /// Nodes agree in number, inputs precede their consumers, and the tape
    /// stays within the scheduler's capacity.
    pub open spec fn wf(&self) -> bool {
        &&& self.spec_ops().len() == self.spec_requires_grad().len()
        &&& inputs_precede(self.spec_ops())
        &&& self.spec_ops().len() <= MAX_TAPE_NODES
    }

    pub fn new() -> (r: Tape)
        ensures
            r.wf(),
            r.spec_ops().len() == 0,
    {
        Tape { ops: Vec::new(), requires_grad: Vec::new() }
    }

    pub fn node_count(&self) -> (r: usize)
        ensures
            r == self.spec_ops().len(),
    {
        self.ops.len()
    }

    /// Appends a leaf.
    pub fn leaf(&mut self, requires_grad: bool) -> (r: NodeId)
        requires
            old(self).wf(),
            old(self).spec_ops().len() < MAX_TAPE_NODES,
        ensures
            final(self).wf(),
            r == NodeId(old(self).spec_ops().len() as usize),
            final(self).spec_ops() == old(self).spec_ops().push(GraphOp::Leaf),
            final(self).spec_requires_grad() == old(self).spec_requires_grad().push(requires_grad),
    {
        let id = NodeId(self.ops.len());
        self.ops.push(GraphOp::Leaf);
        self.requires_grad.push(requires_grad);
        proof { assert_inputs_precede_push(old(self).spec_ops(), GraphOp::Leaf); }
        id
    }

    /// The operation recorded for a node.
    pub fn node_op(&self, node: NodeId) -> (r: Result<GraphOp, AutogradError>)
        ensures
            node.0 < self.spec_ops().len() ==> r == Ok::<GraphOp, AutogradError>(self.spec_ops()[node.0 as int]),
            node.0 >= self.spec_ops().len() ==> r == Err::<GraphOp, AutogradError>(AutogradError::UnknownNode(node)),
    {
        if node.0 < self.ops.len() {
            Ok(self.ops[node.0])
        } else {
            Err(AutogradError::UnknownNode(node))
        }
    }

    /// Whether a node requires a gradient.
    pub fn node_requires_grad(&self, node: NodeId) -> (r: Result<bool, AutogradError>)
        requires
            self.wf(),
        ensures
            node.0 < self.spec_ops().len() ==> r == Ok::<bool, AutogradError>(self.spec_requires_grad()[node.0 as int]),
            node.0 >= self.spec_ops().len() ==> r == Err::<bool, AutogradError>(AutogradError::UnknownNode(node)),
    {
        if node.0 < self.ops.len() {
            Ok(self.requires_grad[node.0])
        } else {
            Err(AutogradError::UnknownNode(node))
        }
    }

    pub fn add(&mut self, lhs: NodeId, rhs: NodeId, mode: ExecutionMode) -> (r: Result<(NodeId, OperationEvent), AutogradError>)
        requires
            old(self).wf(),
            old(self).spec_ops().len() < MAX_TAPE_NODES,
        ensures
            final(self).wf(),
            scalar_binary_post(*old(self), *final(self), BinaryOp::Add, lhs, rhs, mode, r),
    {
        self.binary(BinaryOp::Add, lhs, rhs, mode)
    }

    pub fn sub(&mut self, lhs: NodeId, rhs: NodeId, mode: ExecutionMode) -> (r: Result<(NodeId, OperationEvent), AutogradError>)
        requires
            old(self).wf(),
            old(self).spec_ops().len() < MAX_TAPE_NODES,
        ensures
            final(self).wf(),
            scalar_binary_post(*old(self), *final(self), BinaryOp::Sub, lhs, rhs, mode, r),
    {
        self.binary(BinaryOp::Sub, lhs, rhs, mode)
    }

    pub fn mul(&mut self, lhs: NodeId, rhs: NodeId, mode: ExecutionMode) -> (r: Result<(NodeId, OperationEvent), AutogradError>)
        requires
            old(self).wf(),
            old(self).spec_ops().len() < MAX_TAPE_NODES,
        ensures
            final(self).wf(),
            scalar_binary_post(*old(self), *final(self), BinaryOp::Mul, lhs, rhs, mode, r),
    {
        self.binary(BinaryOp::Mul, lhs, rhs, mode)
    }

    pub fn div(&mut self, lhs: NodeId, rhs: NodeId, mode: ExecutionMode) -> (r: Result<(NodeId, OperationEvent), AutogradError>)
        requires
            old(self).wf(),
            old(self).spec_ops().len() < MAX_TAPE_NODES,
        ensures
            final(self).wf(),
            scalar_binary_post(*old(self), *final(self), BinaryOp::Div, lhs, rhs, mode, r),
    {
        self.binary(BinaryOp::Div, lhs, rhs, mode)
    }

    /// Routes `op` through the dispatcher and appends its node.
    fn binary(&mut self, op: BinaryOp, lhs: NodeId, rhs: NodeId, mode: ExecutionMode) -> (r: Result<(NodeId, OperationEvent), AutogradError>)
        requires
            old(self).wf(),
            old(self).spec_ops().len() < MAX_TAPE_NODES,
        ensures
            final(self).wf(),
            scalar_binary_post(*old(self), *final(self), op, lhs, rhs, mode, r),
    {
        if lhs.0 >= self.ops.len() {
            return Err(AutogradError::UnknownNode(lhs));
        }
        if rhs.0 >= self.ops.len() {
            return Err(AutogradError::UnknownNode(rhs));
        }
        let requires_grad = self.requires_grad[lhs.0] || self.requires_grad[rhs.0];
        let scalar_meta = TensorMeta::scalar(DType::F64, Device::Cpu);
        let keyset = dispatch_keyset_for_tensors(&scalar_meta, &scalar_meta, requires_grad);
        let decision = match route_binary(op, mode, keyset, false) {
            Ok(d) => d,
            Err(e) => return Err(AutogradError::Dispatch(DispatchError::Key(e))),
        };
        let out = NodeId(self.ops.len());
        let node_op = GraphOp::Binary { op, lhs: lhs.0, rhs: rhs.0 };
        self.ops.push(node_op);
        self.requires_grad.push(requires_grad);
        proof { assert_inputs_precede_push(old(self).spec_ops(), node_op); }
        Ok((out, OperationEvent { op, lhs, rhs, out, decision }))
    }

    pub fn backward(&self, root: NodeId) -> (r: Result<BackwardPlan, AutogradError>)
        requires
            self.wf(),
        ensures
            scalar_backward_post(*self, root, BackwardOptions::strict_default_spec(), r),
    {
        self.backward_with_options(root, BackwardOptions::strict_default())
    }

    /// Schedules the reverse pass from `root`. The nodes reachable from the
    /// root run highest id first (so each node runs before its inputs), and
    /// each node run records one step naming its rule.
    pub fn backward_with_options(&self, root: NodeId, options: BackwardOptions) -> (r: Result<BackwardPlan, AutogradError>)
        requires
            self.wf(),
        ensures
            scalar_backward_post(*self, root, options, r),
    {
        if root.0 >= self.ops.len() {
            return Err(AutogradError::UnknownNode(root));
        }
        let (reentrant_depth, fallback) = match check_reentry(options) {
            Some(v) => v,
            None => {
                return Err(AutogradError::ReentrantDepthExceeded {
                    current: options.current_reentrant_depth,
                    max: options.max_reentrant_depth,
                });
            },
        };
        let schedule = match run_schedule(&self.ops, root.0) {
            Ok(s) => s,
            Err(node) => return Err(AutogradError::DependencyUnderflow { node: NodeId(node) }),
        };
        let ghost order_spec = execution_order_spec(self.ops@, root.0 as int);
        proof {
            lemma_desc_len(reachable(self.ops@, root.0 as int), self.ops@.len() as int);
            assert(schedule.pending@ =~= Seq::new(self.ops@.len(), |j: int| 0usize));
        }
        let mut execution_order: Vec<NodeId> = Vec::new();
        let mut steps: Vec<BackwardStep> = Vec::new();
        let mut k: usize = 0;
        while k < schedule.order.len()
            invariant
                schedule.order@ == order_spec,
                k <= order_spec.len(),
                self.wf(),
                forall|x: int| 0 <= x < order_spec.len() ==> #[trigger] order_spec[x] < self.ops@.len(),
                execution_order@ == order_spec.subrange(0, k as int).map_values(|i: usize| NodeId(i)),
                steps@ == scalar_steps(self.ops@, order_spec.subrange(0, k as int)),
            decreases order_spec.len() - k,
        {
            let i = schedule.order[k];
            execution_order.push(NodeId(i));
            let op = self.ops[i];
            steps.push(BackwardStep { node: NodeId(i), rule: rule_for(op) });
            k = k + 1;
            assert(steps@ =~= scalar_steps(self.ops@, order_spec.subrange(0, k as int)));
            assert(execution_order@ =~= order_spec.subrange(0, k as int).map_values(|i: usize| NodeId(i)));
        }
        proof { assert(order_spec.subrange(0, k as int) =~= order_spec); }
        Ok(BackwardPlan {
            steps,
            telemetry: SchedulerTelemetry {
                execution_order,
                queue_pushes: schedule.pushes,
                queue_pops: schedule.pops,
                max_queue_len: schedule.max_len,
                dependency_snapshot: schedule.pending,
                reentrant_depth,
                reentrant_guard_triggered: fallback,
                hardened_fallback_used: fallback,
            },
        })
    }
}

impl BackwardOptions {
    pub open spec fn strict_default_spec() -> BackwardOptions {
        BackwardOptions { max_reentrant_depth: 0, current_reentrant_depth: 0, policy: ReentrantPolicy::StrictFail }
    }
}

proof fn assert_inputs_precede_push(ops: Seq<GraphOp>, op: GraphOp)
    requires
        inputs_precede(ops),
        match op {
            GraphOp::Leaf => true,
            GraphOp::Binary { lhs, rhs, .. } => lhs < ops.len() && rhs < ops.len(),
        },
    ensures
        inputs_precede(ops.push(op)),
{
    assert forall|i: int| 0 <= i < ops.push(op).len() implies match #[trigger] ops.push(op)[i] {
        GraphOp::Leaf => true,
        GraphOp::Binary { lhs, rhs, .. } => lhs < i && rhs < i,
    } by {
        if i < ops.len() {
            assert(ops.push(op)[i] == ops[i]);
        }
    }
}

/// What a scalar binary operation guarantees: an unknown input is reported
/// (lhs first); a key error is passed on; otherwise one node is appended,
/// requiring a gradient iff an input does, and the event mirrors the
/// dispatcher's decision.
pub open spec fn scalar_binary_post(
    pre: Tape,
    post: Tape,
    op: BinaryOp,
    lhs: NodeId,
    rhs: NodeId,
    mode: ExecutionMode,
    r: Result<(NodeId, OperationEvent), AutogradError>,
) -> bool {
    let n = pre.spec_ops().len();
    if lhs.0 >= n {
        r == Err::<(NodeId, OperationEvent), AutogradError>(AutogradError::UnknownNode(lhs)) && post == pre
    } else if rhs.0 >= n {
        r == Err::<(NodeId, OperationEvent), AutogradError>(AutogradError::UnknownNode(rhs)) && post == pre
    } else {
        let rg = pre.spec_requires_grad()[lhs.0 as int] || pre.spec_requires_grad()[rhs.0 as int];
        let cpu = MetaView { shape: Seq::empty(), strides: Seq::empty(), storage_offset: 0, dtype: DType::F64, device: Device::Cpu };
        match route_spec(op, mode, implied_bits(cpu, cpu, rg), false) {
            Err(e) => r == Err::<(NodeId, OperationEvent), AutogradError>(AutogradError::Dispatch(DispatchError::Key(e))) && post == pre,
            Ok(d) => {
                &&& post.spec_ops() == pre.spec_ops().push(GraphOp::Binary { op, lhs: lhs.0, rhs: rhs.0 })
                &&& post.spec_requires_grad() == pre.spec_requires_grad().push(rg)
                &&& r == Ok::<(NodeId, OperationEvent), AutogradError>((NodeId(n as usize), OperationEvent { op, lhs, rhs, out: NodeId(n as usize), decision: d }))
            },
        }
    }
}

/// What a scalar backward pass guarantees: an unknown root or a strict
/// reentrancy overflow is refused; otherwise the reachable nodes run highest
/// id first, every one is pushed and popped once, every dependency count
/// ends at zero, and each node run records one step, in execution order.
pub open spec fn scalar_backward_post(tape: Tape, root: NodeId, options: BackwardOptions, r: Result<BackwardPlan, AutogradError>) -> bool {
    let n = tape.spec_ops().len();
    if root.0 >= n {
        r == Err::<BackwardPlan, AutogradError>(AutogradError::UnknownNode(root))
    } else {
        match reentry(options) {
            None => r == Err::<BackwardPlan, AutogradError>(AutogradError::ReentrantDepthExceeded {
                current: options.current_reentrant_depth,
                max: options.max_reentrant_depth,
            }),
            Some((depth, fallback)) => r matches Ok(plan) && {
                let order = execution_order_spec(tape.spec_ops(), root.0 as int);
                &&& plan.telemetry.execution_order@ == order.map_values(|i: usize| NodeId(i))
                &&& plan.steps@ == scalar_steps(tape.spec_ops(), order)
                &&& plan.telemetry.queue_pops == order.len()
                &&& plan.telemetry.queue_pushes == order.len()
                &&& 1 <= plan.telemetry.max_queue_len <= n
                &&& plan.telemetry.max_queue_len == max_ready(tape.spec_ops(), reachable(tape.spec_ops(), root.0 as int), order)
                &&& plan.telemetry.dependency_snapshot@ == Seq::new(n, |j: int| 0usize)
                &&& plan.telemetry.reentrant_depth == depth
                &&& plan.telemetry.reentrant_guard_triggered == fallback
                &&& plan.telemetry.hardened_fallback_used == fallback
            },
        }
    }
}

/// Replaying a backward pass: two passes over the same tape from the same
/// root with the same options agree on success or the error, and on the
/// execution order, the steps, the queue push and pop counts, the longest
/// queue, the dependency snapshot and the reentrancy record.
pub proof fn lemma_backward_replay(
    tape: Tape,
    root: NodeId,
    options: BackwardOptions,
    first: Result<BackwardPlan, AutogradError>,
    second: Result<BackwardPlan, AutogradError>,
)
    requires
        tape.wf(),
        scalar_backward_post(tape, root, options, first),
        scalar_backward_post(tape, root, options, second),
    ensures
        first is Ok <==> second is Ok,
        first is Err ==> first == second,
        first is Ok && second is Ok ==> {
            let p = first->Ok_0;
            let q = second->Ok_0;
            &&& p.telemetry.execution_order@ == q.telemetry.execution_order@
            &&& p.steps@ == q.steps@
            &&& p.telemetry.queue_pushes == q.telemetry.queue_pushes
            &&& p.telemetry.queue_pops == q.telemetry.queue_pops
            &&& p.telemetry.max_queue_len == q.telemetry.max_queue_len
            &&& p.telemetry.dependency_snapshot@ == q.telemetry.dependency_snapshot@
            &&& p.telemetry.reentrant_depth == q.telemetry.reentrant_depth
            &&& p.telemetry.reentrant_guard_triggered == q.telemetry.reentrant_guard_triggered
            &&& p.telemetry.hardened_fallback_used == q.telemetry.hardened_fallback_used
        },
{
}

/// The same replay law for the dense tape.
pub proof fn lemma_tensor_backward_replay(
    tape: TensorTape,
    root: TensorNodeId,
    options: BackwardOptions,
    first: Result<TensorBackwardPlan, AutogradError>,
    second: Result<TensorBackwardPlan, AutogradError>,
)
    requires
        tape.wf(),
        tensor_backward_post(tape, root, options, first),
        tensor_backward_post(tape, root, options, second),
    ensures
        first is Ok <==> second is Ok,
        first is Err ==> first == second,
        first is Ok && second is Ok ==> {
            let p = first->Ok_0;
            let q = second->Ok_0;
            &&& p.telemetry.execution_order@ == q.telemetry.execution_order@
            &&& p.steps@ == q.steps@
            &&& p.telemetry.queue_pushes == q.telemetry.queue_pushes
            &&& p.telemetry.queue_pops == q.telemetry.queue_pops
            &&& p.telemetry.max_queue_len == q.telemetry.max_queue_len
            &&& p.telemetry.dependency_snapshot@ == q.telemetry.dependency_snapshot@
            &&& p.telemetry.reentrant_depth == q.telemetry.reentrant_depth
            &&& p.telemetry.reentrant_guard_triggered == q.telemetry.reentrant_guard_triggered
            &&& p.telemetry.hardened_fallback_used == q.telemetry.hardened_fallback_used
        },
{
}

/// Element count of a node's tensor, as the dense pass reads it.
pub open spec fn node_numel(m: MetaView) -> usize {
    clamp_usize(m.numel()) as usize
}

/// The steps of a dense pass that runs `order`: one per node run, in
/// order, with the element count of the node's tensor.
pub open spec fn tensor_steps(ops: Seq<GraphOp>, metas: Seq<MetaView>, order: Seq<usize>) -> Seq<TensorBackwardStep> {
    order.map_values(|i: usize| TensorBackwardStep {
        node: TensorNodeId(i),
        incoming_grad_len: node_numel(metas[i as int]),
        rule: rule_of(ops[i as int]),
    })
}

/// A dense autograd tape: the graph plus each node's layout metadata.
pub struct TensorTape {
    ops: Vec<GraphOp>,
    requires_grad: Vec<bool>,
    metas: Vec<TensorMeta>,
}

impl TensorTape {
    pub closed spec fn spec_ops(&self) -> Seq<GraphOp> {
        self.ops@
    }

    pub closed spec fn spec_requires_grad(&self) -> Seq<bool> {
        self.requires_grad@
    }

    pub closed spec fn spec_metas(&self) -> Seq<MetaView> {
        self.metas@.map_values(|m: TensorMeta| m@)
    }

    /// As for [`Tape::wf`], and a binary node has the shape of both inputs.
    pub open spec fn wf(&self) -> bool {
        &&& self.spec_ops().len() == self.spec_requires_grad().len()
        &&& self.spec_ops().len() == self.spec_metas().len()
        &&& inputs_precede(self.spec_ops())
        &&& self.spec_ops().len() <= MAX_TAPE_NODES
        &&& forall|i: int| 0 <= i < self.spec_ops().len() ==> match #[trigger] self.spec_ops()[i] {
            GraphOp::Leaf => true,
            GraphOp::Binary { lhs, rhs, .. } => self.spec_metas()[lhs as int].shape == self.spec_metas()[i].shape
                && self.spec_metas()[rhs as int].shape == self.spec_metas()[i].shape,
        }
    }

    pub fn new() -> (r: TensorTape)
        ensures
            r.wf(),
            r.spec_ops().len() == 0,
    {
        let r = TensorTape { ops: Vec::new(), requires_grad: Vec::new(), metas: Vec::new() };
        assert(r.spec_metas() =~= Seq::empty());
        r
    }

    pub fn node_count(&self) -> (r: usize)
        ensures
            r == self.spec_ops().len(),
    {
        self.ops.len()
    }

    /// Appends a leaf holding a tensor with the given layout.
    pub fn leaf_tensor(&mut self, meta: TensorMeta, requires_grad: bool) -> (r: TensorNodeId)
        requires
            old(self).wf(),
            old(self).spec_ops().len() < MAX_TAPE_NODES,
        ensures
            final(self).wf(),
            r == TensorNodeId(old(self).spec_ops().len() as usize),
            final(self).spec_ops() == old(self).spec_ops().push(GraphOp::Leaf),
            final(self).spec_requires_grad() == old(self).spec_requires_grad().push(requires_grad),
            final(self).spec_metas() == old(self).spec_metas().push(meta@),
    {
        let id = TensorNodeId(self.ops.len());
        let ghost m0 = self.metas@;
        self.ops.push(GraphOp::Leaf);
        self.requires_grad.push(requires_grad);
        self.metas.push(meta);
        proof {
            assert_inputs_precede_push(old(self).spec_ops(), GraphOp::Leaf);
            assert(self.spec_metas() =~= old(self).spec_metas().push(meta@));
            assert forall|i: int| 0 <= i < self.spec_ops().len() implies match #[trigger] self.spec_ops()[i] {
                GraphOp::Leaf => true,
                GraphOp::Binary { lhs, rhs, .. } => self.spec_metas()[lhs as int].shape == self.spec_metas()[i].shape
                    && self.spec_metas()[rhs as int].shape == self.spec_metas()[i].shape,
            } by {
                if i < old(self).spec_ops().len() {
                    assert(self.spec_ops()[i] == old(self).spec_ops()[i]);
                    assert(old(self).spec_ops()[i] matches GraphOp::Binary { lhs, rhs, .. } ==> lhs < i && rhs < i);
                }
            }
        }
        id
    }

    /// The layout metadata of a node's tensor.
    pub fn tensor(&self, node: TensorNodeId) -> (r: Result<&TensorMeta, AutogradError>)
        requires
            self.wf(),
        ensures
            node.0 < self.spec_ops().len() ==> (r matches Ok(m) && m@ == self.spec_metas()[node.0 as int]),
            node.0 >= self.spec_ops().len() ==> r == Err::<&TensorMeta, AutogradError>(AutogradError::UnknownTensorNode(node)),
    {
        if node.0 < self.metas.len() {
            Ok(&self.metas[node.0])
        } else {
            Err(AutogradError::UnknownTensorNode(node))
        }
    }

    /// The operation recorded for a node.
    pub fn node_op(&self, node: TensorNodeId) -> (r: Result<GraphOp, AutogradError>)
        ensures
            node.0 < self.spec_ops().len() ==> r == Ok::<GraphOp, AutogradError>(self.spec_ops()[node.0 as int]),
            node.0 >= self.spec_ops().len() ==> r == Err::<GraphOp, AutogradError>(AutogradError::UnknownTensorNode(node)),
    {
        if node.0 < self.ops.len() {
            Ok(self.ops[node.0])
        } else {
            Err(AutogradError::UnknownTensorNode(node))
        }
    }

    /// Whether a node requires a gradient.
    pub fn node_requires_grad(&self, node: TensorNodeId) -> (r: Result<bool, AutogradError>)
        requires
            self.wf(),
        ensures
            node.0 < self.spec_ops().len() ==> r == Ok::<bool, AutogradError>(self.spec_requires_grad()[node.0 as int]),
            node.0 >= self.spec_ops().len() ==> r == Err::<bool, AutogradError>(AutogradError::UnknownTensorNode(node)),
    {
        if node.0 < self.ops.len() {
            Ok(self.requires_grad[node.0])
        } else {
            Err(AutogradError::UnknownTensorNode(node))
        }
    }

    pub fn add(&mut self, lhs: TensorNodeId, rhs: TensorNodeId, mode: ExecutionMode) -> (r: Result<(TensorNodeId, TensorOperationEvent), AutogradError>)
        requires
            old(self).wf(),
            old(self).spec_ops().len() < MAX_TAPE_NODES,
        ensures
            final(self).wf(),
            tensor_binary_post(*old(self), *final(self), BinaryOp::Add, lhs, rhs, mode, r),
    {
        self.binary(BinaryOp::Add, lhs, rhs, mode)
    }

    pub fn sub(&mut self, lhs: TensorNodeId, rhs: TensorNodeId, mode: ExecutionMode) -> (r: Result<(TensorNodeId, TensorOperationEvent), AutogradError>)
        requires
            old(self).wf(),
            old(self).spec_ops().len() < MAX_TAPE_NODES,
        ensures
            final(self).wf(),
            tensor_binary_post(*old(self), *final(self), BinaryOp::Sub, lhs, rhs, mode, r),
    {
        self.binary(BinaryOp::Sub, lhs, rhs, mode)
    }

    pub fn mul(&mut self, lhs: TensorNodeId, rhs: TensorNodeId, mode: ExecutionMode) -> (r: Result<(TensorNodeId, TensorOperationEvent), AutogradError>)
        requires
            old(self).wf(),
            old(self).spec_ops().len() < MAX_TAPE_NODES,
        ensures
            final(self).wf(),
            tensor_binary_post(*old(self), *final(self), BinaryOp::Mul, lhs, rhs, mode, r),
    {
        self.binary(BinaryOp::Mul, lhs, rhs, mode)
    }

    pub fn div(&mut self, lhs: TensorNodeId, rhs: TensorNodeId, mode: ExecutionMode) -> (r: Result<(TensorNodeId, TensorOperationEvent), AutogradError>)
        requires
            old(self).wf(),
            old(self).spec_ops().len() < MAX_TAPE_NODES,
        ensures
            final(self).wf(),
            tensor_binary_post(*old(self), *final(self), BinaryOp::Div, lhs, rhs, mode, r),
    {
        self.binary(BinaryOp::Div, lhs, rhs, mode)
    }

    /// Routes `op` through the dense dispatcher and appends a node whose
    /// tensor is a fresh contiguous one with the left operand's shape.
    fn binary(&mut self, op: BinaryOp, lhs: TensorNodeId, rhs: TensorNodeId, mode: ExecutionMode) -> (r: Result<(TensorNodeId, TensorOperationEvent), AutogradError>)
        requires
            old(self).wf(),
            old(self).spec_ops().len() < MAX_TAPE_NODES,
        ensures
            final(self).wf(),
            tensor_binary_post(*old(self), *final(self), op, lhs, rhs, mode, r),
    {
        if lhs.0 >= self.ops.len() {
            return Err(AutogradError::UnknownTensorNode(lhs));
        }
        if rhs.0 >= self.ops.len() {
            return Err(AutogradError::UnknownTensorNode(rhs));
        }
        let requires_grad = self.requires_grad[lhs.0] || self.requires_grad[rhs.0];
        let decision = match route_tensor_binary(op, mode, &self.metas[lhs.0], &self.metas[rhs.0], requires_grad) {
            Ok(d) => d,
            Err(e) => return Err(AutogradError::Dispatch(e)),
        };
        let lhs_meta = &self.metas[lhs.0];
        let out_meta = TensorMeta::from_shape(copy_sizes(lhs_meta.shape()), lhs_meta.dtype(), lhs_meta.device());
        let out = TensorNodeId(self.ops.len());
        let node_op = GraphOp::Binary { op, lhs: lhs.0, rhs: rhs.0 };
        self.ops.push(node_op);
        self.requires_grad.push(requires_grad);
        self.metas.push(out_meta);
        proof {
            assert_inputs_precede_push(old(self).spec_ops(), node_op);
            assert(self.spec_metas() =~= old(self).spec_metas().push(out_meta@));
            assert forall|i: int| 0 <= i < self.spec_ops().len() implies match #[trigger] self.spec_ops()[i] {
                GraphOp::Leaf => true,
                GraphOp::Binary { lhs, rhs, .. } => self.spec_metas()[lhs as int].shape == self.spec_metas()[i].shape
                    && self.spec_metas()[rhs as int].shape == self.spec_metas()[i].shape,
            } by {
                if i < old(self).spec_ops().len() {
                    assert(self.spec_ops()[i] == old(self).spec_ops()[i]);
                    assert(old(self).spec_ops()[i] matches GraphOp::Binary { lhs, rhs, .. } ==> lhs < i && rhs < i);
                }
            }
        }
        Ok((out, TensorOperationEvent { op, lhs, rhs, out, decision }))
    }

    pub fn backward(&self, root: TensorNodeId) -> (r: Result<TensorBackwardPlan, AutogradError>)
        requires
            self.wf(),
        ensures
            tensor_backward_post(*self, root, BackwardOptions::strict_default_spec(), r),
    {
        self.backward_with_options(root, BackwardOptions::strict_default())
    }

    /// Schedules the dense reverse pass from `root`, as for
    /// [`Tape::backward_with_options`]; each step also records the length of
    /// the incoming gradient, and a binary node whose inputs' element counts
    /// differ from its own fails closed.
    pub fn backward_with_options(&self, root: TensorNodeId, options: BackwardOptions) -> (r: Result<TensorBackwardPlan, AutogradError>)
        requires
            self.wf(),
        ensures
            tensor_backward_post(*self, root, options, r),
    {
        if root.0 >= self.ops.len() {
            return Err(AutogradError::UnknownTensorNode(root));
        }
        let (reentrant_depth, fallback) = match check_reentry(options) {
            Some(v) => v,
            None => {
                return Err(AutogradError::ReentrantDepthExceeded {
                    current: options.current_reentrant_depth,
                    max: options.max_reentrant_depth,
                });
            },
        };
        let schedule = match run_schedule(&self.ops, root.0) {
            Ok(s) => s,
            Err(node) => return Err(AutogradError::TensorDependencyUnderflow { node: TensorNodeId(node) }),
        };
        let ghost order_spec = execution_order_spec(self.ops@, root.0 as int);
        proof {
            lemma_desc_len(reachable(self.ops@, root.0 as int), self.ops@.len() as int);
            assert(schedule.pending@ =~= Seq::new(self.ops@.len(), |j: int| 0usize));
        }
        let mut execution_order: Vec<TensorNodeId> = Vec::new();
        let mut steps: Vec<TensorBackwardStep> = Vec::new();
        let mut k: usize = 0;
        while k < schedule.order.len()
            invariant
                schedule.order@ == order_spec,
                k <= order_spec.len(),
                self.wf(),
                forall|x: int| 0 <= x < order_spec.len() ==> #[trigger] order_spec[x] < self.ops@.len(),
                execution_order@ == order_spec.subrange(0, k as int).map_values(|i: usize| TensorNodeId(i)),
                steps@ == tensor_steps(self.spec_ops(), self.spec_metas(), order_spec.subrange(0, k as int)),
            decreases order_spec.len() - k,
        {
            let i = schedule.order[k];
            execution_order.push(TensorNodeId(i));
            let op = self.ops[i];
            let incoming = self.metas[i].numel();
            proof { assert(self.spec_metas()[i as int] == self.metas@[i as int]@); }
            match op {
                GraphOp::Leaf => {},
                GraphOp::Binary { lhs, rhs, .. } => {
                    proof {
                        assert(self.spec_ops()[i as int] == op);
                        assert(lhs < i && rhs < i);
                        assert(self.spec_metas()[lhs as int] == self.metas@[lhs as int]@);
                        assert(self.spec_metas()[rhs as int] == self.metas@[rhs as int]@);
                    }
                    ensure_tensor_len(TensorNodeId(lhs), self.metas[lhs].numel(), incoming)?;
                    ensure_tensor_len(TensorNodeId(rhs), self.metas[rhs].numel(), incoming)?;
                },
            }
            steps.push(TensorBackwardStep { node: TensorNodeId(i), incoming_grad_len: incoming, rule: rule_for(op) });
            k = k + 1;
            assert(steps@ =~= tensor_steps(self.spec_ops(), self.spec_metas(), order_spec.subrange(0, k as int)));
            assert(execution_order@ =~= order_spec.subrange(0, k as int).map_values(|i: usize| TensorNodeId(i)));
        }
        proof { assert(order_spec.subrange(0, k as int) =~= order_spec); }
        Ok(TensorBackwardPlan {
            steps,
            telemetry: TensorSchedulerTelemetry {
                execution_order,
                queue_pushes: schedule.pushes,
                queue_pops: schedule.pops,
                max_queue_len: schedule.max_len,
                dependency_snapshot: schedule.pending,
                reentrant_depth,
                reentrant_guard_triggered: fallback,
                hardened_fallback_used: fallback,
            },
        })
    }
}

/// Fails closed when a gradient's length differs from the tensor it feeds.
pub fn ensure_tensor_len(node: TensorNodeId, expected: usize, actual: usize) -> (r: Result<(), AutogradError>)
    ensures
        expected == actual ==> r is Ok,
        expected != actual ==> r == Err::<(), AutogradError>(AutogradError::TensorGradientShapeMismatch { node, expected, actual }),
{
    if expected != actual {
        return Err(AutogradError::TensorGradientShapeMismatch { node, expected, actual });
    }
    Ok(())
}

fn copy_sizes(s: &[usize]) -> (r: Vec<usize>)
    ensures
        r@ == s@,
{
    let mut out: Vec<usize> = Vec::new();
    let mut i: usize = 0;
    while i < s.len()
        invariant
            i <= s@.len(),
            out@ == s@.subrange(0, i as int),
        decreases s@.len() - i,
    {
        out.push(s[i]);
        i = i + 1;
        assert(out@ =~= s@.subrange(0, i as int));
    }
    assert(s@.subrange(0, s@.len() as int) =~= s@);
    out
}

/// What a dense binary operation guarantees: an unknown input is reported
/// (lhs first); a key or kernel error is passed on; otherwise one node is
/// appended with a contiguous tensor of the left operand's shape, dtype and
/// device at offset zero.
pub open spec fn tensor_binary_post(
    pre: TensorTape,
    post: TensorTape,
    op: BinaryOp,
    lhs: TensorNodeId,
    rhs: TensorNodeId,
    mode: ExecutionMode,
    r: Result<(TensorNodeId, TensorOperationEvent), AutogradError>,
) -> bool {
    let n = pre.spec_ops().len();
    if lhs.0 >= n {
        r == Err::<(TensorNodeId, TensorOperationEvent), AutogradError>(AutogradError::UnknownTensorNode(lhs)) && post == pre
    } else if rhs.0 >= n {
        r == Err::<(TensorNodeId, TensorOperationEvent), AutogradError>(AutogradError::UnknownTensorNode(rhs)) && post == pre
    } else {
        let rg = pre.spec_requires_grad()[lhs.0 as int] || pre.spec_requires_grad()[rhs.0 as int];
        let lm = pre.spec_metas()[lhs.0 as int];
        let rm = pre.spec_metas()[rhs.0 as int];
        match route_spec(op, mode, implied_bits(lm, rm, rg), true) {
            Err(e) => r == Err::<(TensorNodeId, TensorOperationEvent), AutogradError>(AutogradError::Dispatch(DispatchError::Key(e))) && post == pre,
            Ok(d) => match dense_check_spec(lm, rm) {
                Err(e) => r == Err::<(TensorNodeId, TensorOperationEvent), AutogradError>(AutogradError::Dispatch(DispatchError::Kernel(e))) && post == pre,
                Ok(()) => {
                    &&& post.spec_ops() == pre.spec_ops().push(GraphOp::Binary { op, lhs: lhs.0, rhs: rhs.0 })
                    &&& post.spec_requires_grad() == pre.spec_requires_grad().push(rg)
                    &&& post.spec_metas() == pre.spec_metas().push(MetaView {
                        shape: lm.shape,
                        strides: canonical_strides(lm.shape),
                        storage_offset: 0,
                        dtype: lm.dtype,
                        device: lm.device,
                    })
                    &&& r == Ok::<(TensorNodeId, TensorOperationEvent), AutogradError>((TensorNodeId(n as usize), TensorOperationEvent { op, lhs, rhs, out: TensorNodeId(n as usize), decision: d }))
                },
            },
        }
    }
}

/// What a dense backward pass guarantees, as [`scalar_backward_post`] does
/// for scalars; steps carry the element count of the node's tensor.
pub open spec fn tensor_backward_post(tape: TensorTape, root: TensorNodeId, options: BackwardOptions, r: Result<TensorBackwardPlan, AutogradError>) -> bool {
    let n = tape.spec_ops().len();
    if root.0 >= n {
        r == Err::<TensorBackwardPlan, AutogradError>(AutogradError::UnknownTensorNode(root))
    } else {
        match reentry(options) {
            None => r == Err::<TensorBackwardPlan, AutogradError>(AutogradError::ReentrantDepthExceeded {
                current: options.current_reentrant_depth,
                max: options.max_reentrant_depth,
            }),
            Some((depth, fallback)) => r matches Ok(plan) && {
                let order = execution_order_spec(tape.spec_ops(), root.0 as int);
                &&& plan.telemetry.execution_order@ == order.map_values(|i: usize| TensorNodeId(i))
                &&& plan.steps@ == tensor_steps(tape.spec_ops(), tape.spec_metas(), order)
                &&& plan.telemetry.queue_pops == order.len()
                &&& plan.telemetry.queue_pushes == order.len()
                &&& 1 <= plan.telemetry.max_queue_len <= n
                &&& plan.telemetry.max_queue_len == max_ready(tape.spec_ops(), reachable(tape.spec_ops(), root.0 as int), order)
                &&& plan.telemetry.dependency_snapshot@ == Seq::new(n, |j: int| 0usize)
                &&& plan.telemetry.reentrant_depth == depth
                &&& plan.telemetry.reentrant_guard_triggered == fallback
                &&& plan.telemetry.hardened_fallback_used == fallback
            },
        }
    }
}

} // verus!
