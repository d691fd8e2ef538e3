use frankentorch::autograd::{
    ensure_tensor_len, AutogradError, BackwardOptions, NodeId, ReentrantPolicy, Tape, TensorNodeId,
    TensorTape,
};
use frankentorch::dispatch::{DispatchError, KernelError};
use frankentorch::meta::{DType, Device, ExecutionMode, TensorMeta};
use frankentorch::schedule::{complete_dependency, GraphOp, ReadyQueue};

#[test]
fn backward_options_for_mode_strict_matches_default() {
    let options = BackwardOptions::for_mode(ExecutionMode::Strict);
    assert_eq!(options, BackwardOptions::strict_default());
    assert_eq!(options.policy, ReentrantPolicy::StrictFail);
    assert_eq!(options.max_reentrant_depth, 0);
    assert_eq!(options.current_reentrant_depth, 0);
}

#[test]
fn backward_options_for_mode_hardened_matches_default() {
    let options = BackwardOptions::for_mode(ExecutionMode::Hardened);
    assert_eq!(options, BackwardOptions::hardened_default());
    assert_eq!(options.policy, ReentrantPolicy::HardenedBoundedFallback);
    assert_eq!(options.max_reentrant_depth, 2);
    assert_eq!(options.current_reentrant_depth, 0);
}

#[test]
fn add_backward_runs_root_then_leaves() {
    let mut tape = Tape::new();
    let x = tape.leaf(true);
    let y = tape.leaf(true);
    let (z, event) = tape.add(x, y, ExecutionMode::Strict).expect("add should succeed");
    assert_eq!(event.decision.kernel, "autograd_cpu::add_scalar");
    assert_eq!(event.out, z);

    let plan = tape.backward(z).expect("backward should succeed");
    assert_eq!(plan.telemetry.execution_order, vec![z, y, x]);
    assert_eq!(plan.steps.len(), 3);
    assert_eq!(plan.steps[0].rule, "d(a+b)/da=1; d(a+b)/db=1");
    assert_eq!(plan.steps[1].rule, "leaf");
    assert_eq!(plan.telemetry.queue_pushes, 3);
    assert_eq!(plan.telemetry.queue_pops, 3);
    assert_eq!(plan.telemetry.dependency_snapshot, vec![0, 0, 0]);
}

#[test]
fn dependency_scheduler_waits_for_all_children() {
    let mut tape = Tape::new();
    let x = tape.leaf(true);
    let y = tape.leaf(true);
    let z = tape.leaf(true);
    let (xy, _) = tape
        .mul(x, y, ExecutionMode::Strict)
        .expect("mul should succeed");
    let (xz, _) = tape
        .mul(x, z, ExecutionMode::Strict)
        .expect("mul should succeed");
    let (out, _) = tape
        .add(xy, xz, ExecutionMode::Strict)
        .expect("add should succeed");

    let report = tape.backward(out).expect("backward should succeed");
    let order = report.telemetry.execution_order;
    let x_pos = order
        .iter()
        .position(|node| *node == x)
        .expect("x should be scheduled");
    let xy_pos = order
        .iter()
        .position(|node| *node == xy)
        .expect("xy should be scheduled");
    let xz_pos = order
        .iter()
        .position(|node| *node == xz)
        .expect("xz should be scheduled");

    assert!(x_pos > xy_pos);
    assert!(x_pos > xz_pos);
}

#[test]
fn diamond_graph_order_is_descending_and_repeatable() {
    let mut tape = Tape::new();
    let x = tape.leaf(true);
    let y = tape.leaf(true);
    let z = tape.leaf(true);
    let (t, _) = tape.mul(x, y, ExecutionMode::Strict).expect("mul");
    let (u, _) = tape.mul(x, z, ExecutionMode::Strict).expect("mul");
    let (r, _) = tape.add(t, u, ExecutionMode::Strict).expect("add");
    let first = tape.backward(r).expect("backward");
    let second = tape.backward(r).expect("backward again");
    assert_eq!(first.telemetry.execution_order, vec![r, u, t, z, y, x]);
    assert_eq!(first, second);
    assert_eq!(first.telemetry.max_queue_len, 3);
    assert_eq!(first.telemetry.queue_pushes, 6);
}

#[test]
fn unreachable_nodes_are_not_scheduled() {
    let mut tape = Tape::new();
    let a = tape.leaf(true);
    let b = tape.leaf(false);
    let c = tape.leaf(true);
    let (ab, _) = tape.add(a, b, ExecutionMode::Strict).expect("add");
    let (_bc, _) = tape.mul(b, c, ExecutionMode::Strict).expect("mul");
    let plan = tape.backward(ab).expect("backward");
    assert_eq!(plan.telemetry.execution_order, vec![ab, b, a]);
    // every node run records a step, b included though it needs no gradient
    assert_eq!(plan.steps.len(), 3);
    assert_eq!(plan.steps[1].node, b);
    assert_eq!(plan.steps[1].rule, "leaf");
    assert_eq!(plan.telemetry.dependency_snapshot, vec![0; 5]);
}

#[test]
fn self_loop_counts_twice() {
    let mut tape = Tape::new();
    let x = tape.leaf(true);
    let (sq, _) = tape.mul(x, x, ExecutionMode::Strict).expect("mul");
    let plan = tape.backward(sq).expect("backward");
    assert_eq!(plan.telemetry.execution_order, vec![sq, x]);
    assert_eq!(plan.telemetry.queue_pushes, 2);
}

#[test]
fn requires_grad_propagates() {
    let mut tape = Tape::new();
    let a = tape.leaf(false);
    let b = tape.leaf(false);
    let c = tape.leaf(true);
    let (ab, ev) = tape.sub(a, b, ExecutionMode::Strict).expect("sub");
    assert_eq!(tape.node_requires_grad(ab), Ok(false));
    assert_eq!(ev.decision.kernel, "cpu::sub_scalar");
    let (abc, ev2) = tape.div(ab, c, ExecutionMode::Strict).expect("div");
    assert_eq!(tape.node_requires_grad(abc), Ok(true));
    assert_eq!(ev2.decision.kernel, "autograd_cpu::div_scalar");
    assert_eq!(tape.node_count(), 5);
}

#[test]
fn strict_mode_reentrant_depth_overflow_fails() {
    let mut tape = Tape::new();
    let x = tape.leaf(true);
    let y = tape.leaf(true);
    let (z, _) = tape
        .add(x, y, ExecutionMode::Strict)
        .expect("add should succeed");

    let err = tape
        .backward_with_options(
            z,
            BackwardOptions {
                max_reentrant_depth: 1,
                current_reentrant_depth: 2,
                policy: ReentrantPolicy::StrictFail,
            },
        )
        .expect_err("strict overflow should fail");

    assert!(
        err.to_string()
            .contains("reentrant backward depth exceeded")
    );
}

#[test]
fn hardened_mode_reentrant_depth_overflow_fallbacks() {
    let mut tape = Tape::new();
    let x = tape.leaf(true);
    let y = tape.leaf(true);
    let (z, _) = tape
        .add(x, y, ExecutionMode::Hardened)
        .expect("add should succeed");

    let report = tape
        .backward_with_options(
            z,
            BackwardOptions {
                max_reentrant_depth: 1,
                current_reentrant_depth: 2,
                policy: ReentrantPolicy::HardenedBoundedFallback,
            },
        )
        .expect("hardened overflow should fallback");

    assert!(report.telemetry.reentrant_guard_triggered);
    assert!(report.telemetry.hardened_fallback_used);
    assert_eq!(report.telemetry.reentrant_depth, 1);
}

#[test]
fn unknown_node_returns_error() {
    let tape = Tape::new();
    let err = tape
        .backward(NodeId(99))
        .expect_err("expected unknown node");
    let msg = err.to_string();
    assert!(msg.contains("unknown node"));
}

#[test]
fn unknown_operand_is_reported() {
    let mut tape = Tape::new();
    let x = tape.leaf(true);
    let err = tape.add(x, NodeId(7), ExecutionMode::Strict).expect_err("rhs unknown");
    assert_eq!(err, AutogradError::UnknownNode(NodeId(7)));
    assert_eq!(err.to_string(), "unknown node id 7");
    assert_eq!(tape.node_count(), 1);
}

#[test]
fn dependency_underflow_is_fail_closed() {
    let mut pending = vec![0usize];
    let mut queue = ReadyQueue::with_capacity(1);
    let err = complete_dependency(&mut pending, 0, &mut queue);
    assert!(err.is_err());
    assert_eq!(pending, vec![0]);
    assert!(queue.is_empty());
}

#[test]
fn ready_queue_pops_highest_first() {
    let mut queue = ReadyQueue::with_capacity(4);
    queue.push(2);
    queue.push(7);
    queue.push(5);
    assert_eq!(queue.pop(), Some(7));
    assert_eq!(queue.pop(), Some(5));
    assert_eq!(queue.pop(), Some(2));
    assert_eq!(queue.pop(), None);
    assert_eq!(queue.pushes_count(), 3);
    assert_eq!(queue.pops_count(), 3);
    assert_eq!(queue.max_len_count(), 3);
}

#[test]
fn tensor_ensure_len_mismatch_is_fail_closed() {
    let err = ensure_tensor_len(TensorNodeId(3), 2, 1)
        .expect_err("shape mismatch must fail closed");
    assert!(matches!(
        err,
        AutogradError::TensorGradientShapeMismatch {
            node,
            expected: 2,
            actual: 1
        } if node == TensorNodeId(3)
    ));
}

#[test]
fn tensor_dispatch_rejects_non_contiguous_layout_end_to_end() {
    let mut tape = TensorTape::new();
    let lhs_meta =
        TensorMeta::from_shape_and_strides(vec![2, 2], vec![4, 1], 0, DType::F64, Device::Cpu)
            .expect("non-contiguous meta should validate");
    let rhs_meta = TensorMeta::from_shape(vec![2, 2], DType::F64, Device::Cpu);
    let lhs_node = tape.leaf_tensor(lhs_meta, true);
    let rhs_node = tape.leaf_tensor(rhs_meta, true);
    let err = tape
        .add(lhs_node, rhs_node, ExecutionMode::Strict)
        .expect_err("non-contiguous layout should fail closed");
    let error = match err {
        AutogradError::Dispatch(DispatchError::Kernel(error)) => error,
        other => panic!("expected kernel dispatch error, got {other:?}"),
    };
    assert!(
        error
            .to_string()
            .contains("unsupported non-contiguous layout on lhs")
    );
}

#[test]
fn tensor_add_records_kernel_and_contiguous_output() {
    let mut tape = TensorTape::new();
    let x = tape.leaf_tensor(TensorMeta::from_shape(vec![3], DType::F64, Device::Cpu), true);
    let y = tape.leaf_tensor(TensorMeta::from_shape(vec![3], DType::F64, Device::Cpu), true);
    let (z, event) = tape.add(x, y, ExecutionMode::Strict).expect("tensor add should succeed");
    assert_eq!(event.decision.kernel, "autograd_cpu::add_tensor_contiguous_f64");
    let out = tape.tensor(z).expect("output tensor should resolve");
    assert_eq!(out.storage_offset(), 0);
    assert!(out.is_contiguous());
    assert_eq!(out.shape(), &[3]);

    let plan = tape.backward(z).expect("tensor backward should succeed");
    assert_eq!(plan.telemetry.execution_order, vec![z, y, x]);
    assert!(plan.steps.iter().all(|s| s.incoming_grad_len == 3));
    assert_eq!(tape.node_op(z), Ok(GraphOp::Binary { op: frankentorch::dispatch::BinaryOp::Add, lhs: 0, rhs: 1 }));
}

#[test]
fn tensor_shape_mismatch_is_a_kernel_failure() {
    let mut tape = TensorTape::new();
    let x = tape.leaf_tensor(TensorMeta::from_shape(vec![3], DType::F64, Device::Cpu), true);
    let y = tape.leaf_tensor(TensorMeta::from_shape(vec![2], DType::F64, Device::Cpu), true);
    let err = tape.mul(x, y, ExecutionMode::Strict).expect_err("shapes differ");
    assert_eq!(err, AutogradError::Dispatch(DispatchError::Kernel(KernelError::ShapeMismatch)));
    assert_eq!(tape.node_count(), 2);
}

#[test]
fn unknown_tensor_root_is_reported() {
    let tape = TensorTape::new();
    let err = tape.backward(TensorNodeId(4)).expect_err("no such node");
    assert_eq!(err.to_string(), "unknown tensor node id 4");
}

#[test]
fn autograd_messages_are_exact() {
    let err = AutogradError::ReentrantDepthExceeded { current: 12, max: 3 };
    assert_eq!(err.to_string(), "reentrant backward depth exceeded: current=12 max=3");
    let err = AutogradError::TensorGradientShapeMismatch { node: TensorNodeId(5), expected: 2, actual: 10 };
    assert_eq!(err.to_string(), "tensor gradient shape mismatch at node 5: expected=2, actual=10");
    let err = AutogradError::DependencyUnderflow { node: NodeId(0) };
    assert_eq!(err.to_string(), "dependency scheduler underflow at node 0");
}
