use frankentorch::dispatch::{
    check_dense_operands, dispatch_keyset_for_tensors, route_binary, route_tensor_binary, BinaryOp,
    DispatchError, DispatchKey, DispatchKeyError, DispatchKeySet, KernelError,
};
use frankentorch::meta::{DType, Device, ExecutionMode, TensorMeta};

#[test]
fn dispatch_keyset_set_algebra_is_stable() {
    let mut left = DispatchKeySet::from_keys(&[DispatchKey::CPU, DispatchKey::BackendSelect]);
    let right = DispatchKeySet::from_keys(&[DispatchKey::AutogradCPU, DispatchKey::CPU]);

    let union = left.union(right);
    assert!(union.has(DispatchKey::CPU));
    assert!(union.has(DispatchKey::AutogradCPU));
    assert!(union.has(DispatchKey::BackendSelect));

    let intersection = left.intersection(right);
    assert!(intersection.has(DispatchKey::CPU));
    assert!(!intersection.has(DispatchKey::AutogradCPU));

    left.remove(DispatchKey::BackendSelect);
    assert!(!left.has(DispatchKey::BackendSelect));
}

#[test]
fn priority_resolution_prefers_autograd_cpu() {
    let keys = DispatchKeySet::from_keys(&[
        DispatchKey::BackendSelect,
        DispatchKey::CPU,
        DispatchKey::AutogradCPU,
    ]);
    let selected = keys
        .highest_priority_type_id()
        .expect("priority resolution should succeed");
    assert_eq!(selected, DispatchKey::AutogradCPU);
}

#[test]
fn backend_priority_returns_cpu() {
    let keys = DispatchKeySet::from_keys(&[DispatchKey::BackendSelect, DispatchKey::CPU]);
    let backend = keys
        .highest_priority_backend_type_id()
        .expect("backend priority should resolve");
    assert_eq!(backend, DispatchKey::CPU);
}

#[test]
fn unknown_bits_fail_closed() {
    let err =
        DispatchKeySet::from_bits_checked(1u64 << 63).expect_err("unknown bits must fail");
    let msg = err.to_string();
    assert!(msg.contains("unknown bitmask"));
}

#[test]
fn unknown_bits_message_is_exact() {
    let err = DispatchKeySet::from_bits_checked(0x41).expect_err("bits 0 and 6 are unknown");
    assert_eq!(err, DispatchKeyError::UnknownBits { unknown_mask: 0x41 });
    assert_eq!(err.to_string(), "dispatch keyset has unknown bitmask 0x0000000000000041");
}

#[test]
fn known_bits_are_accepted() {
    let set = DispatchKeySet::from_bits_checked(0b11_0000).expect("CPU and AutogradCPU");
    assert!(set.has(DispatchKey::CPU));
    assert!(set.has(DispatchKey::AutogradCPU));
    assert!(!set.has(DispatchKey::BackendSelect));
    assert_eq!(set.bits(), 48);
}

#[test]
fn key_bits_follow_declaration_order() {
    assert_eq!(DispatchKey::Undefined.bit(), 1);
    assert_eq!(DispatchKey::AutogradCPU.bit(), 32);
    assert_eq!(DispatchKey::all().len(), 5);
    assert!(DispatchKeySet::empty().is_empty());
}

#[test]
fn add_then_remove_round_trips_membership() {
    let mut set = DispatchKeySet::empty();
    set.add(DispatchKey::CompositeImplicitAutograd);
    assert!(set.has(DispatchKey::CompositeImplicitAutograd));
    set.add(DispatchKey::CPU);
    set.remove(DispatchKey::CompositeImplicitAutograd);
    assert!(!set.has(DispatchKey::CompositeImplicitAutograd));
    assert!(set.has(DispatchKey::CPU));
}

#[test]
fn empty_keyset_is_rejected() {
    let err = DispatchKeySet::empty().validate_for_scalar_binary().expect_err("empty");
    assert_eq!(err, DispatchKeyError::EmptySet);
    assert_eq!(err.to_string(), "dispatch keyset is empty");
}

#[test]
fn autograd_without_cpu_is_rejected() {
    let set = DispatchKeySet::from_keys(&[DispatchKey::AutogradCPU, DispatchKey::BackendSelect]);
    let err = set.validate_for_scalar_binary().expect_err("AutogradCPU needs CPU");
    assert_eq!(
        err,
        DispatchKeyError::IncompatibleSet { reason: "AutogradCPU requires CPU backend availability" }
    );
}

#[test]
fn missing_backend_is_rejected() {
    let set = DispatchKeySet::from_keys(&[DispatchKey::BackendSelect]);
    assert_eq!(set.validate_for_scalar_binary(), Err(DispatchKeyError::NoBackendKey));
    let only_undefined = DispatchKeySet::from_keys(&[DispatchKey::Undefined]);
    assert_eq!(only_undefined.highest_priority_type_id(), Err(DispatchKeyError::NoTypeKey));
}

#[test]
fn strict_mode_rejects_composite_routing() {
    let keyset = DispatchKeySet::from_keys(&[
        DispatchKey::CompositeExplicitAutograd,
        DispatchKey::CPU,
        DispatchKey::BackendSelect,
    ]);
    let err = route_binary(BinaryOp::Add, ExecutionMode::Strict, keyset, false)
        .expect_err("strict mode must fail closed");
    assert!(err.to_string().contains("strict mode forbids"));
}

#[test]
fn hardened_mode_routes_composite_to_backend() {
    let keyset = DispatchKeySet::from_keys(&[
        DispatchKey::CompositeExplicitAutograd,
        DispatchKey::CPU,
        DispatchKey::BackendSelect,
    ]);
    let decision = route_binary(BinaryOp::Add, ExecutionMode::Hardened, keyset, false)
        .expect("hardened mode should fall back");
    assert!(decision.fallback_used);
    assert_eq!(decision.selected_key, DispatchKey::CompositeExplicitAutograd);
    assert_eq!(decision.backend_key, DispatchKey::CPU);
    assert_eq!(decision.kernel, "cpu::add_scalar");
    assert_eq!(decision.keyset_bits, keyset.bits());
}

#[test]
fn implied_keyset_routes_to_autograd_kernel() {
    let meta = TensorMeta::scalar(DType::F64, Device::Cpu);
    let keyset = dispatch_keyset_for_tensors(&meta, &meta, true);
    assert_eq!(keyset.bits(), 2 | 16 | 32);
    let decision = route_binary(BinaryOp::Add, ExecutionMode::Strict, keyset, false)
        .expect("dispatch should succeed");
    assert_eq!(decision.kernel, "autograd_cpu::add_scalar");
    assert_eq!(decision.mode, ExecutionMode::Strict);
    assert_eq!(decision.selected_key, DispatchKey::AutogradCPU);
    assert_eq!(decision.backend_key, DispatchKey::CPU);
    assert!(!decision.fallback_used);
}

#[test]
fn kernel_names_are_pinned() {
    let meta = TensorMeta::scalar(DType::F64, Device::Cpu);
    let plain = dispatch_keyset_for_tensors(&meta, &meta, false);
    let grad = dispatch_keyset_for_tensors(&meta, &meta, true);
    let name = |op, ks, dense| route_binary(op, ExecutionMode::Strict, ks, dense).expect("routes").kernel;
    assert_eq!(name(BinaryOp::Mul, plain, false), "cpu::mul_scalar");
    assert_eq!(name(BinaryOp::Mul, grad, false), "autograd_cpu::mul_scalar");
    assert_eq!(name(BinaryOp::Sub, plain, false), "cpu::sub_scalar");
    assert_eq!(name(BinaryOp::Div, grad, false), "autograd_cpu::div_scalar");
    assert_eq!(name(BinaryOp::Add, grad, true), "autograd_cpu::add_tensor_contiguous_f64");
    assert_eq!(name(BinaryOp::Mul, plain, true), "cpu::mul_tensor_contiguous_f64");
}

#[test]
fn dense_operands_must_be_contiguous_at_offset_zero() {
    let strided = TensorMeta::from_shape_and_strides(vec![2, 2], vec![4, 1], 0, DType::F64, Device::Cpu)
        .expect("valid layout");
    let plain = TensorMeta::from_shape(vec![2, 2], DType::F64, Device::Cpu);
    assert_eq!(
        check_dense_operands(&strided, &plain),
        Err(KernelError::UnsupportedLayout { side: "lhs" })
    );
    let offset = TensorMeta::from_shape(vec![2, 2], DType::F64, Device::Cpu).with_storage_offset(1);
    assert_eq!(
        check_dense_operands(&plain, &offset),
        Err(KernelError::UnsupportedLayout { side: "rhs" })
    );
    let other = TensorMeta::from_shape(vec![4], DType::F64, Device::Cpu);
    assert_eq!(check_dense_operands(&plain, &other), Err(KernelError::ShapeMismatch));
    assert_eq!(check_dense_operands(&plain, &plain.clone()), Ok(()));
}

#[test]
fn dense_routing_reports_kernel_failures() {
    let strided = TensorMeta::from_shape_and_strides(vec![2, 2], vec![4, 1], 0, DType::F64, Device::Cpu)
        .expect("valid layout");
    let plain = TensorMeta::from_shape(vec![2, 2], DType::F64, Device::Cpu);
    let err = route_tensor_binary(BinaryOp::Add, ExecutionMode::Strict, &strided, &plain, true)
        .expect_err("non-contiguous lhs");
    assert!(matches!(err, DispatchError::Kernel(KernelError::UnsupportedLayout { side: "lhs" })));
    assert_eq!(
        err.to_string(),
        "kernel dispatch failure: unsupported non-contiguous layout on lhs"
    );
}

#[test]
fn from_keys_sets_exactly_the_given_bits() {
    assert_eq!(DispatchKeySet::from_keys(&[]).bits(), 0);
    assert_eq!(DispatchKeySet::from_keys(&[DispatchKey::Undefined, DispatchKey::CPU]).bits(), 17);
    assert_eq!(
        DispatchKeySet::from_keys(&[DispatchKey::CPU, DispatchKey::AutogradCPU, DispatchKey::CPU]).bits(),
        48
    );
}
