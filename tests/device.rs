use frankentorch::device::{ensure_same_device, DeviceGuard};
use frankentorch::meta::{ensure_compatible, DType, Device, TensorMeta};

#[test]
fn guard_accepts_matching_device() {
    let tensor = TensorMeta::scalar(DType::F64, Device::Cpu);
    let guard = DeviceGuard::new(Device::Cpu);
    assert!(guard.ensure_tensor_device(&tensor).is_ok());
    assert_eq!(guard.device(), Device::Cpu);
}

#[test]
fn same_device_check_returns_cpu() {
    let lhs = TensorMeta::scalar(DType::F64, Device::Cpu);
    let rhs = TensorMeta::from_shape(vec![2], DType::F64, Device::Cpu);
    let device = ensure_same_device(&lhs, &rhs).expect("devices should match");
    assert_eq!(device, Device::Cpu);
}

#[test]
fn compatibility_checks_dtype_and_device() {
    let lhs = TensorMeta::scalar(DType::F64, Device::Cpu);
    let rhs = TensorMeta::scalar(DType::F64, Device::Cpu);
    assert!(ensure_compatible(&lhs, &rhs).is_ok());
}
