//! Device placement checks.
use vstd::prelude::*;
use crate::meta::{Device, TensorMeta};

verus! {

/// A tensor is not on the expected device.
#[derive(Debug, Clone, Copy, PartialEq, Eq, Structural)]
pub enum DeviceError {
    Mismatch { expected: Device, actual: Device },
}

/// Guards operations to one device.
#[derive(Debug, Clone, Copy, PartialEq, Eq, Structural)]
pub struct DeviceGuard {
    device: Device,
}

impl DeviceGuard {
    pub fn new(device: Device) -> (r: DeviceGuard)
        ensures
            r.spec_device() == device,
    {
        DeviceGuard { device }
    }

    pub closed spec fn spec_device(self) -> Device {
        self.device
    }

    pub fn device(&self) -> (r: Device)
        ensures
            r == self.spec_device(),
    {
        self.device
    }

    /// Accepts a tensor on the guarded device.
    pub fn ensure_tensor_device(&self, meta: &TensorMeta) -> (r: Result<(), DeviceError>)
        ensures
            meta@.device == self.spec_device() ==> r is Ok,
            meta@.device != self.spec_device() ==> r == Err::<(), DeviceError>(DeviceError::Mismatch {
                expected: self.spec_device(),
                actual: meta@.device,
            }),
    {
        let actual = meta.device();
        if actual != self.device {
            return Err(DeviceError::Mismatch { expected: self.device, actual });
        }
        Ok(())
    }
}

/// The common device of two tensors.
pub fn ensure_same_device(lhs: &TensorMeta, rhs: &TensorMeta) -> (r: Result<Device, DeviceError>)
    ensures
        lhs@.device == rhs@.device ==> r == Ok::<Device, DeviceError>(lhs@.device),
        lhs@.device != rhs@.device ==> r == Err::<Device, DeviceError>(DeviceError::Mismatch {
            expected: lhs@.device,
            actual: rhs@.device,
        }),
{
    let lhs_device = lhs.device();
    let rhs_device = rhs.device();
    if lhs_device != rhs_device {
        return Err(DeviceError::Mismatch { expected: lhs_device, actual: rhs_device });
    }
    Ok(lhs_device)
}

} // verus!
