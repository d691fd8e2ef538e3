//! Human-readable forms of the library's errors: `<kind>: <fields>` or
//! `<category> failure: <inner>`.
use vstd::prelude::*;
use crate::autograd::AutogradError;
use crate::checkpoint::SerializeError;
use crate::digest::{det64_string, hex16};
use crate::dispatch::{DispatchError, DispatchKeyError, KernelError};
use crate::meta::{DType, Device, TensorCompatError, TensorMetaError};

verus! {

pub open spec fn digit_char(d: nat) -> char {
    seq!['0', '1', '2', '3', '4', '5', '6', '7', '8', '9'][d as int]
}

/// Decimal digits of `n`, most significant first.
pub open spec fn decimal(n: nat) -> Seq<char>
    decreases n,
{
    if n < 10 {
        seq![digit_char(n)]
    } else {
        decimal(n / 10).push(digit_char(n % 10))
    }
}

/// Appends the decimal digits of `n`.
pub fn push_decimal(out: &mut String, n: u64)
    ensures
        final(out)@ == old(out)@ + decimal(n as nat),
    decreases n,
{
    if n >= 10 {
        push_decimal(out, n / 10);
    }
    let digits: &str = "0123456789";
    proof {
        reveal_strlit("0123456789");
    }
    let d = (n % 10) as usize;
    let piece = digits.substring_ascii(d, d + 1);
    assert(piece@ =~= seq![digit_char(d as nat)]);
    out.append(piece);
    assert(out@ =~= old(out)@ + decimal(n as nat));
}

fn dtype_name(d: DType) -> (r: &'static str)
    ensures
        r@ == dtype_text(d),
{
    match d {
        DType::F64 => "F64",
    }
}

fn device_name(d: Device) -> (r: &'static str)
    ensures
        r@ == device_text(d),
{
    match d {
        Device::Cpu => "Cpu",
    }
}

pub open spec fn dtype_text(d: DType) -> Seq<char> {
    match d {
        DType::F64 => "F64"@,
    }
}

pub open spec fn device_text(d: Device) -> Seq<char> {
    match d {
        Device::Cpu => "Cpu"@,
    }
}

pub open spec fn dec(n: usize) -> Seq<char> {
    decimal(n as nat)
}

pub open spec fn meta_error_text(e: TensorMetaError) -> Seq<char> {
    match e {
        TensorMetaError::RankStrideMismatch { rank, strides } =>
            "shape rank "@ + dec(rank) + " does not match strides rank "@ + dec(strides),
        TensorMetaError::StrideOverflow { size, stride } =>
            "stride overflow for size="@ + dec(size) + ", stride="@ + dec(stride),
        TensorMetaError::StorageOffsetOverflow { storage_offset, max_linear_offset } =>
            "storage offset overflow for storage_offset="@ + dec(storage_offset) + ", max_linear_offset="@ + dec(max_linear_offset),
        TensorMetaError::IndexRankMismatch { expected, actual } =>
            "index rank mismatch expected="@ + dec(expected) + ", actual="@ + dec(actual),
        TensorMetaError::IndexOutOfBounds { dim, index, size } =>
            "index out of bounds at dim="@ + dec(dim) + ": index="@ + dec(index) + ", size="@ + dec(size),
    }
}

impl TensorMetaError {
    pub fn to_string(&self) -> (r: String)
        ensures
            r@ == meta_error_text(*self),
    {
        match *self {
            TensorMetaError::RankStrideMismatch { rank, strides } => {
                let mut s = String::from_str("shape rank ");
                push_decimal(&mut s, rank as u64);
                s.append(" does not match strides rank ");
                push_decimal(&mut s, strides as u64);
                s
            },
            TensorMetaError::StrideOverflow { size, stride } => {
                let mut s = String::from_str("stride overflow for size=");
                push_decimal(&mut s, size as u64);
                s.append(", stride=");
                push_decimal(&mut s, stride as u64);
                s
            },
            TensorMetaError::StorageOffsetOverflow { storage_offset, max_linear_offset } => {
                let mut s = String::from_str("storage offset overflow for storage_offset=");
                push_decimal(&mut s, storage_offset as u64);
                s.append(", max_linear_offset=");
                push_decimal(&mut s, max_linear_offset as u64);
                s
            },
            TensorMetaError::IndexRankMismatch { expected, actual } => {
                let mut s = String::from_str("index rank mismatch expected=");
                push_decimal(&mut s, expected as u64);
                s.append(", actual=");
                push_decimal(&mut s, actual as u64);
                s
            },
            TensorMetaError::IndexOutOfBounds { dim, index, size } => {
                let mut s = String::from_str("index out of bounds at dim=");
                push_decimal(&mut s, dim as u64);
                s.append(": index=");
                push_decimal(&mut s, index as u64);
                s.append(", size=");
                push_decimal(&mut s, size as u64);
                s
            },
        }
    }
}

pub open spec fn compat_error_text(e: TensorCompatError) -> Seq<char> {
    match e {
        TensorCompatError::DTypeMismatch { lhs, rhs } => "dtype mismatch: lhs="@ + dtype_text(lhs) + ", rhs="@ + dtype_text(rhs),
        TensorCompatError::DeviceMismatch { lhs, rhs } => "device mismatch: lhs="@ + device_text(lhs) + ", rhs="@ + device_text(rhs),
    }
}

impl TensorCompatError {
    pub fn to_string(&self) -> (r: String)
        ensures
            r@ == compat_error_text(*self),
    {
        match *self {
            TensorCompatError::DTypeMismatch { lhs, rhs } => {
                let mut s = String::from_str("dtype mismatch: lhs=");
                s.append(dtype_name(lhs));
                s.append(", rhs=");
                s.append(dtype_name(rhs));
                s
            },
            TensorCompatError::DeviceMismatch { lhs, rhs } => {
                let mut s = String::from_str("device mismatch: lhs=");
                s.append(device_name(lhs));
                s.append(", rhs=");
                s.append(device_name(rhs));
                s
            },
        }
    }
}

pub open spec fn key_error_text(e: DispatchKeyError) -> Seq<char> {
    match e {
        DispatchKeyError::EmptySet => "dispatch keyset is empty"@,
        DispatchKeyError::NoTypeKey => "dispatch keyset has no resolvable type key"@,
        DispatchKeyError::NoBackendKey => "dispatch keyset has no backend key"@,
        DispatchKeyError::UnknownBits { unknown_mask } => "dispatch keyset has unknown bitmask 0x"@ + hex16(unknown_mask),
        DispatchKeyError::IncompatibleSet { reason } => "incompatible dispatch keyset: "@ + reason@,
    }
}

impl DispatchKeyError {
    pub fn to_string(&self) -> (r: String)
        ensures
            r@ == key_error_text(*self),
    {
        match *self {
            DispatchKeyError::EmptySet => String::from_str("dispatch keyset is empty"),
            DispatchKeyError::NoTypeKey => String::from_str("dispatch keyset has no resolvable type key"),
            DispatchKeyError::NoBackendKey => String::from_str("dispatch keyset has no backend key"),
            DispatchKeyError::UnknownBits { unknown_mask } => {
                let tagged = det64_string(unknown_mask);
                proof {
                    reveal_strlit("det64:");
                }
                let digits = tagged.as_str().substring_char(6, 22);
                assert(digits@ =~= hex16(unknown_mask));
                let mut s = String::from_str("dispatch keyset has unknown bitmask 0x");
                s.append(digits);
                s
            },
            DispatchKeyError::IncompatibleSet { reason } => {
                let mut s = String::from_str("incompatible dispatch keyset: ");
                s.append(reason);
                s
            },
        }
    }
}

pub open spec fn kernel_error_text(e: KernelError) -> Seq<char> {
    match e {
        KernelError::Incompatible(c) => "incompatible tensors: "@ + compat_error_text(c),
        KernelError::UnsupportedLayout { side } => "unsupported non-contiguous layout on "@ + side@,
        KernelError::ShapeMismatch => "shape mismatch between dense operands"@,
    }
}

impl KernelError {
    pub fn to_string(&self) -> (r: String)
        ensures
            r@ == kernel_error_text(*self),
    {
        match *self {
            KernelError::Incompatible(c) => {
                let mut s = String::from_str("incompatible tensors: ");
                let inner = c.to_string();
                s.append(inner.as_str());
                s
            },
            KernelError::UnsupportedLayout { side } => {
                let mut s = String::from_str("unsupported non-contiguous layout on ");
                s.append(side);
                s
            },
            KernelError::ShapeMismatch => String::from_str("shape mismatch between dense operands"),
        }
    }
}

pub open spec fn dispatch_error_text(e: DispatchError) -> Seq<char> {
    match e {
        DispatchError::Kernel(k) => "kernel dispatch failure: "@ + kernel_error_text(k),
        DispatchError::Key(k) => "dispatch key failure: "@ + key_error_text(k),
    }
}

impl DispatchError {
    pub fn to_string(&self) -> (r: String)
        ensures
            r@ == dispatch_error_text(*self),
    {
        match *self {
            DispatchError::Kernel(k) => {
                let mut s = String::from_str("kernel dispatch failure: ");
                let inner = k.to_string();
                s.append(inner.as_str());
                s
            },
            DispatchError::Key(k) => {
                let mut s = String::from_str("dispatch key failure: ");
                let inner = k.to_string();
                s.append(inner.as_str());
                s
            },
        }
    }
}

pub open spec fn autograd_error_text(e: AutogradError) -> Seq<char> {
    match e {
        AutogradError::UnknownNode(n) => "unknown node id "@ + dec(n.0),
        AutogradError::UnknownTensorNode(n) => "unknown tensor node id "@ + dec(n.0),
        AutogradError::Dispatch(d) => "dispatch failure: "@ + dispatch_error_text(d),
        AutogradError::ReentrantDepthExceeded { current, max } =>
            "reentrant backward depth exceeded: current="@ + dec(current) + " max="@ + dec(max),
        AutogradError::DependencyUnderflow { node } => "dependency scheduler underflow at node "@ + dec(node.0),
        AutogradError::TensorDependencyUnderflow { node } => "tensor dependency scheduler underflow at node "@ + dec(node.0),
        AutogradError::TensorGradientShapeMismatch { node, expected, actual } =>
            "tensor gradient shape mismatch at node "@ + dec(node.0) + ": expected="@ + dec(expected) + ", actual="@ + dec(actual),
    }
}

impl AutogradError {
    pub fn to_string(&self) -> (r: String)
        ensures
            r@ == autograd_error_text(*self),
    {
        match *self {
            AutogradError::UnknownNode(n) => {
                let mut s = String::from_str("unknown node id ");
                push_decimal(&mut s, n.0 as u64);
                s
            },
            AutogradError::UnknownTensorNode(n) => {
                let mut s = String::from_str("unknown tensor node id ");
                push_decimal(&mut s, n.0 as u64);
                s
            },
            AutogradError::Dispatch(d) => {
                let mut s = String::from_str("dispatch failure: ");
                let inner = d.to_string();
                s.append(inner.as_str());
                s
            },
            AutogradError::ReentrantDepthExceeded { current, max } => {
                let mut s = String::from_str("reentrant backward depth exceeded: current=");
                push_decimal(&mut s, current as u64);
                s.append(" max=");
                push_decimal(&mut s, max as u64);
                s
            },
            AutogradError::DependencyUnderflow { node } => {
                let mut s = String::from_str("dependency scheduler underflow at node ");
                push_decimal(&mut s, node.0 as u64);
                s
            },
            AutogradError::TensorDependencyUnderflow { node } => {
                let mut s = String::from_str("tensor dependency scheduler underflow at node ");
                push_decimal(&mut s, node.0 as u64);
                s
            },
            AutogradError::TensorGradientShapeMismatch { node, expected, actual } => {
                let mut s = String::from_str("tensor gradient shape mismatch at node ");
                push_decimal(&mut s, node.0 as u64);
                s.append(": expected=");
                push_decimal(&mut s, expected as u64);
                s.append(", actual=");
                push_decimal(&mut s, actual as u64);
                s
            },
        }
    }
}

pub open spec fn serialize_error_text(e: SerializeError) -> Seq<char> {
    match e {
        SerializeError::InvalidJson { diagnostic } => "invalid json: "@ + diagnostic@,
        SerializeError::UnknownField { field } => "unknown field '"@ + field@ + "'"@,
        SerializeError::VersionMismatch { expected, found } =>
            "schema version mismatch: expected="@ + decimal(expected as nat) + " found="@ + decimal(found as nat),
        SerializeError::ChecksumMismatch { expected, found } =>
            "checksum mismatch: expected="@ + expected@ + " found="@ + found@,
        SerializeError::IncompatiblePayload { reason } => "incompatible payload: "@ + reason@,
        SerializeError::RaptorQFailure { reason } => "raptorq failure: "@ + reason@,
    }
}

impl SerializeError {
    pub fn to_string(&self) -> (r: String)
        ensures
            r@ == serialize_error_text(*self),
    {
        match self {
            SerializeError::InvalidJson { diagnostic } => {
                let mut s = String::from_str("invalid json: ");
                s.append(diagnostic.as_str());
                s
            },
            SerializeError::UnknownField { field } => {
                let mut s = String::from_str("unknown field '");
                s.append(field.as_str());
                s.append("'");
                s
            },
            SerializeError::VersionMismatch { expected, found } => {
                let mut s = String::from_str("schema version mismatch: expected=");
                push_decimal(&mut s, *expected as u64);
                s.append(" found=");
                push_decimal(&mut s, *found as u64);
                s
            },
            SerializeError::ChecksumMismatch { expected, found } => {
                let mut s = String::from_str("checksum mismatch: expected=");
                s.append(expected.as_str());
                s.append(" found=");
                s.append(found.as_str());
                s
            },
            SerializeError::IncompatiblePayload { reason } => {
                let mut s = String::from_str("incompatible payload: ");
                s.append(reason.as_str());
                s
            },
            SerializeError::RaptorQFailure { reason } => {
                let mut s = String::from_str("raptorq failure: ");
                s.append(reason.as_str());
                s
            },
        }
    }
}

} // verus!
