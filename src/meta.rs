//! Tensor layout metadata: shape, strides, storage offset, dtype and device.
use vstd::prelude::*;
use crate::digest::{det_digest, det_hash_bytes, le_bytes, push_le, push_words, words_bytes};

verus! {

/// Element type tag.
#[derive(Debug, Clone, Copy, PartialEq, Eq, Structural, Hash)]
pub enum DType {
    F64,
}

/// Compute device tag.
#[derive(Debug, Clone, Copy, PartialEq, Eq, Structural, Hash)]
pub enum Device {
    Cpu,
}

/// Routing and decoding posture.
#[derive(Debug, Clone, Copy, PartialEq, Eq, Structural)]
pub enum ExecutionMode {
    Strict,
    Hardened,
}

/// Product of a sequence of sizes, as a mathematical integer.
pub open spec fn seq_product(s: Seq<usize>) -> int
    decreases s.len(),
{
    if s.len() == 0 {
        1
    } else {
        seq_product(s.drop_last()) * s.last()
    }
}

/// Clamp a non-negative integer to the native address width.
pub open spec fn clamp_usize(x: int) -> int {
    if x > usize::MAX {
        usize::MAX as int
    } else {
        x
    }
}

/// The canonical row-major stride of dimension `i`: the product of the sizes
/// to its right, saturated at the address width.
pub open spec fn canonical_stride(shape: Seq<usize>, i: int) -> int {
    clamp_usize(seq_product(shape.subrange(i + 1, shape.len() as int)))
}

/// The canonical row-major strides of a shape.
pub open spec fn canonical_strides(shape: Seq<usize>) -> Seq<usize> {
    Seq::new(shape.len(), |i: int| canonical_stride(shape, i) as usize)
}

/// Largest offset a dimension contributes: `stride * (size - 1)`, and nothing
/// for an empty dimension.
pub open spec fn dim_span(size: usize, stride: usize) -> int {
    if size == 0 {
        0
    } else {
        stride * (size - 1)
    }
}

/// Sum of the spans of the first `n` dimensions.
pub open spec fn prefix_span(shape: Seq<usize>, strides: Seq<usize>, n: int) -> int
    decreases n,
{
    if n <= 0 {
        0
    } else {
        prefix_span(shape, strides, n - 1) + dim_span(shape[n - 1], strides[n - 1])
    }
}

/// Outcome of scanning the dimensions `i..` of a layout whose spans so far sum
/// to `acc`: the first overflow met, or the total span.
pub open spec fn span_scan(shape: Seq<usize>, strides: Seq<usize>, offset: usize, i: int, acc: int) -> Result<int, TensorMetaError>
    decreases shape.len() - i,
{
    if i >= shape.len() {
        Ok(acc)
    } else if shape[i] == 0 {
        span_scan(shape, strides, offset, i + 1, acc)
    } else if dim_span(shape[i], strides[i]) > usize::MAX {
        Err(TensorMetaError::StrideOverflow { size: shape[i], stride: strides[i] })
    } else if acc + dim_span(shape[i], strides[i]) > usize::MAX {
        Err(TensorMetaError::StorageOffsetOverflow { storage_offset: offset, max_linear_offset: acc as usize })
    } else {
        span_scan(shape, strides, offset, i + 1, acc + dim_span(shape[i], strides[i]))
    }
}

/// The result of validating a layout, error included.
pub open spec fn validate_result(shape: Seq<usize>, strides: Seq<usize>, offset: usize) -> Result<(), TensorMetaError> {
    if shape.len() != strides.len() {
        Err(TensorMetaError::RankStrideMismatch { rank: shape.len() as usize, strides: strides.len() as usize })
    } else {
        match span_scan(shape, strides, offset, 0, 0) {
            Err(e) => Err(e),
            Ok(total) => if offset + total > usize::MAX {
                Err(TensorMetaError::StorageOffsetOverflow { storage_offset: offset, max_linear_offset: total as usize })
            } else {
                Ok(())
            },
        }
    }
}

/// A layout is valid when ranks agree and the furthest element it can address,
/// `offset + sum of stride_i * (size_i - 1)`, fits the address width.
pub open spec fn layout_valid(shape: Seq<usize>, strides: Seq<usize>, offset: usize) -> bool {
    &&& shape.len() == strides.len()
    &&& offset + prefix_span(shape, strides, shape.len() as int) <= usize::MAX
}

/// Sum of `index_i * stride_i` over the first `n` dimensions.
pub open spec fn index_dot(index: Seq<usize>, strides: Seq<usize>, n: int) -> int
    decreases n,
{
    if n <= 0 {
        0
    } else {
        index_dot(index, strides, n - 1) + index[n - 1] * strides[n - 1]
    }
}

/// Outcome of mapping the coordinates `i..` of a multi-index to storage, the
/// position reached so far being `linear`.
pub open spec fn index_scan(shape: Seq<usize>, strides: Seq<usize>, offset: usize, index: Seq<usize>, i: int, linear: int) -> Result<int, TensorMetaError>
    decreases index.len() - i,
{
    if i >= index.len() || i >= strides.len() {
        Ok(linear)
    } else if index[i] >= shape[i] {
        Err(TensorMetaError::IndexOutOfBounds { dim: i as usize, index: index[i], size: shape[i] })
    } else if index[i] * strides[i] > usize::MAX {
        Err(TensorMetaError::StrideOverflow { size: index[i], stride: strides[i] })
    } else if linear + index[i] * strides[i] > usize::MAX {
        Err(TensorMetaError::StorageOffsetOverflow { storage_offset: offset, max_linear_offset: (index[i] * strides[i]) as usize })
    } else {
        index_scan(shape, strides, offset, index, i + 1, linear + index[i] * strides[i])
    }
}

/// Shape, strides, storage offset, dtype and device of a tensor.
#[derive(Debug, Clone, PartialEq, Eq)]
pub struct TensorMeta {
    shape: Vec<usize>,
    strides: Vec<usize>,
    storage_offset: usize,
    dtype: DType,
    device: Device,
}

/// Mathematical view of a [`TensorMeta`].
pub struct MetaView {
    pub shape: Seq<usize>,
    pub strides: Seq<usize>,
    pub storage_offset: usize,
    pub dtype: DType,
    pub device: Device,
}

impl View for TensorMeta {
    type V = MetaView;

    closed spec fn view(&self) -> MetaView {
        MetaView {
            shape: self.shape@,
            strides: self.strides@,
            storage_offset: self.storage_offset,
            dtype: self.dtype,
            device: self.device,
        }
    }
}

impl MetaView {
    pub open spec fn valid(self) -> bool {
        layout_valid(self.shape, self.strides, self.storage_offset)
    }

    pub open spec fn contiguous(self) -> bool {
        self.strides == canonical_strides(self.shape)
    }

    pub open spec fn numel(self) -> int {
        seq_product(self.shape)
    }
}

/// Errors raised while validating a layout or mapping an index to storage.
#[derive(Debug, Clone, Copy, PartialEq, Eq, Structural)]
pub enum TensorMetaError {
    RankStrideMismatch { rank: usize, strides: usize },
    StrideOverflow { size: usize, stride: usize },
    StorageOffsetOverflow { storage_offset: usize, max_linear_offset: usize },
    IndexRankMismatch { expected: usize, actual: usize },
    IndexOutOfBounds { dim: usize, index: usize, size: usize },
}

/// Two tensors can be combined when dtype and device agree; dtype is
/// checked first.
pub fn ensure_compatible(lhs: &TensorMeta, rhs: &TensorMeta) -> (r: Result<(), TensorCompatError>)
    ensures
        lhs@.dtype != rhs@.dtype ==> r == Err::<(), TensorCompatError>(TensorCompatError::DTypeMismatch { lhs: lhs@.dtype, rhs: rhs@.dtype }),
        lhs@.dtype == rhs@.dtype && lhs@.device != rhs@.device
            ==> r == Err::<(), TensorCompatError>(TensorCompatError::DeviceMismatch { lhs: lhs@.device, rhs: rhs@.device }),
        lhs@.dtype == rhs@.dtype && lhs@.device == rhs@.device ==> r is Ok,
{
    if lhs.dtype() != rhs.dtype() {
        return Err(TensorCompatError::DTypeMismatch { lhs: lhs.dtype(), rhs: rhs.dtype() });
    }
    if lhs.device() != rhs.device() {
        return Err(TensorCompatError::DeviceMismatch { lhs: lhs.device(), rhs: rhs.device() });
    }
    Ok(())
}

/// Errors raised when two tensors cannot be combined.
#[derive(Debug, Clone, Copy, PartialEq, Eq, Structural)]
pub enum TensorCompatError {
    DTypeMismatch { lhs: DType, rhs: DType },
    DeviceMismatch { lhs: Device, rhs: Device },
}

/// The canonical row-major strides of `shape`: each stride is the product of
/// the sizes to its right, saturated at the address width.
pub fn contiguous_strides(shape: &[usize]) -> (r: Vec<usize>)
    ensures
        r@ == canonical_strides(shape@),
{
    let n = shape.len();
    let mut strides: Vec<usize> = vec![1usize; n];
    let mut running: usize = 1;
    let mut idx: usize = n;
    while idx > 0
        invariant
            n == shape@.len(),
            idx <= n,
            strides@.len() == n,
            running as int == clamp_usize(seq_product(shape@.subrange(idx as int, n as int))),
            forall|j: int| idx <= j < n ==> strides@[j] as int == canonical_stride(shape@, j),
        decreases idx,
    {
        idx = idx - 1;
        strides.set(idx, running);
        proof {
            lemma_product_split_first(shape@.subrange(idx as int, n as int));
            assert(shape@.subrange(idx as int, n as int).drop_first() =~= shape@.subrange(idx + 1, n as int));
            lemma_clamp_mul(seq_product(shape@.subrange(idx + 1, n as int)), shape@[idx as int] as int);
            lemma_product_nonneg(shape@.subrange(idx + 1, n as int));
        }
        running = match running.checked_mul(shape[idx]) {
            Some(v) => v,
            None => usize::MAX,
        };
    }
    assert(strides@ =~= canonical_strides(shape@));
    strides
}

proof fn lemma_product_nonneg(s: Seq<usize>)
    ensures
        seq_product(s) >= 0,
    decreases s.len(),
{
    if s.len() > 0 {
        lemma_product_nonneg(s.drop_last());
        vstd::arithmetic::mul::lemma_mul_nonnegative(seq_product(s.drop_last()), s.last() as int);
    }
}

/// The product can equally be taken from the front.
proof fn lemma_product_split_first(s: Seq<usize>)
    requires
        s.len() > 0,
    ensures
        seq_product(s) == s[0] * seq_product(s.drop_first()),
    decreases s.len(),
{
    reveal_with_fuel(seq_product, 2);
    if s.len() == 1 {
        assert(s.drop_first().len() == 0);
        assert(s.drop_last().len() == 0);
        assert(seq_product(s.drop_last()) == 1);
        assert(seq_product(s.drop_first()) == 1);
    } else {
        lemma_product_split_first(s.drop_last());
        assert(s.drop_last().drop_first() =~= s.drop_first().drop_last());
        assert(s.drop_first().last() == s.last());
        assert(s.drop_last()[0] == s[0]);
        vstd::arithmetic::mul::lemma_mul_is_associative(s[0] as int, seq_product(s.drop_first().drop_last()), s.last() as int);
    }
}

/// Saturating after each step equals saturating once at the end.
proof fn lemma_clamp_mul(p: int, c: int)
    requires
        p >= 0,
        c >= 0,
    ensures
        clamp_usize(clamp_usize(p) * c) == clamp_usize(c * p),
{
    vstd::arithmetic::mul::lemma_mul_is_commutative(p, c);
    if p > usize::MAX && c > 0 {
        vstd::arithmetic::mul::lemma_mul_inequality(1, c, usize::MAX as int);
        vstd::arithmetic::mul::lemma_mul_inequality(usize::MAX as int, p, c);
    }
}

impl TensorMeta {
    /// Metadata of a rank-0 tensor.
    pub fn scalar(dtype: DType, device: Device) -> (r: TensorMeta)
        ensures
            r@.shape.len() == 0,
            r@.strides.len() == 0,
            r@.storage_offset == 0,
            r@.dtype == dtype,
            r@.device == device,
    {
        TensorMeta { shape: Vec::new(), strides: Vec::new(), storage_offset: 0, dtype, device }
    }

    /// Contiguous metadata for `shape` at offset zero.
    pub fn from_shape(shape: Vec<usize>, dtype: DType, device: Device) -> (r: TensorMeta)
        ensures
            r@.shape == shape@,
            r@.strides == canonical_strides(shape@),
            r@.storage_offset == 0,
            r@.dtype == dtype,
            r@.device == device,
    {
        let strides = contiguous_strides(shape.as_slice());
        TensorMeta { shape, strides, storage_offset: 0, dtype, device }
    }

    /// Metadata with explicit strides and offset, accepted only if it validates.
    pub fn from_shape_and_strides(
        shape: Vec<usize>,
        strides: Vec<usize>,
        storage_offset: usize,
        dtype: DType,
        device: Device,
    ) -> (r: Result<TensorMeta, TensorMetaError>)
        ensures
            r.is_ok() <==> layout_valid(shape@, strides@, storage_offset),
            r is Err ==> r == Err::<TensorMeta, TensorMetaError>(validate_result(shape@, strides@, storage_offset)->Err_0),
            r matches Ok(m) ==> m@ == (MetaView { shape: shape@, strides: strides@, storage_offset, dtype, device }),
    {
        let meta = TensorMeta { shape, strides, storage_offset, dtype, device };
        match meta.validate() {
            Ok(()) => Ok(meta),
            Err(e) => Err(e),
        }
    }

    /// The same metadata at another storage offset (not validated).
    pub fn with_storage_offset(self, storage_offset: usize) -> (r: TensorMeta)
        ensures
            r@ == (MetaView { storage_offset, ..self@ }),
    {
        let mut m = self;
        m.storage_offset = storage_offset;
        m
    }

    /// Checks that ranks agree and that every addressable element lies within
    /// the address width; empty dimensions contribute nothing.
    pub fn validate(&self) -> (r: Result<(), TensorMetaError>)
        ensures
            r == validate_result(self@.shape, self@.strides, self@.storage_offset),
            r.is_ok() <==> self@.valid(),
    {
        proof { lemma_validate_result_iff_valid(self@.shape, self@.strides, self@.storage_offset); }
        if self.shape.len() != self.strides.len() {
            return Err(TensorMetaError::RankStrideMismatch { rank: self.shape.len(), strides: self.strides.len() });
        }
        let n = self.shape.len();
        let mut max_linear_offset: usize = 0;
        let mut i: usize = 0;
        while i < n
            invariant
                n == self.shape@.len(),
                n == self.strides@.len(),
                i <= n,
                validate_result(self@.shape, self@.strides, self@.storage_offset).is_ok() <==> self@.valid(),
                span_scan(self.shape@, self.strides@, self.storage_offset, 0, 0)
                    == span_scan(self.shape@, self.strides@, self.storage_offset, i as int, max_linear_offset as int),
            decreases n - i,
        {
            let size = self.shape[i];
            let stride = self.strides[i];
            if size != 0 {
                let span = match stride.checked_mul(size - 1) {
                    Some(v) => v,
                    None => {
                        proof { vstd::arithmetic::mul::lemma_mul_is_commutative(stride as int, size - 1); }
                        return Err(TensorMetaError::StrideOverflow { size, stride });
                    },
                };
                proof { vstd::arithmetic::mul::lemma_mul_is_commutative(stride as int, size - 1); }
                max_linear_offset = match max_linear_offset.checked_add(span) {
                    Some(v) => v,
                    None => {
                        return Err(TensorMetaError::StorageOffsetOverflow {
                            storage_offset: self.storage_offset,
                            max_linear_offset,
                        });
                    },
                };
            }
            i = i + 1;
        }
        match self.storage_offset.checked_add(max_linear_offset) {
            Some(_) => Ok(()),
            None => Err(TensorMetaError::StorageOffsetOverflow { storage_offset: self.storage_offset, max_linear_offset }),
        }
    }

    /// Number of elements: the product of the sizes (1 for a scalar),
    /// saturated at the address width.
    pub fn numel(&self) -> (r: usize)
        ensures
            r as int == clamp_usize(self@.numel()),
    {
        let n = self.shape.len();
        let mut acc: usize = 1;
        let mut i: usize = 0;
        while i < n
            invariant
                n == self.shape@.len(),
                i <= n,
                acc as int == clamp_usize(seq_product(self.shape@.subrange(0, i as int))),
            decreases n - i,
        {
            proof {
                let pre = self.shape@.subrange(0, i + 1);
                assert(pre.drop_last() =~= self.shape@.subrange(0, i as int));
                lemma_product_nonneg(pre.drop_last());
                lemma_clamp_mul(seq_product(pre.drop_last()), self.shape@[i as int] as int);
                vstd::arithmetic::mul::lemma_mul_is_commutative(seq_product(pre.drop_last()), self.shape@[i as int] as int);
            }
            acc = match acc.checked_mul(self.shape[i]) {
                Some(v) => v,
                None => usize::MAX,
            };
            i = i + 1;
        }
        assert(self.shape@.subrange(0, n as int) =~= self.shape@);
        acc
    }

    /// Whether the strides are the canonical row-major strides of the shape.
    pub fn is_contiguous(&self) -> (r: bool)
        ensures
            r == self@.contiguous(),
    {
        let canonical = contiguous_strides(self.shape.as_slice());
        if canonical.len() != self.strides.len() {
            return false;
        }
        let mut i: usize = 0;
        while i < canonical.len()
            invariant
                canonical@ == canonical_strides(self@.shape),
                canonical@.len() == self.strides@.len(),
                i <= canonical@.len(),
                forall|j: int| 0 <= j < i ==> canonical@[j] == self.strides@[j],
            decreases canonical@.len() - i,
        {
            if canonical[i] != self.strides[i] {
                return false;
            }
            i = i + 1;
        }
        assert(canonical@ =~= self.strides@);
        true
    }

    /// Maps a multi-index to a position in storage:
    /// `offset + sum of index_i * stride_i`, failing on a wrong arity, an
    /// index past its dimension, or overflow.
    pub fn storage_index_for(&self, index: &[usize]) -> (r: Result<usize, TensorMetaError>)
        ensures
            index@.len() != self@.shape.len()
                ==> r == Err::<usize, TensorMetaError>(TensorMetaError::IndexRankMismatch { expected: self@.shape.len() as usize, actual: index@.len() as usize }),
            index@.len() == self@.shape.len() ==> match index_scan(self@.shape, self@.strides, self@.storage_offset, index@, 0, self@.storage_offset as int) {
                Ok(v) => r == Ok::<usize, TensorMetaError>(v as usize),
                Err(e) => r == Err::<usize, TensorMetaError>(e),
            },
            self@.valid() && index@.len() == self@.shape.len()
                && (forall|j: int| 0 <= j < index@.len() ==> index@[j] < self@.shape[j])
                ==> r == Ok::<usize, TensorMetaError>((self@.storage_offset + index_dot(index@, self@.strides, index@.len() as int)) as usize),
    {
        if index.len() != self.shape.len() {
            return Err(TensorMetaError::IndexRankMismatch { expected: self.shape.len(), actual: index.len() });
        }
        proof {
            if self@.valid() && (forall|j: int| 0 <= j < index@.len() ==> index@[j] < self@.shape[j]) {
                lemma_index_scan_in_bounds(self@.shape, self@.strides, self@.storage_offset, index@, 0, self@.storage_offset as int);
            }
        }
        let n = if index.len() < self.strides.len() { index.len() } else { self.strides.len() };
        let mut linear: usize = self.storage_offset;
        let mut i: usize = 0;
        while i < n
            invariant
                n as int == if index@.len() < self.strides@.len() { index@.len() as int } else { self.strides@.len() as int },
                index@.len() == self.shape@.len(),
                i <= n,
                self@.valid() && (forall|j: int| 0 <= j < index@.len() ==> index@[j] < self@.shape[j])
                    ==> index_scan(self.shape@, self.strides@, self.storage_offset, index@, 0, self.storage_offset as int)
                        == Ok::<int, TensorMetaError>(self@.storage_offset + index_dot(index@, self@.strides, index@.len() as int)),
                index_scan(self.shape@, self.strides@, self.storage_offset, index@, 0, self.storage_offset as int)
                    == index_scan(self.shape@, self.strides@, self.storage_offset, index@, i as int, linear as int),
            decreases n - i,
        {
            let idx = index[i];
            let dim_size = self.shape[i];
            let stride = self.strides[i];
            if idx >= dim_size {
                return Err(TensorMetaError::IndexOutOfBounds { dim: i, index: idx, size: dim_size });
            }
            let step = match idx.checked_mul(stride) {
                Some(v) => v,
                None => {
                    return Err(TensorMetaError::StrideOverflow { size: idx, stride });
                },
            };
            linear = match linear.checked_add(step) {
                Some(v) => v,
                None => {
                    return Err(TensorMetaError::StorageOffsetOverflow {
                        storage_offset: self.storage_offset,
                        max_linear_offset: step,
                    });
                },
            };
            i = i + 1;
        }
        Ok(linear)
    }

    /// A 64-bit fingerprint of every field, by the deterministic hasher.
    pub fn fingerprint64(&self) -> (r: u64)
        ensures
            r == det_digest(meta_bytes(self@)),
    {
        let mut bytes: Vec<u8> = Vec::new();
        push_le(&mut bytes, self.shape.len() as u64, 8);
        push_words(&mut bytes, self.shape.as_slice());
        push_le(&mut bytes, self.strides.len() as u64, 8);
        push_words(&mut bytes, self.strides.as_slice());
        push_le(&mut bytes, self.storage_offset as u64, 8);
        bytes.push(dtype_tag(self.dtype));
        bytes.push(device_tag(self.device));
        assert(bytes@ =~= meta_bytes(self@));
        det_hash_bytes(bytes.as_slice())
    }

    pub fn shape(&self) -> (r: &[usize])
        ensures
            r@ == self@.shape,
    {
        self.shape.as_slice()
    }

    pub fn strides(&self) -> (r: &[usize])
        ensures
            r@ == self@.strides,
    {
        self.strides.as_slice()
    }

    pub fn storage_offset(&self) -> (r: usize)
        ensures
            r == self@.storage_offset,
    {
        self.storage_offset
    }

    pub fn dtype(&self) -> (r: DType)
        ensures
            r == self@.dtype,
    {
        self.dtype
    }

    pub fn device(&self) -> (r: Device)
        ensures
            r == self@.device,
    {
        self.device
    }
}

pub open spec fn dtype_tag_spec(d: DType) -> u8 {
    match d {
        DType::F64 => 0,
    }
}

pub open spec fn device_tag_spec(d: Device) -> u8 {
    match d {
        Device::Cpu => 0,
    }
}

fn dtype_tag(d: DType) -> (r: u8)
    ensures
        r == dtype_tag_spec(d),
{
    match d {
        DType::F64 => 0,
    }
}

fn device_tag(d: Device) -> (r: u8)
    ensures
        r == device_tag_spec(d),
{
    match d {
        Device::Cpu => 0,
    }
}

/// The bytes a fingerprint is computed over: rank and sizes, rank and
/// strides, offset, then the dtype and device tags.
pub open spec fn meta_bytes(m: MetaView) -> Seq<u8> {
    le_bytes(m.shape.len() as u64, 8) + words_bytes(m.shape) + le_bytes(m.strides.len() as u64, 8)
        + words_bytes(m.strides) + le_bytes(m.storage_offset as u64, 8)
        + seq![dtype_tag_spec(m.dtype), device_tag_spec(m.device)]
}

/// On a valid layout an in-bounds index never overflows: the scan from
/// dimension `i` adds exactly the remaining `index_j * stride_j` terms.
proof fn lemma_index_scan_in_bounds(shape: Seq<usize>, strides: Seq<usize>, offset: usize, index: Seq<usize>, i: int, lin: int)
    requires
        layout_valid(shape, strides, offset),
        index.len() == shape.len(),
        0 <= i <= index.len(),
        forall|j: int| 0 <= j < index.len() ==> index[j] < shape[j],
        lin == offset + index_dot(index, strides, i),
    ensures
        index_scan(shape, strides, offset, index, i, lin) == Ok::<int, TensorMetaError>(offset + index_dot(index, strides, index.len() as int)),
    decreases index.len() - i,
{
    if i < index.len() {
        lemma_index_dot_le_span(index, shape, strides, i + 1);
        lemma_dim_span_nonneg(shape[i], strides[i]);
        vstd::arithmetic::mul::lemma_mul_nonnegative(index[i] as int, strides[i] as int);
        vstd::arithmetic::mul::lemma_mul_inequality(index[i] as int, shape[i] - 1, strides[i] as int);
        vstd::arithmetic::mul::lemma_mul_is_commutative(strides[i] as int, shape[i] - 1);
        lemma_prefix_span_monotone(shape, strides, i + 1, shape.len() as int);
        lemma_prefix_span_monotone(shape, strides, 0, i);
        assert(prefix_span(shape, strides, 0) == 0);
        assert(index_dot(index, strides, i + 1) == index_dot(index, strides, i) + index[i] * strides[i]);
        assert(prefix_span(shape, strides, i + 1) == prefix_span(shape, strides, i) + dim_span(shape[i], strides[i]));
        lemma_index_scan_in_bounds(shape, strides, offset, index, i + 1, lin + index[i] * strides[i]);
    }
}

/// Each partial dot product stays within the corresponding partial span.
proof fn lemma_index_dot_le_span(index: Seq<usize>, shape: Seq<usize>, strides: Seq<usize>, n: int)
    requires
        index.len() == shape.len(),
        shape.len() == strides.len(),
        0 <= n <= index.len(),
        forall|j: int| 0 <= j < index.len() ==> index[j] < shape[j],
    ensures
        0 <= index_dot(index, strides, n) <= prefix_span(shape, strides, n),
    decreases n,
{
    if n > 0 {
        lemma_index_dot_le_span(index, shape, strides, n - 1);
        vstd::arithmetic::mul::lemma_mul_nonnegative(index[n - 1] as int, strides[n - 1] as int);
        vstd::arithmetic::mul::lemma_mul_inequality(index[n - 1] as int, shape[n - 1] - 1, strides[n - 1] as int);
        vstd::arithmetic::mul::lemma_mul_is_commutative(strides[n - 1] as int, shape[n - 1] - 1);
    }
}

/// Contiguity and the fingerprint depend on the fields alone: metadata with
/// equal fields (a clone, say) agree on both.
pub proof fn lemma_meta_fields_determine(a: TensorMeta, b: TensorMeta)
    requires
        a@ == b@,
    ensures
        a@.contiguous() == b@.contiguous(),
        det_digest(meta_bytes(a@)) == det_digest(meta_bytes(b@)),
        a@.valid() == b@.valid(),
{
}

/// `span_scan` from a position onward: it fails exactly when the spans still
/// to come overflow, and otherwise adds them to the running total.
proof fn lemma_span_scan(shape: Seq<usize>, strides: Seq<usize>, offset: usize, i: int, acc: int)
    requires
        shape.len() == strides.len(),
        0 <= i <= shape.len(),
        0 <= acc <= usize::MAX,
    ensures
        span_scan(shape, strides, offset, i, acc).is_ok()
            <==> acc + prefix_span(shape, strides, shape.len() as int) - prefix_span(shape, strides, i) <= usize::MAX,
        span_scan(shape, strides, offset, i, acc) matches Ok(t)
            ==> t == acc + prefix_span(shape, strides, shape.len() as int) - prefix_span(shape, strides, i),
    decreases shape.len() - i,
{
    if i < shape.len() {
        lemma_span_scan(shape, strides, offset, i + 1, if shape[i] == 0 { acc } else if acc + dim_span(shape[i], strides[i]) <= usize::MAX { acc + dim_span(shape[i], strides[i]) } else { 0 });
        lemma_prefix_span_monotone(shape, strides, i + 1, shape.len() as int);
        lemma_dim_span_nonneg(shape[i], strides[i]);
    }
}

proof fn lemma_dim_span_nonneg(size: usize, stride: usize)
    ensures
        dim_span(size, stride) >= 0,
{
    if size > 0 {
        vstd::arithmetic::mul::lemma_mul_nonnegative(stride as int, size - 1);
    }
}

proof fn lemma_prefix_span_monotone(shape: Seq<usize>, strides: Seq<usize>, a: int, b: int)
    requires
        0 <= a <= b <= shape.len(),
        shape.len() == strides.len(),
    ensures
        prefix_span(shape, strides, a) <= prefix_span(shape, strides, b),
    decreases b - a,
{
    if a < b {
        lemma_prefix_span_monotone(shape, strides, a, b - 1);
        lemma_dim_span_nonneg(shape[b - 1], strides[b - 1]);
    }
}

proof fn lemma_validate_result_iff_valid(shape: Seq<usize>, strides: Seq<usize>, offset: usize)
    ensures
        validate_result(shape, strides, offset).is_ok() <==> layout_valid(shape, strides, offset),
{
    if shape.len() == strides.len() {
        lemma_span_scan(shape, strides, offset, 0, 0);
    }
}

} // verus!
