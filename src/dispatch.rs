//! Dispatch keys, key-set algebra, priority resolution and the strict /
//! hardened routing policy that selects a kernel.
use vstd::prelude::*;
use crate::meta::{ensure_compatible, Device, ExecutionMode, MetaView, TensorCompatError, TensorMeta};

verus! {

/// Binary operations the kernels provide.
#[derive(Debug, Clone, Copy, PartialEq, Eq, Structural)]
pub enum BinaryOp {
    Add,
    Sub,
    Mul,
    Div,
}

/// The closed set of dispatch keys.
#[derive(Debug, Clone, Copy, PartialEq, Eq, Structural, Hash)]
pub enum DispatchKey {
    Undefined,
    BackendSelect,
    CompositeImplicitAutograd,
    CompositeExplicitAutograd,
    CPU,
    AutogradCPU,
}

/// The bit a key occupies in a key set.
pub open spec fn key_bit(k: DispatchKey) -> u64 {
    match k {
        DispatchKey::Undefined => 1,
        DispatchKey::BackendSelect => 2,
        DispatchKey::CompositeImplicitAutograd => 4,
        DispatchKey::CompositeExplicitAutograd => 8,
        DispatchKey::CPU => 16,
        DispatchKey::AutogradCPU => 32,
    }
}

/// Bits of the keys a validated set may hold (every key but `Undefined`).
pub const KNOWN_KEY_MASK: u64 = 62;

impl DispatchKey {
    /// Every key but `Undefined`, in declaration order.
    pub fn all() -> (r: [DispatchKey; 5])
        ensures
            r@ == seq![
                DispatchKey::BackendSelect,
                DispatchKey::CompositeImplicitAutograd,
                DispatchKey::CompositeExplicitAutograd,
                DispatchKey::CPU,
                DispatchKey::AutogradCPU,
            ],
    {
        let r = [
            DispatchKey::BackendSelect,
            DispatchKey::CompositeImplicitAutograd,
            DispatchKey::CompositeExplicitAutograd,
            DispatchKey::CPU,
            DispatchKey::AutogradCPU,
        ];
        assert(r@ =~= seq![
            DispatchKey::BackendSelect,
            DispatchKey::CompositeImplicitAutograd,
            DispatchKey::CompositeExplicitAutograd,
            DispatchKey::CPU,
            DispatchKey::AutogradCPU,
        ]);
        r
    }

    /// The key's bit: `1 << ordinal`.
    pub fn bit(self) -> (r: u64)
        ensures
            r == key_bit(self),
    {
        match self {
            DispatchKey::Undefined => 1,
            DispatchKey::BackendSelect => 2,
            DispatchKey::CompositeImplicitAutograd => 4,
            DispatchKey::CompositeExplicitAutograd => 8,
            DispatchKey::CPU => 16,
            DispatchKey::AutogradCPU => 32,
        }
    }
}

/// Whether a mask holds key `k`.
pub open spec fn bits_contain(bits: u64, k: DispatchKey) -> bool {
    bits & key_bit(k) != 0
}

/// One of the six key bits.
pub open spec fn is_key_bit(x: u64) -> bool {
    x == 1 || x == 2 || x == 4 || x == 8 || x == 16 || x == 32
}

proof fn lemma_key_bit(k: DispatchKey)
    ensures
        is_key_bit(key_bit(k)),
{
}

/// Bitwise facts behind the set algebra.
proof fn lemma_bit_ops(b: u64, c: u64, x: u64, y: u64)
    requires
        is_key_bit(x),
        is_key_bit(y),
    ensures
        ((b | x) & y != 0) == ((b & y != 0) || x == y),
        ((b & !x) & y != 0) == ((b & y != 0) && x != y),
        ((b | c) & y != 0) == ((b & y != 0) || (c & y != 0)),
        ((b & c) & y != 0) == ((b & y != 0) && (c & y != 0)),
        (x & y != 0) == (x == y),
        (0u64 & y) == 0,
{
    assert(((b | x) & y != 0) == ((b & y != 0) || x == y)) by (bit_vector)
        requires x == 1 || x == 2 || x == 4 || x == 8 || x == 16 || x == 32,
            y == 1 || y == 2 || y == 4 || y == 8 || y == 16 || y == 32;
    assert(((b & !x) & y != 0) == ((b & y != 0) && x != y)) by (bit_vector)
        requires x == 1 || x == 2 || x == 4 || x == 8 || x == 16 || x == 32,
            y == 1 || y == 2 || y == 4 || y == 8 || y == 16 || y == 32;
    assert(((b | c) & y != 0) == ((b & y != 0) || (c & y != 0))) by (bit_vector);
    assert(((b & c) & y != 0) == ((b & y != 0) && (c & y != 0))) by (bit_vector)
        requires y == 1 || y == 2 || y == 4 || y == 8 || y == 16 || y == 32;
    assert((x & y != 0) == (x == y)) by (bit_vector)
        requires x == 1 || x == 2 || x == 4 || x == 8 || x == 16 || x == 32,
            y == 1 || y == 2 || y == 4 || y == 8 || y == 16 || y == 32;
    assert((0u64 & y) == 0) by (bit_vector);
}

/// The mask holding exactly the given keys.
pub open spec fn keys_bits(keys: Seq<DispatchKey>) -> u64
    decreases keys.len(),
{
    if keys.len() == 0 {
        0
    } else {
        keys_bits(keys.drop_last()) | key_bit(keys.last())
    }
}

/// A set of dispatch keys, held as a bitmask.
#[derive(Debug, Clone, Copy, PartialEq, Eq, Structural, Hash, Default)]
pub struct DispatchKeySet {
    bits: u64,
}

impl DispatchKeySet {
    pub closed spec fn spec_bits(self) -> u64 {
        self.bits
    }

    /// Whether key `k` is in the set.
    pub open spec fn contains(self, k: DispatchKey) -> bool {
        bits_contain(self.spec_bits(), k)
    }

    /// The set as a mathematical set of keys.
    pub open spec fn key_set(self) -> Set<DispatchKey> {
        Set::new(|k: DispatchKey| self.contains(k))
    }

    pub fn empty() -> (r: DispatchKeySet)
        ensures
            r.spec_bits() == 0,
            forall|k: DispatchKey| !r.contains(k),
    {
        proof {
            assert forall|k: DispatchKey| !(0u64 & #[trigger] key_bit(k) != 0) by {
                lemma_bit_ops(0, 0, key_bit(k), key_bit(k));
            }
        }
        DispatchKeySet { bits: 0 }
    }

    /// The set holding exactly the given keys.
    pub fn from_keys(keys: &[DispatchKey]) -> (r: DispatchKeySet)
        ensures
            r.spec_bits() == keys_bits(keys@),
            forall|k: DispatchKey| r.contains(k) <==> keys@.contains(k),
            r.spec_bits() & !KNOWN_KEY_MASK == 0 <==> !keys@.contains(DispatchKey::Undefined),
    {
        let mut out = DispatchKeySet::empty();
        assert(0u64 & !63u64 == 0) by (bit_vector);
        let mut i: usize = 0;
        while i < keys.len()
            invariant
                i <= keys@.len(),
                forall|k: DispatchKey| out.contains(k) <==> keys@.subrange(0, i as int).contains(k),
                out.spec_bits() & !63u64 == 0,
                out.spec_bits() == keys_bits(keys@.subrange(0, i as int)),
            decreases keys@.len() - i,
        {
            let ghost before = out;
            out.add(keys[i]);
            proof {
                let pre = keys@.subrange(0, i as int);
                let post = keys@.subrange(0, i + 1);
                assert(post.drop_last() =~= pre);
                assert forall|k: DispatchKey| out.contains(k) <==> post.contains(k) by {
                    if post.contains(k) {
                        let j = choose|j: int| 0 <= j < post.len() && post[j] == k;
                        if j < i {
                            assert(pre[j] == k);
                        }
                    }
                    if pre.contains(k) {
                        let j = choose|j: int| 0 <= j < pre.len() && pre[j] == k;
                        assert(post[j] == k);
                    }
                    if k == keys@[i as int] {
                        assert(post[i as int] == k);
                    }
                }
                let b = before.spec_bits();
                let x = key_bit(keys@[i as int]);
                assert((b | x) & !63u64 == 0) by (bit_vector)
                    requires b & !63u64 == 0, x == 1 || x == 2 || x == 4 || x == 8 || x == 16 || x == 32;
            }
            i = i + 1;
        }
        proof {
            assert(keys@.subrange(0, keys@.len() as int) =~= keys@);
            let b = out.spec_bits();
            assert((b & !62u64 == 0) == (b & 1 == 0)) by (bit_vector)
                requires b & !63u64 == 0;
            assert(KNOWN_KEY_MASK == 62u64);
            assert(out.contains(DispatchKey::Undefined) == (b & 1 != 0));
        }
        out
    }

    /// Accepts a raw mask only if it holds no bit outside the known keys.
    pub fn from_bits_checked(bits: u64) -> (r: Result<DispatchKeySet, DispatchKeyError>)
        ensures
            bits & !KNOWN_KEY_MASK != 0 ==> r == Err::<DispatchKeySet, DispatchKeyError>(
                DispatchKeyError::UnknownBits { unknown_mask: bits & !KNOWN_KEY_MASK },
            ),
            bits & !KNOWN_KEY_MASK == 0 ==> (r matches Ok(s) && s.spec_bits() == bits),
    {
        let all = DispatchKey::all();
        let mut known_mask: u64 = 0;
        let mut i: usize = 0;
        while i < 5
            invariant
                i <= 5,
                all@ == seq![
                    DispatchKey::BackendSelect,
                    DispatchKey::CompositeImplicitAutograd,
                    DispatchKey::CompositeExplicitAutograd,
                    DispatchKey::CPU,
                    DispatchKey::AutogradCPU,
                ],
                known_mask == if i == 0 { 0u64 } else if i == 1 { 2u64 } else if i == 2 { 6u64 } else if i == 3 { 14u64 } else if i == 4 { 30u64 } else { 62u64 },
            decreases 5 - i,
        {
            let b = all[i].bit();
            assert(known_mask | b == if i == 0 { 2u64 } else if i == 1 { 6u64 } else if i == 2 { 14u64 } else if i == 3 { 30u64 } else { 62u64 }) by (bit_vector)
                requires
                    (i == 0 && known_mask == 0 && b == 2) || (i == 1 && known_mask == 2 && b == 4)
                        || (i == 2 && known_mask == 6 && b == 8) || (i == 3 && known_mask == 14 && b == 16)
                        || (i == 4 && known_mask == 30 && b == 32);
            known_mask = known_mask | b;
            i = i + 1;
        }
        let unknown = bits & !known_mask;
        if unknown != 0 {
            return Err(DispatchKeyError::UnknownBits { unknown_mask: unknown });
        }
        Ok(DispatchKeySet { bits })
    }

    pub fn bits(self) -> (r: u64)
        ensures
            r == self.spec_bits(),
    {
        self.bits
    }

    pub fn is_empty(self) -> (r: bool)
        ensures
            r == (self.spec_bits() == 0),
    {
        self.bits == 0
    }

    /// Adds `key`; the other keys are unchanged.
    pub fn add(&mut self, key: DispatchKey)
        ensures
            final(self).spec_bits() == old(self).spec_bits() | key_bit(key),
            forall|k: DispatchKey| #[trigger] final(self).contains(k) <==> (old(self).contains(k) || k == key),
    {
        let ghost b = self.bits;
        self.bits = self.bits | key.bit();
        proof {
            assert forall|k: DispatchKey| #[trigger] self.contains(k) <==> ((b & key_bit(k) != 0) || k == key) by {
                lemma_bit_ops(b, 0, key_bit(key), key_bit(k));
                lemma_key_bits_distinct(key, k);
            }
        }
    }

    /// Removes `key`; the other keys are unchanged.
    pub fn remove(&mut self, key: DispatchKey)
        ensures
            final(self).spec_bits() == old(self).spec_bits() & !key_bit(key),
            forall|k: DispatchKey| #[trigger] final(self).contains(k) <==> (old(self).contains(k) && k != key),
    {
        let ghost b = self.bits;
        self.bits = self.bits & !key.bit();
        proof {
            assert forall|k: DispatchKey| #[trigger] self.contains(k) <==> ((b & key_bit(k) != 0) && k != key) by {
                lemma_bit_ops(b, 0, key_bit(key), key_bit(k));
                lemma_key_bits_distinct(key, k);
            }
        }
    }

    pub fn has(self, key: DispatchKey) -> (r: bool)
        ensures
            r == self.contains(key),
    {
        (self.bits & key.bit()) != 0
    }

    pub fn union(self, other: DispatchKeySet) -> (r: DispatchKeySet)
        ensures
            r.spec_bits() == self.spec_bits() | other.spec_bits(),
            forall|k: DispatchKey| #[trigger] r.contains(k) <==> (self.contains(k) || other.contains(k)),
    {
        let r = DispatchKeySet { bits: self.bits | other.bits };
        proof {
            assert forall|k: DispatchKey| #[trigger] r.contains(k) <==> (self.contains(k) || other.contains(k)) by {
                lemma_bit_ops(self.bits, other.bits, key_bit(k), key_bit(k));
                lemma_key_bit(k);
            }
        }
        r
    }

    pub fn intersection(self, other: DispatchKeySet) -> (r: DispatchKeySet)
        ensures
            r.spec_bits() == self.spec_bits() & other.spec_bits(),
            forall|k: DispatchKey| #[trigger] r.contains(k) <==> (self.contains(k) && other.contains(k)),
    {
        let r = DispatchKeySet { bits: self.bits & other.bits };
        proof {
            assert forall|k: DispatchKey| #[trigger] r.contains(k) <==> (self.contains(k) && other.contains(k)) by {
                lemma_bit_ops(self.bits, other.bits, key_bit(k), key_bit(k));
                lemma_key_bit(k);
            }
        }
        r
    }
}

/// The selected type key: the first present key in the order AutogradCPU,
/// CompositeExplicitAutograd, CompositeImplicitAutograd, CPU, BackendSelect.
pub open spec fn type_key_of(s: u64) -> Option<DispatchKey> {
    if bits_contain(s, DispatchKey::AutogradCPU) {
        Some(DispatchKey::AutogradCPU)
    } else if bits_contain(s, DispatchKey::CompositeExplicitAutograd) {
        Some(DispatchKey::CompositeExplicitAutograd)
    } else if bits_contain(s, DispatchKey::CompositeImplicitAutograd) {
        Some(DispatchKey::CompositeImplicitAutograd)
    } else if bits_contain(s, DispatchKey::CPU) {
        Some(DispatchKey::CPU)
    } else if bits_contain(s, DispatchKey::BackendSelect) {
        Some(DispatchKey::BackendSelect)
    } else {
        None
    }
}

/// The backend key: CPU is the only backend.
pub open spec fn backend_key_of(s: u64) -> Option<DispatchKey> {
    if bits_contain(s, DispatchKey::CPU) {
        Some(DispatchKey::CPU)
    } else {
        None
    }
}

/// Outcome of validating a key set for a binary operation.
pub open spec fn validate_spec(s: u64) -> Result<(), DispatchKeyError> {
    if s == 0 {
        Err(DispatchKeyError::EmptySet)
    } else if bits_contain(s, DispatchKey::AutogradCPU) && !bits_contain(s, DispatchKey::CPU) {
        Err(DispatchKeyError::IncompatibleSet { reason: AUTOGRAD_NEEDS_CPU })
    } else if type_key_of(s) is None {
        Err(DispatchKeyError::NoTypeKey)
    } else if backend_key_of(s) is None {
        Err(DispatchKeyError::NoBackendKey)
    } else {
        Ok(())
    }
}

pub const AUTOGRAD_NEEDS_CPU: &'static str = "AutogradCPU requires CPU backend availability";

pub const STRICT_FORBIDS_FALLBACK: &'static str = "strict mode forbids composite/backend fallback routing";

pub const UNSUPPORTED_RESOLVED_KEY: &'static str = "resolved dispatch key is unsupported for scalar binary ops";

pub const KEY_BACKEND_DRIFT: &'static str = "resolved key/backend key drifted to incompatible pair";

impl DispatchKeySet {
    /// The highest-priority type key present.
    pub fn highest_priority_type_id(self) -> (r: Result<DispatchKey, DispatchKeyError>)
        ensures
            self.spec_bits() == 0 ==> r == Err::<DispatchKey, DispatchKeyError>(DispatchKeyError::EmptySet),
            self.spec_bits() != 0 ==> r == match type_key_of(self.spec_bits()) {
                Some(k) => Ok::<DispatchKey, DispatchKeyError>(k),
                None => Err(DispatchKeyError::NoTypeKey),
            },
    {
        if self.is_empty() {
            Err(DispatchKeyError::EmptySet)
        } else if self.has(DispatchKey::AutogradCPU) {
            Ok(DispatchKey::AutogradCPU)
        } else if self.has(DispatchKey::CompositeExplicitAutograd) {
            Ok(DispatchKey::CompositeExplicitAutograd)
        } else if self.has(DispatchKey::CompositeImplicitAutograd) {
            Ok(DispatchKey::CompositeImplicitAutograd)
        } else if self.has(DispatchKey::CPU) {
            Ok(DispatchKey::CPU)
        } else if self.has(DispatchKey::BackendSelect) {
            Ok(DispatchKey::BackendSelect)
        } else {
            Err(DispatchKeyError::NoTypeKey)
        }
    }

    /// The highest-priority backend key present.
    pub fn highest_priority_backend_type_id(self) -> (r: Result<DispatchKey, DispatchKeyError>)
        ensures
            self.spec_bits() == 0 ==> r == Err::<DispatchKey, DispatchKeyError>(DispatchKeyError::EmptySet),
            self.spec_bits() != 0 ==> r == match backend_key_of(self.spec_bits()) {
                Some(k) => Ok::<DispatchKey, DispatchKeyError>(k),
                None => Err(DispatchKeyError::NoBackendKey),
            },
    {
        if self.is_empty() {
            Err(DispatchKeyError::EmptySet)
        } else if self.has(DispatchKey::CPU) {
            Ok(DispatchKey::CPU)
        } else {
            Err(DispatchKeyError::NoBackendKey)
        }
    }

    /// Checks that a binary operation can be routed over this set.
    pub fn validate_for_scalar_binary(self) -> (r: Result<(), DispatchKeyError>)
        ensures
            r == validate_spec(self.spec_bits()),
    {
        if self.is_empty() {
            return Err(DispatchKeyError::EmptySet);
        }
        if self.has(DispatchKey::AutogradCPU) && !self.has(DispatchKey::CPU) {
            return Err(DispatchKeyError::IncompatibleSet { reason: AUTOGRAD_NEEDS_CPU });
        }
        match self.highest_priority_type_id() {
            Err(e) => return Err(e),
            Ok(_) => {},
        }
        match self.highest_priority_backend_type_id() {
            Err(e) => return Err(e),
            Ok(_) => {},
        }
        Ok(())
    }
}

/// The record of a routing decision.
#[derive(Debug, Clone, Copy, PartialEq, Eq)]
pub struct DispatchDecision {
    pub op: BinaryOp,
    pub mode: ExecutionMode,
    pub kernel: &'static str,
    pub selected_key: DispatchKey,
    pub backend_key: DispatchKey,
    pub keyset_bits: u64,
    pub fallback_used: bool,
}

/// The pinned kernel identifier for an executing key, an operation, and
/// scalar or dense operands.
pub open spec fn kernel_name(key: DispatchKey, op: BinaryOp, dense: bool) -> &'static str {
    if key == DispatchKey::AutogradCPU {
        if dense {
            match op {
                BinaryOp::Add => "autograd_cpu::add_tensor_contiguous_f64",
                BinaryOp::Sub => "autograd_cpu::sub_tensor_contiguous_f64",
                BinaryOp::Mul => "autograd_cpu::mul_tensor_contiguous_f64",
                BinaryOp::Div => "autograd_cpu::div_tensor_contiguous_f64",
            }
        } else {
            match op {
                BinaryOp::Add => "autograd_cpu::add_scalar",
                BinaryOp::Sub => "autograd_cpu::sub_scalar",
                BinaryOp::Mul => "autograd_cpu::mul_scalar",
                BinaryOp::Div => "autograd_cpu::div_scalar",
            }
        }
    } else if dense {
        match op {
            BinaryOp::Add => "cpu::add_tensor_contiguous_f64",
            BinaryOp::Sub => "cpu::sub_tensor_contiguous_f64",
            BinaryOp::Mul => "cpu::mul_tensor_contiguous_f64",
            BinaryOp::Div => "cpu::div_tensor_contiguous_f64",
        }
    } else {
        match op {
            BinaryOp::Add => "cpu::add_scalar",
            BinaryOp::Sub => "cpu::sub_scalar",
            BinaryOp::Mul => "cpu::mul_scalar",
            BinaryOp::Div => "cpu::div_scalar",
        }
    }
}

fn kernel_for(key: DispatchKey, op: BinaryOp, dense: bool) -> (r: &'static str)
    requires
        key == DispatchKey::AutogradCPU || key == DispatchKey::CPU,
    ensures
        r == kernel_name(key, op, dense),
{
    match (key, dense) {
        (DispatchKey::AutogradCPU, true) => match op {
            BinaryOp::Add => "autograd_cpu::add_tensor_contiguous_f64",
            BinaryOp::Sub => "autograd_cpu::sub_tensor_contiguous_f64",
            BinaryOp::Mul => "autograd_cpu::mul_tensor_contiguous_f64",
            BinaryOp::Div => "autograd_cpu::div_tensor_contiguous_f64",
        },
        (DispatchKey::AutogradCPU, false) => match op {
            BinaryOp::Add => "autograd_cpu::add_scalar",
            BinaryOp::Sub => "autograd_cpu::sub_scalar",
            BinaryOp::Mul => "autograd_cpu::mul_scalar",
            BinaryOp::Div => "autograd_cpu::div_scalar",
        },
        (_, true) => match op {
            BinaryOp::Add => "cpu::add_tensor_contiguous_f64",
            BinaryOp::Sub => "cpu::sub_tensor_contiguous_f64",
            BinaryOp::Mul => "cpu::mul_tensor_contiguous_f64",
            BinaryOp::Div => "cpu::div_tensor_contiguous_f64",
        },
        (_, false) => match op {
            BinaryOp::Add => "cpu::add_scalar",
            BinaryOp::Sub => "cpu::sub_scalar",
            BinaryOp::Mul => "cpu::mul_scalar",
            BinaryOp::Div => "cpu::div_scalar",
        },
    }
}

/// The routing decision for `op` over `ks`, or the key error it meets.
/// AutogradCPU and CPU execute directly; a composite or BackendSelect type
/// key is refused in strict mode and falls back to the backend in hardened
/// mode.
pub open spec fn route_spec(op: BinaryOp, mode: ExecutionMode, ks: u64, dense: bool) -> Result<DispatchDecision, DispatchKeyError> {
    match validate_spec(ks) {
        Err(e) => Err(e),
        Ok(()) => {
            let sel = type_key_of(ks)->Some_0;
            if sel == DispatchKey::AutogradCPU || sel == DispatchKey::CPU {
                Ok(DispatchDecision {
                    op,
                    mode,
                    kernel: kernel_name(sel, op, dense),
                    selected_key: sel,
                    backend_key: DispatchKey::CPU,
                    keyset_bits: ks,
                    fallback_used: false,
                })
            } else if mode == ExecutionMode::Strict {
                Err(DispatchKeyError::IncompatibleSet { reason: STRICT_FORBIDS_FALLBACK })
            } else {
                Ok(DispatchDecision {
                    op,
                    mode,
                    kernel: kernel_name(DispatchKey::CPU, op, dense),
                    selected_key: sel,
                    backend_key: DispatchKey::CPU,
                    keyset_bits: ks,
                    fallback_used: true,
                })
            }
        },
    }
}

/// Resolves the kernel for `op` over an explicit key set.
pub fn route_binary(op: BinaryOp, mode: ExecutionMode, keyset: DispatchKeySet, dense: bool) -> (r: Result<DispatchDecision, DispatchKeyError>)
    ensures
        r == route_spec(op, mode, keyset.spec_bits(), dense),
{
    match keyset.validate_for_scalar_binary() {
        Err(e) => return Err(e),
        Ok(()) => {},
    }
    let selected_key = match keyset.highest_priority_type_id() {
        Ok(k) => k,
        Err(e) => return Err(e),
    };
    let backend_key = match keyset.highest_priority_backend_type_id() {
        Ok(k) => k,
        Err(e) => return Err(e),
    };
    let (effective_key, fallback_used) = match selected_key {
        DispatchKey::AutogradCPU | DispatchKey::CPU => (selected_key, false),
        DispatchKey::CompositeExplicitAutograd
        | DispatchKey::CompositeImplicitAutograd
        | DispatchKey::BackendSelect => match mode {
            ExecutionMode::Strict => {
                return Err(DispatchKeyError::IncompatibleSet { reason: STRICT_FORBIDS_FALLBACK });
            },
            ExecutionMode::Hardened => (backend_key, true),
        },
        DispatchKey::Undefined => return Err(DispatchKeyError::NoTypeKey),
    };
    if effective_key != DispatchKey::AutogradCPU && effective_key != DispatchKey::CPU {
        return Err(DispatchKeyError::IncompatibleSet { reason: UNSUPPORTED_RESOLVED_KEY });
    }
    let kernel = kernel_for(effective_key, op, dense);
    if effective_key != backend_key && effective_key != DispatchKey::AutogradCPU {
        return Err(DispatchKeyError::IncompatibleSet { reason: KEY_BACKEND_DRIFT });
    }
    Ok(DispatchDecision {
        op,
        mode,
        kernel,
        selected_key,
        backend_key,
        keyset_bits: keyset.bits(),
        fallback_used,
    })
}

/// The key set implied by the operands: BackendSelect, CPU when an operand
/// lives on the CPU, and AutogradCPU when the result requires a gradient.
pub fn dispatch_keyset_for_tensors(lhs: &TensorMeta, rhs: &TensorMeta, requires_grad: bool) -> (r: DispatchKeySet)
    ensures
        r.spec_bits() == implied_bits(lhs@, rhs@, requires_grad),
        forall|k: DispatchKey| #[trigger] r.contains(k) <==> (k == DispatchKey::BackendSelect
            || (k == DispatchKey::CPU && (lhs@.device == Device::Cpu || rhs@.device == Device::Cpu))
            || (k == DispatchKey::AutogradCPU && requires_grad)),
{
    let mut keyset = DispatchKeySet::empty();
    keyset.add(DispatchKey::BackendSelect);
    let cpu = lhs.device() == Device::Cpu || rhs.device() == Device::Cpu;
    if cpu {
        keyset.add(DispatchKey::CPU);
    }
    if requires_grad {
        keyset.add(DispatchKey::AutogradCPU);
    }
    proof {
        let g = requires_grad;
        assert(((0u64 | 2u64) | (if cpu { 16u64 } else { 0u64 })) | (if g { 32u64 } else { 0u64 })
            == (2u64 | (if cpu { 16u64 } else { 0u64 })) | (if g { 32u64 } else { 0u64 })) by (bit_vector);
        if !cpu {
            assert((0u64 | 2u64) | 0u64 == 0u64 | 2u64) by (bit_vector);
            assert(((0u64 | 2u64) | 0u64) | 32u64 == (0u64 | 2u64) | 32u64) by (bit_vector);
        }
        if !g {
            assert(((0u64 | 2u64) | 16u64) | 0u64 == (0u64 | 2u64) | 16u64) by (bit_vector);
            assert(((0u64 | 2u64) | 0u64) | 0u64 == (0u64 | 2u64)) by (bit_vector);
        }
    }
    keyset
}

/// Outcome of the dense kernel checks: same dtype and device, and both
/// operands contiguous at offset zero with equal shapes.
pub open spec fn dense_check_spec(lhs: MetaView, rhs: MetaView) -> Result<(), KernelError> {
    if lhs.dtype != rhs.dtype {
        Err(KernelError::Incompatible(TensorCompatError::DTypeMismatch { lhs: lhs.dtype, rhs: rhs.dtype }))
    } else if lhs.device != rhs.device {
        Err(KernelError::Incompatible(TensorCompatError::DeviceMismatch { lhs: lhs.device, rhs: rhs.device }))
    } else if !(lhs.contiguous() && lhs.storage_offset == 0) {
        Err(KernelError::UnsupportedLayout { side: "lhs" })
    } else if !(rhs.contiguous() && rhs.storage_offset == 0) {
        Err(KernelError::UnsupportedLayout { side: "rhs" })
    } else if lhs.shape != rhs.shape {
        Err(KernelError::ShapeMismatch)
    } else {
        Ok(())
    }
}

/// The checks a contiguous dense kernel makes before it runs.
pub fn check_dense_operands(lhs: &TensorMeta, rhs: &TensorMeta) -> (r: Result<(), KernelError>)
    ensures
        r == dense_check_spec(lhs@, rhs@),
{
    match ensure_compatible(lhs, rhs) {
        Ok(()) => {},
        Err(e) => return Err(KernelError::Incompatible(e)),
    }
    if !(lhs.is_contiguous() && lhs.storage_offset() == 0) {
        return Err(KernelError::UnsupportedLayout { side: "lhs" });
    }
    if !(rhs.is_contiguous() && rhs.storage_offset() == 0) {
        return Err(KernelError::UnsupportedLayout { side: "rhs" });
    }
    if !same_sizes(lhs.shape(), rhs.shape()) {
        return Err(KernelError::ShapeMismatch);
    }
    Ok(())
}

fn same_sizes(a: &[usize], b: &[usize]) -> (r: bool)
    ensures
        r == (a@ == b@),
{
    if a.len() != b.len() {
        return false;
    }
    let mut i: usize = 0;
    while i < a.len()
        invariant
            a@.len() == b@.len(),
            i <= a@.len(),
            forall|j: int| 0 <= j < i ==> a@[j] == b@[j],
        decreases a@.len() - i,
    {
        if a[i] != b[i] {
            return false;
        }
        i = i + 1;
    }
    assert(a@ =~= b@);
    true
}

/// Routes a dense binary operation: key resolution first, then the dense
/// kernel's operand checks.
pub fn route_tensor_binary(
    op: BinaryOp,
    mode: ExecutionMode,
    lhs: &TensorMeta,
    rhs: &TensorMeta,
    requires_grad: bool,
) -> (r: Result<DispatchDecision, DispatchError>)
    ensures
        ({
            let ks = implied_bits(lhs@, rhs@, requires_grad);
            match route_spec(op, mode, ks, true) {
                Err(e) => r == Err::<DispatchDecision, DispatchError>(DispatchError::Key(e)),
                Ok(d) => match dense_check_spec(lhs@, rhs@) {
                    Err(e) => r == Err::<DispatchDecision, DispatchError>(DispatchError::Kernel(e)),
                    Ok(()) => r == Ok::<DispatchDecision, DispatchError>(d),
                },
            }
        }),
{
    let keyset = dispatch_keyset_for_tensors(lhs, rhs, requires_grad);
    let decision = match route_binary(op, mode, keyset, true) {
        Ok(d) => d,
        Err(e) => return Err(DispatchError::Key(e)),
    };
    match check_dense_operands(lhs, rhs) {
        Ok(()) => Ok(decision),
        Err(e) => Err(DispatchError::Kernel(e)),
    }
}

/// The mask of the key set implied by two operands.
pub open spec fn implied_bits(lhs: MetaView, rhs: MetaView, requires_grad: bool) -> u64 {
    (2u64 | (if lhs.device == Device::Cpu || rhs.device == Device::Cpu { 16u64 } else { 0u64 }))
        | (if requires_grad { 32u64 } else { 0u64 })
}

/// Key sets obey the laws of sets: union and intersection are commutative,
/// associative and idempotent, each distributes over the other, and the
/// empty set is the unit of union.
pub proof fn lemma_keyset_algebra(a: DispatchKeySet, b: DispatchKeySet, c: DispatchKeySet)
    ensures
        ({
            let (x, y, z) = (a.spec_bits(), b.spec_bits(), c.spec_bits());
            &&& (x | y) == (y | x)
            &&& (x & y) == (y & x)
            &&& ((x | y) | z) == (x | (y | z))
            &&& ((x & y) & z) == (x & (y & z))
            &&& (x | x) == x
            &&& (x & x) == x
            &&& (x & (y | z)) == ((x & y) | (x & z))
            &&& (x | (y & z)) == ((x | y) & (x | z))
            &&& (x | 0u64) == x
        }),
{
    let (x, y, z) = (a.spec_bits(), b.spec_bits(), c.spec_bits());
    assert((x | y) == (y | x)) by (bit_vector);
    assert((x & y) == (y & x)) by (bit_vector);
    assert(((x | y) | z) == (x | (y | z))) by (bit_vector);
    assert(((x & y) & z) == (x & (y & z))) by (bit_vector);
    assert((x | x) == x) by (bit_vector);
    assert((x & x) == x) by (bit_vector);
    assert((x & (y | z)) == ((x & y) | (x & z))) by (bit_vector);
    assert((x | (y & z)) == ((x | y) & (x | z))) by (bit_vector);
    assert((x | 0u64) == x) by (bit_vector);
}

/// A key is in a set after it is added and until it is removed; adding or
/// removing one key leaves every other key as it was.
pub proof fn lemma_add_remove_membership(s: DispatchKeySet, k: DispatchKey, other: DispatchKey)
    requires
        k != other,
    ensures
        bits_contain(s.spec_bits() | key_bit(k), k),
        !bits_contain((s.spec_bits() | key_bit(k)) & !key_bit(k), k),
        bits_contain(s.spec_bits() | key_bit(k), other) == s.contains(other),
        bits_contain(s.spec_bits() & !key_bit(k), other) == s.contains(other),
{
    let b = s.spec_bits();
    lemma_key_bits_distinct(k, other);
    lemma_bit_ops(b, 0, key_bit(k), key_bit(k));
    lemma_bit_ops(b | key_bit(k), 0, key_bit(k), key_bit(k));
    lemma_bit_ops(b, 0, key_bit(k), key_bit(other));
}

/// Routing over a set whose highest type key is a composite key or
/// BackendSelect: strict mode refuses it, and hardened mode executes at the
/// CPU backend with the fallback flagged.
pub proof fn lemma_composite_routing(op: BinaryOp, ks: u64, dense: bool)
    requires
        validate_spec(ks) is Ok,
        type_key_of(ks) == Some(DispatchKey::CompositeExplicitAutograd)
            || type_key_of(ks) == Some(DispatchKey::CompositeImplicitAutograd)
            || type_key_of(ks) == Some(DispatchKey::BackendSelect),
    ensures
        route_spec(op, ExecutionMode::Strict, ks, dense) == Err::<DispatchDecision, DispatchKeyError>(
            DispatchKeyError::IncompatibleSet { reason: STRICT_FORBIDS_FALLBACK },
        ),
        route_spec(op, ExecutionMode::Hardened, ks, dense) matches Ok(d) && d.fallback_used
            && d.backend_key == DispatchKey::CPU && Some(d.selected_key) == type_key_of(ks)
            && d.kernel == kernel_name(DispatchKey::CPU, op, dense),
{
}

proof fn lemma_key_bits_distinct(a: DispatchKey, b: DispatchKey)
    ensures
        is_key_bit(key_bit(a)),
        is_key_bit(key_bit(b)),
        (key_bit(a) == key_bit(b)) == (a == b),
{
}

/// Errors in forming or resolving a key set.
#[derive(Debug, Clone, Copy, PartialEq, Eq)]
pub enum DispatchKeyError {
    EmptySet,
    NoTypeKey,
    NoBackendKey,
    UnknownBits { unknown_mask: u64 },
    IncompatibleSet { reason: &'static str },
}

/// Errors in the kernel a dispatch selected.
#[derive(Debug, Clone, Copy, PartialEq, Eq)]
pub enum KernelError {
    Incompatible(TensorCompatError),
    UnsupportedLayout { side: &'static str },
    ShapeMismatch,
}

/// A failed dispatch: a key-set problem or a kernel refusal.
#[derive(Debug, Clone, Copy, PartialEq, Eq)]
pub enum DispatchError {
    Kernel(KernelError),
    Key(DispatchKeyError),
}

} // verus!
