//! The erasure-coded durability sidecar of a checkpoint payload, and the
//! proof that the payload decodes back from it.
use vstd::prelude::*;
use vstd::string::StringSliceAdditionalSpecFns;
use asupersync::raptorq::decoder::{InactivationDecoder, ReceivedSymbol};
use asupersync::raptorq::gf256::Gf256;
use asupersync::raptorq::systematic::{SystematicEncoder, SystematicParams};
use asupersync::types::ObjectId;
use crate::checkpoint::{SerializeError, RAPTORQ_SIDECAR_SCHEMA_VERSION};
use crate::digest::{det64_string, det64_text, det_digest, det_hash_bytes};

verus! {

/// Seed of the systematic encoder and of the decoder.
pub const SIDECAR_SEED: u64 = 0x4654_5f52_4150_5451;

/// High half of the object id recorded in decode proofs.
pub const OBJECT_ID_HIGH: u64 = 0x4654_5f43_4b50_545f;

/// Low half of the object id recorded in decode proofs.
pub const OBJECT_ID_LOW: u64 = 0x4455_5241_4249_4c45;

/// Largest source block the encoder supports.
pub const MAX_SOURCE_SYMBOLS: usize = 56403;

/// One repair symbol of the manifest.
#[derive(Debug, Clone, Copy, PartialEq, Eq, Structural)]
pub struct RepairSymbolRecord {
    pub esi: u32,
    pub degree: usize,
    pub bytes: usize,
}

/// The sidecar that lets an offline verifier re-run the decode.
#[derive(Debug, Clone, PartialEq, Eq)]
pub struct RaptorQSidecar {
    pub schema_version: u32,
    pub source_hash: String,
    pub symbol_size: usize,
    pub source_symbol_count: usize,
    pub repair_symbol_count: usize,
    pub constraints_symbol_count: usize,
    pub seed: u64,
    pub object_id_high: u64,
    pub object_id_low: u64,
    pub repair_manifest: Vec<RepairSymbolRecord>,
}

/// Evidence that the payload was recovered from the emitted symbols.
#[derive(Debug, Clone, PartialEq, Eq)]
pub struct DecodeProofArtifact {
    pub schema_version: u8,
    pub source_hash: String,
    pub proof_hash: u64,
    pub proof_hash_hex: String,
    pub received_symbol_count: usize,
    pub recovered_bytes: usize,
}

/// A symbol the encoder emitted: its index, bytes and encoding degree.
#[derive(Debug, Clone, PartialEq, Eq)]
pub struct EncodedSymbol {
    pub esi: u32,
    pub data: Vec<u8>,
    pub degree: usize,
}

/// An emitted symbol as values.
pub struct SymbolModel {
    pub esi: u32,
    pub data: Seq<u8>,
    pub degree: usize,
}

impl View for EncodedSymbol {
    type V = SymbolModel;

    open spec fn view(&self) -> SymbolModel {
        SymbolModel { esi: self.esi, data: self.data@, degree: self.degree }
    }
}

/// The systematic and repair symbols of one encoded block.
pub struct EncodedBlock {
    pub systematic: Vec<EncodedSymbol>,
    pub repair: Vec<EncodedSymbol>,
}

/// A symbol handed to the decoder: its index, whether it is a source
/// symbol, the intermediate symbols it combines with their GF(256)
/// coefficients, and its bytes.
#[derive(Debug, Clone, PartialEq, Eq)]
pub struct RxSymbol {
    pub esi: u32,
    pub is_source: bool,
    pub columns: Vec<usize>,
    pub coefficients: Vec<u8>,
    pub data: Vec<u8>,
}

/// A received symbol as values.
pub struct RxModel {
    pub esi: u32,
    pub is_source: bool,
    pub columns: Seq<usize>,
    pub coefficients: Seq<u8>,
    pub data: Seq<u8>,
}

impl View for RxSymbol {
    type V = RxModel;

    open spec fn view(&self) -> RxModel {
        RxModel {
            esi: self.esi,
            is_source: self.is_source,
            columns: self.columns@,
            coefficients: self.coefficients@,
            data: self.data@,
        }
    }
}

pub open spec fn rx_views(v: Seq<RxSymbol>) -> Seq<RxModel> {
    v.map_values(|x: RxSymbol| x@)
}

pub open spec fn symbol_views(v: Seq<EncodedSymbol>) -> Seq<SymbolModel> {
    v.map_values(|x: EncodedSymbol| x@)
}

pub open spec fn byte_views(v: Seq<Vec<u8>>) -> Seq<Seq<u8>> {
    v.map_values(|x: Vec<u8>| x@)
}

/// What a successful decode hands back: the recovered source symbols and the
/// content hash of the decoder's proof trace.
pub struct DecodedBlock {
    pub source: Vec<Vec<u8>>,
    pub proof_hash: u64,
}

/// The repair symbols the systematic encoder emits for a source block, or
/// `None` when its constraint matrix is singular.
pub uninterp spec fn rq_repair_symbols(source: Seq<Seq<u8>>, symbol_size: usize, seed: u64, count: usize) -> Option<Seq<SymbolModel>>;

/// The LDPC and HDPC constraint symbols of a block of `k` symbols.
pub uninterp spec fn rq_constraints(k: usize, symbol_size: usize, seed: u64) -> Seq<RxModel>;

/// `(K', L)` of a block of `k` symbols: the padded block size and the
/// number of intermediate symbols.
pub uninterp spec fn rq_block_params(k: usize) -> (usize, usize);

/// The intermediate symbols a repair symbol combines, with coefficients.
pub uninterp spec fn rq_repair_equation(k: usize, esi: u32) -> (Seq<usize>, Seq<u8>);

/// The outcome of decoding a received set: the source symbols and the
/// proof's content hash, or the error's debug text.
pub uninterp spec fn rq_decode(
    k: usize,
    symbol_size: usize,
    seed: u64,
    received: Seq<RxModel>,
    object_high: u64,
    object_low: u64,
) -> Result<(Seq<Seq<u8>>, u64), Seq<char>>;

/// Relies on `SystematicEncoder::new`, `emit_systematic` and `emit_repair`
/// on a fresh encoder: `None` when the constraint matrix is singular;
/// otherwise the source symbols unchanged with indices `0..K` and degree 1,
/// then `count` repair symbols with indices `K..K+count`. `new` panics on an
/// empty block, on symbols of another size and beyond the largest block;
/// `emit_repair` once an index passes `u32::MAX`.
#[verifier::external_body]
fn encode_block(source: &Vec<Vec<u8>>, symbol_size: usize, seed: u64, count: usize) -> (r: Option<EncodedBlock>)
    requires
        0 < source@.len() <= MAX_SOURCE_SYMBOLS,
        forall|i: int| 0 <= i < source@.len() ==> (#[trigger] source@[i])@.len() == symbol_size,
        count <= u32::MAX - MAX_SOURCE_SYMBOLS,
    ensures
        match rq_repair_symbols(byte_views(source@), symbol_size, seed, count) {
            None => r is None,
            Some(rep) => r matches Some(b) && symbol_views(b.repair@) == rep && rep.len() == count
                && (forall|i: int| 0 <= i < count ==> #[trigger] rep[i].esi == source@.len() + i)
                && b.systematic@.len() == source@.len()
                && (forall|i: int| 0 <= i < source@.len() ==> #[trigger] b.systematic@[i]@ == (SymbolModel {
                    esi: i as u32,
                    data: source@[i]@,
                    degree: 1,
                })),
        },
{
    let to_plain = |s: asupersync::raptorq::systematic::EmittedSymbol| EncodedSymbol { esi: s.esi, data: s.data, degree: s.degree };
    let mut encoder = SystematicEncoder::new(source, symbol_size, seed)?;
    let systematic = encoder.emit_systematic().into_iter().map(to_plain).collect();
    let repair = encoder.emit_repair(count).into_iter().map(to_plain).collect();
    Some(EncodedBlock { systematic, repair })
}

/// Relies on `InactivationDecoder::new` and `constraint_symbols`: the
/// constraint rows, each field moved over and each coefficient read as its
/// byte. `new` panics outside `1..=MAX_SOURCE_SYMBOLS`.
#[verifier::external_body]
fn constraint_rows(k: usize, symbol_size: usize, seed: u64) -> (r: Vec<RxSymbol>)
    requires
        0 < k <= MAX_SOURCE_SYMBOLS,
    ensures
        rx_views(r@) == rq_constraints(k, symbol_size, seed),
{
    InactivationDecoder::new(k, symbol_size, seed).constraint_symbols().into_iter().map(|s| RxSymbol {
        esi: s.esi,
        is_source: s.is_source,
        columns: s.columns,
        coefficients: s.coefficients.into_iter().map(|c| c.raw()).collect(),
        data: s.data,
    }).collect()
}

/// Relies on `SystematicParams::for_source_block`: `K'` and `L` of a block
/// of `k` symbols. `K'` is the first entry of the RFC 6330 systematic index
/// table not below `k`, so `k <= K' <= MAX_SOURCE_SYMBOLS`. It panics
/// outside `1..=MAX_SOURCE_SYMBOLS`.
#[verifier::external_body]
fn block_params(k: usize, symbol_size: usize) -> (r: (usize, usize))
    requires
        0 < k <= MAX_SOURCE_SYMBOLS,
    ensures
        r == rq_block_params(k),
        k <= r.0 <= MAX_SOURCE_SYMBOLS,
{
    let params = SystematicParams::for_source_block(k, symbol_size);
    (params.k_prime, params.l)
}

/// Relies on `InactivationDecoder::new` and `repair_equation`: the equation
/// of repair symbol `esi`, each coefficient read as its byte. It panics when
/// `esi + (K' - K)` passes `u32::MAX`, which the bound on `esi` rules out.
#[verifier::external_body]
fn repair_equation(k: usize, symbol_size: usize, seed: u64, esi: u32) -> (r: (Vec<usize>, Vec<u8>))
    requires
        0 < k <= MAX_SOURCE_SYMBOLS,
        esi <= u32::MAX - MAX_SOURCE_SYMBOLS,
    ensures
        (r.0@, r.1@) == rq_repair_equation(k, esi),
{
    let (columns, coefficients) = InactivationDecoder::new(k, symbol_size, seed).repair_equation(esi);
    (columns, coefficients.into_iter().map(|c| c.raw()).collect())
}

/// Relies on `InactivationDecoder::new`, `ObjectId::new`,
/// `decode_with_proof` (source block 0) and `DecodeProof::content_hash`:
/// the recovered source symbols and the proof's hash, or the error's debug
/// text. The received symbols are rebuilt field by field.
#[verifier::external_body]
fn decode_block(
    k: usize,
    symbol_size: usize,
    seed: u64,
    symbols: &Vec<RxSymbol>,
    object_high: u64,
    object_low: u64,
) -> (r: Result<DecodedBlock, String>)
    requires
        0 < k <= MAX_SOURCE_SYMBOLS,
    ensures
        match rq_decode(k, symbol_size, seed, rx_views(symbols@), object_high, object_low) {
            Ok((src, hash)) => r matches Ok(d) && byte_views(d.source@) == src && d.proof_hash == hash,
            Err(text) => r matches Err(e) && e@ == text,
        },
{
    let received: Vec<ReceivedSymbol> = symbols.iter().map(|s| ReceivedSymbol {
        esi: s.esi,
        is_source: s.is_source,
        columns: s.columns.clone(),
        coefficients: s.coefficients.iter().map(|c| Gf256::new(*c)).collect(),
        data: s.data.clone(),
    }).collect();
    let decoder = InactivationDecoder::new(k, symbol_size, seed);
    match decoder.decode_with_proof(&received, ObjectId::new(object_high, object_low), 0) {
        Ok(decoded) => Ok(DecodedBlock { source: decoded.result.source, proof_hash: decoded.proof.content_hash() }),
        Err((error, _proof)) => Err(format!("{error:?}")),
    }
}

/// Symbol size by payload length: up to 64 bytes 32, up to 512 bytes 64,
/// up to 4096 bytes 128, else 256.
pub open spec fn symbol_size_for(len: nat) -> usize {
    if len <= 64 {
        32
    } else if len <= 512 {
        64
    } else if len <= 4096 {
        128
    } else {
        256
    }
}

pub fn recommended_symbol_size(payload_len: usize) -> (r: usize)
    ensures
        r == symbol_size_for(payload_len as nat),
{
    if payload_len <= 64 {
        32
    } else if payload_len <= 512 {
        64
    } else if payload_len <= 4096 {
        128
    } else {
        256
    }
}

/// Number of source symbols: the payload split into `size`-byte pieces, and
/// one symbol for an empty payload.
pub open spec fn source_count(len: nat, size: nat) -> nat {
    if len == 0 {
        1
    } else {
        ((len + size - 1) / size as int) as nat
    }
}

/// Byte `j` of source symbol `i`: the payload byte it covers, or zero past
/// the end.
pub open spec fn symbol_byte(bytes: Seq<u8>, size: nat, i: int, j: int) -> u8 {
    if i * size + j < bytes.len() {
        bytes[i * size + j]
    } else {
        0
    }
}

/// The source symbols of a payload.
pub open spec fn source_block(bytes: Seq<u8>, size: nat) -> Seq<Seq<u8>> {
    Seq::new(source_count(bytes.len(), size), |i: int| Seq::new(size, |j: int| symbol_byte(bytes, size, i, j)))
}

/// Splits a payload into zero-padded symbols of `symbol_size` bytes.
pub fn split_source_symbols(bytes: &[u8], symbol_size: usize) -> (r: Vec<Vec<u8>>)
    requires
        0 < symbol_size,
        bytes@.len() + symbol_size <= usize::MAX,
    ensures
        r@.len() == source_count(bytes@.len(), symbol_size as nat),
        forall|i: int| 0 <= i < r@.len() ==> (#[trigger] r@[i])@.len() == symbol_size,
        forall|i: int, j: int| 0 <= i < r@.len() && 0 <= j < symbol_size ==> #[trigger] r@[i]@[j] == symbol_byte(bytes@, symbol_size as nat, i, j),
        byte_views(r@) == source_block(bytes@, symbol_size as nat),
{
    let n = bytes.len();
    let mut symbols: Vec<Vec<u8>> = Vec::new();
    if n == 0 {
        symbols.push(vec![0u8; symbol_size]);
        assert(byte_views(symbols@) =~= source_block(bytes@, symbol_size as nat)) by {
            assert(byte_views(symbols@)[0] =~= source_block(bytes@, symbol_size as nat)[0]);
        }
        return symbols;
    }
    let mut start: usize = 0;
    assert(0 * (symbol_size as int) == 0);
    while start < n
        invariant
            n == bytes@.len(),
            0 < symbol_size,
            n + symbol_size <= usize::MAX,
            start == symbols@.len() * symbol_size,
            start < n + symbol_size,
            forall|i: int| 0 <= i < symbols@.len() ==> (#[trigger] symbols@[i])@.len() == symbol_size,
            forall|i: int, j: int| 0 <= i < symbols@.len() && 0 <= j < symbol_size ==> #[trigger] symbols@[i]@[j] == symbol_byte(bytes@, symbol_size as nat, i, j),
        decreases n + symbol_size - start,
    {
        let mut symbol: Vec<u8> = Vec::new();
        let mut j: usize = 0;
        while j < symbol_size
            invariant
                n == bytes@.len(),
                start == symbols@.len() * symbol_size,
                start < n,
                n + symbol_size <= usize::MAX,
                j <= symbol_size,
                symbol@.len() == j,
                forall|x: int| 0 <= x < j ==> #[trigger] symbol@[x] == symbol_byte(bytes@, symbol_size as nat, symbols@.len() as int, x),
            decreases symbol_size - j,
        {
            let b = if start + j < n { bytes[start + j] } else { 0u8 };
            symbol.push(b);
            j = j + 1;
        }
        let ghost k = symbols@.len();
        let ghost before = symbols@;
        symbols.push(symbol);
        proof {
            assert forall|i: int, x: int| 0 <= i < symbols@.len() && 0 <= x < symbol_size implies #[trigger] symbols@[i]@[x] == symbol_byte(bytes@, symbol_size as nat, i, x) by {
                if i < k {
                    assert(symbols@[i] == before[i]);
                }
            }
            vstd::arithmetic::mul::lemma_mul_is_distributive_add_other_way(symbol_size as int, k as int, 1);
        }
        start = start + symbol_size;
    }
    proof {
        let c = symbols@.len() as int;
        let sz = symbol_size as int;
        vstd::arithmetic::mul::lemma_mul_is_distributive_sub_other_way(sz, c, 1);
        assert((c - 1) * sz == c * sz - sz);
        vstd::arithmetic::div_mod::lemma_fundamental_div_mod_converse(n + sz - 1, sz, c, n + sz - 1 - c * sz);
        assert forall|i: int| 0 <= i < c implies byte_views(symbols@)[i] =~= source_block(bytes@, symbol_size as nat)[i] by {
            assert forall|j: int| 0 <= j < sz implies byte_views(symbols@)[i][j] == source_block(bytes@, symbol_size as nat)[i][j] by {
                assert(symbols@[i]@[j] == symbol_byte(bytes@, symbol_size as nat, i, j));
            }
        }
        assert(byte_views(symbols@) =~= source_block(bytes@, symbol_size as nat));
    }
    symbols
}

/// The source symbols one after another.
pub open spec fn concat_symbols(s: Seq<Seq<u8>>) -> Seq<u8>
    decreases s.len(),
{
    if s.len() == 0 {
        Seq::empty()
    } else {
        concat_symbols(s.drop_last()) + s.last()
    }
}

/// The recovered payload: the concatenated source symbols cut to `len`.
pub open spec fn recovered_payload(s: Seq<Seq<u8>>, len: nat) -> Seq<u8> {
    let all = concat_symbols(s);
    if all.len() <= len {
        all
    } else {
        all.subrange(0, len as int)
    }
}

pub open spec fn manifest_of(repair: Seq<SymbolModel>) -> Seq<RepairSymbolRecord> {
    repair.map_values(|s: SymbolModel| RepairSymbolRecord { esi: s.esi, degree: s.degree, bytes: s.data.len() as usize })
}

pub open spec fn recovery_check_failed() -> Seq<char> {
    "decoded payload failed deterministic recovery check"@
}

/// Checks a decode against the payload and assembles the sidecar and the
/// decode proof: the recovered bytes must equal the payload.
pub fn assemble_sidecar(
    payload: &[u8],
    symbol_size: usize,
    source_symbol_count: usize,
    repair: &Vec<EncodedSymbol>,
    constraints_symbol_count: usize,
    received_symbol_count: usize,
    decoded: &DecodedBlock,
) -> (r: Result<(RaptorQSidecar, DecodeProofArtifact), SerializeError>)
    ensures
        recovered_payload(byte_views(decoded.source@), payload@.len()) != payload@ ==> (r matches Err(SerializeError::RaptorQFailure { reason })
            && reason@ == recovery_check_failed()),
        recovered_payload(byte_views(decoded.source@), payload@.len()) == payload@ ==> (r matches Ok((sc, pf)) && {
            let hash = det64_text(det_digest(payload@));
            &&& sc.schema_version == RAPTORQ_SIDECAR_SCHEMA_VERSION
            &&& sc.source_hash@ == hash
            &&& sc.symbol_size == symbol_size
            &&& sc.source_symbol_count == source_symbol_count
            &&& sc.repair_symbol_count == repair@.len()
            &&& sc.constraints_symbol_count == constraints_symbol_count
            &&& sc.seed == SIDECAR_SEED
            &&& sc.object_id_high == OBJECT_ID_HIGH
            &&& sc.object_id_low == OBJECT_ID_LOW
            &&& sc.repair_manifest@ == manifest_of(symbol_views(repair@))
            &&& pf.schema_version == 1
            &&& pf.source_hash@ == hash
            &&& pf.proof_hash == decoded.proof_hash
            &&& pf.proof_hash_hex@ == det64_text(decoded.proof_hash)
            &&& pf.received_symbol_count == received_symbol_count
            &&& pf.recovered_bytes == payload@.len()
        }),
{
    let len = payload.len();
    let mut recovered: Vec<u8> = Vec::new();
    let mut i: usize = 0;
    while i < decoded.source.len()
        invariant
            i <= decoded.source@.len(),
            len == payload@.len(),
            recovered@ == recovered_payload(byte_views(decoded.source@).subrange(0, i as int), len as nat),
        decreases decoded.source@.len() - i,
    {
        let sym = &decoded.source[i];
        let mut j: usize = 0;
        let ghost before = recovered@;
        proof {
            assert(byte_views(decoded.source@).subrange(0, i + 1).drop_last() =~= byte_views(decoded.source@).subrange(0, i as int));
            assert(byte_views(decoded.source@).subrange(0, i + 1).last() == sym@);
        }
        while j < sym.len()
            invariant
                j <= sym@.len(),
                len == payload@.len(),
                before == recovered_payload(byte_views(decoded.source@).subrange(0, i as int), len as nat),
                recovered@ == recovered_payload_step(concat_symbols(byte_views(decoded.source@).subrange(0, i as int)), sym@.subrange(0, j as int), len as nat),
            decreases sym@.len() - j,
        {
            if recovered.len() < len {
                recovered.push(sym[j]);
            }
            proof {
                let all = concat_symbols(byte_views(decoded.source@).subrange(0, i as int));
                assert(all + sym@.subrange(0, j + 1) =~= (all + sym@.subrange(0, j as int)).push(sym@[j as int]));
            }
            j = j + 1;
        }
        proof {
            assert(sym@.subrange(0, sym@.len() as int) =~= sym@);
        }
        i = i + 1;
    }
    assert(byte_views(decoded.source@).subrange(0, decoded.source@.len() as int) =~= byte_views(decoded.source@));
    if !same_bytes(recovered.as_slice(), payload) {
        return Err(SerializeError::RaptorQFailure { reason: String::from_str("decoded payload failed deterministic recovery check") });
    }
    let source_hash = det64_string(det_hash_bytes(payload));
    let mut manifest: Vec<RepairSymbolRecord> = Vec::new();
    let mut k: usize = 0;
    while k < repair.len()
        invariant
            k <= repair@.len(),
            manifest@ == manifest_of(symbol_views(repair@).subrange(0, k as int)),
        decreases repair@.len() - k,
    {
        let sym = &repair[k];
        manifest.push(RepairSymbolRecord { esi: sym.esi, degree: sym.degree, bytes: sym.data.len() });
        k = k + 1;
        assert(manifest@ =~= manifest_of(symbol_views(repair@).subrange(0, k as int)));
    }
    assert(symbol_views(repair@).subrange(0, repair@.len() as int) =~= symbol_views(repair@));
    let sidecar = RaptorQSidecar {
        schema_version: RAPTORQ_SIDECAR_SCHEMA_VERSION,
        source_hash: source_hash.clone(),
        symbol_size,
        source_symbol_count,
        repair_symbol_count: repair.len(),
        constraints_symbol_count,
        seed: SIDECAR_SEED,
        object_id_high: OBJECT_ID_HIGH,
        object_id_low: OBJECT_ID_LOW,
        repair_manifest: manifest,
    };
    let proof_artifact = DecodeProofArtifact {
        schema_version: 1,
        source_hash,
        proof_hash: decoded.proof_hash,
        proof_hash_hex: det64_string(decoded.proof_hash),
        received_symbol_count,
        recovered_bytes: recovered.len(),
    };
    Ok((sidecar, proof_artifact))
}

/// Largest repair count: repair indices, shifted by the block's padding,
/// must stay within `u32`.
pub const MAX_REPAIR_SYMBOLS: usize = 4_294_854_489;

/// A received source symbol stands for intermediate symbol `esi` alone.
pub open spec fn source_model(esi: u32, data: Seq<u8>) -> RxModel {
    RxModel { esi, is_source: true, columns: seq![esi as usize], coefficients: seq![1u8], data }
}

/// The zero padding symbols `K..K'` of a padded block.
pub open spec fn padding_models(k: usize, k_prime: usize, size: usize) -> Seq<RxModel> {
    Seq::new((k_prime - k) as nat, |i: int| source_model((k + i) as u32, Seq::new(size as nat, |j: int| 0u8)))
}

/// The constraint set a decode starts from: the constraint rows, then the
/// zero padding symbols.
pub open spec fn constraint_models(k: usize, size: usize, seed: u64) -> Seq<RxModel> {
    rq_constraints(k, size, seed) + padding_models(k, rq_block_params(k).0, size)
}

pub open spec fn systematic_models(sys: Seq<SymbolModel>, skip_first: bool) -> Seq<RxModel> {
    let from: int = if skip_first && sys.len() > 0 { 1 } else { 0 };
    sys.subrange(from, sys.len() as int).map_values(|s: SymbolModel| source_model(s.esi, s.data))
}

pub open spec fn repair_models(k: usize, rep: Seq<SymbolModel>) -> Seq<RxModel> {
    rep.map_values(|s: SymbolModel| RxModel {
        esi: s.esi,
        is_source: false,
        columns: rq_repair_equation(k, s.esi).0,
        coefficients: rq_repair_equation(k, s.esi).1,
        data: s.data,
    })
}

/// Candidate `attempt` of the decode: (0) constraints and every systematic
/// symbol; (1) constraints, the systematic symbols but the first, and the
/// repair symbols; (2) constraints and everything.
pub open spec fn candidate(k: usize, size: usize, seed: u64, sys: Seq<SymbolModel>, rep: Seq<SymbolModel>, attempt: int) -> Seq<RxModel> {
    constraint_models(k, size, seed) + systematic_models(sys, attempt == 1)
        + if attempt >= 1 { repair_models(k, rep) } else { Seq::empty() }
}

pub open spec fn eligible(attempt: int, sys: Seq<SymbolModel>, rep: Seq<SymbolModel>) -> bool {
    attempt != 1 || (rep.len() > 0 && sys.len() > 0)
}

/// The first candidate from `attempt` on that is eligible, long enough and
/// decodes, with its decode; or the last decode error met.
pub open spec fn first_decode(
    k: usize,
    size: usize,
    seed: u64,
    sys: Seq<SymbolModel>,
    rep: Seq<SymbolModel>,
    min: usize,
    attempt: int,
    last: Seq<char>,
) -> Result<(Seq<RxModel>, (Seq<Seq<u8>>, u64)), Seq<char>>
    decreases 3 - attempt,
{
    if attempt >= 3 {
        Err(last)
    } else {
        let c = candidate(k, size, seed, sys, rep, attempt);
        if eligible(attempt, sys, rep) && c.len() >= min {
            match rq_decode(k, size, seed, c, OBJECT_ID_HIGH, OBJECT_ID_LOW) {
                Ok(d) => Ok((c, d)),
                Err(e) => first_decode(k, size, seed, sys, rep, min, attempt + 1, e),
            }
        } else {
            first_decode(k, size, seed, sys, rep, min, attempt + 1, last)
        }
    }
}

pub open spec fn repair_count_for(requested: usize) -> usize {
    if requested == 0 {
        1
    } else {
        requested
    }
}

pub open spec fn payload_too_large() -> Seq<char> {
    "payload exceeds the largest supported source block"@
}

pub open spec fn repair_count_too_large() -> Seq<char> {
    "repair symbol count exceeds the symbol index space"@
}

pub open spec fn encoder_failed() -> Seq<char> {
    "failed to initialize systematic encoder"@
}

pub open spec fn no_candidates() -> Seq<char> {
    "no decode candidates attempted"@
}

pub open spec fn all_candidates_failed() -> Seq<char> {
    "decode_with_proof failed for all candidates: "@
}

/// The systematic symbols of a source block: each symbol unchanged, with
/// its index and degree 1.
pub open spec fn systematic_of(src: Seq<Seq<u8>>) -> Seq<SymbolModel> {
    Seq::new(src.len(), |i: int| SymbolModel { esi: i as u32, data: src[i], degree: 1 })
}

/// The values a successful sidecar run records.
pub struct SidecarOutcome {
    pub symbol_size: usize,
    pub source_symbol_count: usize,
    pub repair_symbol_count: usize,
    pub constraints_symbol_count: usize,
    pub repair_manifest: Seq<RepairSymbolRecord>,
    pub proof_hash: u64,
    pub received_symbol_count: usize,
}

/// The outcome of generating a sidecar for `bytes`, over the encoder's and
/// the decoder's named results.
pub open spec fn sidecar_outcome(bytes: Seq<u8>, repair_symbols: usize) -> Result<SidecarOutcome, Seq<char>> {
    let size = symbol_size_for(bytes.len());
    let count = repair_count_for(repair_symbols);
    if bytes.len() > MAX_SOURCE_SYMBOLS * size {
        Err(payload_too_large())
    } else if count > MAX_REPAIR_SYMBOLS {
        Err(repair_count_too_large())
    } else {
        let src = source_block(bytes, size as nat);
        let k = src.len() as usize;
        match rq_repair_symbols(src, size, SIDECAR_SEED, count) {
            None => Err(encoder_failed()),
            Some(rep) => {
                let sys = systematic_of(src);
                match first_decode(k, size, SIDECAR_SEED, sys, rep, rq_block_params(k).1, 0, no_candidates()) {
                    Err(e) => Err(all_candidates_failed() + e),
                    Ok((c, (recovered, hash))) => if recovered_payload(recovered, bytes.len()) != bytes {
                        Err(recovery_check_failed())
                    } else {
                        Ok(SidecarOutcome {
                            symbol_size: size,
                            source_symbol_count: k,
                            repair_symbol_count: count,
                            constraints_symbol_count: rq_constraints(k, size, SIDECAR_SEED).len() as usize,
                            repair_manifest: manifest_of(rep),
                            proof_hash: hash,
                            received_symbol_count: c.len() as usize,
                        })
                    },
                }
            },
        }
    }
}

fn copy_bytes(v: &Vec<u8>) -> (r: Vec<u8>)
    ensures
        r@ == v@,
{
    let mut out: Vec<u8> = Vec::new();
    let mut i: usize = 0;
    while i < v.len()
        invariant
            i <= v@.len(),
            out@ == v@.subrange(0, i as int),
        decreases v@.len() - i,
    {
        out.push(v[i]);
        i = i + 1;
        assert(out@ =~= v@.subrange(0, i as int));
    }
    assert(v@.subrange(0, v@.len() as int) =~= v@);
    out
}

fn source_rx(esi: u32, data: Vec<u8>) -> (r: RxSymbol)
    ensures
        r@ == source_model(esi, data@),
{
    let r = RxSymbol { esi, is_source: true, columns: vec![esi as usize], coefficients: vec![1u8], data };
    assert(r@.columns =~= seq![esi as usize]);
    assert(r@.coefficients =~= seq![1u8]);
    r
}

/// Builds candidate `attempt` as received symbols.
fn build_candidate(
    k: usize,
    k_prime: usize,
    symbol_size: usize,
    systematic: &Vec<EncodedSymbol>,
    repair: &Vec<EncodedSymbol>,
    attempt: usize,
) -> (r: Vec<RxSymbol>)
    requires
        0 < k <= k_prime <= MAX_SOURCE_SYMBOLS,
        k_prime == rq_block_params(k).0,
        forall|i: int| 0 <= i < repair@.len() ==> (#[trigger] repair@[i]).esi <= u32::MAX - MAX_SOURCE_SYMBOLS,
    ensures
        rx_views(r@) == candidate(k, symbol_size, SIDECAR_SEED, symbol_views(systematic@), symbol_views(repair@), attempt as int),
{
    let mut out = constraint_rows(k, symbol_size, SIDECAR_SEED);
    let ghost base = rx_views(out@);
    let mut esi: usize = k;
    while esi < k_prime
        invariant
            k <= esi <= k_prime <= MAX_SOURCE_SYMBOLS,
            rx_views(out@) == base + padding_models(k, k_prime, symbol_size).subrange(0, esi - k),
        decreases k_prime - esi,
    {
        let zeros = vec![0u8; symbol_size];
        let x = source_rx(esi as u32, zeros);
        assert(x@ == padding_models(k, k_prime, symbol_size)[esi - k]) by {
            assert(x@.data =~= Seq::new(symbol_size as nat, |j: int| 0u8));
        }
        let ghost prev = out@;
        out.push(x);
        assert(rx_views(out@) =~= rx_views(prev).push(x@));
        assert(padding_models(k, k_prime, symbol_size).subrange(0, esi + 1 - k)
            =~= padding_models(k, k_prime, symbol_size).subrange(0, esi - k).push(x@));
        esi = esi + 1;
        assert(rx_views(out@) =~= base + padding_models(k, k_prime, symbol_size).subrange(0, esi - k));
    }
    assert(padding_models(k, k_prime, symbol_size).subrange(0, k_prime - k) =~= padding_models(k, k_prime, symbol_size));
    let ghost with_padding = rx_views(out@);
    let skip = attempt == 1 && systematic.len() > 0;
    let start: usize = if skip { 1 } else { 0 };
    let ghost sys = symbol_views(systematic@);
    let mut i: usize = start;
    while i < systematic.len()
        invariant
            start <= i <= systematic@.len(),
            start == (if skip { 1usize } else { 0usize }),
            sys == symbol_views(systematic@),
            rx_views(out@) == with_padding + sys.subrange(start as int, i as int).map_values(|s: SymbolModel| source_model(s.esi, s.data)),
        decreases systematic@.len() - i,
    {
        let sym = &systematic[i];
        let x = source_rx(sym.esi, copy_bytes(&sym.data));
        let ghost prev = out@;
        out.push(x);
        assert(rx_views(out@) =~= rx_views(prev).push(x@));
        assert(sys[i as int] == systematic@[i as int]@);
        assert(sys.subrange(start as int, i + 1).map_values(|s: SymbolModel| source_model(s.esi, s.data))
            =~= sys.subrange(start as int, i as int).map_values(|s: SymbolModel| source_model(s.esi, s.data)).push(x@));
        i = i + 1;
        assert(rx_views(out@) =~= with_padding + sys.subrange(start as int, i as int).map_values(|s: SymbolModel| source_model(s.esi, s.data)));
    }
    let ghost with_sys = rx_views(out@);
    assert(sys.subrange(start as int, i as int) =~= sys.subrange(start as int, sys.len() as int));
    if attempt >= 1 {
        let ghost rep = symbol_views(repair@);
        let mut j: usize = 0;
        while j < repair.len()
            invariant
                j <= repair@.len(),
                0 < k <= MAX_SOURCE_SYMBOLS,
                rep == symbol_views(repair@),
                forall|x: int| 0 <= x < repair@.len() ==> (#[trigger] repair@[x]).esi <= u32::MAX - MAX_SOURCE_SYMBOLS,
                rx_views(out@) == with_sys + repair_models(k, rep.subrange(0, j as int)),
            decreases repair@.len() - j,
        {
            let sym = &repair[j];
            let (columns, coefficients) = repair_equation(k, symbol_size, SIDECAR_SEED, sym.esi);
            let x = RxSymbol { esi: sym.esi, is_source: false, columns, coefficients, data: copy_bytes(&sym.data) };
            let ghost prev = out@;
            out.push(x);
            assert(rx_views(out@) =~= rx_views(prev).push(x@));
            assert(rep[j as int] == repair@[j as int]@);
            assert(repair_models(k, rep.subrange(0, j + 1)) =~= repair_models(k, rep.subrange(0, j as int)).push(x@));
            j = j + 1;
            assert(rx_views(out@) =~= with_sys + repair_models(k, rep.subrange(0, j as int)));
        }
        assert(rep.subrange(0, j as int) =~= rep);
    }
    assert(rx_views(out@) =~= candidate(k, symbol_size, SIDECAR_SEED, symbol_views(systematic@), symbol_views(repair@), attempt as int));
    out
}

/// What a sidecar run returns: the failure reason of [`sidecar_outcome`], or
/// a sidecar and decode proof that record its values.
pub open spec fn sidecar_post(bytes: Seq<u8>, repair_symbols: usize, r: Result<(RaptorQSidecar, DecodeProofArtifact), SerializeError>) -> bool {
    match sidecar_outcome(bytes, repair_symbols) {
            Err(msg) => r matches Err(SerializeError::RaptorQFailure { reason }) && reason@ == msg,
            Ok(o) => r matches Ok((sc, pf)) && {
                let hash = det64_text(det_digest(bytes));
                &&& sc.schema_version == RAPTORQ_SIDECAR_SCHEMA_VERSION
                &&& sc.source_hash@ == hash
                &&& sc.symbol_size == o.symbol_size
                &&& sc.source_symbol_count == o.source_symbol_count
                &&& sc.repair_symbol_count == o.repair_symbol_count
                &&& sc.constraints_symbol_count == o.constraints_symbol_count
                &&& sc.seed == SIDECAR_SEED
                &&& sc.object_id_high == OBJECT_ID_HIGH
                &&& sc.object_id_low == OBJECT_ID_LOW
                &&& sc.repair_manifest@ == o.repair_manifest
                &&& pf.schema_version == 1
                &&& pf.source_hash@ == hash
                &&& pf.proof_hash == o.proof_hash
                &&& pf.proof_hash_hex@ == det64_text(o.proof_hash)
                &&& pf.received_symbol_count == o.received_symbol_count
                &&& pf.recovered_bytes == bytes.len()
            },
        }
}

/// The reason of a failed sidecar run.
pub open spec fn failure_reason(r: Result<(RaptorQSidecar, DecodeProofArtifact), SerializeError>) -> Option<Seq<char>> {
    match r {
        Err(SerializeError::RaptorQFailure { reason }) => Some(reason@),
        _ => None,
    }
}

/// Two sidecar runs on the same payload and repair count agree: both fail
/// with the same reason, or both succeed with the same sidecar (every
/// field, the repair manifest included) and the same decode proof.
pub proof fn lemma_sidecar_deterministic(
    bytes: Seq<u8>,
    repair_symbols: usize,
    first: Result<(RaptorQSidecar, DecodeProofArtifact), SerializeError>,
    second: Result<(RaptorQSidecar, DecodeProofArtifact), SerializeError>,
)
    requires
        sidecar_post(bytes, repair_symbols, first),
        sidecar_post(bytes, repair_symbols, second),
    ensures
        first is Ok <==> second is Ok,
        first is Err ==> failure_reason(first) == failure_reason(second),
        first is Ok && second is Ok ==> {
            let (s1, p1) = first->Ok_0;
            let (s2, p2) = second->Ok_0;
            &&& s1.schema_version == s2.schema_version
            &&& s1.source_hash@ == s2.source_hash@
            &&& s1.symbol_size == s2.symbol_size
            &&& s1.source_symbol_count == s2.source_symbol_count
            &&& s1.repair_symbol_count == s2.repair_symbol_count
            &&& s1.constraints_symbol_count == s2.constraints_symbol_count
            &&& s1.seed == s2.seed
            &&& s1.object_id_high == s2.object_id_high
            &&& s1.object_id_low == s2.object_id_low
            &&& s1.repair_manifest@ == s2.repair_manifest@
            &&& p1.schema_version == p2.schema_version
            &&& p1.source_hash@ == p2.source_hash@
            &&& p1.proof_hash == p2.proof_hash
            &&& p1.proof_hash_hex@ == p2.proof_hash_hex@
            &&& p1.received_symbol_count == p2.received_symbol_count
            &&& p1.recovered_bytes == p2.recovered_bytes
        },
{
}

/// Encodes a checkpoint payload into source and repair symbols, proves it
/// decodes back (trying constraints with all systematic symbols; then with
/// the first systematic symbol dropped and the repair symbols added; then
/// with everything), and returns the sidecar with its decode proof.
///
/// A payload beyond the largest source block, or more than
/// `MAX_REPAIR_SYMBOLS` repair symbols, is refused; so is a decode that
/// fails for every candidate or recovers other bytes. The result is
/// [`sidecar_outcome`], a function of the payload and the repair count.
pub fn generate_raptorq_sidecar(payload: &str, repair_symbols: usize) -> (r: Result<(RaptorQSidecar, DecodeProofArtifact), SerializeError>)
    ensures
        sidecar_post(payload.spec_bytes(), repair_symbols, r),
{
    let bytes = payload.as_bytes();
    let symbol_size = recommended_symbol_size(bytes.len());
    if bytes.len() > MAX_SOURCE_SYMBOLS * symbol_size {
        return Err(SerializeError::RaptorQFailure { reason: String::from_str("payload exceeds the largest supported source block") });
    }
    let repair_count = if repair_symbols == 0 { 1 } else { repair_symbols };
    if repair_count > MAX_REPAIR_SYMBOLS {
        return Err(SerializeError::RaptorQFailure { reason: String::from_str("repair symbol count exceeds the symbol index space") });
    }
    let source_symbols = split_source_symbols(bytes, symbol_size);
    let k = source_symbols.len();
    proof {
        let len = bytes@.len() as int;
        let sz = symbol_size as int;
        if len > 0 {
            vstd::arithmetic::div_mod::lemma_div_is_ordered(len + sz - 1, MAX_SOURCE_SYMBOLS * sz + sz - 1, sz);
            vstd::arithmetic::div_mod::lemma_fundamental_div_mod_converse(MAX_SOURCE_SYMBOLS * sz + sz - 1, sz, MAX_SOURCE_SYMBOLS as int, sz - 1);
        }
    }
    let ghost src = source_block(bytes@, symbol_size as nat);
    let block = match encode_block(&source_symbols, symbol_size, SIDECAR_SEED, repair_count) {
        Some(b) => b,
        None => {
            return Err(SerializeError::RaptorQFailure { reason: String::from_str("failed to initialize systematic encoder") });
        },
    };
    let ghost rep = rq_repair_symbols(src, symbol_size, SIDECAR_SEED, repair_count)->Some_0;
    let ghost sys = systematic_of(src);
    proof {
        assert(symbol_views(block.systematic@) =~= sys) by {
            assert forall|i: int| 0 <= i < src.len() implies symbol_views(block.systematic@)[i] == sys[i] by {
                assert(block.systematic@[i]@ == (SymbolModel { esi: i as u32, data: source_symbols@[i]@, degree: 1 }));
                assert(byte_views(source_symbols@)[i] == source_symbols@[i]@);
            }
        }
    }
    let (k_prime, min_required) = block_params(k, symbol_size);
    let constraints_symbol_count = constraint_rows(k, symbol_size, SIDECAR_SEED).len();
    let mut last_error = String::from_str("no decode candidates attempted");
    let mut attempt: usize = 0;
    while attempt < 3
        invariant
            attempt <= 3,
            0 < k <= k_prime <= MAX_SOURCE_SYMBOLS,
            (k_prime, min_required) == rq_block_params(k),
            k == src.len(),
            src == source_block(bytes@, symbol_size as nat),
            symbol_views(block.systematic@) == sys,
            sys == systematic_of(src),
            symbol_views(block.repair@) == rep,
            rq_repair_symbols(src, symbol_size, SIDECAR_SEED, repair_count) == Some(rep),
            rep.len() == repair_count,
            bytes@ == payload.spec_bytes(),
            symbol_size == symbol_size_for(bytes@.len()),
            repair_count == repair_count_for(repair_symbols),
            bytes@.len() <= MAX_SOURCE_SYMBOLS * symbol_size,
            constraints_symbol_count == rq_constraints(k, symbol_size, SIDECAR_SEED).len(),
            repair_count <= MAX_REPAIR_SYMBOLS,
            forall|i: int| 0 <= i < repair_count ==> #[trigger] rep[i].esi == k + i,
            first_decode(k, symbol_size, SIDECAR_SEED, sys, rep, min_required, 0, no_candidates())
                == first_decode(k, symbol_size, SIDECAR_SEED, sys, rep, min_required, attempt as int, last_error@),
        decreases 3 - attempt,
    {
        proof {
            assert forall|i: int| 0 <= i < block.repair@.len() implies (#[trigger] block.repair@[i]).esi <= u32::MAX - MAX_SOURCE_SYMBOLS by {
                assert(symbol_views(block.repair@)[i].esi == block.repair@[i].esi);
            }
        }
        let eligible_now = attempt != 1 || (block.repair.len() > 0 && block.systematic.len() > 0);
        if eligible_now {
            let received = build_candidate(k, k_prime, symbol_size, &block.systematic, &block.repair, attempt);
            if received.len() >= min_required {
                match decode_block(k, symbol_size, SIDECAR_SEED, &received, OBJECT_ID_HIGH, OBJECT_ID_LOW) {
                    Ok(decoded) => {
                        proof {
                            let c = rx_views(received@);
                            assert(c.len() == received@.len());
                            assert(symbol_views(block.systematic@).len() == block.systematic@.len());
                            assert(eligible(attempt as int, sys, rep));
                            assert(c == candidate(k, symbol_size, SIDECAR_SEED, sys, rep, attempt as int));
                            assert(first_decode(k, symbol_size, SIDECAR_SEED, sys, rep, min_required, attempt as int, last_error@)
                                == Ok::<(Seq<RxModel>, (Seq<Seq<u8>>, u64)), Seq<char>>((c, (byte_views(decoded.source@), decoded.proof_hash))));
                            assert(src.len() as usize == k);
                        }
                        assert(manifest_of(symbol_views(block.repair@)) == manifest_of(rep));
                        return assemble_sidecar(
                            bytes,
                            symbol_size,
                            k,
                            &block.repair,
                            constraints_symbol_count,
                            received.len(),
                            &decoded,
                        );
                    },
                    Err(e) => {
                        last_error = e;
                    },
                }
            }
        }
        attempt = attempt + 1;
    }
    let mut reason = String::from_str("decode_with_proof failed for all candidates: ");
    reason.append(last_error.as_str());
    Err(SerializeError::RaptorQFailure { reason })
}

/// Bytes gathered so far, never more than `len`.
pub open spec fn recovered_payload_step(prefix: Seq<u8>, part: Seq<u8>, len: nat) -> Seq<u8> {
    let all = prefix + part;
    if all.len() <= len {
        all
    } else {
        all.subrange(0, len as int)
    }
}

fn same_bytes(a: &[u8], b: &[u8]) -> (r: bool)
    ensures
        r == (a@ == b@),
{
    if a.len() != b.len() {
        return false;
    }
    let mut i: usize = 0;
    while i < a.len()
        invariant
            a@.len() == b@.len(),
            i <= a@.len(),
            forall|j: int| 0 <= j < i ==> a@[j] == b@[j],
        decreases a@.len() - i,
    {
        if a[i] != b[i] {
            return false;
        }
        i = i + 1;
    }
    assert(a@ =~= b@);
    true
}

} // verus!
