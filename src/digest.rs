//! Deterministic 64-bit digests and their canonical `det64:` rendering.
use vstd::prelude::*;
use vstd::string::StringSliceAdditionalSpecFns;
use std::hash::Hasher;

verus! {

/// The digest that asupersync's deterministic hasher assigns to a byte string.
pub uninterp spec fn det_digest(bytes: Seq<u8>) -> u64;

/// Relies on asupersync's `DetHasher`: its `Default` state has a fixed seed,
/// `write` mixes the bytes in order and `finish` reads the digest, so the
/// result depends on the bytes alone.
#[verifier::external_body]
pub(crate) fn det_hash_bytes(bytes: &[u8]) -> (r: u64)
    ensures
        r == det_digest(bytes@),
{
    let mut hasher = asupersync::util::DetHasher::default();
    hasher.write(bytes);
    hasher.finish()
}

/// Little-endian bytes of a 64-bit word.
pub open spec fn le_bytes(x: u64, width: nat) -> Seq<u8> {
    Seq::new(width, |i: int| ((x >> (8 * i) as u64) & 0xff) as u8)
}

/// Little-endian 64-bit encodings of a sequence of words, one after another.
pub open spec fn words_bytes(s: Seq<usize>) -> Seq<u8>
    decreases s.len(),
{
    if s.len() == 0 {
        Seq::empty()
    } else {
        words_bytes(s.drop_last()) + le_bytes(s.last() as u64, 8)
    }
}

/// Appends the `width` low-order bytes of `x`, least significant first.
pub(crate) fn push_le(out: &mut Vec<u8>, x: u64, width: usize)
    requires
        width <= 8,
    ensures
        final(out)@ == old(out)@ + le_bytes(x, width as nat),
{
    let ghost start = out@;
    let mut i: usize = 0;
    while i < width
        invariant
            i <= width <= 8,
            out@ == start + le_bytes(x, width as nat).subrange(0, i as int),
        decreases width - i,
    {
        let shift: u64 = 8 * (i as u64);
        out.push(((x >> shift) & 0xff) as u8);
        i = i + 1;
        assert(out@ =~= start + le_bytes(x, width as nat).subrange(0, i as int));
    }
    assert(le_bytes(x, width as nat).subrange(0, width as int) =~= le_bytes(x, width as nat));
}

/// Appends the words of `s`, each as eight little-endian bytes.
pub(crate) fn push_words(out: &mut Vec<u8>, s: &[usize])
    ensures
        final(out)@ == old(out)@ + words_bytes(s@),
{
    let ghost start = out@;
    let mut i: usize = 0;
    while i < s.len()
        invariant
            i <= s@.len(),
            out@ == start + words_bytes(s@.subrange(0, i as int)),
        decreases s@.len() - i,
    {
        proof {
            assert(s@.subrange(0, i + 1).drop_last() =~= s@.subrange(0, i as int));
        }
        push_le(out, s[i] as u64, 8);
        i = i + 1;
        assert(out@ =~= start + words_bytes(s@.subrange(0, i as int)));
    }
    assert(s@.subrange(0, s@.len() as int) =~= s@);
}

/// The lowercase hexadecimal digits.
pub open spec fn hex_chars() -> Seq<char> {
    seq!['0', '1', '2', '3', '4', '5', '6', '7', '8', '9', 'a', 'b', 'c', 'd', 'e', 'f']
}

/// Sixteen lowercase hex digits of `x`, most significant first.
pub open spec fn hex16(x: u64) -> Seq<char> {
    Seq::new(16, |i: int| hex_chars()[((x >> (4 * (15 - i)) as u64) & 0xf) as int])
}

/// `det64:` followed by the sixteen hex digits of a digest.
pub open spec fn det64_text(x: u64) -> Seq<char> {
    seq!['d', 'e', 't', '6', '4', ':'] + hex16(x)
}

/// Renders a digest as `det64:<16 lowercase hex digits>`.
pub fn det64_string(x: u64) -> (r: String)
    ensures
        r@ == det64_text(x),
{
    let digits: &str = "0123456789abcdef";
    proof {
        reveal_strlit("0123456789abcdef");
        reveal_strlit("det64:");
        assert(digits@ =~= hex_chars());
    }
    let mut out = String::from_str("det64:");
    let mut i: usize = 0;
    while i < 16
        invariant
            i <= 16,
            digits@ == hex_chars(),
            digits.is_ascii(),
            out@ == seq!['d', 'e', 't', '6', '4', ':'] + hex16(x).subrange(0, i as int),
        decreases 16 - i,
    {
        let shift: u64 = 4 * (15 - i as u64);
        let dd: u64 = (x >> shift) & 0xf;
        assert(dd < 16) by (bit_vector)
            requires dd == ((x >> shift) & 0xf);
        let d = dd as usize;
        let piece = digits.substring_ascii(d, d + 1);
        assert(shift == (4 * (15 - i)) as u64);
        assert(hex16(x)[i as int] == hex_chars()[dd as int]);
        assert(piece@ =~= seq![hex_chars()[d as int]]);
        out.append(piece);
        i = i + 1;
        assert(out@ =~= seq!['d', 'e', 't', '6', '4', ':'] + hex16(x).subrange(0, i as int));
    }
    assert(hex16(x).subrange(0, 16) =~= hex16(x));
    out
}

pub const FNV_OFFSET: u64 = 0xcbf2_9ce4_8422_2325;

pub const FNV_PRIME: u64 = 0x0000_0100_0000_01b3;

/// One FNV-1a step: fold a byte in, then multiply by the prime modulo 2^64.
pub open spec fn fnv_mix(h: u64, b: u8) -> u64 {
    (((h ^ (b as u64)) as nat * FNV_PRIME as nat) % 0x1_0000_0000_0000_0000nat) as u64
}

pub open spec fn fnv_bytes(h: u64, bytes: Seq<u8>) -> u64
    decreases bytes.len(),
{
    if bytes.len() == 0 {
        h
    } else {
        fnv_mix(fnv_bytes(h, bytes.drop_last()), bytes.last())
    }
}

/// FNV-1a over each part's bytes, with a `0xff` separator folded in after
/// every part.
pub open spec fn fnv_parts(parts: Seq<Seq<u8>>) -> u64
    decreases parts.len(),
{
    if parts.len() == 0 {
        FNV_OFFSET
    } else {
        fnv_mix(fnv_bytes(fnv_parts(parts.drop_last()), parts.last()), 0xff)
    }
}

/// Deterministic 64-bit digest of a list of text parts (FNV-1a with a
/// separator after each part).
pub fn det_hash64(parts: &[&str]) -> (r: u64)
    ensures
        r == fnv_parts(parts@.map_values(|p: &str| p.spec_bytes())),
{
    let ghost views = parts@.map_values(|p: &str| p.spec_bytes());
    let mut hash: u64 = FNV_OFFSET;
    let mut i: usize = 0;
    while i < parts.len()
        invariant
            i <= parts@.len(),
            views == parts@.map_values(|p: &str| p.spec_bytes()),
            hash == fnv_parts(views.subrange(0, i as int)),
        decreases parts@.len() - i,
    {
        let bytes = parts[i].as_bytes();
        let ghost start = hash;
        let mut j: usize = 0;
        while j < bytes.len()
            invariant
                j <= bytes@.len(),
                hash == fnv_bytes(start, bytes@.subrange(0, j as int)),
            decreases bytes@.len() - j,
        {
            hash = (hash ^ (bytes[j] as u64)).wrapping_mul(FNV_PRIME);
            proof {
                assert(bytes@.subrange(0, j + 1).drop_last() =~= bytes@.subrange(0, j as int));
            }
            j = j + 1;
        }
        hash = (hash ^ 0xff).wrapping_mul(FNV_PRIME);
        proof {
            assert(bytes@.subrange(0, bytes@.len() as int) =~= bytes@);
            assert(views.subrange(0, i + 1).drop_last() =~= views.subrange(0, i as int));
            assert(0xffu8 as u64 == 0xffu64);
        }
        i = i + 1;
    }
    assert(views.subrange(0, parts@.len() as int) =~= views);
    hash
}

} // verus!
