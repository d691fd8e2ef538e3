//! The checkpoint envelope: canonical entry order, the deterministic source
//! hash, and the semantic checks that both decode modes apply.
use vstd::prelude::*;
use crate::digest::{det64_string, det64_text, det_digest, det_hash_bytes, le_bytes, push_le};

verus! {

pub const CHECKPOINT_SCHEMA_VERSION: u32 = 1;

pub const RAPTORQ_SIDECAR_SCHEMA_VERSION: u32 = 1;

/// One checkpointed node: its id, the bits of its value, and the bits of its
/// gradient when it has one.
#[derive(Debug, Clone, Copy, PartialEq, Eq)]
pub struct SnapshotEntry {
    pub node_id: usize,
    pub value_bits: u64,
    pub grad_bits: Option<u64>,
}

/// Mode recorded in a checkpoint.
#[derive(Debug, Clone, Copy, PartialEq, Eq, Structural)]
pub enum CheckpointMode {
    Strict,
    Hardened,
}

/// Posture of a decode.
#[derive(Debug, Clone, Copy, PartialEq, Eq, Structural)]
pub enum DecodeMode {
    Strict,
    Hardened,
}

/// A checkpoint: schema version, mode, entries and source hash.
#[derive(Debug, Clone, PartialEq, Eq)]
pub struct CheckpointEnvelope {
    pub schema_version: u32,
    pub mode: CheckpointMode,
    pub entries: Vec<SnapshotEntry>,
    pub source_hash: String,
}

/// Codec failures.
#[derive(Debug, Clone, PartialEq, Eq)]
pub enum SerializeError {
    InvalidJson { diagnostic: String },
    UnknownField { field: String },
    VersionMismatch { expected: u32, found: u32 },
    ChecksumMismatch { expected: String, found: String },
    IncompatiblePayload { reason: String },
    RaptorQFailure { reason: String },
}

/// Inserts `x` after every entry whose id is at most its own.
pub open spec fn insert_by_id(s: Seq<SnapshotEntry>, x: SnapshotEntry) -> Seq<SnapshotEntry>
    decreases s.len(),
{
    if s.len() == 0 {
        seq![x]
    } else if s.last().node_id <= x.node_id {
        s.push(x)
    } else {
        insert_by_id(s.drop_last(), x).push(s.last())
    }
}

/// Entries sorted by ascending node id, entries with equal ids keeping their
/// relative order.
pub open spec fn sort_by_node_id(s: Seq<SnapshotEntry>) -> Seq<SnapshotEntry>
    decreases s.len(),
{
    if s.len() == 0 {
        Seq::empty()
    } else {
        insert_by_id(sort_by_node_id(s.drop_last()), s.last())
    }
}

pub open spec fn sorted_by_id(s: Seq<SnapshotEntry>) -> bool {
    forall|a: int, b: int| 0 <= a < b < s.len() ==> s[a].node_id <= s[b].node_id
}

/// Inserting at position `p`, past every entry with an id at most `x`'s,
/// is the spec's insertion.
proof fn lemma_insert_at(s: Seq<SnapshotEntry>, x: SnapshotEntry, p: int)
    requires
        0 <= p <= s.len(),
        forall|j: int| p <= j < s.len() ==> s[j].node_id > x.node_id,
        p > 0 ==> s[p - 1].node_id <= x.node_id,
    ensures
        insert_by_id(s, x) == s.insert(p, x),
    decreases s.len(),
{
    if s.len() == 0 {
        assert(s.insert(p, x) =~= seq![x]);
    } else if s.last().node_id <= x.node_id {
        assert(p == s.len());
        assert(s.insert(p, x) =~= s.push(x));
    } else {
        lemma_insert_at(s.drop_last(), x, p);
        assert(s.insert(p, x) =~= s.drop_last().insert(p, x).push(s.last()));
    }
}

proof fn lemma_insert_sorted(s: Seq<SnapshotEntry>, x: SnapshotEntry)
    requires
        sorted_by_id(s),
    ensures
        sorted_by_id(insert_by_id(s, x)),
        insert_by_id(s, x).len() == s.len() + 1,
        insert_by_id(s, x).to_multiset() == s.to_multiset().insert(x),
    decreases s.len(),
{
    broadcast use vstd::seq_lib::group_to_multiset_ensures;
    if s.len() == 0 {
        assert(seq![x] =~= Seq::<SnapshotEntry>::empty().push(x));
    } else if s.last().node_id <= x.node_id {
    } else {
        let t = s.drop_last();
        assert(sorted_by_id(t));
        lemma_insert_sorted(t, x);
        let u = insert_by_id(t, x);
        assert forall|a: int, b: int| 0 <= a < b < u.push(s.last()).len() implies u.push(s.last())[a].node_id <= u.push(s.last())[b].node_id by {
            if b == u.len() {
                // every element of u is t's or x, all at most s.last()
                assert(u.to_multiset().count(u[a]) > 0);
                if u[a] != x {
                    assert(t.to_multiset().count(u[a]) > 0);
                    assert(t.contains(u[a]));
                    let k = choose|k: int| 0 <= k < t.len() && t[k] == u[a];
                    assert(s[k] == t[k]);
                }
            }
        }
        assert(s =~= t.push(s.last()));
    }
}

/// The sorted order is sorted, and a rearrangement of the input.
pub proof fn lemma_sort_by_node_id(s: Seq<SnapshotEntry>)
    ensures
        sorted_by_id(sort_by_node_id(s)),
        sort_by_node_id(s).to_multiset() == s.to_multiset(),
    decreases s.len(),
{
    broadcast use vstd::seq_lib::group_to_multiset_ensures;
    if s.len() > 0 {
        lemma_sort_by_node_id(s.drop_last());
        lemma_insert_sorted(sort_by_node_id(s.drop_last()), s.last());
        assert(s =~= s.drop_last().push(s.last()));
    }
}

/// Sorting entries that are already in order changes nothing.
pub proof fn lemma_sort_sorted_is_identity(s: Seq<SnapshotEntry>)
    requires
        sorted_by_id(s),
    ensures
        sort_by_node_id(s) == s,
    decreases s.len(),
{
    if s.len() > 0 {
        let t = s.drop_last();
        assert(sorted_by_id(t));
        lemma_sort_sorted_is_identity(t);
        if t.len() > 0 {
            assert(t.last() == s[s.len() - 2]);
        }
        assert(s =~= t.push(s.last()));
    }
}

/// Sorts entries by ascending node id, keeping the relative order of equal
/// ids (the canonical order of a checkpoint).
pub fn normalize_entries(entries: &[SnapshotEntry]) -> (r: Vec<SnapshotEntry>)
    ensures
        r@ == sort_by_node_id(entries@),
{
    let mut out: Vec<SnapshotEntry> = Vec::new();
    let mut i: usize = 0;
    while i < entries.len()
        invariant
            i <= entries@.len(),
            out@ == sort_by_node_id(entries@.subrange(0, i as int)),
            sorted_by_id(out@),
        decreases entries@.len() - i,
    {
        let x = entries[i];
        let mut p: usize = out.len();
        while p > 0 && out[p - 1].node_id > x.node_id
            invariant
                p <= out@.len(),
                forall|j: int| p <= j < out@.len() ==> out@[j].node_id > x.node_id,
            decreases p,
        {
            p = p - 1;
        }
        proof {
            lemma_insert_at(out@, x, p as int);
            lemma_insert_sorted(out@, x);
            assert(entries@.subrange(0, i + 1).drop_last() =~= entries@.subrange(0, i as int));
        }
        out.insert(p, x);
        i = i + 1;
    }
    assert(entries@.subrange(0, entries@.len() as int) =~= entries@);
    out
}

pub open spec fn mode_tag(mode: CheckpointMode) -> u8 {
    match mode {
        CheckpointMode::Strict => 1,
        CheckpointMode::Hardened => 2,
    }
}

/// Bytes one entry contributes to the source hash: id and value bits, then a
/// presence flag and the gradient bits when present.
pub open spec fn entry_bytes(e: SnapshotEntry) -> Seq<u8> {
    le_bytes(e.node_id as u64, 8) + le_bytes(e.value_bits, 8) + match e.grad_bits {
        Some(g) => seq![1u8] + le_bytes(g, 8),
        None => seq![0u8],
    }
}

pub open spec fn entries_bytes(s: Seq<SnapshotEntry>) -> Seq<u8>
    decreases s.len(),
{
    if s.len() == 0 {
        Seq::empty()
    } else {
        entries_bytes(s.drop_last()) + entry_bytes(s.last())
    }
}

/// The byte sequence the source hash digests: schema version (4 bytes,
/// little-endian), mode tag, then the entries in the given order.
pub open spec fn checkpoint_bytes(schema_version: u32, mode: CheckpointMode, entries: Seq<SnapshotEntry>) -> Seq<u8> {
    le_bytes(schema_version as u64, 4) + seq![mode_tag(mode)] + entries_bytes(entries)
}

/// The source hash text of a checkpoint whose entries are already in order.
pub open spec fn checkpoint_hash_text(schema_version: u32, mode: CheckpointMode, entries: Seq<SnapshotEntry>) -> Seq<char> {
    det64_text(det_digest(checkpoint_bytes(schema_version, mode, entries)))
}

/// Digest of the schema version, mode tag and entries, as `det64:<hex>`.
pub fn checkpoint_hash(schema_version: u32, mode: CheckpointMode, entries: &[SnapshotEntry]) -> (r: String)
    ensures
        r@ == checkpoint_hash_text(schema_version, mode, entries@),
{
    let mut bytes: Vec<u8> = Vec::new();
    push_le(&mut bytes, schema_version as u64, 4);
    let tag: u8 = match mode {
        CheckpointMode::Strict => 1,
        CheckpointMode::Hardened => 2,
    };
    bytes.push(tag);
    let ghost head = bytes@;
    let mut i: usize = 0;
    while i < entries.len()
        invariant
            i <= entries@.len(),
            bytes@ == head + entries_bytes(entries@.subrange(0, i as int)),
        decreases entries@.len() - i,
    {
        let e = entries[i];
        push_le(&mut bytes, e.node_id as u64, 8);
        push_le(&mut bytes, e.value_bits, 8);
        match e.grad_bits {
            Some(g) => {
                bytes.push(1u8);
                push_le(&mut bytes, g, 8);
            },
            None => {
                bytes.push(0u8);
            },
        }
        proof {
            assert(entries@.subrange(0, i + 1).drop_last() =~= entries@.subrange(0, i as int));
        }
        i = i + 1;
        assert(bytes@ =~= head + entries_bytes(entries@.subrange(0, i as int)));
    }
    assert(entries@.subrange(0, entries@.len() as int) =~= entries@);
    assert(bytes@ =~= checkpoint_bytes(schema_version, mode, entries@));
    det64_string(det_hash_bytes(bytes.as_slice()))
}

/// The canonical envelope of `entries`: current schema, entries in
/// canonical order, and their source hash.
pub fn encode_checkpoint_envelope(entries: &[SnapshotEntry], mode: CheckpointMode) -> (r: CheckpointEnvelope)
    ensures
        r.schema_version == CHECKPOINT_SCHEMA_VERSION,
        r.mode == mode,
        r.entries@ == sort_by_node_id(entries@),
        r.source_hash@ == checkpoint_hash_text(CHECKPOINT_SCHEMA_VERSION, mode, sort_by_node_id(entries@)),
{
    let normalized = normalize_entries(entries);
    let source_hash = checkpoint_hash(CHECKPOINT_SCHEMA_VERSION, mode, normalized.as_slice());
    CheckpointEnvelope { schema_version: CHECKPOINT_SCHEMA_VERSION, mode, entries: normalized, source_hash }
}

/// An encoded envelope decodes to itself: the canonical envelope of any
/// entries and mode holds the current schema, the sorted entries (which
/// sorting again leaves as they are), and the source hash that validation
/// recomputes, so validation accepts it.
pub proof fn lemma_encoded_envelope_validates(entries: Seq<SnapshotEntry>, mode: CheckpointMode, env: CheckpointEnvelope)
    requires
        env.schema_version == CHECKPOINT_SCHEMA_VERSION,
        env.mode == mode,
        env.entries@ == sort_by_node_id(entries),
        env.source_hash@ == checkpoint_hash_text(CHECKPOINT_SCHEMA_VERSION, mode, sort_by_node_id(entries)),
    ensures
        sort_by_node_id(env.entries@) == env.entries@,
        env.source_hash@ == checkpoint_hash_text(env.schema_version, env.mode, sort_by_node_id(env.entries@)),
        sorted_by_id(env.entries@),
        env.entries@.to_multiset() == entries.to_multiset(),
{
    lemma_sort_by_node_id(entries);
    lemma_sort_sorted_is_identity(env.entries@);
}

/// The semantic checks of a decoded envelope: the current schema version,
/// and a source hash equal to the one recomputed over the canonical order.
pub fn validate_checkpoint(envelope: &CheckpointEnvelope) -> (r: Result<(), SerializeError>)
    ensures
        envelope.schema_version != CHECKPOINT_SCHEMA_VERSION ==> r == Err::<(), SerializeError>(SerializeError::VersionMismatch {
            expected: CHECKPOINT_SCHEMA_VERSION,
            found: envelope.schema_version,
        }),
        envelope.schema_version == CHECKPOINT_SCHEMA_VERSION ==> {
            let expected = checkpoint_hash_text(envelope.schema_version, envelope.mode, sort_by_node_id(envelope.entries@));
            &&& envelope.source_hash@ == expected ==> r is Ok
            &&& envelope.source_hash@ != expected ==> (r matches Err(SerializeError::ChecksumMismatch { expected: e, found: f })
                && e@ == expected && f@ == envelope.source_hash@)
        },
{
    if envelope.schema_version != CHECKPOINT_SCHEMA_VERSION {
        return Err(SerializeError::VersionMismatch { expected: CHECKPOINT_SCHEMA_VERSION, found: envelope.schema_version });
    }
    let normalized = normalize_entries(envelope.entries.as_slice());
    let expected = checkpoint_hash(envelope.schema_version, envelope.mode, normalized.as_slice());
    if envelope.source_hash != expected {
        return Err(SerializeError::ChecksumMismatch { expected, found: envelope.source_hash.clone() });
    }
    Ok(())
}

/// Whether `pat` occurs in `s` at position `p`.
pub open spec fn occurs_at(s: Seq<char>, pat: Seq<char>, p: int) -> bool {
    0 <= p && p + pat.len() <= s.len() && s.subrange(p, p + pat.len()) == pat
}

/// The first position at or after `i` where `pat` occurs.
pub open spec fn find_from(s: Seq<char>, pat: Seq<char>, i: int) -> Option<int>
    decreases s.len() + 1 - i,
{
    if i < 0 || i + pat.len() > s.len() {
        None
    } else if occurs_at(s, pat, i) {
        Some(i)
    } else {
        find_from(s, pat, i + 1)
    }
}

/// The first position at or after `i` holding `c`.
pub open spec fn find_char_from(s: Seq<char>, c: char, i: int) -> Option<int>
    decreases s.len() - i,
{
    if i < 0 || i >= s.len() {
        None
    } else if s[i] == c {
        Some(i)
    } else {
        find_char_from(s, c, i + 1)
    }
}

pub open spec fn unknown_field_marker() -> Seq<char> {
    seq!['u', 'n', 'k', 'n', 'o', 'w', 'n', ' ', 'f', 'i', 'e', 'l', 'd', ' ', '`']
}

/// The field a serializer message of the shape ``unknown field `x`, ...``
/// names.
pub open spec fn unknown_field_of(message: Seq<char>) -> Option<Seq<char>> {
    match find_from(message, unknown_field_marker(), 0) {
        None => None,
        Some(p) => {
            let start = p + unknown_field_marker().len();
            match find_char_from(message, '`', start) {
                None => None,
                Some(q) => Some(message.subrange(start, q)),
            }
        },
    }
}

/// Extracts the field named by an ``unknown field `x` `` serializer message.
pub fn extract_unknown_field(message: &str) -> (r: Option<String>)
    ensures
        match unknown_field_of(message@) {
            None => r is None,
            Some(f) => r matches Some(x) && x@ == f,
        },
{
    let marker: &str = "unknown field `";
    proof {
        reveal_strlit("unknown field `");
        assert(marker@ =~= unknown_field_marker());
    }
    let n = message.unicode_len();
    let m = marker.unicode_len();
    if n < m {
        return None;
    }
    let mut p: usize = 0;
    while p <= n - m
        invariant
            n == message@.len(),
            m == marker@.len() == 15,
            m <= n,
            marker@ == unknown_field_marker(),
            find_from(message@, marker@, 0) == find_from(message@, marker@, p as int),
        decreases n + 1 - p,
    {
        let mut k: usize = 0;
        let mut same = true;
        while k < m
            invariant
                k <= m == marker@.len(),
                p + m <= n == message@.len(),
                same == (forall|x: int| 0 <= x < k ==> message@[p + x] == marker@[x]),
            decreases m - k,
        {
            if message.get_char(p + k) != marker.get_char(k) {
                same = false;
            }
            k = k + 1;
        }
        if same {
            assert(message@.subrange(p as int, p + m) =~= marker@);
            let start = p + m;
            let mut q: usize = start;
            while q < n
                invariant
                    start <= q <= n == message@.len(),
                    start == p + m,
                    m == 15,
                    marker@ == unknown_field_marker(),
                    find_from(message@, marker@, 0) == Some(p as int),
                    find_char_from(message@, '`', start as int) == find_char_from(message@, '`', q as int),
                decreases n - q,
            {
                if message.get_char(q) == '`' {
                    assert(find_char_from(message@, '`', q as int) == Some(q as int));
                    assert(unknown_field_marker().len() == 15);
                    return Some(String::from_str(message.substring_char(start, q)));
                }
                q = q + 1;
            }
            return None;
        }
        assert(!occurs_at(message@, marker@, p as int)) by {
            if occurs_at(message@, marker@, p as int) {
                assert(forall|x: int| 0 <= x < m ==> #[trigger] message@.subrange(p as int, p + m)[x] == message@[p + x]);
            }
        }
        p = p + 1;
    }
    None
}

/// At most `max` characters of `s`: a longer text keeps its first
/// `max - 3` characters and is marked `...`.
pub open spec fn bounded_text(s: Seq<char>, max: nat) -> Seq<char> {
    if s.len() <= max {
        s
    } else {
        s.subrange(0, max - 3) + seq!['.', '.', '.']
    }
}

/// Bounds a diagnostic to `max_len` characters, the `...` that marks a cut
/// included.
pub fn bounded(input: &str, max_len: usize) -> (r: String)
    requires
        max_len >= 3,
    ensures
        r@ == bounded_text(input@, max_len as nat),
        r@.len() <= max_len,
{
    let n = input.unicode_len();
    if n <= max_len {
        String::from_str(input)
    } else {
        proof { reveal_strlit("..."); }
        let head = String::from_str(input.substring_char(0, max_len - 3));
        head.concat("...")
    }
}

/// The text with every newline replaced by a space.
pub open spec fn flatten_newlines(s: Seq<char>) -> Seq<char> {
    s.map_values(|c: char| if c == '\n' { ' ' } else { c })
}

fn flatten(input: &str) -> (r: String)
    ensures
        r@ == flatten_newlines(input@),
{
    let n = input.unicode_len();
    let mut out = String::new();
    let mut i: usize = 0;
    proof { reveal_strlit(" "); }
    while i < n
        invariant
            i <= n == input@.len(),
            out@ == flatten_newlines(input@.subrange(0, i as int)),
        decreases n - i,
    {
        let c = input.get_char(i);
        proof {
            reveal_strlit(" ");
            assert(input@.subrange(0, i + 1) =~= input@.subrange(0, i as int).push(c));
            assert(flatten_newlines(input@.subrange(0, i + 1)) =~= flatten_newlines(input@.subrange(0, i as int)).push(
                if c == '\n' { ' ' } else { c }));
        }
        if c == '\n' {
            out.append(" ");
        } else {
            let piece = input.substring_char(i, i + 1);
            assert(piece@ =~= seq![c]);
            out.append(piece);
        }
        i = i + 1;
        assert(out@ =~= flatten_newlines(input@.subrange(0, i as int)));
    }
    assert(input@.subrange(0, n as int) =~= input@);
    out
}

/// The hardened diagnostic for malformed input: the parser's message (at
/// most 200 characters) and a prefix of at most 96 characters of the input
/// (newlines flattened), the whole bounded to 220 characters.
pub open spec fn hardened_diagnostic_text(message: Seq<char>, input: Seq<char>) -> Seq<char> {
    bounded_text(
        bounded_text(message, 200) + "; payload_prefix="@ + bounded_text(flatten_newlines(input), 96) + " "@,
        220,
    )
}

/// A bounded text never exceeds its bound.
pub proof fn lemma_bounded_len(s: Seq<char>, max: nat)
    requires
        max >= 3,
    ensures
        bounded_text(s, max).len() <= max,
{
}

/// The hardened diagnostic never exceeds 220 characters, whatever the
/// message and the input.
pub proof fn lemma_hardened_diagnostic_bounded(message: Seq<char>, input: Seq<char>)
    ensures
        hardened_diagnostic_text(message, input).len() <= 220,
{
}

/// Builds the hardened diagnostic for input that is not well-formed JSON.
pub fn hardened_json_error(message: &str, input: &str) -> (r: SerializeError)
    ensures
        r matches SerializeError::InvalidJson { diagnostic } && diagnostic@ == hardened_diagnostic_text(message@, input@),
{
    let flat = flatten(input);
    let prefix = bounded(flat.as_str(), 96);
    let mut text = bounded(message, 200);
    text.append("; payload_prefix=");
    text.append(prefix.as_str());
    text.append(" ");
    let diagnostic = bounded(text.as_str(), 220);
    SerializeError::InvalidJson { diagnostic }
}

/// Classifies a strict parse failure: an unknown field is named, anything
/// else is invalid JSON with a diagnostic of at most 200 characters.
pub fn strict_parse_error(message: &str) -> (r: SerializeError)
    ensures
        match unknown_field_of(message@) {
            Some(f) => r matches SerializeError::UnknownField { field } && field@ == f,
            None => r matches SerializeError::InvalidJson { diagnostic } && diagnostic@ == bounded_text(message@, 200),
        },
{
    match extract_unknown_field(message) {
        Some(field) => SerializeError::UnknownField { field },
        None => SerializeError::InvalidJson { diagnostic: bounded(message, 200) },
    }
}

/// A payload whose values do not have the envelope's shape, with the
/// serializer's message bounded to 200 characters.
pub fn incompatible_payload(message: &str) -> (r: SerializeError)
    ensures
        r matches SerializeError::IncompatiblePayload { reason } && reason@ == bounded_text(message@, 200),
{
    SerializeError::IncompatiblePayload { reason: bounded(message, 200) }
}

/// The top-level keys an envelope may carry.
pub open spec fn allowed_key(k: Seq<char>) -> bool {
    k == "schema_version"@ || k == "mode"@ || k == "entries"@ || k == "source_hash"@
}

/// Rejects the first top-level key that is not an envelope field.
pub fn check_top_level_keys(keys: &[String]) -> (r: Result<(), SerializeError>)
    ensures
        (forall|i: int| 0 <= i < keys@.len() ==> allowed_key(#[trigger] keys@[i]@)) ==> r is Ok,
        !(forall|i: int| 0 <= i < keys@.len() ==> allowed_key(#[trigger] keys@[i]@)) ==> exists|i: int|
            0 <= i < keys@.len() && !allowed_key(keys@[i]@)
            && (forall|j: int| 0 <= j < i ==> allowed_key(#[trigger] keys@[j]@))
            && r == Err::<(), SerializeError>(SerializeError::UnknownField { field: keys@[i] }),
{
    let a = String::from_str("schema_version");
    let b = String::from_str("mode");
    let c = String::from_str("entries");
    let d = String::from_str("source_hash");
    let mut i: usize = 0;
    while i < keys.len()
        invariant
            i <= keys@.len(),
            a@ == "schema_version"@,
            b@ == "mode"@,
            c@ == "entries"@,
            d@ == "source_hash"@,
            forall|j: int| 0 <= j < i ==> allowed_key(#[trigger] keys@[j]@),
        decreases keys@.len() - i,
    {
        let k = &keys[i];
        if !(*k == a || *k == b || *k == c || *k == d) {
            return Err(SerializeError::UnknownField { field: k.clone() });
        }
        i = i + 1;
    }
    Ok(())
}

} // verus!
