use frankentorch::checkpoint::{
    bounded, check_top_level_keys, checkpoint_hash, encode_checkpoint_envelope, extract_unknown_field,
    hardened_json_error, normalize_entries, strict_parse_error, validate_checkpoint, CheckpointMode,
    SerializeError, SnapshotEntry, CHECKPOINT_SCHEMA_VERSION,
};

fn entry(node_id: usize, value: f64, grad: Option<f64>) -> SnapshotEntry {
    SnapshotEntry { node_id, value_bits: value.to_bits(), grad_bits: grad.map(f64::to_bits) }
}

#[test]
fn envelope_entries_come_back_sorted() {
    let entries = vec![entry(1, 3.0, Some(2.0)), entry(0, 2.0, None)];
    let envelope = encode_checkpoint_envelope(&entries, CheckpointMode::Strict);
    assert_eq!(envelope.schema_version, CHECKPOINT_SCHEMA_VERSION);
    assert_eq!(envelope.entries[0].node_id, 0);
    assert_eq!(envelope.entries[1].node_id, 1);
    assert!(envelope.source_hash.starts_with("det64:"));
    assert_eq!(envelope.source_hash.len(), 22);
    assert_eq!(validate_checkpoint(&envelope), Ok(()));
}

#[test]
fn sort_is_stable_for_equal_ids() {
    let entries = vec![entry(2, 1.0, None), entry(1, 5.0, None), entry(2, 3.0, None), entry(0, 4.0, None)];
    let sorted = normalize_entries(&entries);
    let ids: Vec<usize> = sorted.iter().map(|e| e.node_id).collect();
    assert_eq!(ids, vec![0, 1, 2, 2]);
    assert_eq!(sorted[2].value_bits, 1.0f64.to_bits());
    assert_eq!(sorted[3].value_bits, 3.0f64.to_bits());
}

#[test]
fn hash_depends_on_order_mode_and_grad_presence() {
    let a = vec![entry(0, 2.0, Some(1.0))];
    let b = vec![entry(0, 2.0, None)];
    let strict = checkpoint_hash(1, CheckpointMode::Strict, &a);
    assert_eq!(strict, checkpoint_hash(1, CheckpointMode::Strict, &a));
    assert_ne!(strict, checkpoint_hash(1, CheckpointMode::Hardened, &a));
    assert_ne!(strict, checkpoint_hash(1, CheckpointMode::Strict, &b));
    assert_ne!(strict, checkpoint_hash(2, CheckpointMode::Strict, &a));
}

#[test]
fn version_mismatch_is_fail_closed() {
    let mut envelope = encode_checkpoint_envelope(&[entry(0, 2.0, Some(1.0))], CheckpointMode::Strict);
    envelope.schema_version = 2;
    let err = validate_checkpoint(&envelope).expect_err("version mismatch should fail");
    assert_eq!(err, SerializeError::VersionMismatch { expected: 1, found: 2 });
    assert!(err.to_string().contains("schema version mismatch"));
}

#[test]
fn checksum_mismatch_is_fail_closed() {
    let mut envelope = encode_checkpoint_envelope(&[entry(0, 2.0, Some(1.0))], CheckpointMode::Strict);
    envelope.source_hash = "det64:deadbeefdeadbeef".to_string();
    let err = validate_checkpoint(&envelope).expect_err("checksum mismatch should fail");
    assert!(err.to_string().contains("checksum mismatch"));
}

#[test]
fn unsorted_entries_validate_against_canonical_order() {
    let mut envelope =
        encode_checkpoint_envelope(&[entry(0, 2.0, None), entry(1, 3.0, Some(2.0))], CheckpointMode::Hardened);
    envelope.entries.reverse();
    assert_eq!(validate_checkpoint(&envelope), Ok(()));
}

#[test]
fn unknown_field_is_extracted_from_serializer_message() {
    let msg = "unknown field `extra`, expected one of `schema_version`, `mode`";
    assert_eq!(extract_unknown_field(msg), Some("extra".to_string()));
    assert_eq!(extract_unknown_field("expected value at line 1"), None);
    assert_eq!(
        strict_parse_error(msg),
        SerializeError::UnknownField { field: "extra".to_string() }
    );
    assert_eq!(strict_parse_error(msg).to_string(), "unknown field 'extra'");
}

#[test]
fn top_level_keys_are_checked() {
    let ok: Vec<String> = ["entries", "mode", "schema_version", "source_hash"].iter().map(|s| s.to_string()).collect();
    assert_eq!(check_top_level_keys(&ok), Ok(()));
    let bad: Vec<String> = ["entries", "extra", "mode"].iter().map(|s| s.to_string()).collect();
    assert_eq!(
        check_top_level_keys(&bad),
        Err(SerializeError::UnknownField { field: "extra".to_string() })
    );
}

#[test]
fn diagnostics_are_bounded() {
    assert_eq!(bounded("abcdef", 5), "ab...");
    assert_eq!(bounded("abc", 3), "abc");
    let long_input = "x\n".repeat(500);
    let long_message = "y".repeat(400);
    let err = hardened_json_error(&long_message, &long_input);
    let text = err.to_string();
    assert!(text.starts_with("invalid json: "));
    assert!(text.len() < 320);
    let SerializeError::InvalidJson { diagnostic } = err else { panic!("invalid json expected") };
    assert_eq!(diagnostic.chars().count(), 220);
    assert!(diagnostic.starts_with(&"y".repeat(197)));
    assert!(diagnostic.ends_with("..."));
}

#[test]
fn hardened_diagnostic_quotes_flattened_prefix() {
    let err = hardened_json_error("expected value", "{ not\njson");
    assert_eq!(
        err,
        SerializeError::InvalidJson { diagnostic: "expected value; payload_prefix={ not json ".to_string() }
    );
}

#[test]
fn incompatible_payload_is_bounded() {
    let long = "z".repeat(300);
    let err = frankentorch::checkpoint::incompatible_payload(&long);
    let SerializeError::IncompatiblePayload { reason } = &err else { panic!("incompatible payload expected") };
    assert_eq!(reason.chars().count(), 200);
    assert!(err.to_string().starts_with("incompatible payload: zzz"));
}

#[test]
fn strict_parse_error_without_field_is_invalid_json() {
    let err = strict_parse_error("key must be a string at line 1 column 3");
    assert_eq!(
        err,
        SerializeError::InvalidJson { diagnostic: "key must be a string at line 1 column 3".to_string() }
    );
    assert_eq!(err.to_string(), "invalid json: key must be a string at line 1 column 3");
}
