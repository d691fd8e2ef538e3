use frankentorch::checkpoint::SerializeError;
use frankentorch::sidecar::{
    assemble_sidecar, generate_raptorq_sidecar, recommended_symbol_size, split_source_symbols, DecodedBlock,
    EncodedSymbol, OBJECT_ID_HIGH, OBJECT_ID_LOW, SIDECAR_SEED,
};

const PAYLOAD: &str = "{\"schema_version\":1,\"mode\":\"strict\",\"entries\":[{\"node_id\":0,\"value\":2.0,\"grad\":1.0},{\"node_id\":1,\"value\":3.0,\"grad\":2.0}],\"source_hash\":\"det64:0123456789abcdef\"}";

#[test]
fn sidecar_generation_and_decode_proof_are_available() {
    let (sidecar, proof) =
        generate_raptorq_sidecar(PAYLOAD, 4).expect("sidecar generation should succeed");

    assert!(sidecar.repair_symbol_count >= 1);
    assert!(sidecar.constraints_symbol_count >= 1);
    assert!(proof.proof_hash > 0);
    assert_eq!(proof.recovered_bytes, PAYLOAD.len());
    assert_eq!(sidecar.repair_symbol_count, 4);
    assert_eq!(sidecar.repair_manifest.len(), 4);
    assert_eq!(sidecar.symbol_size, 64);
    assert_eq!(sidecar.source_symbol_count, (PAYLOAD.len() + 63) / 64);
    assert_eq!(sidecar.seed, SIDECAR_SEED);
    assert_eq!(sidecar.object_id_high, OBJECT_ID_HIGH);
    assert_eq!(sidecar.object_id_low, OBJECT_ID_LOW);
    assert_eq!(sidecar.source_hash, proof.source_hash);
    assert_eq!(proof.proof_hash_hex, format!("det64:{:016x}", proof.proof_hash));
    assert!(sidecar.repair_manifest.iter().all(|r| r.bytes == 64));
}

#[test]
fn decode_proof_hash_is_deterministic() {
    let (sidecar_a, proof_a) =
        generate_raptorq_sidecar(PAYLOAD, 4).expect("first sidecar generation should work");
    let (sidecar_b, proof_b) =
        generate_raptorq_sidecar(PAYLOAD, 4).expect("second sidecar generation should work");

    assert_eq!(proof_a.proof_hash, proof_b.proof_hash);
    assert_eq!(proof_a, proof_b);
    assert_eq!(sidecar_a, sidecar_b);
}

#[test]
fn zero_repair_request_still_emits_one_repair_symbol() {
    let (sidecar, proof) = generate_raptorq_sidecar("tiny", 0).expect("sidecar");
    assert_eq!(sidecar.repair_symbol_count, 1);
    assert_eq!(sidecar.symbol_size, 32);
    assert_eq!(sidecar.source_symbol_count, 1);
    assert_eq!(proof.recovered_bytes, 4);
}

#[test]
fn empty_payload_uses_one_zero_symbol() {
    let (sidecar, proof) = generate_raptorq_sidecar("", 2).expect("sidecar");
    assert_eq!(sidecar.source_symbol_count, 1);
    assert_eq!(proof.recovered_bytes, 0);
}

#[test]
fn symbol_size_steps() {
    assert_eq!(recommended_symbol_size(0), 32);
    assert_eq!(recommended_symbol_size(64), 32);
    assert_eq!(recommended_symbol_size(65), 64);
    assert_eq!(recommended_symbol_size(512), 64);
    assert_eq!(recommended_symbol_size(513), 128);
    assert_eq!(recommended_symbol_size(4096), 128);
    assert_eq!(recommended_symbol_size(4097), 256);
}

#[test]
fn payload_is_split_and_zero_padded() {
    let symbols = split_source_symbols(&[1, 2, 3, 4, 5], 2);
    assert_eq!(symbols, vec![vec![1, 2], vec![3, 4], vec![5, 0]]);
    assert_eq!(split_source_symbols(&[], 4), vec![vec![0, 0, 0, 0]]);
}

#[test]
fn recovery_mismatch_fails_closed() {
    let decoded = DecodedBlock { source: vec![vec![b'a', b'b', 0, 0]], proof_hash: 9 };
    let repair = vec![EncodedSymbol { esi: 1, data: vec![0; 4], degree: 2 }];
    let err = assemble_sidecar(b"ax", 4, 1, &repair, 3, 5, &decoded).expect_err("bytes differ");
    assert_eq!(
        err,
        SerializeError::RaptorQFailure { reason: "decoded payload failed deterministic recovery check".to_string() }
    );
    let (sidecar, proof) = assemble_sidecar(b"ab", 4, 1, &repair, 3, 5, &decoded).expect("bytes match");
    assert_eq!(proof.recovered_bytes, 2);
    assert_eq!(proof.proof_hash_hex, "det64:0000000000000009");
    assert_eq!(proof.received_symbol_count, 5);
    assert_eq!(sidecar.constraints_symbol_count, 3);
    assert_eq!(sidecar.repair_manifest[0].degree, 2);
    assert_eq!(sidecar.repair_manifest[0].bytes, 4);
}
