use frankentorch::digest::{det64_string, det_hash64};

fn reference_fnv(parts: &[&str]) -> u64 {
    let mut hash = 0xcbf2_9ce4_8422_2325u64;
    for part in parts {
        for byte in part.as_bytes() {
            hash ^= u64::from(*byte);
            hash = hash.wrapping_mul(0x0000_0100_0000_01b3);
        }
        hash ^= 0xff;
        hash = hash.wrapping_mul(0x0000_0100_0000_01b3);
    }
    hash
}

#[test]
fn det_hash64_is_stable() {
    let a = det_hash64(["x", "y", "z"].as_slice());
    let b = det_hash64(["x", "y", "z"].as_slice());
    assert_eq!(a, b);
}

#[test]
fn det_hash64_matches_fnv_with_separators() {
    assert_eq!(det_hash64(&[]), 0xcbf2_9ce4_8422_2325);
    assert_eq!(det_hash64(&["x", "y", "z"]), reference_fnv(&["x", "y", "z"]));
    assert_ne!(det_hash64(&["xy", "z"]), det_hash64(&["x", "yz"]));
}

#[test]
fn det64_rendering_is_sixteen_lowercase_hex_digits() {
    assert_eq!(det64_string(0), "det64:0000000000000000");
    assert_eq!(det64_string(0xdead_beef), "det64:00000000deadbeef");
    assert_eq!(det64_string(u64::MAX), "det64:ffffffffffffffff");
}
