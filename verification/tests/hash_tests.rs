//! The hash codec: round trips, error cases, locations.

use holo_dht::hash::{
    blake2b_128, blake2b_256, blake2b_n, holo_dht_location_bytes, holo_dht_location_u32,
    holo_hash_decode, holo_hash_decode_unchecked, holo_hash_encode, HoloHash, HoloHashError,
};

fn hex(bytes: &[u8]) -> String {
    let mut s = String::new();
    for b in bytes {
        s.push_str(&format!("{:02x}", b));
    }
    s
}

/// Build a well-formed 39-byte hash from a prefix and a 32-byte core.
fn make_hash(prefix: [u8; 3], core: [u8; 32]) -> Vec<u8> {
    let mut b = Vec::new();
    b.extend_from_slice(&prefix);
    b.extend_from_slice(&core);
    let loc = holo_dht_location_bytes(&core);
    b.extend_from_slice(&loc);
    b
}

#[test]
fn encode_prepends_u_and_base64url() {
    // 4 * ceil(3/3) characters for three zero bytes.
    let text = holo_hash_encode(&[0u8, 0, 0]);
    assert_eq!(text, "uAAAA");
}

#[test]
fn round_trip_with_valid_checksum() {
    let core = [7u8; 32];
    let b = make_hash([0x84, 0x29, 0x24], core);
    assert_eq!(b.len(), 39);
    let text = holo_hash_encode(&b);
    assert_eq!(text.len(), 1 + 52);
    let decoded = holo_hash_decode_unchecked(&text).unwrap();
    assert_eq!(decoded, b);
    let decoded2 = holo_hash_decode(&[0x84, 0x29, 0x24], &text).unwrap();
    assert_eq!(decoded2, b);
}

#[test]
fn mutating_any_byte_invalidates_parse() {
    let core = [42u8; 32];
    let b = make_hash([0x84, 0x21, 0x24], core);
    for i in 0..b.len() {
        let mut bad = b.clone();
        bad[i] ^= 0x01;
        let text = holo_hash_encode(&bad);
        let r = holo_hash_decode(&[0x84, 0x21, 0x24], &text);
        // Flipping a prefix bit gives BadPrefix; a core or checksum bit
        // breaks the checksum.
        assert!(r.is_err(), "byte {} mutated but parse succeeded", i);
    }
}

#[test]
fn decode_rejects_missing_u() {
    assert_eq!(
        holo_hash_decode_unchecked("xAAAA"),
        Err(HoloHashError::NoU)
    );
    assert_eq!(holo_hash_decode_unchecked(""), Err(HoloHashError::NoU));
}

#[test]
fn decode_rejects_bad_base64() {
    assert_eq!(
        holo_hash_decode_unchecked("u!!!!"),
        Err(HoloHashError::BadBase64)
    );
    // Padding is refused in the unpadded alphabet.
    assert_eq!(
        holo_hash_decode_unchecked("uAAA="),
        Err(HoloHashError::BadBase64)
    );
}

#[test]
fn decode_rejects_bad_size() {
    assert_eq!(
        holo_hash_decode_unchecked("uAAAA"),
        Err(HoloHashError::BadSize)
    );
}

#[test]
fn decode_rejects_bad_prefix() {
    let core = [1u8; 32];
    let b = make_hash([0x84, 0x29, 0x24], core);
    let text = holo_hash_encode(&b);
    assert_eq!(
        holo_hash_decode(&[0x84, 0x20, 0x24], &text),
        Err(HoloHashError::BadPrefix)
    );
}

#[test]
fn decode_rejects_bad_checksum() {
    let core = [9u8; 32];
    let mut b = make_hash([0x84, 0x29, 0x24], core);
    let last = b.len() - 1;
    b[last] ^= 0xff;
    let text = holo_hash_encode(&b);
    assert_eq!(
        holo_hash_decode(&[0x84, 0x29, 0x24], &text),
        Err(HoloHashError::BadChecksum)
    );
    assert_eq!(
        holo_hash_decode_unchecked(&text),
        Err(HoloHashError::BadChecksum)
    );
}

#[test]
fn blake2b_256_known_vector() {
    // BLAKE2b-256 of the empty string.
    let d = blake2b_256(&[]);
    assert_eq!(
        hex(&d),
        "0e5751c026e543b2e8ab2eb06099daa1d1e5df47778f7787faab45cdf12fe3a8"
    );
}

#[test]
fn blake2b_n_bounds() {
    assert_eq!(blake2b_n(&[1, 2, 3], 0), Err(HoloHashError::BadHashSize));
    assert_eq!(blake2b_n(&[1, 2, 3], 65), Err(HoloHashError::BadHashSize));
    assert_eq!(blake2b_n(&[1, 2, 3], 64).unwrap().len(), 64);
    assert_eq!(blake2b_128(&[1, 2, 3]).len(), 16);
}

#[test]
fn location_depends_only_on_core() {
    let core = [3u8; 32];
    let a = holo_dht_location_bytes(&core);
    let b = holo_dht_location_bytes(&core);
    assert_eq!(a, b);
    assert_eq!(a.len(), 4);
    // The location is the XOR-fold of the four lanes of the 16-byte
    // digest: check the definition byte for byte.
    let d = blake2b_128(&core);
    for j in 0..4 {
        assert_eq!(a[j], d[j] ^ d[j + 4] ^ d[j + 8] ^ d[j + 12]);
    }
    let loc = holo_dht_location_u32(&core);
    let expect = (a[0] as u32)
        | ((a[1] as u32) << 8)
        | ((a[2] as u32) << 16)
        | ((a[3] as u32) << 24);
    assert_eq!(loc, expect);
}

#[test]
fn holo_hash_type_round_trip() {
    let core = [77u8; 32];
    let b = make_hash([0x84, 0x29, 0x24], core);
    let h = HoloHash::from_raw_39(b.clone()).unwrap();
    let text = h.to_text();
    let h2 = HoloHash::try_from_text(&[0x84, 0x29, 0x24], &text).unwrap();
    assert_eq!(h2.get_raw_39(), &b);
    assert!(matches!(
        HoloHash::from_raw_39(vec![1, 2, 3]),
        Err(HoloHashError::BadSize)
    ));
}
