//! The self-describing 39-byte content hash and its text codec.
//!
//! A full hash is `prefix (3 bytes) ‖ core (32 bytes) ‖ location (4 bytes)`.
//! The location is derived from the core by a 16-byte BLAKE2b digest whose
//! four 4-byte lanes are folded together with XOR; reinterpreted as an
//! unsigned 32-bit integer it names a point on the DHT ring.  The text form
//! is the single character `u` followed by unpadded base64url over all 39
//! bytes.  Parsing fails closed on any mismatch of leading character,
//! base64 alphabet, length, prefix or checksum.

use vstd::prelude::*;
use crate::hashing::{b64_chars, b64_text_len, b64_decode, b64_encode, blake2b_digest, blake2b_spec};

verus! {

/// Length of the type prefix.
pub const HOLO_HASH_PREFIX_LEN: usize = 3;

/// Length of the content-digest core.
pub const HOLO_HASH_CORE_LEN: usize = 32;

/// Length of the full hash: prefix, core and location checksum.
pub const HOLO_HASH_FULL_LEN: usize = 39;

/// The closed set of failures of the hash codec.
#[derive(Clone, Copy, Debug, PartialEq, Eq, Structural)]
pub enum HoloHashError {
    /// The text does not begin with `u`.
    NoU,
    /// The text after `u` is not unpadded base64url.
    BadBase64,
    /// The decoded bytes are not exactly 39 long.
    BadSize,
    /// The decoded prefix differs from the expected one.
    BadPrefix,
    /// The last four bytes differ from the location of the core.
    BadChecksum,
    /// A digest length outside BLAKE2b's supported range was requested.
    BadHashSize,
}

/// The XOR-fold of a 16-byte digest down to four bytes: byte `j` of the
/// result is the XOR of bytes `j`, `j+4`, `j+8` and `j+12`.
pub open spec fn xor_fold_16(h: Seq<u8>) -> Seq<u8>
    recommends
        h.len() == 16,
{
    seq![
        (((h[0] ^ h[4]) ^ h[8]) ^ h[12]),
        (((h[1] ^ h[5]) ^ h[9]) ^ h[13]),
        (((h[2] ^ h[6]) ^ h[10]) ^ h[14]),
        (((h[3] ^ h[7]) ^ h[11]) ^ h[15]),
    ]
}

/// The four location bytes of a 32-byte core: the XOR-fold of its 16-byte
/// BLAKE2b digest.  This is the definition of a hash's DHT location; it
/// depends on the core alone.
pub open spec fn spec_location_bytes(core: Seq<u8>) -> Seq<u8> {
    xor_fold_16(blake2b_spec(core, 16))
}

/// A full 39-byte hash whose trailing four bytes are the location of its
/// 32-byte core.
pub open spec fn checksum_ok(b: Seq<u8>) -> bool {
    &&& b.len() == HOLO_HASH_FULL_LEN
    &&& b.subrange(35, 39) == spec_location_bytes(b.subrange(3, 35))
}

/// The text form of a full hash: `u` followed by its unpadded base64url.
pub open spec fn spec_hash_text(b: Seq<u8>) -> Seq<char> {
    seq!['u'] + b64_chars(b)
}

/// The parse relation between a text and the bytes it stands for: the text
/// begins with `u` and the rest is the base64url of the bytes.
pub open spec fn hash_parses_to(s: Seq<char>, b: Seq<u8>) -> bool {
    &&& s.len() >= 1
    &&& s[0] == 'u'
    &&& b64_chars(b) == s.skip(1)
}

/// The text form of any byte string parses back to it: with the `ensures`
/// of `holo_hash_decode`, decoding the encoding of a well-formed hash
/// returns exactly the original bytes.
pub proof fn lemma_hash_text_round_trip(b: Seq<u8>)
    ensures
        hash_parses_to(spec_hash_text(b), b),
{
    assert(spec_hash_text(b).skip(1) =~= b64_chars(b));
}

/// Arbitrary (within BLAKE2b's limits) output-length digest.
pub fn blake2b_n(data: &[u8], length: usize) -> (r: Result<Vec<u8>, HoloHashError>)
    ensures
        r is Ok <==> 1 <= length <= 64,
        r is Ok ==> r.unwrap()@ == blake2b_spec(data@, length as int) && r.unwrap()@.len() == length,
        r is Err ==> r == Err::<Vec<u8>, HoloHashError>(HoloHashError::BadHashSize),
{
    if length < 1 || length > 64 {
        Err(HoloHashError::BadHashSize)
    } else {
        Ok(blake2b_digest(data, length))
    }
}

/// The 32-byte BLAKE2b digest of `data`.
pub fn blake2b_256(data: &[u8]) -> (r: Vec<u8>)
    ensures
        r@ == blake2b_spec(data@, 32),
        r@.len() == 32,
{
    blake2b_n(data, 32).unwrap()
}

/// The 16-byte BLAKE2b digest of `data`.
pub fn blake2b_128(data: &[u8]) -> (r: Vec<u8>)
    ensures
        r@ == blake2b_spec(data@, 16),
        r@.len() == 16,
{
    blake2b_n(data, 16).unwrap()
}

/// The four location bytes of a 32-byte core.  The result is a function of
/// the core alone, and the XOR-fold is its definition.
pub fn holo_dht_location_bytes(data: &[u8]) -> (r: Vec<u8>)
    requires
        data@.len() == 32,
    ensures
        r@ == spec_location_bytes(data@),
        r@.len() == 4,
{
    let hash = blake2b_128(data);
    let b0: u8 = ((hash[0] ^ hash[4]) ^ hash[8]) ^ hash[12];
    let b1: u8 = ((hash[1] ^ hash[5]) ^ hash[9]) ^ hash[13];
    let b2: u8 = ((hash[2] ^ hash[6]) ^ hash[10]) ^ hash[14];
    let b3: u8 = ((hash[3] ^ hash[7]) ^ hash[11]) ^ hash[15];
    let out: Vec<u8> = vec![b0, b1, b2, b3];
    proof {
        assert(out@ =~= spec_location_bytes(data@));
    }
    out
}

/// The DHT location of a 32-byte core as a point on the ring `[0, 2^32)`,
/// reading the four location bytes little-endian.
pub fn holo_dht_location_u32(data: &[u8]) -> (r: u32)
    requires
        data@.len() == 32,
    ensures
        r == spec_location_u32(data@),
{
    let loc = holo_dht_location_bytes(data);
    (loc[0] as u32) | ((loc[1] as u32) << 8) | ((loc[2] as u32) << 16) | ((loc[3] as u32) << 24)
}

/// The location bytes of a core read as one little-endian 32-bit integer.
pub open spec fn spec_location_u32(core: Seq<u8>) -> u32 {
    u32_from_le_bytes(spec_location_bytes(core))
}

/// Four bytes read as one little-endian 32-bit integer.
pub open spec fn u32_from_le_bytes(b: Seq<u8>) -> u32
    recommends
        b.len() == 4,
{
    (b[0] as u32) | ((b[1] as u32) << 8) | ((b[2] as u32) << 16) | ((b[3] as u32) << 24)
}

/// The text form of a full hash: `u` followed by unpadded base64url.
pub fn holo_hash_encode(data: &[u8]) -> (r: String)
    ensures
        r@ == spec_hash_text(data@),
{
    let b = b64_encode(data);
    let u = String::from_str("u");
    proof {
        reveal_strlit("u");
    }
    let r = u.concat(b.as_str());
    proof {
        assert(r@ =~= spec_hash_text(data@));
    }
    r
}

/// Parse the text form of a full hash, verifying the leading `u`, the
/// base64url body, the 39-byte length and the location checksum, but not
/// the type prefix.
pub fn holo_hash_decode_unchecked(s: &str) -> (r: Result<Vec<u8>, HoloHashError>)
    ensures
        r is Ok ==> hash_parses_to(s@, r.unwrap()@) && checksum_ok(r.unwrap()@),
        forall|b: Seq<u8>|
            hash_parses_to(s@, b) && checksum_ok(b) ==> r is Ok && r.unwrap()@ == b,
        r is Err ==> !(r.get_Err_0() is BadHashSize),
        (r == Err::<Vec<u8>, HoloHashError>(HoloHashError::NoU)) <==> (s@.len() == 0 || s@[0]
            != 'u'),
        (r == Err::<Vec<u8>, HoloHashError>(HoloHashError::BadBase64)) <==> (s@.len() >= 1
            && s@[0] == 'u' && !(exists|b: Seq<u8>| #[trigger] b64_chars(b) == s@.skip(1))),
        (r == Err::<Vec<u8>, HoloHashError>(HoloHashError::BadSize)) <==> (s@.len() >= 1 && s@[0]
            == 'u' && (exists|b: Seq<u8>|
            #[trigger] b64_chars(b) == s@.skip(1) && b.len() != HOLO_HASH_FULL_LEN)),
        (r == Err::<Vec<u8>, HoloHashError>(HoloHashError::BadChecksum)) <==> (s@.len() >= 1
            && s@[0] == 'u' && (exists|b: Seq<u8>|
            #[trigger] b64_chars(b) == s@.skip(1) && b.len() == HOLO_HASH_FULL_LEN
                && b.subrange(35, 39) != spec_location_bytes(b.subrange(3, 35)))),
{
    if s.is_empty() {
        return Err(HoloHashError::NoU);
    }
    if s.get_char(0) != 'u' {
        return Err(HoloHashError::NoU);
    }
    let n = s.unicode_len();
    let rest = s.substring_char(1, n);
    proof {
        assert(rest@ =~= s@.skip(1));
    }
    let b = match b64_decode(rest) {
        None => {
            return Err(HoloHashError::BadBase64);
        },
        Some(b) => b,
    };
    if b.len() != HOLO_HASH_FULL_LEN {
        return Err(HoloHashError::BadSize);
    }
    let core = vstd::slice::slice_subrange(b.as_slice(), HOLO_HASH_PREFIX_LEN, 35);
    let loc = holo_dht_location_bytes(core);
    if loc[0] != b[35] || loc[1] != b[36] || loc[2] != b[37] || loc[3] != b[38] {
        proof {
            assert(b@.subrange(35, 39) != spec_location_bytes(b@.subrange(3, 35))) by {
                assert(b@.subrange(35, 39)[0] == b@[35]);
                assert(spec_location_bytes(b@.subrange(3, 35)) == loc@);
            }
        }
        return Err(HoloHashError::BadChecksum);
    }
    proof {
        assert(b@.subrange(35, 39) =~= loc@);
    }
    Ok(b)
}

/// Parse the text form of a full hash as `holo_hash_decode_unchecked`
/// does, and verify its 3-byte type prefix as well: the type family is a
/// closed set, and no prefix sniffing is done.
pub fn holo_hash_decode(prefix: &[u8], s: &str) -> (r: Result<Vec<u8>, HoloHashError>)
    requires
        prefix@.len() == HOLO_HASH_PREFIX_LEN,
    ensures
        r is Ok ==> hash_parses_to(s@, r.unwrap()@) && checksum_ok(r.unwrap()@)
            && r.unwrap()@.subrange(0, 3) == prefix@,
        forall|b: Seq<u8>|
            hash_parses_to(s@, b) && checksum_ok(b) && b.subrange(0, 3) == prefix@ ==> r is Ok
                && r.unwrap()@ == b,
        r is Err ==> !(r.get_Err_0() is BadHashSize),
        (r == Err::<Vec<u8>, HoloHashError>(HoloHashError::NoU)) <==> (s@.len() == 0 || s@[0]
            != 'u'),
        (r == Err::<Vec<u8>, HoloHashError>(HoloHashError::BadBase64)) <==> (s@.len() >= 1
            && s@[0] == 'u' && !(exists|b: Seq<u8>| #[trigger] b64_chars(b) == s@.skip(1))),
        (r == Err::<Vec<u8>, HoloHashError>(HoloHashError::BadSize)) <==> (s@.len() >= 1 && s@[0]
            == 'u' && (exists|b: Seq<u8>|
            #[trigger] b64_chars(b) == s@.skip(1) && b.len() != HOLO_HASH_FULL_LEN)),
        (r == Err::<Vec<u8>, HoloHashError>(HoloHashError::BadPrefix)) <==> (s@.len() >= 1
            && s@[0] == 'u' && (exists|b: Seq<u8>|
            #[trigger] b64_chars(b) == s@.skip(1) && b.len() == HOLO_HASH_FULL_LEN
                && b.subrange(0, 3) != prefix@)),
        (r == Err::<Vec<u8>, HoloHashError>(HoloHashError::BadChecksum)) <==> (s@.len() >= 1
            && s@[0] == 'u' && (exists|b: Seq<u8>|
            #[trigger] b64_chars(b) == s@.skip(1) && b.len() == HOLO_HASH_FULL_LEN
                && b.subrange(0, 3) == prefix@
                && b.subrange(35, 39) != spec_location_bytes(b.subrange(3, 35)))),
{
    if s.is_empty() {
        return Err(HoloHashError::NoU);
    }
    if s.get_char(0) != 'u' {
        return Err(HoloHashError::NoU);
    }
    let n = s.unicode_len();
    let rest = s.substring_char(1, n);
    proof {
        assert(rest@ =~= s@.skip(1));
    }
    let b = match b64_decode(rest) {
        None => {
            return Err(HoloHashError::BadBase64);
        },
        Some(b) => b,
    };
    if b.len() != HOLO_HASH_FULL_LEN {
        return Err(HoloHashError::BadSize);
    }
    if b[0] != prefix[0] || b[1] != prefix[1] || b[2] != prefix[2] {
        proof {
            assert(b@.subrange(0, 3) != prefix@) by {
                assert(b@.subrange(0, 3)[0] == b@[0]);
                assert(b@.subrange(0, 3)[1] == b@[1]);
                assert(b@.subrange(0, 3)[2] == b@[2]);
            }
        }
        return Err(HoloHashError::BadPrefix);
    }
    proof {
        assert(b@.subrange(0, 3) =~= prefix@);
    }
    let core = vstd::slice::slice_subrange(b.as_slice(), HOLO_HASH_PREFIX_LEN, 35);
    let loc = holo_dht_location_bytes(core);
    if loc[0] != b[35] || loc[1] != b[36] || loc[2] != b[37] || loc[3] != b[38] {
        proof {
            assert(b@.subrange(35, 39) != spec_location_bytes(b@.subrange(3, 35))) by {
                assert(b@.subrange(35, 39)[0] == b@[35]);
                assert(spec_location_bytes(b@.subrange(3, 35)) == loc@);
            }
        }
        return Err(HoloHashError::BadChecksum);
    }
    proof {
        assert(b@.subrange(35, 39) =~= loc@);
    }
    Ok(b)
}

/// A full self-describing hash: 39 bytes whose trailing four are the
/// location checksum of its core.
#[derive(Clone, Debug)]
pub struct HoloHash {
    bytes: Vec<u8>,
}

impl View for HoloHash {
    type V = Seq<u8>;

    closed spec fn view(&self) -> Seq<u8> {
        self.bytes@
    }
}

impl HoloHash {
    /// Wrap 39 raw bytes; the byte string must already carry its
    /// checksum, as everything produced by the codec does.
    pub fn from_raw_39(bytes: Vec<u8>) -> (r: Result<HoloHash, HoloHashError>)
        ensures
            r is Ok <==> bytes@.len() == HOLO_HASH_FULL_LEN,
            r is Ok ==> r.unwrap()@ == bytes@,
            r is Err ==> r == Err::<HoloHash, HoloHashError>(HoloHashError::BadSize),
    {
        if bytes.len() != HOLO_HASH_FULL_LEN {
            Err(HoloHashError::BadSize)
        } else {
            Ok(HoloHash { bytes })
        }
    }

    /// Parse the text form under an expected 3-byte prefix.
    pub fn try_from_text(prefix: &[u8], s: &str) -> (r: Result<HoloHash, HoloHashError>)
        requires
            prefix@.len() == HOLO_HASH_PREFIX_LEN,
        ensures
            r is Ok ==> hash_parses_to(s@, r.unwrap()@) && checksum_ok(r.unwrap()@)
                && r.unwrap()@.subrange(0, 3) == prefix@,
            forall|b: Seq<u8>|
                hash_parses_to(s@, b) && checksum_ok(b) && b.subrange(0, 3) == prefix@ ==> r is Ok
                    && r.unwrap()@ == b,
            r is Err ==> holo_hash_decode_err(s@, prefix@, r.get_Err_0()),
    {
        match holo_hash_decode(prefix, s) {
            Ok(b) => {
                let r = HoloHash::from_raw_39(b);
                r
            },
            Err(e) => Err(e),
        }
    }

    /// The raw 39 bytes.
    pub fn get_raw_39(&self) -> (r: &Vec<u8>)
        ensures
            r@ == self@,
    {
        &self.bytes
    }

    /// The text form: `u` followed by unpadded base64url.
    pub fn to_text(&self) -> (r: String)
        ensures
            r@ == spec_hash_text(self@),
    {
        holo_hash_encode(self.bytes.as_slice())
    }
}

/// The error cases of `holo_hash_decode`, named so that wrappers can
/// carry them through: each error comes exactly on the inputs
/// `holo_hash_decode` maps to it.
pub open spec fn holo_hash_decode_err(s: Seq<char>, prefix: Seq<u8>, e: HoloHashError) -> bool {
    match e {
        HoloHashError::NoU => s.len() == 0 || s[0] != 'u',
        HoloHashError::BadBase64 => s.len() >= 1 && s[0] == 'u' && !(exists|b: Seq<u8>|
            #[trigger] b64_chars(b) == s.skip(1)),
        HoloHashError::BadSize => s.len() >= 1 && s[0] == 'u' && (exists|b: Seq<u8>|
            #[trigger] b64_chars(b) == s.skip(1) && b.len() != HOLO_HASH_FULL_LEN),
        HoloHashError::BadPrefix => s.len() >= 1 && s[0] == 'u' && (exists|b: Seq<u8>|
            #[trigger] b64_chars(b) == s.skip(1) && b.len() == HOLO_HASH_FULL_LEN && b.subrange(
                0,
                3,
            ) != prefix),
        HoloHashError::BadChecksum => s.len() >= 1 && s[0] == 'u' && (exists|b: Seq<u8>|
            #[trigger] b64_chars(b) == s.skip(1) && b.len() == HOLO_HASH_FULL_LEN && b.subrange(
                0,
                3,
            ) == prefix && b.subrange(35, 39) != spec_location_bytes(b.subrange(3, 35))),
        HoloHashError::BadHashSize => false,
    }
}


} // verus!

