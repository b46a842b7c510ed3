//! Byte-level helpers: comparison and little-endian framing used by the
//! canonical content encoding.

use vstd::prelude::*;

verus! {

/// Byte-wise equality of two slices.
pub fn bytes_eq(a: &[u8], b: &[u8]) -> (r: bool)
    ensures
        r == (a@ == b@),
{
    if a.len() != b.len() {
        proof {
            assert(a@ != b@) by {
                assert(a@.len() != b@.len());
            }
        }
        return false;
    }
    let n = a.len();
    let mut i: usize = 0;
    while i < n
        invariant
            n == a@.len() == b@.len(),
            i <= n,
            forall|j: int| 0 <= j < i ==> a@[j] == b@[j],
        decreases n - i,
    {
        if a[i] != b[i] {
            return false;
        }
        i = i + 1;
    }
    proof {
        assert(a@ =~= b@);
    }
    true
}

/// The four little-endian bytes of a 32-bit integer.
pub open spec fn spec_u32_le(n: u32) -> Seq<u8> {
    seq![
        (n & 0xff) as u8,
        ((n >> 8) & 0xff) as u8,
        ((n >> 16) & 0xff) as u8,
        ((n >> 24) & 0xff) as u8,
    ]
}

/// The eight little-endian bytes of a 64-bit integer.
pub open spec fn spec_u64_le(n: u64) -> Seq<u8> {
    seq![
        (n & 0xff) as u8,
        ((n >> 8) & 0xff) as u8,
        ((n >> 16) & 0xff) as u8,
        ((n >> 24) & 0xff) as u8,
        ((n >> 32) & 0xff) as u8,
        ((n >> 40) & 0xff) as u8,
        ((n >> 48) & 0xff) as u8,
        ((n >> 56) & 0xff) as u8,
    ]
}

/// A signed 64-bit integer framed as its two's-complement bit pattern.
pub open spec fn spec_i64_le(n: i64) -> Seq<u8> {
    spec_u64_le(n as u64)
}

/// A byte string framed as its 64-bit length followed by its bytes.
pub open spec fn spec_framed_bytes(b: Seq<u8>) -> Seq<u8> {
    spec_u64_le(b.len() as u64) + b
}

/// An optional byte string framed as a presence byte and, when present,
/// the framed bytes.
pub open spec fn spec_framed_opt_bytes(b: Option<Seq<u8>>) -> Seq<u8> {
    match b {
        Option::None => seq![0u8],
        Option::Some(s) => seq![1u8] + spec_framed_bytes(s),
    }
}

/// Append the four little-endian bytes of `n`.
pub fn push_u32_le(out: &mut Vec<u8>, n: u32)
    ensures
        final(out)@ == old(out)@ + spec_u32_le(n),
{
    out.push((n & 0xff) as u8);
    out.push(((n >> 8) & 0xff) as u8);
    out.push(((n >> 16) & 0xff) as u8);
    out.push(((n >> 24) & 0xff) as u8);
    proof {
        assert(out@ =~= old(out)@ + spec_u32_le(n));
    }
}

/// Append the eight little-endian bytes of `n`.
pub fn push_u64_le(out: &mut Vec<u8>, n: u64)
    ensures
        final(out)@ == old(out)@ + spec_u64_le(n),
{
    out.push((n & 0xff) as u8);
    out.push(((n >> 8) & 0xff) as u8);
    out.push(((n >> 16) & 0xff) as u8);
    out.push(((n >> 24) & 0xff) as u8);
    out.push(((n >> 32) & 0xff) as u8);
    out.push(((n >> 40) & 0xff) as u8);
    out.push(((n >> 48) & 0xff) as u8);
    out.push(((n >> 56) & 0xff) as u8);
    proof {
        assert(out@ =~= old(out)@ + spec_u64_le(n));
    }
}

/// Append the eight bytes of the two's-complement pattern of `n`.
pub fn push_i64_le(out: &mut Vec<u8>, n: i64)
    ensures
        final(out)@ == old(out)@ + spec_i64_le(n),
{
    push_u64_le(out, n as u64);
}

/// Append a length-framed byte string.
pub fn push_framed_bytes(out: &mut Vec<u8>, b: &[u8])
    ensures
        final(out)@ == old(out)@ + spec_framed_bytes(b@),
{
    push_u64_le(out, b.len() as u64);
    out.extend_from_slice(b);
    proof {
        assert(out@ =~= old(out)@ + spec_framed_bytes(b@));
    }
}

/// Append a presence byte and, when present, a length-framed byte string.
pub fn push_framed_opt_bytes(out: &mut Vec<u8>, b: &Option<Vec<u8>>)
    ensures
        final(out)@ == old(out)@ + spec_framed_opt_bytes(
            match b {
                Option::None => Option::None,
                Option::Some(v) => Option::Some(v@),
            },
        ),
{
    match b {
        Option::None => {
            out.push(0u8);
            proof {
                assert(out@ =~= old(out)@ + seq![0u8]);
            }
        },
        Option::Some(v) => {
            out.push(1u8);
            push_framed_bytes(out, v.as_slice());
            proof {
                assert(out@ =~= old(out)@ + (seq![1u8] + spec_framed_bytes(v@)));
            }
        },
    }
}

} // verus!
