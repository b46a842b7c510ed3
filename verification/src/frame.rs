//! Op transport frames.
//!
//! Each inter-node message is `(op_tag: u8, payload_len: u32 little
//! endian, payload)`.  The tag set is closed; a frame with an unknown
//! tag is dropped (the transport warns and moves on), and a truncated
//! frame waits for more bytes.

use vstd::prelude::*;
use crate::bytes::{push_u32_le, spec_u32_le};

verus! {

/// The closed set of message tags.
#[derive(Clone, Copy, Debug, PartialEq, Eq, Structural)]
pub enum OpTag {
    /// An author publishing ops to an authority.
    Publish,
    /// A historical-gossip region set.
    GossipRegionSet,
    /// The ops of mismatched regions.
    GossipOps,
    /// A get request.
    GetX,
    /// A get response.
    GetXResp,
    /// A validation receipt.
    Receipt,
    /// A countersigning-session negotiation message.
    CountersignNeg,
}

/// The wire byte of a tag.
pub open spec fn spec_tag_byte(t: OpTag) -> u8 {
    match t {
        OpTag::Publish => 0u8,
        OpTag::GossipRegionSet => 1u8,
        OpTag::GossipOps => 2u8,
        OpTag::GetX => 3u8,
        OpTag::GetXResp => 4u8,
        OpTag::Receipt => 5u8,
        OpTag::CountersignNeg => 6u8,
    }
}

/// The tag a wire byte stands for, if any.
pub open spec fn spec_tag_of_byte(b: u8) -> Option<OpTag> {
    if b == 0 {
        Option::Some(OpTag::Publish)
    } else if b == 1 {
        Option::Some(OpTag::GossipRegionSet)
    } else if b == 2 {
        Option::Some(OpTag::GossipOps)
    } else if b == 3 {
        Option::Some(OpTag::GetX)
    } else if b == 4 {
        Option::Some(OpTag::GetXResp)
    } else if b == 5 {
        Option::Some(OpTag::Receipt)
    } else if b == 6 {
        Option::Some(OpTag::CountersignNeg)
    } else {
        Option::None
    }
}

/// Tag bytes decode back to their tags.
pub proof fn lemma_tag_byte_round_trip(t: OpTag)
    ensures
        spec_tag_of_byte(spec_tag_byte(t)) == Option::Some(t),
{
}

/// The wire form of one frame: tag byte, 32-bit little-endian payload
/// length, payload.
pub open spec fn spec_frame(t: OpTag, payload: Seq<u8>) -> Seq<u8>
    recommends
        payload.len() <= u32::MAX,
{
    seq![spec_tag_byte(t)] + spec_u32_le(payload.len() as u32) + payload
}

/// What reading one frame at the head of a buffer yields.
#[derive(Debug)]
pub enum FrameOutcome {
    /// A whole known frame: its tag, payload, and the offset of the
    /// next frame.
    Frame(OpTag, Vec<u8>, usize),
    /// A whole frame with an unknown tag: dropped; the offset skips
    /// it.
    UnknownTag(usize),
    /// Not enough bytes for a whole frame yet.
    Incomplete,
}

/// The declared payload length at the head of a buffer, once the
/// five-byte header is present.
pub open spec fn spec_frame_len(buf: Seq<u8>) -> int
    recommends
        buf.len() >= 5,
{
    spec_u32_from_le(buf[1], buf[2], buf[3], buf[4])
}

/// Four bytes as one little-endian 32-bit value.
pub open spec fn spec_u32_from_le(b0: u8, b1: u8, b2: u8, b3: u8) -> int {
    b0 + b1 * 0x100 + b2 * 0x10000 + b3 * 0x1000000
}

/// Encode one frame.
pub fn encode_frame(t: OpTag, payload: &Vec<u8>) -> (r: Vec<u8>)
    requires
        payload@.len() <= u32::MAX,
    ensures
        r@ == spec_frame(t, payload@),
        r@.len() == 5 + payload@.len(),
{
    let mut out: Vec<u8> = Vec::new();
    let tag: u8 = match t {
        OpTag::Publish => 0,
        OpTag::GossipRegionSet => 1,
        OpTag::GossipOps => 2,
        OpTag::GetX => 3,
        OpTag::GetXResp => 4,
        OpTag::Receipt => 5,
        OpTag::CountersignNeg => 6,
    };
    out.push(tag);
    push_u32_le(&mut out, payload.len() as u32);
    out.extend_from_slice(payload.as_slice());
    proof {
        assert(out@ =~= spec_frame(t, payload@));
    }
    out
}

/// Read the frame at the head of the buffer: a whole known frame
/// yields its tag and payload; a whole unknown-tagged frame is
/// dropped; a truncated one waits.  Parsing never fails on content —
/// only the tag set is judged.
pub fn decode_frame(buf: &Vec<u8>) -> (r: FrameOutcome)
    ensures
        buf@.len() < 5 ==> r is Incomplete,
        buf@.len() >= 5 ==> {
            let plen = spec_frame_len(buf@);
            if 5 + plen <= buf@.len() {
                match spec_tag_of_byte(buf@[0]) {
                    Option::Some(t) => r matches FrameOutcome::Frame(tag, payload, next) && tag
                        == t && payload@ == buf@.subrange(5, 5 + plen) && next == 5 + plen,
                    Option::None => r matches FrameOutcome::UnknownTag(next) && next == 5 + plen,
                }
            } else {
                r is Incomplete
            }
        },
{
    if buf.len() < 5 {
        return FrameOutcome::Incomplete;
    }
    let plen: usize = (buf[1] as usize) + (buf[2] as usize) * 0x100 + (buf[3] as usize) * 0x10000
        + (buf[4] as usize) * 0x1000000;
    if buf.len() < 5 || buf.len() - 5 < plen {
        return FrameOutcome::Incomplete;
    }
    let next = 5 + plen;
    let tag: Option<OpTag> = match buf[0] {
        0u8 => Option::Some(OpTag::Publish),
        1u8 => Option::Some(OpTag::GossipRegionSet),
        2u8 => Option::Some(OpTag::GossipOps),
        3u8 => Option::Some(OpTag::GetX),
        4u8 => Option::Some(OpTag::GetXResp),
        5u8 => Option::Some(OpTag::Receipt),
        6u8 => Option::Some(OpTag::CountersignNeg),
        _ => Option::None,
    };
    match tag {
        Option::None => FrameOutcome::UnknownTag(next),
        Option::Some(t) => {
            let mut payload: Vec<u8> = Vec::new();
            let mut i: usize = 5;
            while i < next
                invariant
                    5 <= i <= next,
                    next == 5 + plen,
                    next <= buf@.len(),
                    payload@.len() == i - 5,
                    forall|k: int| 0 <= k < payload@.len() ==> (#[trigger] payload@[k]) == buf@[
                        5 + k],
                decreases next - i,
            {
                payload.push(buf[i]);
                i = i + 1;
            }
            proof {
                assert(payload@ =~= buf@.subrange(5, 5 + plen as int));
            }
            FrameOutcome::Frame(t, payload, next)
        },
    }
}

/// Frame round trip: decoding a buffer that begins with the encoding
/// of a frame yields exactly that frame, whatever follows it.
pub proof fn lemma_frame_round_trip(t: OpTag, payload: Seq<u8>, rest: Seq<u8>)
    requires
        payload.len() <= u32::MAX,
    ensures
        ({
            let buf = spec_frame(t, payload) + rest;
            &&& buf.len() >= 5
            &&& spec_frame_len(buf) == payload.len()
            &&& spec_tag_of_byte(buf[0]) == Option::Some(t)
            &&& buf.subrange(5, 5 + payload.len() as int) == payload
        }),
{
    let buf = spec_frame(t, payload) + rest;
    let n = payload.len() as u32;
    assert(buf[1] == spec_u32_le(n)[0] && buf[2] == spec_u32_le(n)[1] && buf[3] == spec_u32_le(n)[2]
        && buf[4] == spec_u32_le(n)[3]);
    assert(spec_u32_from_le(
        (n & 0xff) as u8,
        ((n >> 8) & 0xff) as u8,
        ((n >> 16) & 0xff) as u8,
        ((n >> 24) & 0xff) as u8,
    ) == n) by (bit_vector);
    assert(buf.subrange(5, 5 + payload.len() as int) =~= payload);
}

} // verus!
