//! Op transport frames: round trips, unknown tags, truncation.

use holo_dht::frame::{decode_frame, encode_frame, FrameOutcome, OpTag};

#[test]
fn frame_round_trip() {
    let payload = vec![1u8, 2, 3, 4, 5];
    let buf = encode_frame(OpTag::Publish, &payload);
    assert_eq!(buf.len(), 10);
    assert_eq!(buf[0], 0);
    // Little-endian length.
    assert_eq!(&buf[1..5], &[5, 0, 0, 0]);
    match decode_frame(&buf) {
        FrameOutcome::Frame(tag, decoded, next) => {
            assert_eq!(tag, OpTag::Publish);
            assert_eq!(decoded, payload);
            assert_eq!(next, 10);
        }
        other => panic!("expected a frame, got {:?}", other),
    }
}

#[test]
fn every_tag_round_trips() {
    let tags = [
        OpTag::Publish,
        OpTag::GossipRegionSet,
        OpTag::GossipOps,
        OpTag::GetX,
        OpTag::GetXResp,
        OpTag::Receipt,
        OpTag::CountersignNeg,
    ];
    for t in tags {
        let buf = encode_frame(t, &vec![0xaa; 3]);
        match decode_frame(&buf) {
            FrameOutcome::Frame(tag, _, _) => assert_eq!(tag, t),
            other => panic!("expected a frame, got {:?}", other),
        }
    }
}

#[test]
fn unknown_tags_are_dropped_with_a_skip() {
    // Tag 7 is outside the closed set.
    let mut buf = vec![7u8, 2, 0, 0, 0];
    buf.extend_from_slice(&[0xde, 0xad]);
    match decode_frame(&buf) {
        FrameOutcome::UnknownTag(next) => assert_eq!(next, 7),
        other => panic!("expected an unknown tag, got {:?}", other),
    }
}

#[test]
fn truncated_frames_wait_for_more() {
    // Too short for a header.
    assert!(matches!(
        decode_frame(&vec![0u8, 1, 0]),
        FrameOutcome::Incomplete
    ));
    // Header promises more payload than is present.
    let buf = vec![0u8, 10, 0, 0, 0, 1, 2];
    assert!(matches!(decode_frame(&buf), FrameOutcome::Incomplete));
}

#[test]
fn frames_concatenate() {
    let mut buf = encode_frame(OpTag::GetX, &vec![9u8]);
    let second = encode_frame(OpTag::Receipt, &vec![8u8, 7]);
    buf.extend_from_slice(&second);
    match decode_frame(&buf) {
        FrameOutcome::Frame(tag, payload, next) => {
            assert_eq!(tag, OpTag::GetX);
            assert_eq!(payload, vec![9u8]);
            // The rest of the buffer begins the second frame.
            let rest: Vec<u8> = buf[next..].to_vec();
            match decode_frame(&rest) {
                FrameOutcome::Frame(tag2, payload2, _) => {
                    assert_eq!(tag2, OpTag::Receipt);
                    assert_eq!(payload2, vec![8u8, 7]);
                }
                other => panic!("expected the second frame, got {:?}", other),
            }
        }
        other => panic!("expected the first frame, got {:?}", other),
    }
}
