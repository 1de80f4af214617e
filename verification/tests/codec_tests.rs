//! Tests of the wire codec: encoding then decoding preserves every field,
//! and malformed bytes are rejected.

use pbft_core::codec::decode_consensus_seal;
use pbft_core::codec::decode_pbft_message;
use pbft_core::codec::decode_peer_header;
use pbft_core::codec::decode_view_change;
use pbft_core::codec::encode_consensus_seal;
use pbft_core::codec::encode_pbft_message;
use pbft_core::codec::encode_peer_header;
use pbft_core::codec::encode_view_change;
use pbft_core::crypto::sha256;
use pbft_core::crypto::sha512;
use pbft_core::error::PbftError;
use pbft_core::message::PbftBlock;
use pbft_core::message::PbftMessage;
use pbft_core::message::PbftMessageInfo;
use pbft_core::message::PbftMessageType;
use pbft_core::message::PbftSeal;
use pbft_core::message::PbftSignedCommitVote;
use pbft_core::message::PbftViewChange;
use pbft_core::message::PeerMessageHeader;
use pbft_core::parsed::ParsedMessage;

fn sample_message() -> PbftMessage {
    PbftMessage {
        info: PbftMessageInfo {
            msg_type: PbftMessageType::Commit,
            view: 3,
            seq_num: 17,
            signer_id: vec![9, 8, 7],
        },
        block: PbftBlock {
            block_id: vec![1, 2, 3, 4],
            signer_id: vec![5],
            block_num: 17,
            summary: vec![],
        },
    }
}

fn sample_seal() -> PbftSeal {
    PbftSeal {
        previous_id: vec![1, 2, 3, 4],
        summary: vec![0xAA, 0xBB],
        previous_commit_votes: vec![
            PbftSignedCommitVote {
                header_bytes: vec![10, 11],
                header_signature: vec![12],
                message_bytes: encode_pbft_message(&sample_message()),
            },
            PbftSignedCommitVote {
                header_bytes: vec![],
                header_signature: vec![13, 14],
                message_bytes: vec![42],
            },
        ],
    }
}

/// Encoding then decoding a message preserves info and block fields.
#[test]
fn message_round_trip() {
    let m = sample_message();
    let bytes = encode_pbft_message(&m);
    let back = decode_pbft_message(&bytes).unwrap();
    assert_eq!(back, m);
}

/// Encoding then decoding a seal preserves every vote's bytes verbatim.
#[test]
fn seal_round_trip() {
    let s = sample_seal();
    let bytes = encode_consensus_seal(&s);
    let back = decode_consensus_seal(&bytes).unwrap();
    assert_eq!(back, s);
}

/// Encoding then decoding a view change preserves its info and seal.
#[test]
fn view_change_round_trip() {
    let vc = PbftViewChange {
        info: PbftMessageInfo {
            msg_type: PbftMessageType::ViewChange,
            view: 2,
            seq_num: 8,
            signer_id: vec![1],
        },
        seal: sample_seal(),
    };
    let bytes = encode_view_change(&vc);
    let back = decode_view_change(&bytes).unwrap();
    assert_eq!(back, vc);
}

/// Encoding then decoding a transport header preserves its fields.
#[test]
fn header_round_trip() {
    let h = PeerMessageHeader { signer_id: vec![2; 33], content_sha512: vec![7; 64] };
    let bytes = encode_peer_header(&h);
    let back = decode_peer_header(&bytes).unwrap();
    assert_eq!(back, h);
}

/// Wrapping a message and parsing the wire bytes gives the content back.
#[test]
fn parsed_message_round_trip() {
    let m = sample_message();
    let parsed = ParsedMessage::from_pbft_message(m);
    let back = ParsedMessage::from_bytes(parsed.message_bytes.clone()).unwrap();
    assert_eq!(back.info, parsed.info);
    assert_eq!(back.block, parsed.block);
}

/// Malformed bytes are rejected, never misread.
#[test]
fn malformed_bytes_rejected() {
    assert!(decode_pbft_message(&vec![]).is_none());
    assert!(decode_pbft_message(&vec![9, 9, 9]).is_none());
    assert!(decode_consensus_seal(&vec![1, 2]).is_none());
    // Truncating a valid encoding breaks it.
    let mut bytes = encode_pbft_message(&sample_message());
    bytes.pop();
    assert!(decode_pbft_message(&bytes).is_none());
    assert_eq!(
        ParsedMessage::from_bytes(vec![200]).err(),
        Some(PbftError::SerializationError)
    );
}

/// The digests match their published test vectors, so the wrappers really
/// hash their input.
#[test]
fn digest_known_vectors() {
    let abc = vec![0x61, 0x62, 0x63];
    let d256 = sha256(&abc);
    assert_eq!(
        d256,
        vec![
            0xba, 0x78, 0x16, 0xbf, 0x8f, 0x01, 0xcf, 0xea, 0x41, 0x41, 0x40, 0xde, 0x5d, 0xae,
            0x22, 0x23, 0xb0, 0x03, 0x61, 0xa3, 0x96, 0x17, 0x7a, 0x9c, 0xb4, 0x10, 0xff, 0x61,
            0xf2, 0x00, 0x15, 0xad,
        ]
    );
    let d512 = sha512(&abc);
    assert_eq!(d512.len(), 64);
    assert_eq!(d512[0], 0xdd);
    assert_eq!(d512[1], 0xaf);
    assert_eq!(d512[63], 0x9f);
}
