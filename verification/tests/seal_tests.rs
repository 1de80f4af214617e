//! Tests of consensus-seal verification: every way a seal can be wrong is
//! refused with its own fault, and a correct one is accepted.

use pbft_core::action::HostAction;
use pbft_core::codec::encode_consensus_seal;
use pbft_core::codec::encode_peer_header;
use pbft_core::config::PbftConfig;
use pbft_core::crypto::sha256;
use pbft_core::crypto::sha512;
use pbft_core::error::InternalFault;
use pbft_core::error::PbftError;
use pbft_core::handlers::make_msg_info;
use pbft_core::message::Block;
use pbft_core::message::PbftBlock;
use pbft_core::message::PbftMessage;
use pbft_core::message::PbftMessageType;
use pbft_core::message::PbftSeal;
use pbft_core::message::PbftSignedCommitVote;
use pbft_core::message::PeerId;
use pbft_core::message::PeerMessageHeader;
use pbft_core::node::PbftNode;
use pbft_core::parsed::ParsedMessage;
use pbft_core::state::PbftMode;
use pbft_core::state::PbftState;

fn mock_config(n: u8) -> PbftConfig {
    PbftConfig {
        peers: (0..n).map(|i| vec![i]).collect(),
        faulty_primary_timeout_ms: 4000,
        forced_view_change_period: 30,
    }
}

fn mock_peers() -> Vec<PeerId> {
    (0..4).map(|i| vec![i]).collect()
}

fn mock_block_id(num: u64) -> Vec<u8> {
    sha256(&format!("I'm a block with block num {}", num).into_bytes())
}

fn mock_block(num: u64) -> Block {
    Block {
        block_id: mock_block_id(num),
        previous_id: mock_block_id(num - 1),
        signer_id: vec![],
        block_num: num,
        payload: vec![],
        summary: vec![],
    }
}

/// One signed commit vote for `block_id`, with knobs for each way it can
/// be broken.
fn make_vote(
    seq: u64,
    signer: Vec<u8>,
    block_id: Vec<u8>,
    key_byte: u8,
    break_signature: bool,
    break_digest: bool,
) -> PbftSignedCommitVote {
    let info = make_msg_info(&PbftMessageType::Commit, 0, seq, signer);
    let block = PbftBlock { block_id, signer_id: vec![], block_num: 0, summary: vec![] };
    let message = ParsedMessage::from_pbft_message(PbftMessage { info, block });

    let sk = secp256k1::SecretKey::from_byte_array([key_byte; 32]).unwrap();
    let pk = secp256k1::PublicKey::from_secret_key(&sk);

    let mut content_digest = sha512(&message.message_bytes);
    if break_digest {
        content_digest[0] ^= 0xFF;
    }
    let header = PeerMessageHeader {
        signer_id: pk.serialize().to_vec(),
        content_sha512: content_digest,
    };
    let header_bytes = encode_peer_header(&header);
    let digest = sha256(&header_bytes);
    let digest32: [u8; 32] = digest.as_slice().try_into().unwrap();
    let sig = secp256k1::ecdsa::sign(secp256k1::Message::from_digest(digest32), &sk);
    let mut header_signature = sig.serialize_compact().to_vec();
    if break_signature {
        header_signature[5] ^= 0xFF;
    }

    PbftSignedCommitVote { header_bytes, header_signature, message_bytes: message.message_bytes }
}

fn seal_payload(previous_id: Vec<u8>, summary: Vec<u8>, votes: Vec<PbftSignedCommitVote>) -> Vec<u8> {
    encode_consensus_seal(&PbftSeal { previous_id, summary, previous_commit_votes: votes })
}

/// A node at sequence 7 with a stored seal, so a failed verification can
/// still propose its view change.
fn node_at_seven() -> (PbftNode, PbftState) {
    let cfg = mock_config(4);
    let mut node = PbftNode::new(&cfg, false);
    let mut state = PbftState::new(vec![1], 6, &cfg).unwrap();
    assert_eq!(state.seq_num, 7);
    node.msg_log.add_consensus_seal(mock_block_id(6), 6, PbftSeal::new());
    (node, state)
}

fn block_seven_with_payload(payload: Vec<u8>) -> Block {
    let mut block = mock_block(7);
    block.summary = vec![1, 2, 3];
    block.payload = payload;
    block
}

fn good_votes(n: u8) -> Vec<PbftSignedCommitVote> {
    (0..n).map(|i| make_vote(6, vec![i], mock_block_id(6), i + 1, false, false)).collect()
}

/// The happy path: a complete seal is accepted and the block becomes the
/// working block.
#[test]
fn complete_seal_accepted() {
    let (mut node, mut state) = node_at_seven();
    let block = block_seven_with_payload(seal_payload(
        mock_block_id(6),
        vec![1, 2, 3],
        good_votes(3),
    ));
    node.on_block_new(block, mock_peers(), &mut state, 0).unwrap();
    assert_eq!(state.seq_num, 7);
    assert!(state.working_block.is_some());
}

/// A failed verification fails the block and starts a view change.
#[test]
fn empty_payload_rejected() {
    let (mut node, mut state) = node_at_seven();
    let block = block_seven_with_payload(vec![]);
    let r = node.on_block_new(block, mock_peers(), &mut state, 0);
    assert_eq!(
        r.err(),
        Some(PbftError::InternalError(InternalFault::EmptyPayload))
    );
    assert_eq!(state.mode, PbftMode::ViewChanging);
    let actions = node.take_actions();
    assert!(actions.iter().any(|a| match a {
        HostAction::FailBlock(id) => *id == mock_block_id(7),
        _ => false,
    }));
}

#[test]
fn garbage_payload_rejected() {
    let (mut node, mut state) = node_at_seven();
    let block = block_seven_with_payload(vec![1, 2, 3, 4, 5]);
    let r = node.on_block_new(block, mock_peers(), &mut state, 0);
    assert_eq!(r.err(), Some(PbftError::SerializationError));
}

#[test]
fn wrong_previous_id_rejected() {
    let (mut node, mut state) = node_at_seven();
    let block = block_seven_with_payload(seal_payload(
        mock_block_id(5),
        vec![1, 2, 3],
        good_votes(3),
    ));
    let r = node.on_block_new(block, mock_peers(), &mut state, 0);
    assert_eq!(
        r.err(),
        Some(PbftError::InternalError(InternalFault::SealPreviousIdMismatch))
    );
}

#[test]
fn wrong_summary_rejected() {
    let (mut node, mut state) = node_at_seven();
    let block = block_seven_with_payload(seal_payload(
        mock_block_id(6),
        vec![9, 9, 9],
        good_votes(3),
    ));
    let r = node.on_block_new(block, mock_peers(), &mut state, 0);
    assert_eq!(
        r.err(),
        Some(PbftError::InternalError(InternalFault::SealSummaryMismatch))
    );
}

#[test]
fn bad_signature_rejected() {
    let (mut node, mut state) = node_at_seven();
    let mut votes = good_votes(2);
    votes.push(make_vote(6, vec![2], mock_block_id(6), 3, true, false));
    let block = block_seven_with_payload(seal_payload(mock_block_id(6), vec![1, 2, 3], votes));
    let r = node.on_block_new(block, mock_peers(), &mut state, 0);
    assert_eq!(
        r.err(),
        Some(PbftError::InternalError(InternalFault::SignatureInvalid))
    );
}

#[test]
fn bad_content_digest_rejected() {
    let (mut node, mut state) = node_at_seven();
    let mut votes = good_votes(2);
    votes.push(make_vote(6, vec![2], mock_block_id(6), 3, false, true));
    let block = block_seven_with_payload(seal_payload(mock_block_id(6), vec![1, 2, 3], votes));
    let r = node.on_block_new(block, mock_peers(), &mut state, 0);
    assert_eq!(
        r.err(),
        Some(PbftError::InternalError(InternalFault::DigestMismatch))
    );
}

#[test]
fn vote_for_other_block_rejected() {
    let (mut node, mut state) = node_at_seven();
    let mut votes = good_votes(2);
    votes.push(make_vote(6, vec![2], mock_block_id(5), 3, false, false));
    let block = block_seven_with_payload(seal_payload(mock_block_id(6), vec![1, 2, 3], votes));
    let r = node.on_block_new(block, mock_peers(), &mut state, 0);
    assert_eq!(
        r.err(),
        Some(PbftError::InternalError(InternalFault::VoteBlockIdMismatch))
    );
}

#[test]
fn unknown_voter_rejected() {
    let (mut node, mut state) = node_at_seven();
    let mut votes = good_votes(2);
    votes.push(make_vote(6, vec![9], mock_block_id(6), 3, false, false));
    let block = block_seven_with_payload(seal_payload(mock_block_id(6), vec![1, 2, 3], votes));
    let r = node.on_block_new(block, mock_peers(), &mut state, 0);
    assert_eq!(
        r.err(),
        Some(PbftError::InternalError(InternalFault::UnknownVoter))
    );
}

/// Two voters are one short of the `2 f` quorum for this network.
#[test]
fn too_few_voters_rejected() {
    let (mut node, mut state) = node_at_seven();
    let block = block_seven_with_payload(seal_payload(
        mock_block_id(6),
        vec![1, 2, 3],
        good_votes(1),
    ));
    let r = node.on_block_new(block, mock_peers(), &mut state, 0);
    assert_eq!(
        r.err(),
        Some(PbftError::InternalError(InternalFault::NotEnoughVotes))
    );
}

/// The same voter repeated does not reach the quorum either.
#[test]
fn repeated_voter_not_counted_twice() {
    let (mut node, mut state) = node_at_seven();
    let votes = vec![
        make_vote(6, vec![0], mock_block_id(6), 1, false, false),
        make_vote(6, vec![0], mock_block_id(6), 1, false, false),
        make_vote(6, vec![0], mock_block_id(6), 1, false, false),
    ];
    let block = block_seven_with_payload(seal_payload(mock_block_id(6), vec![1, 2, 3], votes));
    let r = node.on_block_new(block, mock_peers(), &mut state, 0);
    assert_eq!(
        r.err(),
        Some(PbftError::InternalError(InternalFault::NotEnoughVotes))
    );
}
