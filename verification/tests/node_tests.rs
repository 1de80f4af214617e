//! Tests of the node: block handling, the multicast cycle, view changes,
//! catch-up, seal verification and publishing.

use pbft_core::action::HostAction;
use pbft_core::codec::encode_peer_header;
use pbft_core::config::PbftConfig;
use pbft_core::crypto::sha256;
use pbft_core::crypto::sha512;
use pbft_core::error::InternalFault;
use pbft_core::error::PbftError;
use pbft_core::handlers::make_msg_info;
use pbft_core::message::Block;
use pbft_core::message::PbftBlock;
use pbft_core::message::PbftMessage;
use pbft_core::message::PbftMessageType;
use pbft_core::message::PbftSeal;
use pbft_core::message::PeerId;
use pbft_core::message::PeerMessageHeader;
use pbft_core::node::pbft_block_from_block;
use pbft_core::node::PbftNode;
use pbft_core::parsed::ParsedMessage;
use pbft_core::state::PbftMode;
use pbft_core::state::PbftPhase;
use pbft_core::state::PbftState;

fn mock_config(n: u8) -> PbftConfig {
    PbftConfig {
        peers: (0..n).map(|i| vec![i]).collect(),
        faulty_primary_timeout_ms: 4000,
        forced_view_change_period: 30,
    }
}

fn mock_peers() -> Vec<PeerId> {
    (0..4).map(|i| vec![i]).collect()
}

/// Create a node, based on a given ID
fn mock_node(node_id: PeerId) -> PbftNode {
    let cfg = mock_config(4);
    PbftNode::new(&cfg, node_id == vec![0])
}

/// Create a deterministic BlockId hash based on a block number
fn mock_block_id(num: u64) -> Vec<u8> {
    sha256(&format!("I'm a block with block num {}", num).into_bytes())
}

/// Create a mock Block, including only the BlockId, the BlockId of the
/// previous block, and the block number
fn mock_block(num: u64) -> Block {
    Block {
        block_id: mock_block_id(num),
        previous_id: mock_block_id(num - 1),
        signer_id: vec![],
        block_num: num,
        payload: vec![],
        summary: vec![],
    }
}

/// Create a mock serialized PbftMessage
fn mock_msg(
    msg_type: &PbftMessageType,
    view: u64,
    seq_num: u64,
    block: Block,
    from: PeerId,
) -> ParsedMessage {
    let info = make_msg_info(msg_type, view, seq_num, from);
    let pbft_msg = PbftMessage { info, block: pbft_block_from_block(block) };
    ParsedMessage::from_pbft_message(pbft_msg)
}

/// A Commit message for `seq` about `block_id`, wrapped in a transport
/// header signed with the secp256k1 key derived from `key_byte`.
fn signed_commit(seq: u64, view: u64, signer: Vec<u8>, block_id: Vec<u8>, key_byte: u8) -> ParsedMessage {
    let info = make_msg_info(&PbftMessageType::Commit, view, seq, signer);
    let block = PbftBlock { block_id, signer_id: vec![], block_num: 0, summary: vec![] };
    let msg = PbftMessage { info, block };
    let mut message = ParsedMessage::from_pbft_message(msg);

    let sk = secp256k1::SecretKey::from_byte_array([key_byte; 32]).unwrap();
    let pk = secp256k1::PublicKey::from_secret_key(&sk);

    let header = PeerMessageHeader {
        signer_id: pk.serialize().to_vec(),
        content_sha512: sha512(&message.message_bytes),
    };
    let header_bytes = encode_peer_header(&header);
    let digest = sha256(&header_bytes);
    let digest32: [u8; 32] = digest.as_slice().try_into().unwrap();
    let sig = secp256k1::ecdsa::sign(secp256k1::Message::from_digest(digest32), &sk);

    message.from_self = false;
    message.header_bytes = header_bytes;
    message.header_signature = sig.serialize_compact().to_vec();
    message
}

/// Creates a block with a valid consensus seal for the previous block
fn mock_block_with_seal(num: u64, node: &mut PbftNode, state: &mut PbftState) -> Block {
    let head = mock_block(num - 1);
    let mut block = mock_block(num);
    block.summary = vec![1, 2, 3];

    for i in 0..3u8 {
        let message = signed_commit(num - 1, 0, vec![i], head.block_id.clone(), i + 1);
        node.msg_log.add_message(message, state).unwrap();
    }

    block.payload = node.build_seal(state, vec![1, 2, 3]).unwrap();
    block
}

fn handle_pbft_err(e: PbftError) {
    match e {
        PbftError::Timeout => (),
        PbftError::WrongNumMessages(_, _, _) | PbftError::NotReadyForMessage => {
            println!("{:?}", e)
        },
        _ => panic!("{:?}", e),
    }
}

/// Make sure that receiving a `BlockNew` update works as expected for block #1
#[test]
fn block_new_initial() {
    // NOTE: Special case for primary node
    let mut node0 = mock_node(vec![0]);
    let cfg = mock_config(4);
    let mut state0 = PbftState::new(vec![0], 0, &cfg).unwrap();
    node0.on_block_new(mock_block(1), mock_peers(), &mut state0, 0).unwrap();
    assert_eq!(state0.phase, PbftPhase::PrePreparing);
    assert_eq!(state0.seq_num, 1);
    assert_eq!(
        state0.working_block,
        Some(pbft_block_from_block(mock_block(1)))
    );

    // Try the next block
    let mut node1 = mock_node(vec![1]);
    let mut state1 = PbftState::new(vec![], 0, &cfg).unwrap();
    node1
        .on_block_new(mock_block(1), mock_peers(), &mut state1, 0)
        .unwrap_or_else(handle_pbft_err);
    assert_eq!(state1.phase, PbftPhase::PrePreparing);
    assert_eq!(
        state1.working_block,
        Some(pbft_block_from_block(mock_block(1)))
    );
}

#[test]
fn block_new_first_10_blocks() {
    let mut node = mock_node(vec![0]);
    let cfg = mock_config(4);
    let mut state = PbftState::new(vec![0], 0, &cfg).unwrap();

    // Assert starting state
    assert_eq!(state.id, vec![0]);
    assert_eq!(state.view, 0);
    assert_eq!(state.phase, PbftPhase::PrePreparing);
    assert_eq!(state.mode, PbftMode::Normal);
    assert_eq!(state.peer_ids, (0..4).map(|i| vec![i]).collect::<Vec<_>>());
    assert_eq!(state.f, 1);
    assert_eq!(state.forced_view_change_period, 30);
    assert_eq!(state.working_block, None);
    assert!(state.is_primary());

    // Handle the first block and assert resulting state
    node.on_block_new(mock_block(1), mock_peers(), &mut state, 0).unwrap();

    assert_eq!(state.id, vec![0]);
    assert_eq!(state.seq_num, 1);
    assert_eq!(state.view, 0);
    assert_eq!(state.phase, PbftPhase::PrePreparing);
    assert_eq!(state.mode, PbftMode::Normal);
    assert_eq!(state.peer_ids, (0..4).map(|i| vec![i]).collect::<Vec<_>>());
    assert_eq!(state.f, 1);
    assert_eq!(state.forced_view_change_period, 30);
    assert_eq!(
        state.working_block,
        Some(pbft_block_from_block(mock_block(1)))
    );
    assert!(state.is_primary());

    state.seq_num += 1;

    // Handle the rest of the blocks
    for i in 2..10 {
        assert_eq!(state.seq_num, i);
        let block = mock_block_with_seal(i, &mut node, &mut state);
        node.on_block_new(block.clone(), mock_peers(), &mut state, 0).unwrap();

        assert_eq!(state.id, vec![0]);
        assert_eq!(state.view, 0);
        assert_eq!(state.phase, PbftPhase::PrePreparing);
        assert_eq!(state.mode, PbftMode::Normal);
        assert_eq!(state.peer_ids, (0..4).map(|i| vec![i]).collect::<Vec<_>>());
        assert_eq!(state.f, 1);
        assert_eq!(state.forced_view_change_period, 30);
        assert_eq!(state.working_block, Some(pbft_block_from_block(block)));
        assert!(state.is_primary());

        state.seq_num += 1;
    }
}

/// Make sure that `BlockNew` properly checks the consensus seal.
#[test]
fn block_new_consensus() {
    let cfg = mock_config(4);
    let mut node = mock_node(vec![1]);
    let mut state = PbftState::new(vec![], 0, &cfg).unwrap();
    state.seq_num = 7;
    let head = mock_block(6);
    let mut block = mock_block(7);
    block.summary = vec![1, 2, 3];

    for i in 0..3u8 {
        let message = signed_commit(6, 0, vec![i], head.block_id.clone(), i + 1);
        node.msg_log.add_message(message, &state).unwrap();
    }

    let seal = node.build_seal(&state, vec![1, 2, 3]).unwrap();
    block.payload = seal;

    node.on_block_new(block, mock_peers(), &mut state, 0).unwrap();
}

/// Make sure that receiving a `BlockValid` update works as expected
#[test]
fn block_valid() {
    let mut node = mock_node(vec![0]);
    let cfg = mock_config(4);
    let mut state0 = PbftState::new(vec![0], 0, &cfg).unwrap();
    state0.phase = PbftPhase::Checking;
    state0.working_block = Some(pbft_block_from_block(mock_block(1)));
    node.on_block_valid(&mock_block_id(1), &mut state0)
        .unwrap_or_else(handle_pbft_err);
    assert_eq!(state0.phase, PbftPhase::Committing);
}

/// Make sure that receiving a `BlockCommit` update works as expected
#[test]
fn block_commit() {
    let mut node = mock_node(vec![0]);
    let cfg = mock_config(4);
    let mut state0 = PbftState::new(vec![0], 0, &cfg).unwrap();
    state0.phase = PbftPhase::Finished;
    state0.working_block = Some(pbft_block_from_block(mock_block(1)));
    assert_eq!(state0.seq_num, 1);
    node.on_block_commit(mock_block_id(1), mock_peers(), &mut state0, 0);
    assert_eq!(state0.phase, PbftPhase::PrePreparing);
    assert_eq!(state0.working_block, None);
    assert_eq!(state0.seq_num, 2);
}

/// Test the multicast protocol (`PrePrepare` => `Prepare` => `Commit`) on a
/// secondary, asserting the phase trajectory and the final commit call.
#[test]
fn multicast_cycle() {
    let cfg = mock_config(4);

    // Make sure BlockNew is in the log
    let mut node1 = mock_node(vec![1]);
    let mut state1 = PbftState::new(vec![], 0, &cfg).unwrap();
    let block = mock_block(1);
    node1
        .on_block_new(block.clone(), mock_peers(), &mut state1, 0)
        .unwrap_or_else(handle_pbft_err);

    // Receive a PrePrepare
    let msg = mock_msg(&PbftMessageType::PrePrepare, 0, 1, block.clone(), vec![0]);
    node1
        .on_peer_message(msg, &mut state1, 0)
        .unwrap_or_else(handle_pbft_err);

    assert_eq!(state1.phase, PbftPhase::Preparing);
    assert_eq!(state1.seq_num, 1);
    if let Some(ref blk) = state1.working_block {
        assert_eq!(blk.block_id, mock_block_id(1));
    } else {
        panic!("Wrong WorkingBlockOption");
    }

    // Receive 3 `Prepare` messages
    for peer in 0..3 {
        assert_eq!(state1.phase, PbftPhase::Preparing);
        let msg = mock_msg(&PbftMessageType::Prepare, 0, 1, block.clone(), vec![peer]);
        node1
            .on_peer_message(msg, &mut state1, 0)
            .unwrap_or_else(handle_pbft_err);
    }
    assert_eq!(state1.phase, PbftPhase::Checking);

    // Spoof the `check_blocks()` call
    assert!(node1.on_block_valid(&mock_block_id(1), &mut state1).is_ok());

    // Receive 3 `Commit` messages
    for peer in 0..3 {
        assert_eq!(state1.phase, PbftPhase::Committing);
        let msg = mock_msg(&PbftMessageType::Commit, 0, 1, block.clone(), vec![peer]);
        node1
            .on_peer_message(msg, &mut state1, 0)
            .unwrap_or_else(handle_pbft_err);
    }
    assert_eq!(state1.phase, PbftPhase::Finished);

    // The node asked the host to commit block 1
    let actions = node1.take_actions();
    assert!(actions.iter().any(|a| match a {
        HostAction::CommitBlock(id) => *id == mock_block_id(1),
        _ => false,
    }));

    // Spoof the `commit_blocks()` call
    node1.on_block_commit(mock_block_id(1), mock_peers(), &mut state1, 0);
    assert_eq!(state1.phase, PbftPhase::PrePreparing);
    assert_eq!(state1.seq_num, 2);
    assert_eq!(state1.working_block, None);
}

/// Test that view changes work as expected, and that nodes take the proper
/// roles after a view change
#[test]
fn view_change() {
    let mut node1 = mock_node(vec![1]);
    let cfg = mock_config(4);
    let mut state1 = PbftState::new(vec![1], 0, &cfg).unwrap();

    assert!(!state1.is_primary());

    node1
        .msg_log
        .add_consensus_seal(mock_block_id(0), 0, PbftSeal::new());

    // Receive 3 `ViewChange` messages
    for peer in 0..3u8 {
        // It takes f + 1 `ViewChange` messages to trigger a view change,
        // if it wasn't started by `propose_view_change()`
        if peer < 2 {
            assert_eq!(state1.mode, PbftMode::Normal);
        } else {
            assert_eq!(state1.mode, PbftMode::ViewChanging);
        }
        let info = make_msg_info(&PbftMessageType::ViewChange, 1, 0, vec![peer]);
        let vc_msg = pbft_core::message::PbftViewChange { info, seal: PbftSeal::new() };

        node1
            .on_peer_message(
                ParsedMessage::from_view_change_message(vc_msg),
                &mut state1,
                0,
            )
            .unwrap_or_else(handle_pbft_err);
    }

    assert!(state1.is_primary());
    assert_eq!(state1.view, 1);
}

/// Make sure that view changes start correctly
#[test]
fn propose_view_change() {
    let mut node1 = mock_node(vec![1]);
    let cfg = mock_config(4);
    let mut state1 = PbftState::new(vec![], 0, &cfg).unwrap();
    assert_eq!(state1.mode, PbftMode::Normal);

    node1
        .msg_log
        .add_consensus_seal(mock_block_id(0), 0, PbftSeal::new());

    node1
        .propose_view_change(&mut state1)
        .unwrap_or_else(handle_pbft_err);

    assert_eq!(state1.mode, PbftMode::ViewChanging);
}

/// Test that try_publish adds in the consensus seal
#[test]
fn try_publish() {
    let mut node0 = mock_node(vec![0]);
    let cfg = mock_config(4);
    let mut state0 = PbftState::new(vec![0], 0, &cfg).unwrap();
    let block0 = mock_block(1);
    let pbft_block0 = pbft_block_from_block(block0);

    for i in 0..3u8 {
        let info = make_msg_info(&PbftMessageType::Commit, 0, 0, vec![i]);
        let msg = PbftMessage {
            info,
            block: PbftBlock {
                block_id: vec![],
                signer_id: vec![],
                block_num: 0,
                summary: vec![],
            },
        };
        node0
            .msg_log
            .add_message(ParsedMessage::from_pbft_message(msg), &state0)
            .unwrap();
    }

    state0.phase = PbftPhase::PrePreparing;
    state0.working_block = Some(pbft_block0.clone());

    node0.try_publish(Some(vec![]), &mut state0).unwrap();
}

/// The first block is finalized with an empty payload: no seal exists yet.
#[test]
fn first_block_publishes_empty_payload() {
    let mut node0 = mock_node(vec![0]);
    let cfg = mock_config(4);
    let mut state0 = PbftState::new(vec![0], 0, &cfg).unwrap();
    node0.take_actions();
    node0.try_publish(Some(vec![7, 7]), &mut state0).unwrap();
    let actions = node0.take_actions();
    assert!(actions.iter().any(|a| match a {
        HostAction::FinalizeBlock(payload) => payload.is_empty(),
        _ => false,
    }));
}

/// Publishing past the first block without enough logged commits fails
/// with the missing-quorum fault.
#[test]
fn publish_without_votes_fails() {
    let mut node0 = mock_node(vec![0]);
    let cfg = mock_config(4);
    let mut state0 = PbftState::new(vec![0], 1, &cfg).unwrap();
    assert_eq!(state0.seq_num, 2);
    let r = node0.try_publish(Some(vec![]), &mut state0);
    assert_eq!(
        r.err(),
        Some(PbftError::InternalError(InternalFault::NotEnoughVotes))
    );
}

/// A PrePrepare whose signer is not the primary of its view is rejected.
#[test]
fn pre_prepare_from_non_primary_rejected() {
    let cfg = mock_config(4);
    let mut node1 = mock_node(vec![1]);
    let mut state1 = PbftState::new(vec![1], 0, &cfg).unwrap();
    let block = mock_block(1);
    node1
        .on_block_new(block.clone(), mock_peers(), &mut state1, 0)
        .unwrap_or_else(handle_pbft_err);

    // View 0's primary is node 0; node 2 may not send its PrePrepare.
    let msg = mock_msg(&PbftMessageType::PrePrepare, 0, 1, block, vec![2]);
    let r = node1.on_peer_message(msg, &mut state1, 0);
    assert_eq!(r.err(), Some(PbftError::NotReadyForMessage));
    assert_eq!(state1.phase, PbftPhase::PrePreparing);
}

/// A repeated Prepare from one signer never counts twice towards the
/// quorum.
#[test]
fn duplicate_prepare_not_double_counted() {
    let cfg = mock_config(4);
    let mut node1 = mock_node(vec![1]);
    let mut state1 = PbftState::new(vec![], 0, &cfg).unwrap();
    let block = mock_block(1);
    node1
        .on_block_new(block.clone(), mock_peers(), &mut state1, 0)
        .unwrap_or_else(handle_pbft_err);
    let msg = mock_msg(&PbftMessageType::PrePrepare, 0, 1, block.clone(), vec![0]);
    node1
        .on_peer_message(msg, &mut state1, 0)
        .unwrap_or_else(handle_pbft_err);
    assert_eq!(state1.phase, PbftPhase::Preparing);

    // The same Prepare from node 2, over and over: one distinct signer.
    for _ in 0..3 {
        let msg = mock_msg(&PbftMessageType::Prepare, 0, 1, block.clone(), vec![2]);
        node1
            .on_peer_message(msg, &mut state1, 0)
            .unwrap_or_else(handle_pbft_err);
        assert_eq!(state1.phase, PbftPhase::Preparing);
    }

    // A second distinct signer completes the quorum of two.
    let msg = mock_msg(&PbftMessageType::Prepare, 0, 1, block, vec![3]);
    node1
        .on_peer_message(msg, &mut state1, 0)
        .unwrap_or_else(handle_pbft_err);
    assert_eq!(state1.phase, PbftPhase::Checking);
}

/// A block carrying a seal over its predecessor, assembled directly from
/// freshly signed votes.
fn block_with_direct_seal(num: u64) -> Block {
    let mut block = mock_block(num);
    block.summary = vec![1, 2, 3];
    let votes = (0..3u8)
        .map(|i| {
            let m = signed_commit(num - 1, 0, vec![i], mock_block_id(num - 1), i + 1);
            pbft_core::message::PbftSignedCommitVote {
                header_bytes: m.header_bytes,
                header_signature: m.header_signature,
                message_bytes: m.message_bytes,
            }
        })
        .collect();
    block.payload = pbft_core::codec::encode_consensus_seal(&PbftSeal {
        previous_id: mock_block_id(num - 1),
        summary: vec![1, 2, 3],
        previous_commit_votes: votes,
    });
    block
}

/// Catch-up: a node holding block 5 commits it using the seal carried by
/// block 6, then advances to sequence number 6.
#[test]
fn catch_up_via_trailing_seal() {
    let cfg = mock_config(4);
    let mut node1 = mock_node(vec![1]);
    let mut state1 = PbftState::new(vec![], 4, &cfg).unwrap();
    assert_eq!(state1.seq_num, 5);
    state1.working_block = Some(pbft_block_from_block(mock_block(5)));

    let block6 = block_with_direct_seal(6);
    node1.on_block_new(block6, mock_peers(), &mut state1, 0).unwrap();

    assert_eq!(state1.seq_num, 6);
    let actions = node1.take_actions();
    assert!(actions.iter().any(|a| match a {
        HostAction::CommitBlock(id) => *id == mock_block_id(5),
        _ => false,
    }));
}

/// Forced rotation: committing the block at the forced period triggers a
/// view change even absent faults.
#[test]
fn forced_rotation_on_period() {
    let cfg = mock_config(4);
    let mut node0 = mock_node(vec![0]);
    let mut state0 = PbftState::new(vec![0], 29, &cfg).unwrap();
    assert_eq!(state0.seq_num, 30);
    state0.phase = PbftPhase::Finished;
    state0.working_block = Some(pbft_block_from_block(mock_block(30)));

    node0.on_block_commit(mock_block_id(30), mock_peers(), &mut state0, 0);

    assert_eq!(state0.seq_num, 31);
    assert_eq!(state0.view, 1);
    assert_eq!(state0.mode, PbftMode::Normal);
    // The primary of view 1 is node 1, so node 0 stands down.
    assert!(!state0.is_primary());
}

/// A view-change below the completion quorum reports how many votes are
/// missing.
#[test]
fn view_change_below_quorum_reports_count() {
    let mut node1 = mock_node(vec![1]);
    let cfg = mock_config(4);
    let mut state1 = PbftState::new(vec![1], 0, &cfg).unwrap();
    node1
        .msg_log
        .add_consensus_seal(mock_block_id(0), 0, PbftSeal::new());

    let info = make_msg_info(&PbftMessageType::ViewChange, 1, 0, vec![0]);
    let vc = pbft_core::message::PbftViewChange { info, seal: PbftSeal::new() };
    let r = node1.on_peer_message(
        ParsedMessage::from_view_change_message(vc),
        &mut state1,
        0,
    );
    // One message is not yet the f + 1 bandwagon, so the node stays put.
    assert!(r.is_ok());
    assert_eq!(state1.mode, PbftMode::Normal);

    let info = make_msg_info(&PbftMessageType::ViewChange, 1, 0, vec![2]);
    let vc = pbft_core::message::PbftViewChange { info, seal: PbftSeal::new() };
    let r = node1.on_peer_message(
        ParsedMessage::from_view_change_message(vc),
        &mut state1,
        0,
    );
    assert_eq!(state1.mode, PbftMode::ViewChanging);
    assert!(matches!(
        r,
        Err(PbftError::WrongNumMessages(PbftMessageType::ViewChange, 3, 2))
    ));
}

/// Proposing a view change without a stored seal for the last committed
/// block fails with the missing-seal fault.
#[test]
fn propose_view_change_without_seal_fails() {
    let mut node1 = mock_node(vec![1]);
    let cfg = mock_config(4);
    let mut state1 = PbftState::new(vec![], 0, &cfg).unwrap();
    let r = node1.propose_view_change(&mut state1);
    assert_eq!(
        r.err(),
        Some(PbftError::InternalError(InternalFault::MissingSeal))
    );
}

/// A `BlockValid` with no working block is dropped with an error.
#[test]
fn block_valid_without_working_block() {
    let mut node0 = mock_node(vec![0]);
    let cfg = mock_config(4);
    let mut state0 = PbftState::new(vec![0], 0, &cfg).unwrap();
    let r = node0.on_block_valid(&mock_block_id(1), &mut state0);
    assert_eq!(r.err(), Some(PbftError::NoWorkingBlock));

    state0.working_block = Some(pbft_block_from_block(mock_block(2)));
    let r = node0.on_block_valid(&mock_block_id(1), &mut state0);
    assert_eq!(r.err(), Some(PbftError::NotReadyForMessage));
}

/// A catch-up block that does not extend the working block is refused.
#[test]
fn catch_up_block_mismatch() {
    let cfg = mock_config(4);
    let mut node1 = mock_node(vec![1]);
    let mut state1 = PbftState::new(vec![], 4, &cfg).unwrap();
    state1.working_block = Some(pbft_block_from_block(mock_block(99)));
    // Patch the working block to sit at the current sequence number while
    // keeping an id that block 6 does not extend.
    if let Some(ref mut wb) = state1.working_block {
        wb.block_num = 5;
    }

    let block6 = block_with_direct_seal(6);

    let r = node1.on_block_new(block6, mock_peers(), &mut state1, 0);
    assert!(matches!(r, Err(PbftError::BlockMismatch(_, _))));
    assert_eq!(state1.seq_num, 5);
}

/// A node's own self-delivered Commit is not counted among the other
/// peers' votes when a seal is built.
#[test]
fn own_commit_excluded_from_seal() {
    let mut node = mock_node(vec![1]);
    let cfg = mock_config(4);
    let state = PbftState::new(vec![1], 6, &cfg).unwrap();
    assert_eq!(state.seq_num, 7);
    let head = mock_block(6);

    let other = signed_commit(6, 0, vec![0], head.block_id.clone(), 1);
    node.msg_log.add_message(other, &state).unwrap();
    let mut own = signed_commit(6, 0, vec![1], head.block_id.clone(), 2);
    own.from_self = true;
    node.msg_log.add_message(own, &state).unwrap();

    // One vote from another peer plus the node's own: short of the
    // 2 f = 2 votes from other peers that the seal needs.
    assert_eq!(
        node.build_seal(&state, vec![1, 2, 3]).err(),
        Some(PbftError::InternalError(InternalFault::NotEnoughVotes))
    );

    // A second vote from another peer completes the seal.
    let second = signed_commit(6, 0, vec![2], head.block_id.clone(), 3);
    node.msg_log.add_message(second, &state).unwrap();
    assert!(node.build_seal(&state, vec![1, 2, 3]).is_ok());
}
