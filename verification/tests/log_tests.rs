//! Tests of the message log: duplicate handling, quorum counting, and the
//! backlog of early messages.

use pbft_core::config::PbftConfig;
use pbft_core::crypto::sha256;
use pbft_core::handlers::make_msg_info;
use pbft_core::message::Block;
use pbft_core::message::PbftMessage;
use pbft_core::message::PbftMessageType;
use pbft_core::message::PeerId;
use pbft_core::node::pbft_block_from_block;
use pbft_core::node::PbftNode;
use pbft_core::parsed::ParsedMessage;
use pbft_core::state::PbftPhase;
use pbft_core::state::PbftState;

fn mock_config(n: u8) -> PbftConfig {
    PbftConfig {
        peers: (0..n).map(|i| vec![i]).collect(),
        faulty_primary_timeout_ms: 4000,
        forced_view_change_period: 30,
    }
}

fn mock_peers() -> Vec<PeerId> {
    (0..4).map(|i| vec![i]).collect()
}

fn mock_block_id(num: u64) -> Vec<u8> {
    sha256(&format!("I'm a block with block num {}", num).into_bytes())
}

fn mock_block(num: u64) -> Block {
    Block {
        block_id: mock_block_id(num),
        previous_id: mock_block_id(num - 1),
        signer_id: vec![],
        block_num: num,
        payload: vec![],
        summary: vec![],
    }
}

fn mock_msg(
    msg_type: &PbftMessageType,
    view: u64,
    seq_num: u64,
    block: Block,
    from: PeerId,
) -> ParsedMessage {
    let info = make_msg_info(msg_type, view, seq_num, from);
    ParsedMessage::from_pbft_message(PbftMessage { info, block: pbft_block_from_block(block) })
}

/// Storing the exact same message twice keeps one copy.
#[test]
fn add_message_is_idempotent() {
    let cfg = mock_config(4);
    let mut node = PbftNode::new(&cfg, false);
    let state = PbftState::new(vec![1], 0, &cfg).unwrap();
    let msg = mock_msg(&PbftMessageType::Prepare, 0, 1, mock_block(1), vec![2]);
    node.msg_log.add_message(msg.clone(), &state).unwrap();
    node.msg_log.add_message(msg, &state).unwrap();
    let stored = node.msg_log.get_messages_of_type_seq(&PbftMessageType::Prepare, 1);
    assert_eq!(stored.len(), 1);
}

/// The required-messages check counts distinct signers, on view and
/// sequence number — and on the block too when asked.
#[test]
fn required_msgs_counts_distinct_signers() {
    let cfg = mock_config(4);
    let mut node = PbftNode::new(&cfg, false);
    let state = PbftState::new(vec![1], 0, &cfg).unwrap();
    let probe = mock_msg(&PbftMessageType::Prepare, 0, 1, mock_block(1), vec![0]);
    for peer in [0u8, 1, 1, 2] {
        let msg = mock_msg(&PbftMessageType::Prepare, 0, 1, mock_block(1), vec![peer]);
        node.msg_log.add_message(msg, &state).unwrap();
    }
    // Peers 0, 1 and 2 are three distinct signers, however often 1 spoke.
    assert!(node.msg_log.log_has_required_msgs(&PbftMessageType::Prepare, &probe, true, 3));
    assert!(!node.msg_log.log_has_required_msgs(&PbftMessageType::Prepare, &probe, true, 4));
    // A different block matches only without the exact-match requirement.
    let other = mock_msg(&PbftMessageType::Prepare, 0, 1, mock_block(2), vec![3]);
    node.msg_log.add_message(other.clone(), &state).unwrap();
    assert!(!node.msg_log.log_has_required_msgs(&PbftMessageType::Prepare, &probe, true, 4));
    assert!(node.msg_log.log_has_required_msgs(&PbftMessageType::Prepare, &probe, false, 4));
}

/// A PrePrepare ahead of its BlockNew waits in the backlog and succeeds
/// when retried after the block arrives.
#[test]
fn early_pre_prepare_waits_in_backlog() {
    let cfg = mock_config(4);
    let mut node = PbftNode::new(&cfg, false);
    let mut state = PbftState::new(vec![1], 0, &cfg).unwrap();

    let block = mock_block(1);
    let early = mock_msg(&PbftMessageType::PrePrepare, 0, 1, block.clone(), vec![0]);
    // The block is unknown, so the message is absorbed into the backlog.
    node.on_peer_message(early, &mut state, 0).unwrap();
    assert_eq!(state.phase, PbftPhase::PrePreparing);

    node.on_block_new(block, mock_peers(), &mut state, 0).unwrap();
    node.retry_backlog(&mut state, 0).unwrap();
    assert_eq!(state.phase, PbftPhase::Preparing);
}
