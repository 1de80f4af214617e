//! Tests of the node state: construction, roles, and phase changes.

use pbft_core::config::PbftConfig;
use pbft_core::error::InternalFault;
use pbft_core::error::PbftError;
use pbft_core::message::PbftMessageType;
use pbft_core::state::PbftPhase;
use pbft_core::state::PbftState;

fn mock_config(n: u8) -> PbftConfig {
    PbftConfig {
        peers: (0..n).map(|i| vec![i]).collect(),
        faulty_primary_timeout_ms: 4000,
        forced_view_change_period: 30,
    }
}

/// Check that state refuses an inadequately sized network.
#[test]
fn no_fault_tolerance() {
    let config = mock_config(1);
    let refused = PbftState::new(vec![0], 0, &config);
    assert_eq!(
        refused.err(),
        Some(PbftError::InternalError(InternalFault::NotEnoughPeers))
    );
}

/// Check that the initial configuration of state is as we expect:
/// + Primary is node 0, secondaries are other nodes
/// + The node is not expecting any particular message type
/// + `peer_ids` got set properly
/// + The node's own PeerId got set properly
/// + The primary PeerId got set properly
#[test]
fn initial_config() {
    let config = mock_config(4);
    let state0 = PbftState::new(vec![0], 0, &config).unwrap();
    let state1 = PbftState::new(vec![], 0, &config).unwrap();

    assert!(state0.is_primary());
    assert!(!state1.is_primary());

    assert_eq!(state0.f, 1);
    assert_eq!(state1.f, 1);

    assert_eq!(state0.check_msg_type(), PbftMessageType::PrePrepare);
    assert_eq!(state1.check_msg_type(), PbftMessageType::PrePrepare);

    assert_eq!(state0.get_primary_id(), state0.peer_ids[0]);
    assert_eq!(state1.get_primary_id(), state1.peer_ids[0]);
}

/// Make sure that nodes transition from primary to secondary and back smoothly
#[test]
fn role_changes() {
    let config = mock_config(4);
    let mut state = PbftState::new(vec![0], 0, &config).unwrap();

    state.downgrade_role();
    assert!(!state.is_primary());

    state.upgrade_role();
    assert!(state.is_primary());
}

/// Make sure that a normal PBFT cycle works properly
/// `PrePreparing` => `Preparing` => `Committing` => `Finished` => `PrePreparing`
/// Also make sure that no illegal phase changes are allowed to happen
/// (e.g. `PrePreparing` => `Finished`)
#[test]
fn phase_changes() {
    let config = mock_config(4);
    let mut state = PbftState::new(vec![0], 0, &config).unwrap();

    assert!(state.switch_phase(PbftPhase::Preparing).is_some());
    assert!(state.switch_phase(PbftPhase::Checking).is_some());
    assert!(state.switch_phase(PbftPhase::Committing).is_some());
    assert!(state.switch_phase(PbftPhase::Finished).is_some());
    assert!(state.switch_phase(PbftPhase::PrePreparing).is_some());

    assert!(state.switch_phase(PbftPhase::Finished).is_none());
    assert!(state.switch_phase(PbftPhase::Checking).is_none());
}

/// The scheduled rotation point: every multiple of the forced period.
#[test]
fn forced_view_change_schedule() {
    let config = mock_config(4);
    let mut state = PbftState::new(vec![0], 0, &config).unwrap();
    assert!(!state.at_forced_view_change());
    state.seq_num = 30;
    assert!(state.at_forced_view_change());
    state.seq_num = 31;
    assert!(!state.at_forced_view_change());
    state.seq_num = 60;
    assert!(state.at_forced_view_change());
}
