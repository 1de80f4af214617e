//! A PBFT node's consensus state: view, sequence number, phase, mode, role,
//! peer set and fault bound.
//!
//! The well-formedness predicate [`PbftState::inv`] is established by the
//! constructor and preserved by every method and handler: the fault bound
//! always equals `(|peers| - 1) / 3` and is at least 1, and the working
//! block, when present, is the block at the current sequence number.

use vstd::prelude::*;

use crate::bytes::bytes_eq;
use crate::bytes::clone_bytes;
use crate::bytes::clone_bytes_list;
use crate::config::PbftConfig;
use crate::error::InternalFault;
use crate::error::PbftError;
use crate::message::PbftBlock;
use crate::message::PbftMessageType;
use crate::message::PeerId;
use crate::timing::Timeout;
use crate::timing::TimeoutState;

verus! {

/// Phases of the three-phase protocol, in `Normal` mode.
#[derive(Clone, Copy, PartialEq, Eq, Structural, Debug)]
pub enum PbftPhase {
    PrePreparing,
    Preparing,
    Checking,
    Committing,
    Finished,
}

/// Executing the protocol, or recovering from a suspected faulty primary.
#[derive(Clone, Copy, PartialEq, Eq, Structural, Debug)]
pub enum PbftMode {
    Normal,
    ViewChanging,
}

/// Whether this node currently leads the view.
#[derive(Clone, Copy, PartialEq, Eq, Structural, Debug)]
pub enum PbftNodeRole {
    Primary,
    Secondary,
}

/// The fault bound of a network of `n` peers.
pub open spec fn spec_f(n: int) -> int {
    (n - 1) / 3
}

/// The phase that follows `p` in the protocol cycle.
pub open spec fn next_phase(p: PbftPhase) -> PbftPhase {
    match p {
        PbftPhase::PrePreparing => PbftPhase::Preparing,
        PbftPhase::Preparing => PbftPhase::Checking,
        PbftPhase::Checking => PbftPhase::Committing,
        PbftPhase::Committing => PbftPhase::Finished,
        PbftPhase::Finished => PbftPhase::PrePreparing,
    }
}

/// The state of one PBFT node.
pub struct PbftState {
    /// This node's own id.
    pub id: PeerId,
    /// The sequence number of the next block to commit; starts at one past
    /// the chain head.
    pub seq_num: u64,
    /// The current view; the primary is `peers[view mod |peers|]`.
    pub view: u64,
    /// Where in the three-phase protocol this node stands.
    pub phase: PbftPhase,
    /// Whether this node leads the current view.
    pub role: PbftNodeRole,
    /// Normal operation or view changing.
    pub mode: PbftMode,
    /// The ordered ids of all peers, this node included.
    pub peer_ids: Vec<PeerId>,
    /// The number of faulty nodes the network tolerates.
    pub f: u64,
    /// Expires when the primary has been quiet too long; the host polls it
    /// and proposes a view change on expiry.
    pub faulty_primary_timeout: Timeout,
    /// A view change is forced at every multiple of this period.
    pub forced_view_change_period: u64,
    /// The block this node is currently voting on.
    pub working_block: Option<PbftBlock>,
}

impl PbftState {
    /// The peer list as a sequence of byte strings.
    pub open spec fn spec_peers(&self) -> Seq<Seq<u8>> {
        self.peer_ids@.map_values(|p: PeerId| p@)
    }

    pub open spec fn spec_is_primary(&self) -> bool {
        self.role == PbftNodeRole::Primary
    }

    /// The index of the current view's primary in the peer list.
    pub open spec fn spec_primary_index(&self) -> int {
        self.view as int % self.peer_ids@.len() as int
    }

    /// The id of the current view's primary.
    pub open spec fn spec_primary_id(&self) -> Seq<u8> {
        self.spec_peers()[self.spec_primary_index()]
    }

    /// Well-formedness: enough peers for fault tolerance, the fault bound
    /// derived from the peer count, and the working block, if any, at the
    /// current sequence number.
    pub open spec fn inv(&self) -> bool {
        &&& self.peer_ids@.len() >= 4
        &&& self.f == spec_f(self.peer_ids@.len() as int)
        &&& self.f >= 1
        &&& self.seq_num >= 1
        &&& self.forced_view_change_period >= 1
        &&& match self.working_block {
            Some(b) => b.block_num == self.seq_num,
            None => true,
        }
    }

    /// Everything but the role agrees between two states.
    pub open spec fn same_except_role(a: &PbftState, b: &PbftState) -> bool {
        &&& a.id == b.id
        &&& a.seq_num == b.seq_num
        &&& a.view == b.view
        &&& a.phase == b.phase
        &&& a.mode == b.mode
        &&& a.peer_ids == b.peer_ids
        &&& a.f == b.f
        &&& a.faulty_primary_timeout == b.faulty_primary_timeout
        &&& a.forced_view_change_period == b.forced_view_change_period
        &&& a.working_block == b.working_block
    }

    /// Everything but the phase agrees between two states.
    pub open spec fn same_except_phase(a: &PbftState, b: &PbftState) -> bool {
        &&& a.id == b.id
        &&& a.seq_num == b.seq_num
        &&& a.view == b.view
        &&& a.role == b.role
        &&& a.mode == b.mode
        &&& a.peer_ids == b.peer_ids
        &&& a.f == b.f
        &&& a.faulty_primary_timeout == b.faulty_primary_timeout
        &&& a.forced_view_change_period == b.forced_view_change_period
        &&& a.working_block == b.working_block
    }

    /// The initial state of a node whose chain head is `head_block_num`.
    /// A network of fewer than four peers cannot tolerate a single fault
    /// and is refused.
    pub fn new(id: PeerId, head_block_num: u64, config: &PbftConfig) -> (r: Result<
        PbftState,
        PbftError,
    >)
        requires
            head_block_num < u64::MAX,
            config.forced_view_change_period >= 1,
        ensures
            match r {
                Ok(s) => {
                    &&& config.spec_peers().len() >= 4
                    &&& s.inv()
                    &&& s.id@ == id@
                    &&& s.seq_num == head_block_num + 1
                    &&& s.view == 0
                    &&& s.phase == PbftPhase::PrePreparing
                    &&& s.mode == PbftMode::Normal
                    &&& s.spec_peers() == config.spec_peers()
                    &&& (s.spec_is_primary() <==> config.spec_peers()[0] == id@)
                    &&& s.faulty_primary_timeout.spec_state() == TimeoutState::Inactive
                    &&& s.faulty_primary_timeout.spec_duration_ms()
                        == config.faulty_primary_timeout_ms
                    &&& s.forced_view_change_period == config.forced_view_change_period
                    &&& s.working_block is None
                },
                Err(e) => {
                    &&& e == PbftError::InternalError(InternalFault::NotEnoughPeers)
                    &&& config.spec_peers().len() < 4
                },
            },
    {
        let n = config.peers.len();
        if n < 4 {
            return Err(PbftError::InternalError(InternalFault::NotEnoughPeers));
        }
        let f = ((n - 1) / 3) as u64;
        let role = if bytes_eq(&config.peers[0], &id) {
            PbftNodeRole::Primary
        } else {
            PbftNodeRole::Secondary
        };
        let s = PbftState {
            id,
            seq_num: head_block_num + 1,
            view: 0,
            phase: PbftPhase::PrePreparing,
            role,
            mode: PbftMode::Normal,
            peer_ids: clone_bytes_list(&config.peers),
            f,
            faulty_primary_timeout: Timeout::new(config.faulty_primary_timeout_ms),
            forced_view_change_period: config.forced_view_change_period,
            working_block: None,
        };
        Ok(s)
    }

    pub fn peers(&self) -> (r: &Vec<PeerId>)
        ensures
            r == &self.peer_ids,
    {
        &self.peer_ids
    }

    /// The message kind the node is willing to emit in each phase.
    pub open spec fn spec_check_msg_type(&self) -> PbftMessageType {
        match self.phase {
            PbftPhase::PrePreparing => PbftMessageType::PrePrepare,
            PbftPhase::Preparing => PbftMessageType::Prepare,
            PbftPhase::Checking => PbftMessageType::Prepare,
            PbftPhase::Committing => PbftMessageType::Commit,
            PbftPhase::Finished => PbftMessageType::Unset,
        }
    }

    /// The kind of message this node is currently expecting or sending.
    pub fn check_msg_type(&self) -> (r: PbftMessageType)
        ensures
            r == self.spec_check_msg_type(),
    {
        match self.phase {
            PbftPhase::PrePreparing => PbftMessageType::PrePrepare,
            PbftPhase::Preparing => PbftMessageType::Prepare,
            PbftPhase::Checking => PbftMessageType::Prepare,
            PbftPhase::Committing => PbftMessageType::Commit,
            PbftPhase::Finished => PbftMessageType::Unset,
        }
    }

    /// The id of the primary of the current view.
    pub fn get_primary_id(&self) -> (r: PeerId)
        requires
            self.peer_ids@.len() >= 1,
        ensures
            r@ == self.spec_primary_id(),
    {
        let primary_index = (self.view % (self.peer_ids.len() as u64)) as usize;
        clone_bytes(&self.peer_ids[primary_index])
    }

    /// Whether this node is currently the primary.
    pub fn is_primary(&self) -> (r: bool)
        ensures
            r == self.spec_is_primary(),
    {
        self.role == PbftNodeRole::Primary
    }

    /// Make this node the primary.
    pub fn upgrade_role(&mut self)
        ensures
            final(self).spec_is_primary(),
            PbftState::same_except_role(old(self), final(self)),
    {
        self.role = PbftNodeRole::Primary;
    }

    /// Make this node a secondary.
    pub fn downgrade_role(&mut self)
        ensures
            !final(self).spec_is_primary(),
            PbftState::same_except_role(old(self), final(self)),
    {
        self.role = PbftNodeRole::Secondary;
    }

    /// Move to `desired_phase` if and only if it is the next phase of the
    /// cycle; otherwise nothing changes and `None` reports the refusal.
    pub fn switch_phase(&mut self, desired_phase: PbftPhase) -> (r: Option<PbftPhase>)
        ensures
            PbftState::same_except_phase(old(self), final(self)),
            desired_phase == next_phase(old(self).phase) ==> {
                &&& r == Some(desired_phase)
                &&& final(self).phase == desired_phase
            },
            desired_phase != next_phase(old(self).phase) ==> {
                &&& r is None
                &&& final(self).phase == old(self).phase
            },
    {
        let next = match self.phase {
            PbftPhase::PrePreparing => PbftPhase::Preparing,
            PbftPhase::Preparing => PbftPhase::Checking,
            PbftPhase::Checking => PbftPhase::Committing,
            PbftPhase::Committing => PbftPhase::Finished,
            PbftPhase::Finished => PbftPhase::PrePreparing,
        };
        if desired_phase == next {
            self.phase = desired_phase;
            Some(desired_phase)
        } else {
            None
        }
    }

    /// Whether the scheduled primary rotation falls on the current
    /// sequence number.
    pub fn at_forced_view_change(&self) -> (r: bool)
        requires
            self.forced_view_change_period >= 1,
        ensures
            r == (self.seq_num > 0 && self.seq_num as int % self.forced_view_change_period as int
                == 0),
    {
        self.seq_num > 0 && self.seq_num % self.forced_view_change_period == 0
    }

    /// Drop the in-flight block and return to the start of the cycle in
    /// `Normal` mode, restarting the faulty-primary timer; used after a
    /// completed view change.
    pub fn discard_current_block(&mut self, now_ms: u64)
        ensures
            final(self).working_block is None,
            final(self).phase == PbftPhase::PrePreparing,
            final(self).mode == PbftMode::Normal,
            final(self).faulty_primary_timeout.spec_state() == TimeoutState::Active,
            final(self).faulty_primary_timeout.spec_start_ms() == now_ms,
            final(self).faulty_primary_timeout.spec_duration_ms() == old(
                self,
            ).faulty_primary_timeout.spec_duration_ms(),
            final(self).id == old(self).id,
            final(self).seq_num == old(self).seq_num,
            final(self).view == old(self).view,
            final(self).spec_is_primary() == old(self).spec_is_primary(),
            final(self).peer_ids == old(self).peer_ids,
            final(self).f == old(self).f,
            final(self).forced_view_change_period == old(self).forced_view_change_period,
            old(self).inv() ==> final(self).inv(),
    {
        self.working_block = None;
        self.phase = PbftPhase::PrePreparing;
        self.mode = PbftMode::Normal;
        self.faulty_primary_timeout.start(now_ms);
    }
}

} // verus!
