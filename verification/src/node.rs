//! The top-level PBFT state machine.
//!
//! The node consumes host events (a new block, a valid block, a committed
//! block, peer messages, timer polls), consults its state and message log,
//! and appends the host calls it decided on to its outbox; the host drains
//! the outbox with [`PbftNode::take_actions`] and performs them.  Values
//! the host must read for an event — the peer list from chain settings,
//! the block summary — are passed in as arguments.

use vstd::prelude::*;

use crate::action::HostAction;
use crate::action::HostActionView;
use crate::bytes::bytes_eq;
use crate::bytes::clone_bytes;
use crate::bytes::clone_bytes_list;
use crate::bytes::contains_bytes;
use crate::codec::decode_consensus_seal;
use crate::codec::decode_pbft_message;
use crate::codec::decode_peer_header;
use crate::codec::encode_consensus_seal;
use crate::codec::encode_pbft_message;
use crate::codec::encode_view_change;
use crate::codec::enc_msg;
use crate::codec::lemma_seal_views_wf;
use crate::codec::lemma_seal_round_trip;
use crate::codec::sdec_header_full;
use crate::codec::sdec_msg;
use crate::codec::sdec_seal;
use crate::config::PbftConfig;
use crate::crypto::ecdsa_accepts;
use crate::crypto::ecdsa_check;
use crate::crypto::sha256;
use crate::crypto::sha256_of;
use crate::crypto::sha512;
use crate::crypto::sha512_of;
use crate::error::InternalFault;
use crate::error::PbftError;
use crate::handlers;
use crate::handlers::acts;
use crate::log::log_add;
use crate::log::spec_committable;
use crate::log::spec_prepared;
use crate::log::vote_match;
use crate::log::vote_signer_set;
use crate::log::PbftLog;
use crate::message::Block;
use crate::message::BlockId;
use crate::message::BlockView;
use crate::message::PbftBlock;
use crate::message::PbftBlockView;
use crate::message::PbftMessage;
use crate::message::PbftMessageInfo;
use crate::message::PbftMessageInfoView;
use crate::message::PbftMessageView;
use crate::message::PbftMessageType;
use crate::message::PbftSeal;
use crate::message::PbftSealView;
use crate::message::PbftSignedCommitVote;
use crate::message::PbftSignedCommitVoteView;
use crate::message::PbftViewChange;
use crate::message::PeerId;
use crate::parsed::pm_wf;
use crate::parsed::ParsedMessage;
use crate::parsed::ParsedMessageView;
use crate::state::next_phase;
use crate::state::PbftMode;
use crate::state::PbftPhase;
use crate::state::PbftState;
use crate::timing::TimeoutState;

verus! {

broadcast use vstd::seq_lib::group_seq_properties, vstd::set_lib::group_set_properties;

/// The core's projection of a host block.
pub open spec fn pbft_block_view_of(b: BlockView) -> PbftBlockView {
    PbftBlockView {
        block_id: b.block_id,
        signer_id: b.signer_id,
        block_num: b.block_num,
        summary: b.summary,
    }
}

/// A peer list as a sequence of byte strings.
pub open spec fn peers_view(peers: Seq<PeerId>) -> Seq<Seq<u8>> {
    peers.map_values(|p: PeerId| p@)
}

/// The working block that moving on to sequence number `s` leaves behind:
/// the projection carried by a logged BlockNew for `s`, or nothing when no
/// such BlockNew is logged.
pub open spec fn queued_working_block(
    msgs: Seq<ParsedMessageView>,
    s: u64,
    wb: Option<PbftBlockView>,
) -> bool {
    match wb {
        Some(b) => exists|i: int|
            0 <= i < msgs.len() && (#[trigger] msgs[i]).info.msg_type
                == PbftMessageType::BlockNew && msgs[i].info.seq_num == s
                && msgs[i].block.block_num == s && b == msgs[i].block,
        None => forall|i: int|
            0 <= i < msgs.len() && (#[trigger] msgs[i]).info.msg_type
                == PbftMessageType::BlockNew && msgs[i].info.seq_num == s
                ==> msgs[i].block.block_num != s,
    }
}

// ---------- Seal verification, in specification ----------

/// What a signed commit vote must satisfy to certify `prev_id`: its inner
/// message parses and names that block, its transport header parses, the
/// header signature verifies under the header's signer key, and the header
/// digest matches the message bytes.
pub open spec fn vote_ok(v: PbftSignedCommitVoteView, prev_id: Seq<u8>) -> bool {
    &&& (sdec_msg(v.message_bytes) matches Some(m) && m.block.block_id == prev_id)
    &&& (sdec_header_full(v.header_bytes) matches Some(h) && ecdsa_accepts(
        v.header_signature,
        sha256_of(v.header_bytes),
        h.signer_id,
    ) && sha512_of(v.message_bytes) == h.content_sha512)
}

/// The identity a vote claims: the signer named by its inner message.
pub open spec fn vote_voter(v: PbftSignedCommitVoteView) -> Seq<u8>
    recommends
        sdec_msg(v.message_bytes) is Some,
{
    (choose|m: PbftMessageView| sdec_msg(v.message_bytes) == Some(m)).info.signer_id
}

/// The distinct voters of a seal.
pub open spec fn seal_voters(s: PbftSealView) -> Set<Seq<u8>> {
    s.previous_commit_votes.map_values(|v: PbftSignedCommitVoteView| vote_voter(v)).to_set()
}

/// What an accepted seal guarantees for the block it certifies: it names
/// the block's predecessor and summary, every embedded vote is valid for
/// that predecessor, every voter is a known peer other than the block's
/// own signer, and at least `2 f` distinct voters took part — the block
/// signer's own publish is the implicit last vote.
pub open spec fn spec_seal_ok(s: PbftSealView, block: BlockView, peers: Seq<Seq<u8>>, f: u64) -> bool {
    &&& s.previous_id == block.previous_id
    &&& s.summary == block.summary
    &&& forall|k: int|
        0 <= k < s.previous_commit_votes.len() ==> vote_ok(
            #[trigger] s.previous_commit_votes[k],
            s.previous_id,
        )
    &&& forall|k: int|
        0 <= k < s.previous_commit_votes.len() ==> peers.contains(
            vote_voter(#[trigger] s.previous_commit_votes[k]),
        ) && vote_voter(s.previous_commit_votes[k]) != block.signer_id
    &&& seal_voters(s).len() >= 2 * (f as int)
}

// ---------- Seal building, in specification ----------

/// The seal assembled from selected log messages: their retained transport
/// header, signature and message bytes, verbatim.
pub open spec fn seal_of(sel: Seq<ParsedMessageView>, summary: Seq<u8>) -> PbftSealView {
    PbftSealView {
        previous_id: sel[0].block.block_id,
        summary,
        previous_commit_votes: sel.map_values(
            |m: ParsedMessageView| PbftSignedCommitVoteView {
                header_bytes: m.header_bytes,
                header_signature: m.header_signature,
                message_bytes: m.message_bytes,
            },
        ),
    }
}

/// The selected messages are logged Commit votes for sequence number `s`
/// from distinct signers other than this node, all for one block.
pub open spec fn seal_votes_selected(
    msgs: Seq<ParsedMessageView>,
    s: u64,
    sel: Seq<ParsedMessageView>,
) -> bool {
    &&& sel.len() >= 1
    &&& forall|k: int| 0 <= k < sel.len() ==> msgs.contains(#[trigger] sel[k])
    &&& forall|k: int|
        0 <= k < sel.len() ==> (#[trigger] sel[k]).info.msg_type == PbftMessageType::Commit
            && sel[k].info.seq_num == s && !sel[k].from_self && sel[k].block.block_id
            == sel[0].block.block_id
    &&& forall|k1: int, k2: int|
        0 <= k1 < k2 < sel.len() ==> (#[trigger] sel[k1]).info.signer_id != (
        #[trigger] sel[k2]).info.signer_id
}

// ---------- Catch-up, in specification ----------

/// The payload of a catch-up block can drive a commit of the working block
/// `wb_id`: it decodes to a seal with at least one vote, every vote's inner
/// bytes decode to a consensus message (never a view change), and the first
/// vote names the working block.
pub open spec fn catchup_seal_usable(payload: Seq<u8>, wb_id: Seq<u8>) -> bool {
    &&& (sdec_seal(payload) matches Some(s) && {
        &&& s.previous_commit_votes.len() >= 1
        &&& forall|k: int|
            0 <= k < s.previous_commit_votes.len() ==> (sdec_msg(
                (#[trigger] s.previous_commit_votes[k]).message_bytes,
            ) matches Some(m) && m.info.msg_type != PbftMessageType::ViewChange)
        &&& (sdec_msg(s.previous_commit_votes[0].message_bytes) matches Some(m0)
            && m0.block.block_id == wb_id)
    })
}

/// The view named by the first vote of a catch-up seal; the node adopts it
/// when it is ahead of its own.
pub open spec fn catchup_seal_first_view(payload: Seq<u8>) -> u64 {
    let s = choose|s: PbftSealView| sdec_seal(payload) == Some(s);
    let m0 = choose|m0: PbftMessageView|
        sdec_msg(s.previous_commit_votes[0].message_bytes) == Some(m0);
    m0.info.view
}

/// A consensus message with its info and the core's block projection.
fn pbft_message_of(info: PbftMessageInfo, block: PbftBlock) -> (r: PbftMessage)
    ensures
        r@ == (PbftMessageView { info: info@, block: block@ }),
{
    PbftMessage { info, block }
}

/// Serialize a consensus message assembled from its info and block.
pub fn make_msg_bytes(info: PbftMessageInfo, block: PbftBlock) -> (r: Vec<u8>)
    ensures
        r@ == enc_msg(PbftMessageView { info: info@, block: block@ }),
{
    let msg = pbft_message_of(info, block);
    encode_pbft_message(&msg)
}

/// The core's lightweight projection of a host block.
pub fn pbft_block_from_block(block: Block) -> (r: PbftBlock)
    ensures
        r@ == pbft_block_view_of(block@),
{
    PbftBlock {
        block_id: block.block_id,
        signer_id: block.signer_id,
        block_num: block.block_num,
        summary: block.summary,
    }
}

/// A PBFT node: its message log and the host calls it has decided on.
pub struct PbftNode {
    /// Messages this node has received or produced.
    pub msg_log: PbftLog,
    /// Host calls decided on and not yet taken by the host.
    pub outbox: Vec<HostAction>,
}

impl PbftNode {
    /// The host calls decided on and not yet taken.
    pub open spec fn out(&self) -> Seq<HostActionView> {
        acts(self.outbox@)
    }

    pub open spec fn inv(&self) -> bool {
        self.msg_log.inv()
    }

    /// A fresh node; a primary asks the host to start building a block.
    pub fn new(config: &PbftConfig, is_primary: bool) -> (n: PbftNode)
        ensures
            n.inv(),
            n.msg_log.msgs().len() == 0,
            n.msg_log.backlog_msgs().len() == 0,
            n.msg_log.seals().len() == 0,
            n.out() == if is_primary {
                seq![HostActionView::InitializeBlock(None)]
            } else {
                Seq::<HostActionView>::empty()
            },
    {
        let mut outbox: Vec<HostAction> = Vec::new();
        if is_primary {
            outbox.push(HostAction::InitializeBlock(None));
        }
        let n = PbftNode { msg_log: PbftLog::new(), outbox };
        proof {
            if is_primary {
                assert(n.out() =~= seq![HostActionView::InitializeBlock(None)]);
            } else {
                assert(n.out() =~= Seq::<HostActionView>::empty());
            }
        }
        n
    }

    /// Drain the outbox: the host performs these calls in order.
    pub fn take_actions(&mut self) -> (r: Vec<HostAction>)
        ensures
            acts(r@) == old(self).out(),
            final(self).out() == Seq::<HostActionView>::empty(),
            final(self).msg_log == old(self).msg_log,
    {
        let mut taken: Vec<HostAction> = Vec::new();
        core::mem::swap(&mut taken, &mut self.outbox);
        proof {
            assert(self.out() =~= Seq::<HostActionView>::empty());
        }
        taken
    }

    // ---------- Communication ----------

    /// Queue a broadcast of already-serialized message bytes.
    fn broadcast_message(&mut self, msg_type: &PbftMessageType, msg: Vec<u8>, state: &mut PbftState) -> (r:
        Result<(), PbftError>)
        ensures
            r is Ok,
            *final(state) == *old(state),
            final(self).msg_log == old(self).msg_log,
            final(self).out() == old(self).out().push(HostActionView::Broadcast(*msg_type, msg@)),
    {
        let ghost bytes = msg@;
        self.outbox.push(HostAction::Broadcast(*msg_type, msg));
        proof {
            assert(self.out() =~= old(self).out().push(HostActionView::Broadcast(*msg_type, bytes)));
        }
        Ok(())
    }

    /// Broadcast a consensus message for the current view, signed by this
    /// node — unless the node's phase is not willing to emit that
    /// multicast kind, in which case nothing is sent.
    fn broadcast_pbft_message(
        &mut self,
        seq_num: u64,
        msg_type: &PbftMessageType,
        block: PbftBlock,
        state: &mut PbftState,
    ) -> (r: Result<(), PbftError>)
        ensures
            r is Ok,
            *final(state) == *old(state),
            final(self).msg_log == old(self).msg_log,
            final(self).out() == if msg_type.spec_is_multicast() && *msg_type != old(state).spec_check_msg_type() {
                old(self).out()
            } else {
                old(self).out().push(
                    HostActionView::Broadcast(
                        *msg_type,
                        enc_msg(
                            PbftMessageView {
                                info: PbftMessageInfoView {
                                    msg_type: *msg_type,
                                    view: old(state).view,
                                    seq_num,
                                    signer_id: old(state).id@,
                                },
                                block: block@,
                            },
                        ),
                    ),
                )
            },
    {
        let expected_type = state.check_msg_type();
        if msg_type.is_multicast() && !(*msg_type == expected_type) {
            return Ok(());
        }
        let info = handlers::make_msg_info(msg_type, state.view, seq_num, clone_bytes(&state.id));
        let msg_bytes = make_msg_bytes(info, block);
        self.broadcast_message(msg_type, msg_bytes, state)
    }

    /// On an accepted PrePrepare, broadcast the matching Prepare.
    fn broadcast_pre_prepare(&mut self, pbft_message: &ParsedMessage, state: &mut PbftState) -> (r:
        Result<(), PbftError>)
        ensures
            r is Ok,
            *final(state) == *old(state),
            final(self).msg_log == old(self).msg_log,
            final(self).out() == if old(state).spec_check_msg_type() != PbftMessageType::Prepare {
                old(self).out()
            } else {
                old(self).out().push(
                    HostActionView::Broadcast(
                        PbftMessageType::Prepare,
                        enc_msg(
                            PbftMessageView {
                                info: PbftMessageInfoView {
                                    msg_type: PbftMessageType::Prepare,
                                    view: old(state).view,
                                    seq_num: pbft_message@.info.seq_num,
                                    signer_id: old(state).id@,
                                },
                                block: pbft_message@.block,
                            },
                        ),
                    ),
                )
            },
    {
        self.broadcast_pbft_message(
            pbft_message.info.seq_num,
            &PbftMessageType::Prepare,
            pbft_message.get_block().clone(),
            state,
        )
    }

    // ---------- Phase steps guarded against repetition ----------

    /// Once prepared, ask the host to check the block — only when not
    /// already checking.
    fn check_blocks_if_not_checking(
        &mut self,
        pbft_message: &ParsedMessage,
        state: &mut PbftState,
    ) -> (r: Result<(), PbftError>)
        ensures
            r is Ok,
            final(self).msg_log == old(self).msg_log,
            PbftState::same_except_phase(old(state), final(state)),
            old(state).phase == PbftPhase::Checking ==> final(state).phase == old(state).phase
                && final(self).out() == old(self).out(),
            old(state).phase != PbftPhase::Checking ==> final(state).phase == (if next_phase(
                old(state).phase,
            ) == PbftPhase::Checking {
                PbftPhase::Checking
            } else {
                old(state).phase
            }) && final(self).out() == old(self).out().push(
                HostActionView::CheckBlocks(seq![pbft_message@.block.block_id]),
            ),
    {
        if !(state.phase == PbftPhase::Checking) {
            state.switch_phase(PbftPhase::Checking);
            let mut ids: Vec<BlockId> = Vec::new();
            ids.push(clone_bytes(&pbft_message.get_block().block_id));
            let ghost ids_v = ids@.map_values(|b: BlockId| b@);
            self.outbox.push(HostAction::CheckBlocks(ids));
            proof {
                assert(ids_v =~= seq![pbft_message@.block.block_id]);
                assert(self.out() =~= old(self).out().push(
                    HostActionView::CheckBlocks(seq![pbft_message@.block.block_id]),
                ));
            }
        }
        Ok(())
    }

    /// Once committable, finalize the commit — only while in the
    /// `Committing` phase.
    fn commit_block_if_committing(&mut self, msg: &ParsedMessage, state: &mut PbftState) -> (r:
        Result<(), PbftError>)
        ensures
            r is Ok,
            final(self).msg_log == old(self).msg_log,
            PbftState::same_except_phase(old(state), final(state)),
            old(state).phase == PbftPhase::Committing ==> final(state).phase == PbftPhase::Finished
                && final(self).out() == old(self).out().push(
                HostActionView::CommitBlock(msg@.block.block_id),
            ),
            old(state).phase != PbftPhase::Committing ==> final(state).phase == old(state).phase
                && final(self).out() == old(self).out(),
    {
        if state.phase == PbftPhase::Committing {
            let r = handlers::commit(state, &mut self.outbox, msg);
            match r {
                Ok(_) => Ok(()),
                Err(e) => Err(e),
            }
        } else {
            Ok(())
        }
    }

    // ---------- View changes ----------

    /// Join a view change early: in `Normal` mode, `f + 1` matching
    /// ViewChange messages for a later view are reason enough to start one
    /// without waiting for this node's own timeout.
    fn propose_view_change_if_enough_messages(
        &mut self,
        message: &ParsedMessage,
        state: &mut PbftState,
    ) -> (r: Result<bool, PbftError>)
        requires
            old(self).inv(),
            old(state).inv(),
            old(state).view < u64::MAX,
        ensures
            final(self).inv(),
            final(state).inv(),
            final(self).msg_log == old(self).msg_log,
            final(state).seq_num == old(state).seq_num,
            final(state).f == old(state).f,
            final(state).peer_ids == old(state).peer_ids,
            final(state).id == old(state).id,
            final(state).view == old(state).view,
            final(state).phase == old(state).phase,
            final(state).working_block == old(state).working_block,
            old(state).mode == PbftMode::ViewChanging ==> (r == Result::<bool, PbftError>::Ok(
                false,
            ) && *final(state) == *old(state) && final(self).out() == old(self).out()),
            ({
                let bandwagon = vote_signer_set(
                    old(self).msg_log.msgs(),
                    PbftMessageType::ViewChange,
                    true,
                    message@.info.view,
                    message@.info.seq_num,
                    false,
                    message@.block.block_id,
                    false,
                    Seq::empty(),
                    false,
                ).len() >= (old(state).f as int) + 1 && message@.info.view > old(state).view;
                old(state).mode == PbftMode::Normal ==> if !bandwagon {
                    r == Result::<bool, PbftError>::Ok(true) && *final(state) == *old(state)
                        && final(self).out() == old(self).out()
                } else {
                    &&& final(state).mode == PbftMode::ViewChanging
                    &&& match r {
                        Ok(b) => b == false && (crate::log::last_seal_for(
                            old(self).msg_log.seals(),
                            (old(state).seq_num - 1) as u64,
                        ) matches Some(sl) && final(self).out() == old(self).out().push(
                            HostActionView::Broadcast(
                                PbftMessageType::ViewChange,
                                crate::codec::enc_vc(
                                    crate::message::PbftViewChangeView {
                                        info: PbftMessageInfoView {
                                            msg_type: PbftMessageType::ViewChange,
                                            view: (old(state).view + 1) as u64,
                                            seq_num: (old(state).seq_num - 1) as u64,
                                            signer_id: old(state).id@,
                                        },
                                        seal: sl,
                                    },
                                ),
                            ),
                        )),
                        Err(e) => e == PbftError::InternalError(InternalFault::MissingSeal)
                            && crate::log::last_seal_for(
                            old(self).msg_log.seals(),
                            (old(state).seq_num - 1) as u64,
                        ) is None && final(self).out() == old(self).out(),
                    }
                }
            }),
    {
        if !(state.mode == PbftMode::ViewChanging) {
            proof {
                handlers::lemma_quorum_fits(state.peer_ids.len() as int, state.f);
            }
            let count = self.msg_log.count_required_msgs(
                &PbftMessageType::ViewChange,
                message,
                false,
            );
            if (count as u128) >= (state.f as u128) + 1 && message.info.view > state.view {
                let r = self.propose_view_change(state);
                match r {
                    Ok(_) => Ok(false),
                    Err(e) => Err(e),
                }
            } else {
                Ok(true)
            }
        } else {
            Ok(false)
        }
    }

    /// Start a view change: move to `ViewChanging` mode and broadcast a
    /// ViewChange for the next view, carrying the seal that proves the
    /// last committed state; a no-op when one is already under way.
    pub fn propose_view_change(&mut self, state: &mut PbftState) -> (r: Result<(), PbftError>)
        requires
            old(self).inv(),
            old(state).inv(),
            old(state).view < u64::MAX,
        ensures
            final(self).inv(),
            final(state).inv(),
            final(self).msg_log == old(self).msg_log,
            final(state).seq_num == old(state).seq_num,
            final(state).view == old(state).view,
            final(state).phase == old(state).phase,
            final(state).f == old(state).f,
            final(state).peer_ids == old(state).peer_ids,
            final(state).id == old(state).id,
            final(state).working_block == old(state).working_block,
            old(state).mode == PbftMode::ViewChanging ==> r is Ok && *final(state) == *old(state)
                && final(self).out() == old(self).out(),
            old(state).mode == PbftMode::Normal ==> {
                &&& final(state).mode == PbftMode::ViewChanging
                &&& match r {
                    Ok(_) => (crate::log::last_seal_for(
                        old(self).msg_log.seals(),
                        (old(state).seq_num - 1) as u64,
                    ) matches Some(sl) && final(self).out() == old(self).out().push(
                        HostActionView::Broadcast(
                            PbftMessageType::ViewChange,
                            crate::codec::enc_vc(
                                crate::message::PbftViewChangeView {
                                    info: PbftMessageInfoView {
                                        msg_type: PbftMessageType::ViewChange,
                                        view: (old(state).view + 1) as u64,
                                        seq_num: (old(state).seq_num - 1) as u64,
                                        signer_id: old(state).id@,
                                    },
                                    seal: sl,
                                },
                            ),
                        ),
                    )),
                    Err(e) => e == PbftError::InternalError(InternalFault::MissingSeal)
                        && crate::log::last_seal_for(
                        old(self).msg_log.seals(),
                        (old(state).seq_num - 1) as u64,
                    ) is None && final(self).out() == old(self).out(),
                }
            },
    {
        if state.mode == PbftMode::ViewChanging {
            return Ok(());
        }
        state.mode = PbftMode::ViewChanging;
        let info = handlers::make_msg_info(
            &PbftMessageType::ViewChange,
            state.view + 1,
            state.seq_num - 1,
            clone_bytes(&state.id),
        );
        let seal = match self.msg_log.get_consensus_seal(state.seq_num - 1) {
            Ok(s) => s,
            Err(e) => {
                return Err(e);
            },
        };
        let vc_msg = PbftViewChange { info, seal };
        let msg_bytes = encode_view_change(&vc_msg);
        self.broadcast_message(&PbftMessageType::ViewChange, msg_bytes, state)
    }

    /// Rotate the primary now: advance the view by one and reset the
    /// working state, as at the end of a completed view change.
    pub fn force_view_change(&mut self, state: &mut PbftState, now_ms: u64)
        requires
            old(self).inv(),
            old(state).inv(),
            old(state).view < u64::MAX,
        ensures
            final(self).inv(),
            final(state).inv(),
            final(self).msg_log == old(self).msg_log,
            final(self).out() == old(self).out(),
            final(state).view == old(state).view + 1,
            final(state).mode == PbftMode::Normal,
            final(state).phase == PbftPhase::PrePreparing,
            final(state).working_block is None,
            final(state).seq_num == old(state).seq_num,
            final(state).f == old(state).f,
            final(state).peer_ids == old(state).peer_ids,
            final(state).id == old(state).id,
            (final(state).spec_is_primary() <==> final(state).spec_primary_id() == final(state).id@),
    {
        handlers::force_view_change(state, now_ms);
    }

    // ---------- Membership ----------

    /// Adopt the on-chain peer list when it differs (as a set) from the
    /// current one, recomputing the fault bound; reports whether it
    /// changed.
    fn update_membership(&mut self, peers: &Vec<PeerId>, state: &mut PbftState) -> (r: bool)
        requires
            old(self).inv(),
            old(state).inv(),
            peers@.len() >= 4,
        ensures
            final(self).inv(),
            final(state).inv(),
            final(self).msg_log == old(self).msg_log,
            final(self).out() == old(self).out(),
            final(state).seq_num == old(state).seq_num,
            final(state).view == old(state).view,
            final(state).phase == old(state).phase,
            final(state).mode == old(state).mode,
            final(state).id == old(state).id,
            final(state).working_block == old(state).working_block,
            r == !(peers_view(peers@).to_set() =~= old(state).spec_peers().to_set()),
            !r ==> *final(state) == *old(state),
            r ==> final(state).spec_peers() == peers_view(peers@) && final(state).f
                == crate::state::spec_f(peers@.len() as int),
    {
        let same = peer_sets_equal(&state.peer_ids, peers) && peer_sets_equal(
            peers,
            &state.peer_ids,
        );
        proof {
            if same {
                assert(peers_view(peers@).to_set() =~= state.spec_peers().to_set());
            } else {
                assert(!(peers_view(peers@).to_set() =~= state.spec_peers().to_set())) by {
                    if peers_view(peers@).to_set() =~= state.spec_peers().to_set() {
                        assert forall|i: int|
                            0 <= i < state.peer_ids@.len() implies peers_view(peers@).contains(
                            (#[trigger] state.peer_ids@[i])@,
                        ) by {
                            assert(state.spec_peers()[i] == state.peer_ids@[i]@);
                            assert(state.spec_peers().contains(state.peer_ids@[i]@));
                            assert(state.spec_peers().to_set().contains(state.peer_ids@[i]@));
                        }
                        assert forall|i: int|
                            0 <= i < peers@.len() implies state.spec_peers().contains(
                            (#[trigger] peers@[i])@,
                        ) by {
                            assert(peers_view(peers@)[i] == peers@[i]@);
                            assert(peers_view(peers@).contains(peers@[i]@));
                            assert(peers_view(peers@).to_set().contains(peers@[i]@));
                        }
                        assert forall|i: int|
                            0 <= i < state.peer_ids@.len() implies peers_view(
                            state.peer_ids@,
                        ).contains((#[trigger] state.peer_ids@[i])@) by {
                            assert(peers_view(state.peer_ids@)[i] == state.peer_ids@[i]@);
                        }
                    }
                }
            }
        }
        if !same {
            state.peer_ids = clone_bytes_list(peers);
            let n = state.peer_ids.len();
            state.f = ((n - 1) / 3) as u64;
            proof {
                assert(state.spec_peers() =~= peers_view(peers@));
            }
            true
        } else {
            false
        }
    }

    // ---------- Host events ----------

    /// A block was committed by the host: move on to the next sequence
    /// number, take any queued BlockNew as the new working block, rotate
    /// the primary when the schedule or a membership change calls for it,
    /// collect garbage, and restart the faulty-primary timer.  A commit
    /// for anything but the finished working block is ignored.
    pub fn on_block_commit(
        &mut self,
        block_id: BlockId,
        peers: Vec<PeerId>,
        state: &mut PbftState,
        now_ms: u64,
    )
        requires
            old(self).inv(),
            old(state).inv(),
            peers@.len() >= 4,
            old(state).seq_num < u64::MAX,
            old(state).view < u64::MAX,
        ensures
            final(self).inv(),
            final(state).inv(),
            ({
                let acted = old(state).phase == PbftPhase::Finished && (match old(state).working_block {
                    Some(b) => b@.block_id == block_id@,
                    None => false,
                });
                &&& !acted ==> *final(state) == *old(state) && final(self).msg_log == old(self).msg_log && final(self).out() == old(self).out()
                &&& acted ==> {
                    let forced = old(state).seq_num as int % old(state).forced_view_change_period as int == 0;
                    let changed = !(peers_view(peers@).to_set() =~= old(state).spec_peers().to_set());
                    &&& final(state).seq_num == old(state).seq_num + 1
                    &&& final(state).phase == PbftPhase::PrePreparing
                    &&& ((forced || changed) ==> final(state).view == old(state).view + 1 && final(state).mode == PbftMode::Normal)
                    &&& (!(forced || changed) ==> final(state).view == old(state).view)
                    &&& final(state).faulty_primary_timeout.spec_state() == TimeoutState::Active
                    &&& final(state).faulty_primary_timeout.spec_start_ms() == now_ms
                    &&& (!(forced || changed) ==> final(state).role == old(state).role
                        && queued_working_block(
                        old(self).msg_log.msgs(),
                        (old(state).seq_num + 1) as u64,
                        match final(state).working_block {
                            Some(b) => Some(b@),
                            None => None,
                        },
                    ))
                    &&& ((forced || changed) ==> final(state).working_block is None
                        && (final(state).spec_is_primary() <==> final(state).spec_primary_id()
                        == final(state).id@))
                    &&& (final(state).spec_is_primary() && final(state).working_block is None
                        ==> final(self).out() == old(self).out().push(
                        HostActionView::InitializeBlock(Some(block_id@)),
                    ))
                    &&& (!(final(state).spec_is_primary() && final(state).working_block is None)
                        ==> final(self).out() == old(self).out())
                }
            }),
    {
        let is_working_block = match &state.working_block {
            Some(b) => bytes_eq(&b.block_id, &block_id),
            None => false,
        };
        if !(state.phase == PbftPhase::Finished) || !is_working_block {
            return ;
        }
        let forced = state.at_forced_view_change();
        state.switch_phase(PbftPhase::PrePreparing);
        state.seq_num = state.seq_num + 1;
        state.working_block = None;
        let queued = self.msg_log.get_messages_of_type_seq(
            &PbftMessageType::BlockNew,
            state.seq_num,
        );
        let nq = queued.len();
        let mut qi: usize = 0;
        #[verifier::loop_isolation(false)]
        while qi < nq
            invariant
                nq == queued@.len(),
                0 <= qi <= nq,
                state.inv(),
                state.seq_num == old(state).seq_num + 1,
                state.view == old(state).view,
                state.mode == old(state).mode,
                state.phase == PbftPhase::PrePreparing,
                state.peer_ids == old(state).peer_ids,
                state.f == old(state).f,
                state.id == old(state).id,
                state.role == old(state).role,
                state.forced_view_change_period == old(state).forced_view_change_period,
                state.faulty_primary_timeout == old(state).faulty_primary_timeout,
                match state.working_block {
                    Some(b) => b.block_num == state.seq_num && exists|k: int|
                        0 <= k < qi && (#[trigger] queued@[k]@).block.block_num == state.seq_num
                            && b@ == queued@[k]@.block,
                    None => forall|k: int|
                        0 <= k < qi ==> (#[trigger] queued@[k]@).block.block_num != state.seq_num,
                },
            decreases nq - qi,
        {
            if state.working_block.is_none() && queued[qi].block.block_num == state.seq_num {
                state.working_block = Some(queued[qi].get_block().clone());
            }
            qi += 1;
        }
        proof {
            let s = state.seq_num;
            match &state.working_block {
                Some(b) => {
                    let k = choose|k: int|
                        0 <= k < nq && (#[trigger] queued@[k]@).block.block_num == s && b@
                            == queued@[k]@.block;
                    assert(self.msg_log.msgs().contains(queued@[k]@));
                },
                None => {
                    assert forall|i: int|
                        0 <= i < self.msg_log.msgs().len() && (
                        #[trigger] self.msg_log.msgs()[i]).info.msg_type
                            == PbftMessageType::BlockNew && self.msg_log.msgs()[i].info.seq_num
                            == s implies self.msg_log.msgs()[i].block.block_num != s by {
                        let km = queued@.map_values(|m: ParsedMessage| m@);
                        assert(km.contains(self.msg_log.msgs()[i]));
                        let k = choose|k: int| 0 <= k < km.len() && km[k] == self.msg_log.msgs()[i];
                        assert(queued@[k]@ == self.msg_log.msgs()[i]);
                    }
                },
            }
            assert(queued_working_block(
                old(self).msg_log.msgs(),
                s,
                match state.working_block {
                    Some(b) => Some(b@),
                    None => None,
                },
            ));
        }
        let changed = self.update_membership(&peers, state);
        if forced || changed {
            handlers::force_view_change(state, now_ms);
        }
        self.msg_log.garbage_collect(state.seq_num, &block_id);
        state.faulty_primary_timeout.start(now_ms);
        if state.is_primary() && state.working_block.is_none() {
            let ghost pre = self.out();
            let ghost bid_v = block_id@;
            self.outbox.push(HostAction::InitializeBlock(Some(block_id)));
            proof {
                assert(self.out() =~= pre.push(HostActionView::InitializeBlock(Some(bid_v))));
            }
        }
    }

    /// The host checked the block successfully: move from `Checking` to
    /// `Committing` and broadcast this node's Commit.  Without a working
    /// block, or for a block that is not the working one, the event is
    /// dropped with an error.
    pub fn on_block_valid(&mut self, block_id: &BlockId, state: &mut PbftState) -> (r: Result<
        (),
        PbftError,
    >)
        ensures
            final(self).msg_log == old(self).msg_log,
            PbftState::same_except_phase(old(state), final(state)),
            match r {
                Ok(_) => {
                    &&& (match old(state).working_block {
                        Some(b) => b@.block_id == block_id@,
                        None => false,
                    })
                    &&& final(state).phase == (if next_phase(old(state).phase)
                        == PbftPhase::Committing {
                        PbftPhase::Committing
                    } else {
                        old(state).phase
                    })
                    &&& (match old(state).working_block {
                        Some(b) => if final(state).spec_check_msg_type()
                            == PbftMessageType::Commit {
                            final(self).out() == old(self).out().push(
                                HostActionView::Broadcast(
                                    PbftMessageType::Commit,
                                    enc_msg(
                                        PbftMessageView {
                                            info: PbftMessageInfoView {
                                                msg_type: PbftMessageType::Commit,
                                                view: old(state).view,
                                                seq_num: old(state).seq_num,
                                                signer_id: old(state).id@,
                                            },
                                            block: b@,
                                        },
                                    ),
                                ),
                            )
                        } else {
                            final(self).out() == old(self).out()
                        },
                        None => false,
                    })
                },
                Err(e) => {
                    &&& *final(state) == *old(state)
                    &&& final(self).out() == old(self).out()
                    &&& match old(state).working_block {
                        Some(b) => b@.block_id != block_id@ && e == PbftError::NotReadyForMessage,
                        None => e == PbftError::NoWorkingBlock,
                    }
                },
            },
    {
        let block = match &state.working_block {
            Some(b) => {
                if bytes_eq(&b.block_id, block_id) {
                    b.clone()
                } else {
                    return Err(PbftError::NotReadyForMessage);
                }
            },
            None => {
                return Err(PbftError::NoWorkingBlock);
            },
        };
        state.switch_phase(PbftPhase::Committing);
        let r = self.broadcast_pbft_message(state.seq_num, &PbftMessageType::Commit, block, state);
        match r {
            Ok(_) => Ok(()),
            Err(e) => Err(e),
        }
    }

    // ---------- Timers ----------

    /// Poll the faulty-primary timeout; true once the primary has been
    /// quiet past its allowance.
    pub fn check_faulty_primary_timeout_expired(&mut self, state: &mut PbftState, now_ms: u64) -> (r:
        bool)
        ensures
            final(self).msg_log == old(self).msg_log,
            final(self).out() == old(self).out(),
            r == (final(state).faulty_primary_timeout.spec_state() == TimeoutState::Expired),
            final(state).faulty_primary_timeout.spec_state() == if old(state).faulty_primary_timeout.overdue(now_ms) {
                TimeoutState::Expired
            } else {
                old(state).faulty_primary_timeout.spec_state()
            },
    {
        state.faulty_primary_timeout.is_expired(now_ms)
    }

    /// Arm the faulty-primary timeout from `now_ms`.
    pub fn start_faulty_primary_timeout(&self, state: &mut PbftState, now_ms: u64)
        ensures
            final(state).faulty_primary_timeout.spec_state() == TimeoutState::Active,
            final(state).faulty_primary_timeout.spec_start_ms() == now_ms,
    {
        state.faulty_primary_timeout.start(now_ms);
    }

    // ---------- Backlog ----------

    /// Feed the oldest deferred message back through the peer-message
    /// handler: it is removed from the backlog and handled exactly as a
    /// freshly arrived message of its kind — a PrePrepare still waiting
    /// for its BlockNew goes back to the end of the backlog.
    pub fn retry_backlog(&mut self, state: &mut PbftState, now_ms: u64) -> (r: Result<
        (),
        PbftError,
    >)
        requires
            old(self).inv(),
            old(state).inv(),
            old(state).seq_num < u64::MAX,
            old(state).view < u64::MAX,
        ensures
            final(self).inv(),
            final(state).inv(),
            final(state).seq_num == old(state).seq_num,
            final(self).msg_log.seals() == old(self).msg_log.seals(),
            old(self).msg_log.backlog_msgs().len() == 0 ==> r is Ok && *final(state) == *old(state)
                && final(self).msg_log.msgs() == old(self).msg_log.msgs()
                && final(self).msg_log.backlog_msgs() == old(self).msg_log.backlog_msgs()
                && final(self).out() == old(self).out(),
            old(self).msg_log.backlog_msgs().len() > 0 ==> ({
                let m = old(self).msg_log.backlog_msgs()[0];
                let rest = old(self).msg_log.backlog_msgs().drop_first();
                &&& ((m.info.msg_type == PbftMessageType::Unset || m.info.msg_type
                    == PbftMessageType::BlockNew) ==> r is Ok && *final(state) == *old(state)
                    && final(self).msg_log.msgs() == old(self).msg_log.msgs() && final(self).msg_log.backlog_msgs() == rest && final(self).out() == old(self).out())
                &&& (m.info.msg_type == PbftMessageType::Prepare ==> {
                    &&& r is Ok
                    &&& final(self).msg_log.msgs() == log_add(old(self).msg_log.msgs(), m)
                    &&& final(self).msg_log.backlog_msgs() == rest
                    &&& final(state).view == old(state).view
                    &&& final(state).mode == old(state).mode
                    &&& final(state).working_block == old(state).working_block
                    &&& ({
                        let fires = m.info.seq_num == old(state).seq_num && spec_prepared(
                            log_add(old(self).msg_log.msgs(), m),
                            m.info.view,
                            m.info.seq_num,
                            old(state).f,
                        ) && old(state).phase != PbftPhase::Checking;
                        &&& (fires ==> final(state).phase == (if next_phase(old(state).phase)
                            == PbftPhase::Checking {
                            PbftPhase::Checking
                        } else {
                            old(state).phase
                        }) && final(self).out() == old(self).out().push(
                            HostActionView::CheckBlocks(seq![m.block.block_id]),
                        ))
                        &&& (!fires ==> final(state).phase == old(state).phase && final(self).out()
                            == old(self).out())
                    })
                })
                &&& (m.info.msg_type == PbftMessageType::Commit ==> {
                    &&& r is Ok
                    &&& final(self).msg_log.msgs() == log_add(old(self).msg_log.msgs(), m)
                    &&& final(self).msg_log.backlog_msgs() == rest
                    &&& final(state).view == old(state).view
                    &&& final(state).mode == old(state).mode
                    &&& final(state).working_block == old(state).working_block
                    &&& ({
                        let fires = m.info.seq_num == old(state).seq_num && spec_committable(
                            log_add(old(self).msg_log.msgs(), m),
                            m.info.view,
                            m.info.seq_num,
                            old(state).f,
                        ) && old(state).phase == PbftPhase::Committing;
                        &&& (fires ==> final(state).phase == PbftPhase::Finished && final(self).out() == old(self).out().push(
                            HostActionView::CommitBlock(m.block.block_id),
                        ))
                        &&& (!fires ==> final(state).phase == old(state).phase && final(self).out()
                            == old(self).out())
                    })
                })
                &&& (m.info.msg_type == PbftMessageType::ViewChange ==> final(self).msg_log.msgs() == log_add(old(self).msg_log.msgs(), m) && final(self).msg_log.backlog_msgs() == rest && final(state).f == old(state).f && final(state).peer_ids == old(state).peer_ids && final(state).id == old(state).id)
                &&& (m.info.msg_type == PbftMessageType::PrePrepare ==> {
                    let primary_ok = m.info.signer_id == handlers::primary_of_view(
                        old(state).spec_peers(),
                        m.info.view,
                    );
                    let conflict = handlers::conflicting_pre_prepare(
                        old(self).msg_log.msgs(),
                        m.info.view,
                        m.info.seq_num,
                        m.block.block_id,
                    );
                    let known = handlers::has_block_new(
                        old(self).msg_log.msgs(),
                        m.info.seq_num,
                        m.block.block_id,
                    );
                    &&& final(state).view == old(state).view
                    &&& final(state).mode == old(state).mode
                    &&& final(state).working_block == old(state).working_block
                    &&& ((!primary_ok || conflict) ==> r == Result::<(), PbftError>::Err(
                        PbftError::NotReadyForMessage,
                    ) && final(self).msg_log.msgs() == old(self).msg_log.msgs() && final(self).msg_log.backlog_msgs() == rest && final(state).phase == old(state).phase
                        && final(self).out() == old(self).out())
                    &&& ((primary_ok && !conflict && !known) ==> r is Ok && final(self).msg_log.msgs() == old(self).msg_log.msgs() && final(self).msg_log.backlog_msgs() == rest.push(m) && final(state).phase == old(
                        state,
                    ).phase && final(self).out() == old(self).out())
                    &&& ((primary_ok && !conflict && known) ==> r is Ok && final(self).msg_log.msgs() == log_add(old(self).msg_log.msgs(), m) && final(self).msg_log.backlog_msgs() == rest && final(state).phase == (if next_phase(
                        old(state).phase,
                    ) == PbftPhase::Preparing {
                        PbftPhase::Preparing
                    } else {
                        old(state).phase
                    }))
                })
            }),
    {
        let popped = self.msg_log.pop_backlog();
        match popped {
            Some(msg) => self.on_peer_message(msg, state, now_ms),
            None => Ok(()),
        }
    }
    // ---------- Seal verification ----------

    /// Verify one seal-embedded vote: parse its inner Commit and its
    /// transport header, check the header signature and the content
    /// digest, and return the voter named by the inner message.
    fn verify_consensus_vote(vote: &PbftSignedCommitVote, seal: &PbftSeal) -> (r: Result<
        Vec<u8>,
        PbftError,
    >)
        ensures
            match r {
                Ok(voter) => vote_ok(vote@, seal@.previous_id) && voter@ == vote_voter(vote@),
                Err(e) => !vote_ok(vote@, seal@.previous_id),
            },
    {
        let message = match decode_pbft_message(&vote.message_bytes) {
            Some(m) => m,
            None => {
                return Err(PbftError::SerializationError);
            },
        };
        if !bytes_eq(&message.block.block_id, &seal.previous_id) {
            return Err(PbftError::InternalError(InternalFault::VoteBlockIdMismatch));
        }
        let header = match decode_peer_header(&vote.header_bytes) {
            Some(h) => h,
            None => {
                return Err(PbftError::SerializationError);
            },
        };
        let digest = sha256(&vote.header_bytes);
        if !ecdsa_check(&vote.header_signature, &digest, &header.signer_id) {
            return Err(PbftError::InternalError(InternalFault::SignatureInvalid));
        }
        let content_digest = sha512(&vote.message_bytes);
        if !bytes_eq(&content_digest, &header.content_sha512) {
            return Err(PbftError::InternalError(InternalFault::DigestMismatch));
        }
        proof {
            let m = choose|m: PbftMessageView| sdec_msg(vote@.message_bytes) == Some(m);
            assert(sdec_msg(vote@.message_bytes) == Some(message@));
            assert(m == message@);
        }
        Ok(clone_bytes(&message.info.signer_id))
    }

    /// Verify the consensus seal a block carries for its predecessor,
    /// against the peer list in force at that predecessor; the genesis
    /// block and block one carry none and are skipped.
    #[verifier::loop_isolation(false)]
    #[verifier::rlimit(100)]
    fn verify_consensus_seal(
        &self,
        block: &Block,
        prev_peers: &Vec<PeerId>,
        state: &PbftState,
    ) -> (r: Result<Option<PbftSeal>, PbftError>)
        ensures
            match r {
                Ok(opt) => match opt {
                    None => block@.block_num < 2,
                    Some(s) => block@.block_num >= 2 && sdec_seal(block@.payload) == Some(s@)
                        && spec_seal_ok(s@, block@, peers_view(prev_peers@), state.f),
                },
                Err(e) => block@.block_num >= 2 && !(sdec_seal(block@.payload) matches Some(s)
                    && spec_seal_ok(s, block@, peers_view(prev_peers@), state.f)),
            },
    {
        if block.block_num < 2 {
            return Ok(None);
        }
        if block.payload.len() == 0 {
            return Err(PbftError::InternalError(InternalFault::EmptyPayload));
        }
        let seal = match decode_consensus_seal(&block.payload) {
            Some(s) => s,
            None => {
                return Err(PbftError::SerializationError);
            },
        };
        if !bytes_eq(&seal.previous_id, &block.previous_id) {
            return Err(PbftError::InternalError(InternalFault::SealPreviousIdMismatch));
        }
        if !bytes_eq(&seal.summary, &block.summary) {
            return Err(PbftError::InternalError(InternalFault::SealSummaryMismatch));
        }
        let nv = seal.previous_commit_votes.len();
        let mut voters: Vec<Vec<u8>> = Vec::new();
        let mut k: usize = 0;
        proof {
            assert(seal@.previous_commit_votes.subrange(0, 0) =~= Seq::<
                PbftSignedCommitVoteView,
            >::empty());
            assert(voters@.map_values(|p: Vec<u8>| p@).to_set()
                =~= seal@.previous_commit_votes.subrange(0, 0).map_values(
                |v: PbftSignedCommitVoteView| vote_voter(v),
            ).to_set());
        }
        while k < nv
            invariant
                nv == seal@.previous_commit_votes.len(),
                0 <= k <= nv,
                forall|j: int|
                    0 <= j < k ==> vote_ok(
                        #[trigger] seal@.previous_commit_votes[j],
                        seal@.previous_id,
                    ),
                voters@.map_values(|p: Vec<u8>| p@).no_duplicates(),
                voters@.map_values(|p: Vec<u8>| p@).to_set()
                    == seal@.previous_commit_votes.subrange(0, k as int).map_values(
                    |v: PbftSignedCommitVoteView| vote_voter(v),
                ).to_set(),
            decreases nv - k,
        {
            let voter = match Self::verify_consensus_vote(&seal.previous_commit_votes[k], &seal) {
                Ok(v) => v,
                Err(e) => {
                    proof {
                        assert(!vote_ok(
                            seal@.previous_commit_votes[k as int],
                            seal@.previous_id,
                        ));
                        assert(!spec_seal_ok(seal@, block@, peers_view(prev_peers@), state.f));
                    }
                    return Err(e);
                },
            };
            let ghost old_vs = voters@.map_values(|p: Vec<u8>| p@);
            let ghost sub_k = seal@.previous_commit_votes.subrange(0, k as int);
            let ghost sub_k1 = seal@.previous_commit_votes.subrange(0, k + 1);
            proof {
                assert(sub_k1 =~= sub_k.push(seal@.previous_commit_votes[k as int]));
                assert(sub_k1.map_values(|v: PbftSignedCommitVoteView| vote_voter(v))
                    =~= sub_k.map_values(|v: PbftSignedCommitVoteView| vote_voter(v)).push(
                    vote_voter(seal@.previous_commit_votes[k as int]),
                ));
            }
            if !contains_bytes(&voters, &voter) {
                proof {
                    assert(!old_vs.contains(voter@)) by {
                        if old_vs.contains(voter@) {
                            let w = choose|w: int| 0 <= w < old_vs.len() && old_vs[w] == voter@;
                            assert(voters@[w]@ == voter@);
                        }
                    }
                }
                voters.push(voter);
                proof {
                    let vv = vote_voter(seal@.previous_commit_votes[k as int]);
                    let vs = voters@.map_values(|p: Vec<u8>| p@);
                    assert(vs =~= old_vs.push(vv));
                    assert forall|a: int, b: int| 0 <= a < b < vs.len() implies vs[a] != vs[b] by {
                        if b < vs.len() - 1 {
                            assert(old_vs[a] != old_vs[b]);
                        } else {
                            assert(old_vs.contains(old_vs[a]));
                        }
                    }
                    lemma_to_set_push(old_vs, vv);
                    lemma_to_set_push(
                        sub_k.map_values(|v: PbftSignedCommitVoteView| vote_voter(v)),
                        vv,
                    );
                    assert(vs.to_set() =~= sub_k1.map_values(
                        |v: PbftSignedCommitVoteView| vote_voter(v),
                    ).to_set());
                }
            } else {
                proof {
                    let vv = vote_voter(seal@.previous_commit_votes[k as int]);
                    let w = choose|w: int|
                        0 <= w < voters@.len() && voters@[w]@ == voter@;
                    let vs = voters@.map_values(|p: Vec<u8>| p@);
                    assert(vs[w] == voter@);
                    assert(vs.contains(voter@));
                    assert(vs.to_set().contains(vv));
                    lemma_to_set_push(
                        sub_k.map_values(|v: PbftSignedCommitVoteView| vote_voter(v)),
                        vv,
                    );
                    assert(vs.to_set().insert(vv) =~= vs.to_set());
                    assert(vs.to_set() =~= sub_k1.map_values(
                        |v: PbftSignedCommitVoteView| vote_voter(v),
                    ).to_set());
                }
            }
            k += 1;
        }
        proof {
            assert(seal@.previous_commit_votes.subrange(0, nv as int)
                =~= seal@.previous_commit_votes);
        }
        let nvo = voters.len();
        let mut q: usize = 0;
        while q < nvo
            invariant
                nvo == voters@.len(),
                0 <= q <= nvo,
                forall|j: int|
                    0 <= j < q ==> peers_view(prev_peers@).contains((#[trigger] voters@[j])@) && (
                    voters@[j])@ != block@.signer_id,
            decreases nvo - q,
        {
            if !contains_bytes(prev_peers, &voters[q]) {
                proof {
                    assert(!peers_view(prev_peers@).contains(voters@[q as int]@)) by {
                        if peers_view(prev_peers@).contains(voters@[q as int]@) {
                            let w = choose|w: int|
                                0 <= w < peers_view(prev_peers@).len() && peers_view(prev_peers@)[w]
                                    == voters@[q as int]@;
                            assert(prev_peers@[w]@ == voters@[q as int]@);
                        }
                    }
                    lemma_voter_in_seal(seal@, voters@.map_values(|p: Vec<u8>| p@), q as int);
                }
                return Err(PbftError::InternalError(InternalFault::UnknownVoter));
            }
            if bytes_eq(&voters[q], &block.signer_id) {
                proof {
                    lemma_voter_in_seal(seal@, voters@.map_values(|p: Vec<u8>| p@), q as int);
                }
                return Err(PbftError::InternalError(InternalFault::UnknownVoter));
            }
            proof {
                let w = choose|w: int| 0 <= w < prev_peers@.len() && prev_peers@[w]@ == voters@[q as int]@;
                assert(peers_view(prev_peers@)[w] == voters@[q as int]@);
                assert(peers_view(prev_peers@).contains(voters@[q as int]@));
            }
            q += 1;
        }
        proof {
            voters@.map_values(|p: Vec<u8>| p@).unique_seq_to_set();
            assert forall|j: int|
                0 <= j < seal@.previous_commit_votes.len() implies peers_view(prev_peers@).contains(
                vote_voter(#[trigger] seal@.previous_commit_votes[j]),
            ) && vote_voter(seal@.previous_commit_votes[j]) != block@.signer_id by {
                let vm = seal@.previous_commit_votes.map_values(
                    |v: PbftSignedCommitVoteView| vote_voter(v),
                );
                let vs = voters@.map_values(|p: Vec<u8>| p@);
                assert(vm[j] == vote_voter(seal@.previous_commit_votes[j]));
                assert(vm.contains(vm[j]));
                assert(vm.to_set().contains(vm[j]));
                assert(vs.to_set().contains(vm[j]));
                assert(vs.contains(vm[j]));
                let w = choose|w: int| 0 <= w < vs.len() && vs[w] == vm[j];
            }
        }
        if (voters.len() as u128) < 2 * (state.f as u128) {
            proof {
                assert(seal_voters(seal@).len() < 2 * (state.f as int));
            }
            return Err(PbftError::InternalError(InternalFault::NotEnoughVotes));
        }
        proof {
            assert(seal_voters(seal@).len() >= 2 * (state.f as int));
        }
        Ok(Some(seal))
    }

    // ---------- Seal building ----------

    /// Build the serialized seal for the previous sequence number from at
    /// least `2 f` logged Commit votes from distinct peers.
    #[verifier::loop_isolation(false)]
    #[verifier::rlimit(80)]
    pub fn build_seal(&self, state: &PbftState, summary: Vec<u8>) -> (r: Result<Vec<u8>, PbftError>)
        requires
            self.inv(),
            state.inv(),
        ensures
            match r {
                Ok(bytes) => exists|sel: Seq<ParsedMessageView>|
                    {
                        &&& #[trigger] seal_votes_selected(
                            self.msg_log.msgs(),
                            (state.seq_num - 1) as u64,
                            sel,
                        )
                        &&& sel.len() >= 2 * (state.f as int)
                        &&& sdec_seal(bytes@) == Some(seal_of(sel, summary@))
                    },
                Err(e) => {
                    &&& e == PbftError::InternalError(InternalFault::NotEnoughVotes)
                    &&& forall|i: int|
                        0 <= i < self.msg_log.msgs().len() && vote_match(
                            #[trigger] self.msg_log.msgs()[i],
                            PbftMessageType::Commit,
                            false,
                            0,
                            (state.seq_num - 1) as u64,
                            false,
                            Seq::empty(),
                            false,
                            Seq::empty(),
                            true,
                        ) ==> vote_signer_set(
                            self.msg_log.msgs(),
                            PbftMessageType::Commit,
                            false,
                            0,
                            (state.seq_num - 1) as u64,
                            true,
                            self.msg_log.msgs()[i].block.block_id,
                            false,
                            Seq::empty(),
                            true,
                        ).len() < 2 * (state.f as int)
                },
            },
    {
        let np = state.peer_ids.len();
        proof {
            handlers::lemma_quorum_fits(np as int, state.f);
        }
        let min_votes: u64 = 2 * state.f;
        let messages = match self.msg_log.get_enough_messages(
            &PbftMessageType::Commit,
            state.seq_num - 1,
            min_votes,
        ) {
            Some(m) => m,
            None => {
                return Err(PbftError::InternalError(InternalFault::NotEnoughVotes));
            },
        };
        let ghost sel = messages@.map_values(|m: ParsedMessage| m@);
        let nm = messages.len();
        let mut votes: Vec<PbftSignedCommitVote> = Vec::new();
        let mut k: usize = 0;
        while k < nm
            invariant
                nm == messages@.len(),
                0 <= k <= nm,
                votes@.len() == k,
                forall|j: int|
                    0 <= j < k ==> (#[trigger] votes@[j]@) == (PbftSignedCommitVoteView {
                        header_bytes: sel[j].header_bytes,
                        header_signature: sel[j].header_signature,
                        message_bytes: sel[j].message_bytes,
                    }),
            decreases nm - k,
        {
            votes.push(
                PbftSignedCommitVote {
                    header_bytes: clone_bytes(&messages[k].header_bytes),
                    header_signature: clone_bytes(&messages[k].header_signature),
                    message_bytes: clone_bytes(&messages[k].message_bytes),
                },
            );
            k += 1;
        }
        let ghost sum_v = summary@;
        let seal = PbftSeal {
            previous_id: clone_bytes(&messages[0].block.block_id),
            summary,
            previous_commit_votes: votes,
        };
        proof {
            assert(seal@ =~= seal_of(sel, sum_v)) by {
                assert(seal@.previous_commit_votes =~= seal_of(
                    sel,
                    sum_v,
                ).previous_commit_votes);
            }
            lemma_seal_views_wf(&seal);
            lemma_seal_round_trip(seal@);
            assert(sel.len() >= 2 * (state.f as int));
            assert(seal_votes_selected(self.msg_log.msgs(), (state.seq_num - 1) as u64, sel)) by {
                assert forall|j1: int, j2: int|
                    0 <= j1 < j2 < sel.len() implies (#[trigger] sel[j1]).info.signer_id != (
                #[trigger] sel[j2]).info.signer_id by {
                    assert(messages@[j1]@.info.signer_id != messages@[j2]@.info.signer_id);
                }
            }
        }
        Ok(encode_consensus_seal(&seal))
    }

    // ---------- Catch-up ----------

    /// Commit the working block using the seal carried by its successor:
    /// replay the seal's votes as live Commits, commit, and advance.
    #[verifier::rlimit(100)]
    fn catchup(
        &mut self,
        state: &mut PbftState,
        block: &Block,
        prev_peers: &Vec<PeerId>,
        now_ms: u64,
    ) -> (r: Result<(), PbftError>)
        requires
            old(self).inv(),
            old(state).inv(),
            prev_peers@.len() >= 4,
            old(state).seq_num < u64::MAX,
            old(state).view < u64::MAX,
        ensures
            final(self).inv(),
            final(state).inv(),
            r is Err ==> final(state).seq_num == old(state).seq_num,
            match old(state).working_block {
                None => r == Result::<(), PbftError>::Err(PbftError::NoWorkingBlock)
                    && *final(state) == *old(state) && final(self).msg_log == old(self).msg_log
                    && final(self).out() == old(self).out(),
                Some(wb) => {
                    let fits = block@.block_num == wb@.block_num + 1 && block@.previous_id
                        == wb@.block_id;
                    &&& (!fits ==> (r matches Err(PbftError::BlockMismatch(bb, ww)) && bb@
                        == pbft_block_view_of(block@) && ww@ == wb@) && *final(state) == *old(state)
                        && final(self).msg_log == old(self).msg_log
                        && final(self).out() == old(self).out())
                    &&& ((fits && !catchup_seal_usable(block@.payload, wb@.block_id)) ==> r is Err
                        && *final(state) == *old(state) && final(self).msg_log == old(self).msg_log
                        && final(self).out() == old(self).out())
                    &&& ((fits && catchup_seal_usable(block@.payload, wb@.block_id)) ==> {
                        &&& r is Ok
                        &&& final(state).seq_num == old(state).seq_num + 1
                        &&& final(state).phase == PbftPhase::PrePreparing
                        &&& final(state).view >= old(state).view
                        &&& ({
                            let v0 = catchup_seal_first_view(block@.payload);
                            (v0 > old(state).view && v0 < u64::MAX) ==> final(state).view >= v0
                        })
                        &&& final(self).out().len() >= old(self).out().len() + 1
                        &&& final(self).out()[old(self).out().len() as int]
                            == HostActionView::CommitBlock(wb@.block_id)
                        &&& forall|j: int|
                            0 <= j < old(self).out().len() ==> final(self).out()[j]
                                == old(self).out()[j]
                    })
                },
            },
    {
        let wb = match &state.working_block {
            Some(wb) => {
                let num_ok = block.block_num == wb.block_num + 1;
                let id_ok = bytes_eq(&block.previous_id, &wb.block_id);
                if !num_ok || !id_ok {
                    return Err(
                        PbftError::BlockMismatch(pbft_block_from_block(block.clone()), wb.clone()),
                    );
                }
                wb.clone()
            },
            None => {
                return Err(PbftError::NoWorkingBlock);
            },
        };
        let seal = match decode_consensus_seal(&block.payload) {
            Some(s) => s,
            None => {
                return Err(PbftError::SerializationError);
            },
        };
        let nv = seal.previous_commit_votes.len();
        let mut messages: Vec<ParsedMessage> = Vec::new();
        let mut k: usize = 0;
        #[verifier::loop_isolation(false)]
        while k < nv
            invariant
                nv == seal@.previous_commit_votes.len(),
                0 <= k <= nv,
                messages@.len() == k,
                forall|j: int| 0 <= j < k ==> pm_wf((#[trigger] messages@[j])@),
                forall|j: int|
                    0 <= j < k ==> (sdec_msg(
                        seal@.previous_commit_votes[j].message_bytes,
                    ) matches Some(mm) && mm.info == (#[trigger] messages@[j])@.info && mm.block
                        == messages@[j]@.block && mm.info.msg_type != PbftMessageType::ViewChange),
            decreases nv - k,
        {
            let m = match decode_pbft_message(&seal.previous_commit_votes[k].message_bytes) {
                Some(m) => m,
                None => {
                    proof {
                        assert(sdec_seal(block@.payload) == Some(seal@));
                        assert(!catchup_seal_usable(block@.payload, wb@.block_id)) by {
                            if catchup_seal_usable(block@.payload, wb@.block_id) {
                                assert(sdec_msg(
                                    seal@.previous_commit_votes[k as int].message_bytes,
                                ) is Some);
                            }
                        }
                    }
                    return Err(PbftError::SerializationError);
                },
            };
            let is_vc = match m.info.msg_type {
                PbftMessageType::ViewChange => true,
                _ => false,
            };
            if is_vc {
                proof {
                    assert(sdec_seal(block@.payload) == Some(seal@));
                    assert(!catchup_seal_usable(block@.payload, wb@.block_id)) by {
                        if catchup_seal_usable(block@.payload, wb@.block_id) {
                            assert(sdec_msg(
                                seal@.previous_commit_votes[k as int].message_bytes,
                            ) matches Some(mm) && mm.info.msg_type != PbftMessageType::ViewChange);
                        }
                    }
                }
                return Err(PbftError::SerializationError);
            }
            messages.push(ParsedMessage::from_pbft_message(m));
            k += 1;
        }
        if messages.len() == 0 {
            proof {
                assert(sdec_seal(block@.payload) == Some(seal@));
                assert(seal@.previous_commit_votes.len() == 0);
                assert(!catchup_seal_usable(block@.payload, wb@.block_id));
            }
            return Err(PbftError::InternalError(InternalFault::NotEnoughVotes));
        }
        if !bytes_eq(&messages[0].block.block_id, &wb.block_id) {
            proof {
                assert(sdec_seal(block@.payload) == Some(seal@));
                assert(!catchup_seal_usable(block@.payload, wb@.block_id)) by {
                    if catchup_seal_usable(block@.payload, wb@.block_id) {
                        assert(sdec_msg(seal@.previous_commit_votes[0].message_bytes) is Some);
                        let m0 = choose|m0: PbftMessageView|
                            sdec_msg(seal@.previous_commit_votes[0].message_bytes) == Some(m0);
                        assert(m0.block.block_id == wb@.block_id);
                        assert(m0.block == messages@[0]@.block);
                    }
                }
            }
            return Err(PbftError::InternalError(InternalFault::VoteBlockIdMismatch));
        }
        proof {
            assert(sdec_seal(block@.payload) == Some(seal@));
            assert forall|kk: int| 0 <= kk < seal@.previous_commit_votes.len() implies (sdec_msg(
                (#[trigger] seal@.previous_commit_votes[kk]).message_bytes,
            ) matches Some(m2) && m2.info.msg_type != PbftMessageType::ViewChange) by {
                assert(pm_wf(messages@[kk]@));
            }
            assert(pm_wf(messages@[0]@));
            assert(sdec_msg(seal@.previous_commit_votes[0].message_bytes) is Some);
            let mm = choose|mm: PbftMessageView|
                sdec_msg(seal@.previous_commit_votes[0].message_bytes) == Some(mm);
            assert(mm.block == messages@[0]@.block);
            assert(mm.block.block_id == wb@.block_id);
            assert(catchup_seal_usable(block@.payload, wb@.block_id));
            let sv = choose|sv: PbftSealView| sdec_seal(block@.payload) == Some(sv);
            assert(sv == seal@);
            assert(catchup_seal_first_view(block@.payload) == mm.info.view);
            assert(mm.info == messages@[0]@.info);
        }
        let v0 = messages[0].info.view;
        if v0 > state.view && v0 < u64::MAX {
            state.view = v0;
        }
        let ghost adopted_view = state.view;
        let nm = messages.len();
        let mut j: usize = 0;
        #[verifier::loop_isolation(false)]
        while j < nm
            invariant
                nm == messages@.len(),
                0 <= j <= nm,
                self.inv(),
                state.inv(),
                forall|jj: int| 0 <= jj < nm ==> pm_wf((#[trigger] messages@[jj])@),
                self.out() == old(self).out(),
                state.seq_num == old(state).seq_num,
                state.view == adopted_view,
                state.view >= old(state).view,
                state.view < u64::MAX,
                state.phase == old(state).phase,
                state.mode == old(state).mode,
                state.role == old(state).role,
                state.working_block == old(state).working_block,
                state.peer_ids == old(state).peer_ids,
                state.f == old(state).f,
                state.id == old(state).id,
                state.forced_view_change_period == old(state).forced_view_change_period,
            decreases nm - j,
        {
            let res = self.msg_log.add_message(messages[j].clone(), state);
            match res {
                Ok(_) => {},
                Err(e) => {
                    return Err(e);
                },
            }
            j += 1;
        }
        state.phase = PbftPhase::Committing;
        let commit_msg = messages[0].as_msg_type(PbftMessageType::Commit);
        let cres = handlers::commit(state, &mut self.outbox, &commit_msg);
        match cres {
            Ok(_) => {},
            Err(e) => {
                return Err(e);
            },
        }
        let cid = clone_bytes(&messages[0].block.block_id);
        self.on_block_commit(cid, clone_bytes_list(prev_peers), state, now_ms);
        Ok(())
    }

    // ---------- BlockNew ----------

    /// A new block arrived from the host: verify its embedded seal, log
    /// the BlockNew, and either take it as the working block (broadcasting
    /// a PrePrepare when this node is the primary) or use its seal to
    /// catch up on the block it certifies.  Stale blocks are ignored; a
    /// bad seal fails the block and starts a view change.
    #[verifier::rlimit(100)]
    pub fn on_block_new(
        &mut self,
        block: Block,
        prev_peers: Vec<PeerId>,
        state: &mut PbftState,
        now_ms: u64,
    ) -> (r: Result<(), PbftError>)
        requires
            old(self).inv(),
            old(state).inv(),
            prev_peers@.len() >= 4,
            old(state).seq_num < u64::MAX,
            old(state).view < u64::MAX,
        ensures
            final(self).inv(),
            final(state).inv(),
            block@.block_num < old(state).seq_num ==> r is Ok && *final(state) == *old(state)
                && final(self).msg_log == old(self).msg_log && final(self).out() == old(self).out(),
            (r is Ok && block@.block_num >= 2 && block@.block_num >= old(state).seq_num) ==> (
            sdec_seal(block@.payload) matches Some(s) && spec_seal_ok(
                s,
                block@,
                peers_view(prev_peers@),
                old(state).f,
            )),
            ({
                let stale = block@.block_num < old(state).seq_num;
                let seal_ok = block@.block_num < 2 || (sdec_seal(block@.payload) matches Some(s)
                    && spec_seal_ok(s, block@, peers_view(prev_peers@), old(state).f));
                let catching = block@.block_num == old(state).seq_num + 1 && old(state).phase
                    != PbftPhase::Finished;
                let bid = block@.block_id;
                let bn_msg = ParsedMessageView {
                    info: PbftMessageInfoView {
                        msg_type: PbftMessageType::BlockNew,
                        view: old(state).view,
                        seq_num: block@.block_num,
                        signer_id: old(state).id@,
                    },
                    block: pbft_block_view_of(block@),
                    header_bytes: Seq::empty(),
                    header_signature: Seq::empty(),
                    message_bytes: enc_msg(
                        PbftMessageView {
                            info: PbftMessageInfoView {
                                msg_type: PbftMessageType::BlockNew,
                                view: old(state).view,
                                seq_num: block@.block_num,
                                signer_id: old(state).id@,
                            },
                            block: pbft_block_view_of(block@),
                        },
                    ),
                    from_self: false,
                };
                &&& ((!stale && !seal_ok) ==> {
                    &&& r is Err
                    &&& final(state).mode == PbftMode::ViewChanging
                    &&& final(state).seq_num == old(state).seq_num
                    &&& final(state).view == old(state).view
                    &&& final(state).phase == old(state).phase
                    &&& final(state).working_block == old(state).working_block
                    &&& final(self).msg_log == old(self).msg_log
                    &&& (old(state).mode == PbftMode::ViewChanging ==> final(self).out() == old(
                        self,
                    ).out().push(HostActionView::FailBlock(bid)))
                    &&& (old(state).mode == PbftMode::Normal ==> match crate::log::last_seal_for(
                        old(self).msg_log.seals(),
                        (old(state).seq_num - 1) as u64,
                    ) {
                        Some(sl) => final(self).out() == old(self).out().push(
                            HostActionView::FailBlock(bid),
                        ).push(
                            HostActionView::Broadcast(
                                PbftMessageType::ViewChange,
                                crate::codec::enc_vc(
                                    crate::message::PbftViewChangeView {
                                        info: PbftMessageInfoView {
                                            msg_type: PbftMessageType::ViewChange,
                                            view: (old(state).view + 1) as u64,
                                            seq_num: (old(state).seq_num - 1) as u64,
                                            signer_id: old(state).id@,
                                        },
                                        seal: sl,
                                    },
                                ),
                            ),
                        ),
                        None => r == Result::<(), PbftError>::Err(
                            PbftError::InternalError(InternalFault::MissingSeal),
                        ) && final(self).out() == old(self).out().push(
                            HostActionView::FailBlock(bid),
                        ),
                    })
                })
                &&& ((!stale && seal_ok && !catching) ==> {
                    &&& r is Ok
                    &&& final(self).msg_log.msgs() == log_add(old(self).msg_log.msgs(), bn_msg)
                    &&& final(self).msg_log.backlog_msgs() == old(self).msg_log.backlog_msgs()
                    &&& (block@.block_num < 2 ==> final(self).msg_log.seals() == old(
                        self,
                    ).msg_log.seals())
                    &&& (block@.block_num >= 2 ==> (sdec_seal(block@.payload) matches Some(s)
                        && final(self).msg_log.seals() == old(self).msg_log.seals().push(
                        (bid, old(state).seq_num, s),
                    )))
                    &&& final(state).seq_num == old(state).seq_num
                    &&& final(state).view == old(state).view
                    &&& final(state).phase == old(state).phase
                    &&& final(state).mode == old(state).mode
                    &&& final(state).f == old(state).f
                    &&& final(state).peer_ids == old(state).peer_ids
                    &&& final(state).id == old(state).id
                    &&& (block@.block_num == old(state).seq_num ==> {
                        &&& (final(state).working_block matches Some(b) && b@
                            == pbft_block_view_of(block@))
                        &&& (!old(state).spec_is_primary() ==> final(self).out() == old(
                            self,
                        ).out())
                        &&& (old(state).spec_is_primary() ==> final(self).out() == (if old(
                            state,
                        ).spec_check_msg_type() == PbftMessageType::PrePrepare {
                            old(self).out().push(
                                HostActionView::Broadcast(
                                    PbftMessageType::PrePrepare,
                                    enc_msg(
                                        PbftMessageView {
                                            info: PbftMessageInfoView {
                                                msg_type: PbftMessageType::PrePrepare,
                                                view: old(state).view,
                                                seq_num: old(state).seq_num,
                                                signer_id: old(state).id@,
                                            },
                                            block: pbft_block_view_of(block@),
                                        },
                                    ),
                                ),
                            )
                        } else {
                            old(self).out()
                        }))
                    })
                    &&& (block@.block_num != old(state).seq_num ==> final(state).working_block
                        == old(state).working_block && final(self).out() == old(self).out())
                })
                &&& ((!stale && seal_ok && catching) ==> {
                    &&& (old(state).working_block is None ==> r == Result::<(), PbftError>::Err(
                        PbftError::NoWorkingBlock,
                    ) && *final(state) == *old(state) && final(self).out() == old(self).out())
                    &&& (old(state).working_block matches Some(wb) ==> {
                        let fits = block@.previous_id == wb@.block_id;
                        let usable = catchup_seal_usable(block@.payload, wb@.block_id);
                        &&& (!fits ==> (r matches Err(PbftError::BlockMismatch(bb, ww)) && bb@
                            == pbft_block_view_of(block@) && ww@ == wb@) && *final(state) == *old(
                            state,
                        ) && final(self).out() == old(self).out())
                        &&& ((fits && !usable) ==> r is Err && *final(state) == *old(state)
                            && final(self).out() == old(self).out())
                        &&& ((fits && usable) ==> {
                            &&& r is Ok
                            &&& final(state).seq_num == old(state).seq_num + 1
                            &&& final(state).phase == PbftPhase::PrePreparing
                            &&& final(state).view >= old(state).view
                            &&& final(self).out().len() >= old(self).out().len() + 1
                            &&& final(self).out()[old(self).out().len() as int]
                                == HostActionView::CommitBlock(wb@.block_id)
                            &&& forall|j: int|
                                0 <= j < old(self).out().len() ==> final(self).out()[j]
                                    == old(self).out()[j]
                        })
                    })
                })
            }),
    {
        if block.block_num < state.seq_num {
            return Ok(());
        }
        let seal_result = self.verify_consensus_seal(&block, &prev_peers, state);
        match seal_result {
            Ok(Some(seal)) => {
                self.msg_log.add_consensus_seal(clone_bytes(&block.block_id), state.seq_num, seal);
            },
            Ok(None) => {},
            Err(err) => {
                self.outbox.push(HostAction::FailBlock(clone_bytes(&block.block_id)));
                let pres = self.propose_view_change(state);
                match pres {
                    Ok(_) => {},
                    Err(e) => {
                        return Err(e);
                    },
                }
                return Err(err);
            },
        }
        let info = handlers::make_msg_info(
            &PbftMessageType::BlockNew,
            state.view,
            block.block_num,
            clone_bytes(&state.id),
        );
        let msg = PbftMessage { info, block: pbft_block_from_block(block.clone()) };
        let parsed = ParsedMessage::from_pbft_message(msg);
        let ares = self.msg_log.add_message(parsed, state);
        match ares {
            Ok(_) => {},
            Err(e) => {
                return Err(e);
            },
        }
        if block.block_num == state.seq_num + 1 && !(state.phase == PbftPhase::Finished) {
            let cres = self.catchup(state, &block, &prev_peers, now_ms);
            match cres {
                Ok(_) => {},
                Err(e) => {
                    return Err(e);
                },
            }
        } else if block.block_num == state.seq_num {
            state.working_block = Some(pbft_block_from_block(block.clone()));
            if state.is_primary() {
                let s = state.seq_num;
                let bres = self.broadcast_pbft_message(
                    s,
                    &PbftMessageType::PrePrepare,
                    pbft_block_from_block(block.clone()),
                    state,
                );
                match bres {
                    Ok(_) => {},
                    Err(e) => {
                        return Err(e);
                    },
                }
            }
        }
        Ok(())
    }

    // ---------- Peer messages ----------

    /// Handle a message from a peer, dispatching on its kind; a message a
    /// node is not yet ready for waits in the backlog.
    pub fn on_peer_message(&mut self, msg: ParsedMessage, state: &mut PbftState, now_ms: u64) -> (r:
        Result<(), PbftError>)
        requires
            old(self).inv(),
            old(state).inv(),
            pm_wf(msg@),
            old(state).seq_num < u64::MAX,
            old(state).view < u64::MAX,
        ensures
            final(self).inv(),
            final(state).inv(),
            (msg@.info.msg_type == PbftMessageType::Unset || msg@.info.msg_type
                == PbftMessageType::BlockNew) ==> r is Ok && *final(state) == *old(state) && final(self).msg_log == old(self).msg_log && final(self).out() == old(self).out(),
            msg@.info.msg_type == PbftMessageType::Prepare ==> {
                &&& r is Ok
                &&& final(self).msg_log.msgs() == log_add(old(self).msg_log.msgs(), msg@)
                &&& final(self).msg_log.backlog_msgs() == old(self).msg_log.backlog_msgs()
                &&& final(self).msg_log.seals() == old(self).msg_log.seals()
                &&& final(state).seq_num == old(state).seq_num
                &&& final(state).view == old(state).view
                &&& final(state).mode == old(state).mode
                &&& final(state).f == old(state).f
                &&& final(state).peer_ids == old(state).peer_ids
                &&& final(state).id == old(state).id
                &&& final(state).working_block == old(state).working_block
                &&& ({
                    let fires = msg@.info.seq_num == old(state).seq_num && spec_prepared(
                        log_add(old(self).msg_log.msgs(), msg@),
                        msg@.info.view,
                        msg@.info.seq_num,
                        old(state).f,
                    ) && old(state).phase != PbftPhase::Checking;
                    &&& (fires ==> final(state).phase == (if next_phase(old(state).phase)
                        == PbftPhase::Checking {
                        PbftPhase::Checking
                    } else {
                        old(state).phase
                    }) && final(self).out() == old(self).out().push(
                        HostActionView::CheckBlocks(seq![msg@.block.block_id]),
                    ))
                    &&& (!fires ==> final(state).phase == old(state).phase && final(self).out()
                        == old(self).out())
                })
            },
            msg@.info.msg_type == PbftMessageType::Commit ==> {
                &&& r is Ok
                &&& final(self).msg_log.msgs() == log_add(old(self).msg_log.msgs(), msg@)
                &&& final(self).msg_log.backlog_msgs() == old(self).msg_log.backlog_msgs()
                &&& final(self).msg_log.seals() == old(self).msg_log.seals()
                &&& final(state).seq_num == old(state).seq_num
                &&& final(state).view == old(state).view
                &&& final(state).mode == old(state).mode
                &&& final(state).f == old(state).f
                &&& final(state).peer_ids == old(state).peer_ids
                &&& final(state).id == old(state).id
                &&& final(state).working_block == old(state).working_block
                &&& ({
                    let fires = msg@.info.seq_num == old(state).seq_num && spec_committable(
                        log_add(old(self).msg_log.msgs(), msg@),
                        msg@.info.view,
                        msg@.info.seq_num,
                        old(state).f,
                    ) && old(state).phase == PbftPhase::Committing;
                    &&& (fires ==> final(state).phase == PbftPhase::Finished && final(self).out()
                        == old(self).out().push(HostActionView::CommitBlock(msg@.block.block_id)))
                    &&& (!fires ==> final(state).phase == old(state).phase && final(self).out()
                        == old(self).out())
                })
            },
            msg@.info.msg_type == PbftMessageType::PrePrepare ==> {
                &&& final(state).seq_num == old(state).seq_num
                &&& final(state).view == old(state).view
                &&& final(state).mode == old(state).mode
                &&& final(state).f == old(state).f
                &&& final(state).peer_ids == old(state).peer_ids
                &&& final(state).id == old(state).id
                &&& final(state).working_block == old(state).working_block
                &&& final(self).msg_log.seals() == old(self).msg_log.seals()
                &&& ({
                    let primary_ok = msg@.info.signer_id == handlers::primary_of_view(
                        old(state).spec_peers(),
                        msg@.info.view,
                    );
                    let conflict = handlers::conflicting_pre_prepare(
                        old(self).msg_log.msgs(),
                        msg@.info.view,
                        msg@.info.seq_num,
                        msg@.block.block_id,
                    );
                    let known = handlers::has_block_new(
                        old(self).msg_log.msgs(),
                        msg@.info.seq_num,
                        msg@.block.block_id,
                    );
                    &&& ((!primary_ok || conflict) ==> r == Result::<(), PbftError>::Err(
                        PbftError::NotReadyForMessage,
                    ) && final(self).msg_log.msgs() == old(self).msg_log.msgs() && final(self).msg_log.backlog_msgs() == old(self).msg_log.backlog_msgs() && final(state).phase == old(state).phase && final(self).out() == old(self).out())
                    &&& ((primary_ok && !conflict && !known) ==> r is Ok && final(self).msg_log.msgs() == old(self).msg_log.msgs() && final(self).msg_log.backlog_msgs() == old(self).msg_log.backlog_msgs().push(msg@)
                        && final(state).phase == old(state).phase && final(self).out() == old(self).out())
                    &&& ((primary_ok && !conflict && known) ==> r is Ok && final(self).msg_log.msgs() == log_add(old(self).msg_log.msgs(), msg@) && final(self).msg_log.backlog_msgs() == old(self).msg_log.backlog_msgs() && final(state).phase == (if next_phase(old(state).phase) == PbftPhase::Preparing {
                        PbftPhase::Preparing
                    } else {
                        old(state).phase
                    }) && (final(state).spec_check_msg_type() == PbftMessageType::Prepare ==> final(self).out() == old(self).out().push(
                        HostActionView::Broadcast(
                            PbftMessageType::Prepare,
                            enc_msg(
                                PbftMessageView {
                                    info: PbftMessageInfoView {
                                        msg_type: PbftMessageType::Prepare,
                                        view: old(state).view,
                                        seq_num: msg@.info.seq_num,
                                        signer_id: old(state).id@,
                                    },
                                    block: msg@.block,
                                },
                            ),
                        ),
                    )) && (final(state).spec_check_msg_type() != PbftMessageType::Prepare ==> final(self).out() == old(self).out()))
                })
            },
            msg@.info.msg_type == PbftMessageType::ViewChange ==> {
                &&& final(self).msg_log.msgs() == log_add(old(self).msg_log.msgs(), msg@)
                &&& final(self).msg_log.backlog_msgs() == old(self).msg_log.backlog_msgs()
                &&& final(self).msg_log.seals() == old(self).msg_log.seals()
                &&& final(state).seq_num == old(state).seq_num
                &&& final(state).f == old(state).f
                &&& final(state).peer_ids == old(state).peer_ids
                &&& final(state).id == old(state).id
                &&& ({
                    let matching = vote_signer_set(
                        log_add(old(self).msg_log.msgs(), msg@),
                        PbftMessageType::ViewChange,
                        true,
                        msg@.info.view,
                        msg@.info.seq_num,
                        false,
                        msg@.block.block_id,
                        false,
                        Seq::empty(),
                        false,
                    ).len();
                    let bandwagon = matching >= (old(state).f as int) + 1 && msg@.info.view > old(
                        state,
                    ).view;
                    let completion_quorum = matching >= 2 * (old(state).f as int) + 1;
                    let stored_seal = crate::log::last_seal_for(
                        old(self).msg_log.seals(),
                        (old(state).seq_num - 1) as u64,
                    );
                    let completed = {
                        &&& r is Ok
                        &&& final(state).view == msg@.info.view
                        &&& final(state).mode == PbftMode::Normal
                        &&& final(state).phase == PbftPhase::PrePreparing
                        &&& final(state).working_block is None
                        &&& (final(state).spec_is_primary() <==> final(state).spec_primary_id()
                            == final(state).id@)
                    };
                    let unmoved = {
                        &&& final(state).view == old(state).view
                        &&& final(state).phase == old(state).phase
                        &&& final(state).working_block == old(state).working_block
                    };
                    &&& (old(state).mode == PbftMode::ViewChanging ==> {
                        &&& final(self).out() == old(self).out()
                        &&& (completion_quorum ==> completed)
                        &&& (!completion_quorum ==> r is Err && unmoved && final(state).mode
                            == PbftMode::ViewChanging)
                    })
                    &&& (old(state).mode == PbftMode::Normal ==> {
                        &&& (!bandwagon ==> r is Ok && unmoved && final(state).mode
                            == PbftMode::Normal && final(self).out() == old(self).out())
                        &&& (bandwagon ==> match stored_seal {
                            Some(sl) => {
                                &&& final(self).out() == old(self).out().push(
                                    HostActionView::Broadcast(
                                        PbftMessageType::ViewChange,
                                        crate::codec::enc_vc(
                                            crate::message::PbftViewChangeView {
                                                info: PbftMessageInfoView {
                                                    msg_type: PbftMessageType::ViewChange,
                                                    view: (old(state).view + 1) as u64,
                                                    seq_num: (old(state).seq_num - 1) as u64,
                                                    signer_id: old(state).id@,
                                                },
                                                seal: sl,
                                            },
                                        ),
                                    ),
                                )
                                &&& (completion_quorum ==> completed)
                                &&& (!completion_quorum ==> r is Err && unmoved
                                    && final(state).mode == PbftMode::ViewChanging)
                            },
                            None => r == Result::<(), PbftError>::Err(
                                PbftError::InternalError(InternalFault::MissingSeal),
                            ) && final(self).out() == old(self).out() && unmoved
                                && final(state).mode == PbftMode::ViewChanging,
                        })
                    })
                })
            },
    {
        let msg_type = msg.info.msg_type;
        match msg_type {
            PbftMessageType::PrePrepare => {
                let res = handlers::pre_prepare(state, &mut self.msg_log, &msg);
                match res {
                    Ok(_) => {},
                    Err(e) => {
                        let is_no_block_new = match e {
                            PbftError::NoBlockNew => true,
                            _ => false,
                        };
                        if is_no_block_new {
                            self.msg_log.push_backlog(msg);
                            return Ok(());
                        }
                        return Err(e);
                    },
                }
                let bres = self.broadcast_pre_prepare(&msg, state);
                match bres {
                    Ok(_) => {},
                    Err(e) => {
                        return Err(e);
                    },
                }
                Ok(())
            },
            PbftMessageType::Prepare => {
                let ares = self.msg_log.add_message(msg.clone(), state);
                match ares {
                    Ok(_) => {},
                    Err(e) => {
                        return Err(e);
                    },
                }
                if msg.info.seq_num == state.seq_num && self.msg_log.check_prepared(
                    &msg.info,
                    state.f,
                ) && !(state.phase == PbftPhase::Checking) {
                    let cres = self.check_blocks_if_not_checking(&msg, state);
                    match cres {
                        Ok(_) => {},
                        Err(e) => {
                            return Err(e);
                        },
                    }
                }
                Ok(())
            },
            PbftMessageType::Commit => {
                let ares = self.msg_log.add_message(msg.clone(), state);
                match ares {
                    Ok(_) => {},
                    Err(e) => {
                        return Err(e);
                    },
                }
                if msg.info.seq_num == state.seq_num && self.msg_log.check_committable(
                    &msg.info,
                    state.f,
                ) && state.phase == PbftPhase::Committing {
                    let cres = self.commit_block_if_committing(&msg, state);
                    match cres {
                        Ok(_) => {},
                        Err(e) => {
                            return Err(e);
                        },
                    }
                }
                Ok(())
            },
            PbftMessageType::ViewChange => {
                let ares = self.msg_log.add_message(msg.clone(), state);
                match ares {
                    Ok(_) => {},
                    Err(e) => {
                        return Err(e);
                    },
                }
                let pres = self.propose_view_change_if_enough_messages(&msg, state);
                match pres {
                    Ok(true) => {
                        return Ok(());
                    },
                    Ok(false) => {},
                    Err(e) => {
                        return Err(e);
                    },
                }
                let vres = handlers::view_change(state, &self.msg_log, &msg, now_ms);
                match vres {
                    Ok(_) => Ok(()),
                    Err(e) => Err(e),
                }
            },
            _ => Ok(()),
        }
    }

    // ---------- Publishing ----------

    /// The primary's periodic attempt to publish: with a summary from the
    /// host, finalize the block under construction — with an empty payload
    /// for the first block, and with a seal over the previous block's
    /// commits afterwards.  Nothing happens when this node is not the
    /// primary, is mid-cycle, or the host declined to summarize.
    pub fn try_publish(&mut self, summary: Option<Vec<u8>>, state: &mut PbftState) -> (r: Result<
        (),
        PbftError,
    >)
        requires
            old(self).inv(),
            old(state).inv(),
        ensures
            final(self).inv(),
            final(state).inv(),
            *final(state) == *old(state),
            final(self).msg_log == old(self).msg_log,
            !(old(state).spec_is_primary() && old(state).phase == PbftPhase::PrePreparing) ==> r
                is Ok && final(self).out() == old(self).out(),
            (old(state).spec_is_primary() && old(state).phase == PbftPhase::PrePreparing)
                ==> match summary {
                None => r is Ok && final(self).out() == old(self).out(),
                Some(sum) => if old(state).seq_num <= 1 {
                    r is Ok && final(self).out() == old(self).out().push(
                        HostActionView::FinalizeBlock(Seq::empty()),
                    )
                } else {
                    match r {
                        Ok(_) => exists|sel: Seq<ParsedMessageView>|
                            {
                                &&& #[trigger] seal_votes_selected(
                                    old(self).msg_log.msgs(),
                                    (old(state).seq_num - 1) as u64,
                                    sel,
                                )
                                &&& sel.len() >= 2 * (old(state).f as int)
                                &&& final(self).out().len() == old(self).out().len() + 1
                                &&& (final(self).out().last() matches HostActionView::FinalizeBlock(
                                    payload,
                                ) && sdec_seal(payload) == Some(seal_of(sel, sum@)))
                            },
                        Err(e) => {
                            &&& e == PbftError::InternalError(InternalFault::NotEnoughVotes)
                            &&& final(self).out() == old(self).out()
                            &&& forall|i: int|
                                0 <= i < old(self).msg_log.msgs().len() && vote_match(
                                    #[trigger] old(self).msg_log.msgs()[i],
                                    PbftMessageType::Commit,
                                    false,
                                    0,
                                    (old(state).seq_num - 1) as u64,
                                    false,
                                    Seq::empty(),
                                    false,
                                    Seq::empty(),
                                    true,
                                ) ==> vote_signer_set(
                                    old(self).msg_log.msgs(),
                                    PbftMessageType::Commit,
                                    false,
                                    0,
                                    (old(state).seq_num - 1) as u64,
                                    true,
                                    old(self).msg_log.msgs()[i].block.block_id,
                                    false,
                                    Seq::empty(),
                                    true,
                                ).len() < 2 * (old(state).f as int)
                        },
                    }
                },
            },
    {
        if !state.is_primary() || !(state.phase == PbftPhase::PrePreparing) {
            return Ok(());
        }
        let sum = match summary {
            Some(s) => s,
            None => {
                return Ok(());
            },
        };
        if state.seq_num <= 1 {
            let empty: Vec<u8> = Vec::new();
            self.outbox.push(HostAction::FinalizeBlock(empty));
            proof {
                assert(self.out() =~= old(self).out().push(
                    HostActionView::FinalizeBlock(Seq::empty()),
                ));
            }
            return Ok(());
        }
        let ghost sum_v = sum@;
        let data = match self.build_seal(state, sum) {
            Ok(d) => d,
            Err(e) => {
                return Err(e);
            },
        };
        let ghost data_v = data@;
        self.outbox.push(HostAction::FinalizeBlock(data));
        proof {
            assert(self.out() =~= old(self).out().push(HostActionView::FinalizeBlock(data_v)));
        }
        Ok(())
    }
}

/// A seal built from the log verifies: selected commit votes for one
/// block, at least `2 f` of them, from distinct signers that are all
/// peers of the sealed block other than its own signer, assemble — with
/// their verbatim header and message bytes — into a seal that satisfies
/// everything the verifier demands of the next block that carries it.
pub proof fn lemma_built_seal_verifies(
    msgs: Seq<ParsedMessageView>,
    s: u64,
    sel: Seq<ParsedMessageView>,
    summary: Seq<u8>,
    block: BlockView,
    peers: Seq<Seq<u8>>,
    f: u64,
)
    requires
        seal_votes_selected(msgs, s, sel),
        sel.len() >= 2 * (f as int),
        forall|k: int| 0 <= k < msgs.len() ==> pm_wf(#[trigger] msgs[k]),
        block.previous_id == sel[0].block.block_id,
        block.summary == summary,
        forall|k: int|
            0 <= k < sel.len() ==> (sdec_header_full((#[trigger] sel[k]).header_bytes)
                matches Some(h) && ecdsa_accepts(
                sel[k].header_signature,
                sha256_of(sel[k].header_bytes),
                h.signer_id,
            ) && sha512_of(sel[k].message_bytes) == h.content_sha512),
        forall|k: int|
            0 <= k < sel.len() ==> peers.contains((#[trigger] sel[k]).info.signer_id)
                && sel[k].info.signer_id != block.signer_id,
    ensures
        spec_seal_ok(seal_of(sel, summary), block, peers, f),
{
    let seal = seal_of(sel, summary);
    let votes = seal.previous_commit_votes;
    assert(votes.len() == sel.len());
    assert forall|k: int|
        0 <= k < votes.len() implies vote_ok(#[trigger] votes[k], seal.previous_id) && vote_voter(
        votes[k],
    ) == sel[k].info.signer_id by {
        assert(votes[k].message_bytes == sel[k].message_bytes);
        assert(votes[k].header_bytes == sel[k].header_bytes);
        assert(votes[k].header_signature == sel[k].header_signature);
        assert(msgs.contains(sel[k]));
        let w = choose|w: int| 0 <= w < msgs.len() && msgs[w] == sel[k];
        assert(pm_wf(msgs[w]));
        assert(sel[k].info.msg_type == PbftMessageType::Commit);
        assert(sdec_msg(sel[k].message_bytes) == Some(
            PbftMessageView { info: sel[k].info, block: sel[k].block },
        ));
        assert(sel[k].block.block_id == sel[0].block.block_id);
        let m = choose|m: PbftMessageView| sdec_msg(votes[k].message_bytes) == Some(m);
        assert(m == PbftMessageView { info: sel[k].info, block: sel[k].block });
    }
    let voters_seq = votes.map_values(|v: PbftSignedCommitVoteView| vote_voter(v));
    assert(voters_seq =~= sel.map_values(|m: ParsedMessageView| m.info.signer_id));
    assert forall|a: int, b: int|
        0 <= a < b < voters_seq.len() implies voters_seq[a] != voters_seq[b] by {
        assert(sel[a].info.signer_id != sel[b].info.signer_id);
    }
    voters_seq.unique_seq_to_set();
    assert(seal_voters(seal).len() == sel.len());
}

/// Pushing an element adds exactly it to the set of a sequence's values.
proof fn lemma_to_set_push(s: Seq<Seq<u8>>, x: Seq<u8>)
    ensures
        s.push(x).to_set() == s.to_set().insert(x),
{
    assert forall|y: Seq<u8>| s.push(x).to_set().contains(y) implies s.to_set().insert(x).contains(
        y,
    ) by {
        assert(s.push(x).contains(y));
        let w = choose|w: int| 0 <= w < s.push(x).len() && s.push(x)[w] == y;
        if w < s.len() {
            assert(s[w] == y);
            assert(s.contains(y));
        }
    }
    assert forall|y: Seq<u8>| s.to_set().insert(x).contains(y) implies s.push(x).to_set().contains(
        y,
    ) by {
        if y == x {
            assert(s.push(x)[s.len() as int] == x);
            assert(s.push(x).contains(y));
        } else {
            assert(s.to_set().contains(y));
            assert(s.contains(y));
            let w = choose|w: int| 0 <= w < s.len() && s[w] == y;
            assert(s.push(x)[w] == y);
            assert(s.push(x).contains(y));
        }
    }
    assert(s.push(x).to_set() =~= s.to_set().insert(x));
}

/// Every collected voter id is the voter named by some embedded vote.
proof fn lemma_voter_in_seal(s: PbftSealView, vs: Seq<Seq<u8>>, q: int)
    requires
        0 <= q < vs.len(),
        vs.to_set() == s.previous_commit_votes.map_values(
            |v: PbftSignedCommitVoteView| vote_voter(v),
        ).to_set(),
    ensures
        exists|j: int|
            0 <= j < s.previous_commit_votes.len() && vote_voter(
                #[trigger] s.previous_commit_votes[j],
            ) == vs[q],
{
    let vm = s.previous_commit_votes.map_values(|v: PbftSignedCommitVoteView| vote_voter(v));
    assert(vs.contains(vs[q]));
    assert(vs.to_set().contains(vs[q]));
    assert(vm.to_set().contains(vs[q]));
    assert(vm.contains(vs[q]));
    let j = choose|j: int| 0 <= j < vm.len() && vm[j] == vs[q];
    assert(vote_voter(s.previous_commit_votes[j]) == vs[q]);
}

/// Every byte string of `a` occurs in `b`.
fn peer_sets_equal(a: &Vec<PeerId>, b: &Vec<PeerId>) -> (r: bool)
    ensures
        r == forall|i: int|
            0 <= i < a@.len() ==> peers_view(b@).contains((#[trigger] a@[i])@),
{
    let n = a.len();
    let mut i: usize = 0;
    #[verifier::loop_isolation(false)]
    while i < n
        invariant
            n == a@.len(),
            0 <= i <= n,
            forall|k: int| 0 <= k < i ==> peers_view(b@).contains((#[trigger] a@[k])@),
        decreases n - i,
    {
        if !contains_bytes(b, &a[i]) {
            proof {
                assert(!peers_view(b@).contains(a@[i as int]@)) by {
                    if peers_view(b@).contains(a@[i as int]@) {
                        let w = choose|w: int|
                            0 <= w < peers_view(b@).len() && peers_view(b@)[w] == a@[i as int]@;
                        assert(b@[w]@ == a@[i as int]@);
                    }
                }
            }
            return false;
        }
        proof {
            let w = choose|w: int| 0 <= w < b@.len() && b@[w]@ == a@[i as int]@;
            assert(peers_view(b@)[w] == a@[i as int]@);
            assert(peers_view(b@).contains(a@[i as int]@));
        }
        i += 1;
    }
    true
}

} // verus!
