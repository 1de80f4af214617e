//! Pure transitions the node invokes on specific message kinds:
//! PrePrepare acceptance, Commit finalization, view-change completion, and
//! the forced view change.

use vstd::prelude::*;

use crate::action::HostAction;
use crate::action::HostActionView;
use crate::bytes::bytes_eq;
use crate::bytes::clone_bytes;
use crate::error::PbftError;
use crate::log::log_add;
use crate::log::vote_signer_set;
use crate::log::PbftLog;
use crate::message::PbftMessageInfo;
use crate::message::PbftMessageInfoView;
use crate::message::PbftMessageType;
use crate::message::PeerId;
use crate::parsed::pm_wf;
use crate::parsed::ParsedMessage;
use crate::parsed::ParsedMessageView;
use crate::state::next_phase;
use crate::state::PbftMode;
use crate::state::PbftPhase;
use crate::state::PbftState;
use crate::timing::TimeoutState;

verus! {

/// The sequence of host calls carried by an outbox.
pub open spec fn acts(v: Seq<HostAction>) -> Seq<HostActionView> {
    v.map_values(|a: HostAction| a@)
}

/// Message info assembled from its parts.
pub fn make_msg_info(
    msg_type: &PbftMessageType,
    view: u64,
    seq_num: u64,
    signer_id: PeerId,
) -> (r: PbftMessageInfo)
    ensures
        r@ == (PbftMessageInfoView { msg_type: *msg_type, view, seq_num, signer_id: signer_id@ }),
{
    PbftMessageInfo { msg_type: *msg_type, view, seq_num, signer_id }
}

/// The log holds a PrePrepare for `(v, s)` bound to a different block.
pub open spec fn conflicting_pre_prepare(
    msgs: Seq<ParsedMessageView>,
    v: u64,
    s: u64,
    bid: Seq<u8>,
) -> bool {
    exists|i: int|
        0 <= i < msgs.len() && (#[trigger] msgs[i]).info.msg_type == PbftMessageType::PrePrepare
            && msgs[i].info.view == v && msgs[i].info.seq_num == s && msgs[i].block.block_id != bid
}

/// The log holds a BlockNew for sequence number `s` and block `bid`.
pub open spec fn has_block_new(msgs: Seq<ParsedMessageView>, s: u64, bid: Seq<u8>) -> bool {
    exists|i: int|
        0 <= i < msgs.len() && (#[trigger] msgs[i]).info.msg_type == PbftMessageType::BlockNew
            && msgs[i].info.seq_num == s && msgs[i].block.block_id == bid
}

/// The id of the primary of view `v` among `peers`.
pub open spec fn primary_of_view(peers: Seq<Seq<u8>>, v: u64) -> Seq<u8> {
    peers[v as int % peers.len() as int]
}

/// Accept a PrePrepare: its signer must be the primary of its view, the
/// sequence number must not be bound to a different block, and the block
/// itself must already be known from a BlockNew — else the message waits
/// in the backlog.  On acceptance the message is stored and the node moves
/// from `PrePreparing` to `Preparing`.
#[verifier::rlimit(80)]
pub fn pre_prepare(state: &mut PbftState, msg_log: &mut PbftLog, message: &ParsedMessage) -> (r:
    Result<(), PbftError>)
    requires
        old(state).inv(),
        old(msg_log).inv(),
        pm_wf(message@),
    ensures
        PbftState::same_except_phase(old(state), final(state)),
        final(msg_log).inv(),
        final(msg_log).backlog_msgs() == old(msg_log).backlog_msgs(),
        final(msg_log).seals() == old(msg_log).seals(),
        ({
            let primary_ok = message@.info.signer_id == primary_of_view(
                old(state).spec_peers(),
                message@.info.view,
            );
            let conflict = conflicting_pre_prepare(
                old(msg_log).msgs(),
                message@.info.view,
                message@.info.seq_num,
                message@.block.block_id,
            );
            let known = has_block_new(
                old(msg_log).msgs(),
                message@.info.seq_num,
                message@.block.block_id,
            );
            match r {
                Ok(_) => {
                    &&& primary_ok
                    &&& !conflict
                    &&& known
                    &&& final(msg_log).msgs() == log_add(old(msg_log).msgs(), message@)
                    &&& final(state).phase == if next_phase(old(state).phase)
                        == PbftPhase::Preparing {
                        PbftPhase::Preparing
                    } else {
                        old(state).phase
                    }
                },
                Err(e) => {
                    &&& final(state).phase == old(state).phase
                    &&& final(msg_log).msgs() == old(msg_log).msgs()
                    &&& if !primary_ok || conflict {
                        e == PbftError::NotReadyForMessage
                    } else {
                        e == PbftError::NoBlockNew && !known
                    }
                },
            }
        }),
{
    let n_peers = state.peer_ids.len();
    let idx = (message.info.view % (n_peers as u64)) as usize;
    if !bytes_eq(&state.peer_ids[idx], &message.info.signer_id) {
        return Err(PbftError::NotReadyForMessage);
    }
    let existing = msg_log.get_messages_of_type_seq(
        &PbftMessageType::PrePrepare,
        message.info.seq_num,
    );
    let n = existing.len();
    let mut i: usize = 0;
    #[verifier::loop_isolation(false)]
    while i < n
        invariant
            n == existing@.len(),
            0 <= i <= n,
            forall|k: int|
                0 <= k < i ==> !((#[trigger] existing@[k]@).info.view == message@.info.view
                    && existing@[k]@.block.block_id != message@.block.block_id),
        decreases n - i,
    {
        if existing[i].info.view == message.info.view && !bytes_eq(
            &existing[i].block.block_id,
            &message.block.block_id,
        ) {
            proof {
                assert(msg_log.msgs().contains(existing@[i as int]@));
                let w = choose|w: int|
                    0 <= w < msg_log.msgs().len() && msg_log.msgs()[w] == existing@[i as int]@;
                assert(msg_log.msgs()[w].info.msg_type == PbftMessageType::PrePrepare);
            }
            return Err(PbftError::NotReadyForMessage);
        }
        i += 1;
    }
    proof {
        assert(!conflicting_pre_prepare(
            msg_log.msgs(),
            message@.info.view,
            message@.info.seq_num,
            message@.block.block_id,
        )) by {
            if conflicting_pre_prepare(
                msg_log.msgs(),
                message@.info.view,
                message@.info.seq_num,
                message@.block.block_id,
            ) {
                let w = choose|w: int|
                    0 <= w < msg_log.msgs().len() && (#[trigger] msg_log.msgs()[w]).info.msg_type
                        == PbftMessageType::PrePrepare && msg_log.msgs()[w].info.view
                        == message@.info.view && msg_log.msgs()[w].info.seq_num
                        == message@.info.seq_num && msg_log.msgs()[w].block.block_id
                        != message@.block.block_id;
                let km = existing@.map_values(|m: ParsedMessage| m@);
                assert(km.contains(msg_log.msgs()[w]));
                let k = choose|k: int| 0 <= k < km.len() && km[k] == msg_log.msgs()[w];
                assert(existing@[k]@ == msg_log.msgs()[w]);
            }
        }
    }
    let block_new_msgs = msg_log.get_messages_of_type_seq(
        &PbftMessageType::BlockNew,
        message.info.seq_num,
    );
    let nb = block_new_msgs.len();
    let mut j: usize = 0;
    let mut known = false;
    #[verifier::loop_isolation(false)]
    while j < nb
        invariant
            nb == block_new_msgs@.len(),
            0 <= j <= nb,
            known ==> has_block_new(msg_log.msgs(), message@.info.seq_num, message@.block.block_id),
            !known ==> forall|k: int|
                0 <= k < j ==> (#[trigger] block_new_msgs@[k]@).block.block_id
                    != message@.block.block_id,
        decreases nb - j,
    {
        if bytes_eq(&block_new_msgs[j].block.block_id, &message.block.block_id) {
            proof {
                assert(msg_log.msgs().contains(block_new_msgs@[j as int]@));
                let w = choose|w: int|
                    0 <= w < msg_log.msgs().len() && msg_log.msgs()[w] == block_new_msgs@[j as int]@;
                assert(has_block_new(
                    msg_log.msgs(),
                    message@.info.seq_num,
                    message@.block.block_id,
                ));
            }
            known = true;
        }
        j += 1;
    }
    if !known {
        proof {
            assert(!has_block_new(
                msg_log.msgs(),
                message@.info.seq_num,
                message@.block.block_id,
            )) by {
                if has_block_new(msg_log.msgs(), message@.info.seq_num, message@.block.block_id) {
                    let w = choose|w: int|
                        0 <= w < msg_log.msgs().len() && (#[trigger] msg_log.msgs()[w]).info.msg_type
                            == PbftMessageType::BlockNew && msg_log.msgs()[w].info.seq_num
                            == message@.info.seq_num && msg_log.msgs()[w].block.block_id
                            == message@.block.block_id;
                    let km = block_new_msgs@.map_values(|m: ParsedMessage| m@);
                    assert(km.contains(msg_log.msgs()[w]));
                    let k = choose|k: int| 0 <= k < km.len() && km[k] == msg_log.msgs()[w];
                    assert(block_new_msgs@[k]@ == msg_log.msgs()[w]);
                }
            }
        }
        return Err(PbftError::NoBlockNew);
    }
    let res = msg_log.add_message(message.clone(), state);
    match res {
        Ok(_) => {
            state.switch_phase(PbftPhase::Preparing);
            Ok(())
        },
        Err(e) => Err(e),
    }
}

/// Finalize a commit: ask the host to commit the message's block and move
/// to `Finished` — the phase moves only when `Finished` is next in the
/// cycle.
pub fn commit(state: &mut PbftState, actions: &mut Vec<HostAction>, message: &ParsedMessage) -> (r:
    Result<(), PbftError>)
    ensures
        r is Ok,
        acts(final(actions)@) == acts(old(actions)@).push(
            HostActionView::CommitBlock(message@.block.block_id),
        ),
        PbftState::same_except_phase(old(state), final(state)),
        final(state).phase == if next_phase(old(state).phase) == PbftPhase::Finished {
            PbftPhase::Finished
        } else {
            old(state).phase
        },
{
    let block_id = clone_bytes(&message.block.block_id);
    actions.push(HostAction::CommitBlock(block_id));
    proof {
        assert(acts(actions@) =~= acts(old(actions)@).push(
            HostActionView::CommitBlock(message@.block.block_id),
        ));
    }
    state.switch_phase(PbftPhase::Finished);
    Ok(())
}

/// Complete a view change: once `2 f + 1` ViewChange messages for the same
/// new view are logged, adopt that view, re-derive the role, and discard
/// any in-flight work; below the quorum nothing changes.
#[verifier::rlimit(80)]
pub fn view_change(
    state: &mut PbftState,
    msg_log: &PbftLog,
    message: &ParsedMessage,
    now_ms: u64,
) -> (r: Result<(), PbftError>)
    requires
        old(state).inv(),
    ensures
        final(state).inv(),
        final(state).id == old(state).id,
        final(state).seq_num == old(state).seq_num,
        final(state).peer_ids == old(state).peer_ids,
        final(state).f == old(state).f,
        final(state).forced_view_change_period == old(state).forced_view_change_period,
        ({
            let quorum = vote_signer_set(
                msg_log.msgs(),
                PbftMessageType::ViewChange,
                true,
                message@.info.view,
                message@.info.seq_num,
                false,
                message@.block.block_id,
                false,
                Seq::empty(),
                false,
            ).len() >= 2 * (old(state).f as int) + 1;
            match r {
                Ok(_) => {
                    &&& quorum
                    &&& final(state).view == message@.info.view
                    &&& final(state).mode == PbftMode::Normal
                    &&& final(state).phase == PbftPhase::PrePreparing
                    &&& final(state).working_block is None
                    &&& final(state).faulty_primary_timeout.spec_state() == TimeoutState::Active
                    &&& final(state).faulty_primary_timeout.spec_start_ms() == now_ms
                    &&& (final(state).spec_is_primary() <==> final(state).spec_primary_id()
                        == final(state).id@)
                },
                Err(e) => {
                    &&& !quorum
                    &&& *final(state) == *old(state)
                    &&& (e matches PbftError::WrongNumMessages(tt, _, _)
                        && tt == PbftMessageType::ViewChange)
                },
            }
        }),
{
    let np = state.peer_ids.len();
    proof {
        lemma_quorum_fits(np as int, state.f);
    }
    let needed: u64 = 2 * state.f + 1;
    let count = msg_log.count_required_msgs(&PbftMessageType::ViewChange, message, false);
    if (count as u128) < (needed as u128) {
        return Err(
            PbftError::WrongNumMessages(PbftMessageType::ViewChange, needed, count as u64),
        );
    }
    state.view = message.info.view;
    let idx = (state.view % (state.peer_ids.len() as u64)) as usize;
    if bytes_eq(&state.peer_ids[idx], &state.id) {
        state.upgrade_role();
    } else {
        state.downgrade_role();
    }
    state.discard_current_block(now_ms);
    Ok(())
}

/// Unconditionally perform the transition used at the end of a view
/// change: advance the view by one, re-derive the role, and reset the
/// working state.
pub fn force_view_change(state: &mut PbftState, now_ms: u64)
    requires
        old(state).inv(),
        old(state).view < u64::MAX,
    ensures
        final(state).inv(),
        final(state).view == old(state).view + 1,
        final(state).mode == PbftMode::Normal,
        final(state).phase == PbftPhase::PrePreparing,
        final(state).working_block is None,
        final(state).id == old(state).id,
        final(state).seq_num == old(state).seq_num,
        final(state).peer_ids == old(state).peer_ids,
        final(state).f == old(state).f,
        final(state).forced_view_change_period == old(state).forced_view_change_period,
        final(state).faulty_primary_timeout.spec_state() == TimeoutState::Active,
        final(state).faulty_primary_timeout.spec_start_ms() == now_ms,
        final(state).faulty_primary_timeout.spec_duration_ms() == old(
            state,
        ).faulty_primary_timeout.spec_duration_ms(),
        (final(state).spec_is_primary() <==> final(state).spec_primary_id() == final(state).id@),
{
    state.view = state.view + 1;
    let idx = (state.view % (state.peer_ids.len() as u64)) as usize;
    if bytes_eq(&state.peer_ids[idx], &state.id) {
        state.upgrade_role();
    } else {
        state.downgrade_role();
    }
    state.discard_current_block(now_ms);
}

/// With the fault bound derived from the peer count, the quorum size
/// `2 f + 1` fits comfortably in a machine word.
pub proof fn lemma_quorum_fits(n: int, f: u64)
    requires
        4 <= n <= usize::MAX,
        f == crate::state::spec_f(n),
    ensures
        2 * (f as int) + 1 <= u64::MAX,
{
    assert(2 * ((n - 1) / 3) + 1 <= u64::MAX) by (nonlinear_arith)
        requires
            4 <= n <= 0xFFFF_FFFF_FFFF_FFFFu64,
    ;
}

} // verus!
