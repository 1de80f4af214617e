//! The message log: every consensus message this node has received or
//! produced, the backlog of messages that arrived before their
//! prerequisites, and the consensus seals it has built or accepted.
//!
//! The quorum predicates count *distinct signers* — [`vote_signer_set`] is a
//! set of signer ids — so a peer repeating a message can never be counted
//! twice (see [`lemma_duplicate_prepare_not_counted`] and
//! [`lemma_duplicate_commit_not_counted`]), and a quorum once reached is
//! never lost by receiving more messages
//! ([`lemma_committable_monotonic`]).

use vstd::prelude::*;

use vstd::seq_lib::group_seq_properties;
use vstd::set_lib::group_set_properties;

use crate::bytes::bytes_eq;
use crate::error::InternalFault;
use crate::error::PbftError;
use crate::message::BlockId;
use crate::message::PbftMessageInfo;
use crate::message::PbftMessageType;
use crate::message::PbftSeal;
use crate::message::PbftSealView;
use crate::parsed::pm_wf;
use crate::parsed::ParsedMessage;
use crate::parsed::ParsedMessageView;
use crate::state::PbftState;

verus! {

broadcast use group_seq_properties, group_set_properties;

/// How many sequence numbers of history the log retains behind the last
/// committed block: enough to build the next seal and serve catch-up.
pub const LOG_RETENTION: u64 = 5;

// ---------- Matching and counting votes ----------

/// Whether a logged message counts as a vote under the given filter: its
/// kind, sequence number, and optionally its view and block id must match;
/// optionally one signer (the primary) is excluded, and optionally the
/// node's own messages are skipped.
pub open spec fn vote_match(
    m: ParsedMessageView,
    t: PbftMessageType,
    use_view: bool,
    v: u64,
    s: u64,
    use_bid: bool,
    bid: Seq<u8>,
    use_excl: bool,
    excl: Seq<u8>,
    skip_self: bool,
) -> bool {
    &&& m.info.msg_type == t
    &&& (use_view ==> m.info.view == v)
    &&& m.info.seq_num == s
    &&& (use_bid ==> m.block.block_id == bid)
    &&& (use_excl ==> m.info.signer_id != excl)
    &&& (skip_self ==> !m.from_self)
}

/// The distinct signers of the messages that count under the filter.
pub open spec fn vote_signer_set(
    msgs: Seq<ParsedMessageView>,
    t: PbftMessageType,
    use_view: bool,
    v: u64,
    s: u64,
    use_bid: bool,
    bid: Seq<u8>,
    use_excl: bool,
    excl: Seq<u8>,
    skip_self: bool,
) -> Set<Seq<u8>> {
    Set::new(
        |sid: Seq<u8>|
            exists|i: int|
                0 <= i < msgs.len() && vote_match(
                    #[trigger] msgs[i],
                    t,
                    use_view,
                    v,
                    s,
                    use_bid,
                    bid,
                    use_excl,
                    excl,
                    skip_self,
                ) && msgs[i].info.signer_id == sid,
    )
}

/// Index `i` holds a PrePrepare for `(v, s)`.
pub open spec fn is_pre_prepare_at(
    msgs: Seq<ParsedMessageView>,
    i: int,
    v: u64,
    s: u64,
) -> bool {
    &&& 0 <= i < msgs.len()
    &&& msgs[i].info.msg_type == PbftMessageType::PrePrepare
    &&& msgs[i].info.view == v
    &&& msgs[i].info.seq_num == s
}

/// The distinct signers, other than the primary that sent the PrePrepare,
/// of Prepare messages matching `(v, s, bid)`.
pub open spec fn prepare_vote_set(
    msgs: Seq<ParsedMessageView>,
    v: u64,
    s: u64,
    bid: Seq<u8>,
    primary: Seq<u8>,
) -> Set<Seq<u8>> {
    vote_signer_set(msgs, PbftMessageType::Prepare, true, v, s, true, bid, true, primary, false)
}

/// The distinct signers of Commit messages matching `(v, s, bid)`.
pub open spec fn commit_vote_set(
    msgs: Seq<ParsedMessageView>,
    v: u64,
    s: u64,
    bid: Seq<u8>,
) -> Set<Seq<u8>> {
    vote_signer_set(
        msgs,
        PbftMessageType::Commit,
        true,
        v,
        s,
        true,
        bid,
        false,
        Seq::empty(),
        false,
    )
}

/// The log holds a PrePrepare for `(v, s)` and at least `2 f` Prepare
/// messages from distinct non-primary signers for the same block; the
/// PrePrepare supplies the implicit last vote.
pub open spec fn spec_prepared(msgs: Seq<ParsedMessageView>, v: u64, s: u64, f: u64) -> bool {
    exists|i: int|
        #[trigger] is_pre_prepare_at(msgs, i, v, s) && prepare_vote_set(
            msgs,
            v,
            s,
            msgs[i].block.block_id,
            msgs[i].info.signer_id,
        ).len() >= 2 * (f as int)
}

/// Prepared, and in addition at least `2 f + 1` Commit messages from
/// distinct signers for the same `(view, seq, block id)`.
pub open spec fn spec_committable(msgs: Seq<ParsedMessageView>, v: u64, s: u64, f: u64) -> bool {
    exists|i: int|
        #[trigger] is_pre_prepare_at(msgs, i, v, s) && prepare_vote_set(
            msgs,
            v,
            s,
            msgs[i].block.block_id,
            msgs[i].info.signer_id,
        ).len() >= 2 * (f as int) && commit_vote_set(
            msgs,
            v,
            s,
            msgs[i].block.block_id,
        ).len() >= 2 * (f as int) + 1
}

/// The log after storing `m`: unchanged when an exact duplicate is
/// already present, else extended by `m`.
pub open spec fn log_add(msgs: Seq<ParsedMessageView>, m: ParsedMessageView) -> Seq<
    ParsedMessageView,
> {
    if exists|i: int| 0 <= i < msgs.len() && #[trigger] msgs[i] == m {
        msgs
    } else {
        msgs.push(m)
    }
}

// ---------- Lemmas about vote counting ----------

/// Counting votes over a prefix grows by at most the one new signer.
pub proof fn lemma_vote_set_push(
    msgs: Seq<ParsedMessageView>,
    m: ParsedMessageView,
    t: PbftMessageType,
    use_view: bool,
    v: u64,
    s: u64,
    use_bid: bool,
    bid: Seq<u8>,
    use_excl: bool,
    excl: Seq<u8>,
    skip_self: bool,
)
    ensures
        vote_signer_set(msgs.push(m), t, use_view, v, s, use_bid, bid, use_excl, excl, skip_self)
            == if vote_match(m, t, use_view, v, s, use_bid, bid, use_excl, excl, skip_self) {
            vote_signer_set(msgs, t, use_view, v, s, use_bid, bid, use_excl, excl, skip_self).insert(
                m.info.signer_id,
            )
        } else {
            vote_signer_set(msgs, t, use_view, v, s, use_bid, bid, use_excl, excl, skip_self)
        },
{
    let base = vote_signer_set(msgs, t, use_view, v, s, use_bid, bid, use_excl, excl, skip_self);
    let pushed = vote_signer_set(
        msgs.push(m),
        t,
        use_view,
        v,
        s,
        use_bid,
        bid,
        use_excl,
        excl,
        skip_self,
    );
    assert forall|sid: Seq<u8>| pushed.contains(sid) implies (base.contains(sid) || (vote_match(
        m,
        t,
        use_view,
        v,
        s,
        use_bid,
        bid,
        use_excl,
        excl,
        skip_self,
    ) && sid == m.info.signer_id)) by {
        let i = choose|i: int|
            0 <= i < msgs.push(m).len() && vote_match(
                #[trigger] msgs.push(m)[i],
                t,
                use_view,
                v,
                s,
                use_bid,
                bid,
                use_excl,
                excl,
                skip_self,
            ) && msgs.push(m)[i].info.signer_id == sid;
        if i < msgs.len() {
            assert(msgs.push(m)[i] == msgs[i]);
            assert(base.contains(sid));
        } else {
            assert(msgs.push(m)[i] == m);
        }
    }
    assert forall|sid: Seq<u8>| base.contains(sid) implies pushed.contains(sid) by {
        let i = choose|i: int|
            0 <= i < msgs.len() && vote_match(
                #[trigger] msgs[i],
                t,
                use_view,
                v,
                s,
                use_bid,
                bid,
                use_excl,
                excl,
                skip_self,
            ) && msgs[i].info.signer_id == sid;
        assert(msgs.push(m)[i] == msgs[i]);
    }
    if vote_match(m, t, use_view, v, s, use_bid, bid, use_excl, excl, skip_self) {
        assert(msgs.push(m)[msgs.len() as int] == m);
        assert(pushed.contains(m.info.signer_id));
        assert(pushed =~= base.insert(m.info.signer_id));
    } else {
        assert(pushed =~= base);
    }
}

/// Every vote-signer set is finite and no larger than the log.
pub proof fn lemma_vote_set_finite(
    msgs: Seq<ParsedMessageView>,
    t: PbftMessageType,
    use_view: bool,
    v: u64,
    s: u64,
    use_bid: bool,
    bid: Seq<u8>,
    use_excl: bool,
    excl: Seq<u8>,
    skip_self: bool,
)
    ensures
        vote_signer_set(msgs, t, use_view, v, s, use_bid, bid, use_excl, excl, skip_self).finite(),
        vote_signer_set(msgs, t, use_view, v, s, use_bid, bid, use_excl, excl, skip_self).len()
            <= msgs.len(),
    decreases msgs.len(),
{
    if msgs.len() == 0 {
        assert(vote_signer_set(msgs, t, use_view, v, s, use_bid, bid, use_excl, excl, skip_self)
            =~= Set::<Seq<u8>>::empty());
    } else {
        let prefix = msgs.drop_last();
        lemma_vote_set_finite(prefix, t, use_view, v, s, use_bid, bid, use_excl, excl, skip_self);
        lemma_vote_set_push(prefix, msgs.last(), t, use_view, v, s, use_bid, bid, use_excl, excl, skip_self);
        assert(prefix.push(msgs.last()) =~= msgs);
    }
}

/// A signer who already voted adds nothing when voting again: the signer
/// set, and with it the quorum count, is unchanged.
pub proof fn lemma_duplicate_vote_not_counted(
    msgs: Seq<ParsedMessageView>,
    m: ParsedMessageView,
    t: PbftMessageType,
    use_view: bool,
    v: u64,
    s: u64,
    use_bid: bool,
    bid: Seq<u8>,
    use_excl: bool,
    excl: Seq<u8>,
    skip_self: bool,
)
    requires
        vote_signer_set(msgs, t, use_view, v, s, use_bid, bid, use_excl, excl, skip_self).contains(
            m.info.signer_id,
        ),
    ensures
        vote_signer_set(msgs.push(m), t, use_view, v, s, use_bid, bid, use_excl, excl, skip_self)
            == vote_signer_set(msgs, t, use_view, v, s, use_bid, bid, use_excl, excl, skip_self),
{
    let base = vote_signer_set(msgs, t, use_view, v, s, use_bid, bid, use_excl, excl, skip_self);
    lemma_vote_set_push(msgs, m, t, use_view, v, s, use_bid, bid, use_excl, excl, skip_self);
    if vote_match(m, t, use_view, v, s, use_bid, bid, use_excl, excl, skip_self) {
        assert(base.insert(m.info.signer_id) =~= base);
    }
}

/// A repeated Prepare from a signer already counted leaves the prepared
/// predicate exactly as it was.
pub proof fn lemma_duplicate_prepare_not_counted(
    msgs: Seq<ParsedMessageView>,
    m: ParsedMessageView,
    v: u64,
    s: u64,
    f: u64,
)
    requires
        m.info.msg_type == PbftMessageType::Prepare,
        exists|i: int|
            0 <= i < msgs.len() && #[trigger] msgs[i].info == m.info && msgs[i].block.block_id
                == m.block.block_id,
    ensures
        spec_prepared(msgs.push(m), v, s, f) == spec_prepared(msgs, v, s, f),
{
    let j = choose|i: int|
        0 <= i < msgs.len() && #[trigger] msgs[i].info == m.info && msgs[i].block.block_id
            == m.block.block_id;
    if spec_prepared(msgs, v, s, f) {
        let i = choose|i: int|
            #[trigger] is_pre_prepare_at(msgs, i, v, s) && prepare_vote_set(
                msgs,
                v,
                s,
                msgs[i].block.block_id,
                msgs[i].info.signer_id,
            ).len() >= 2 * (f as int);
        let bid = msgs[i].block.block_id;
        let primary = msgs[i].info.signer_id;
        assert(msgs.push(m)[i] == msgs[i]);
        lemma_prepare_set_unchanged(msgs, m, j, v, s, bid, primary);
        assert(is_pre_prepare_at(msgs.push(m), i, v, s) && prepare_vote_set(
            msgs.push(m),
            v,
            s,
            msgs.push(m)[i].block.block_id,
            msgs.push(m)[i].info.signer_id,
        ).len() >= 2 * (f as int));
        assert(spec_prepared(msgs.push(m), v, s, f));
    }
    if spec_prepared(msgs.push(m), v, s, f) {
        let i = choose|i: int|
            #[trigger] is_pre_prepare_at(msgs.push(m), i, v, s) && prepare_vote_set(
                msgs.push(m),
                v,
                s,
                msgs.push(m)[i].block.block_id,
                msgs.push(m)[i].info.signer_id,
            ).len() >= 2 * (f as int);
        assert(i < msgs.len()) by {
            if i == msgs.len() {
                assert(msgs.push(m)[i] == m);
            }
        }
        assert(msgs.push(m)[i] == msgs[i]);
        let bid = msgs[i].block.block_id;
        let primary = msgs[i].info.signer_id;
        lemma_prepare_set_unchanged(msgs, m, j, v, s, bid, primary);
        assert(is_pre_prepare_at(msgs, i, v, s) && prepare_vote_set(
            msgs,
            v,
            s,
            msgs[i].block.block_id,
            msgs[i].info.signer_id,
        ).len() >= 2 * (f as int));
        assert(spec_prepared(msgs, v, s, f));
    }
}

/// Adding a Prepare whose signer already sent the same Prepare leaves
/// every Prepare-counting set unchanged.
proof fn lemma_prepare_set_unchanged(
    msgs: Seq<ParsedMessageView>,
    m: ParsedMessageView,
    j: int,
    v: u64,
    s: u64,
    bid: Seq<u8>,
    primary: Seq<u8>,
)
    requires
        m.info.msg_type == PbftMessageType::Prepare,
        0 <= j < msgs.len(),
        msgs[j].info == m.info,
        msgs[j].block.block_id == m.block.block_id,
    ensures
        prepare_vote_set(msgs.push(m), v, s, bid, primary) == prepare_vote_set(
            msgs,
            v,
            s,
            bid,
            primary,
        ),
{
    lemma_vote_set_push(msgs, m, PbftMessageType::Prepare, true, v, s, true, bid, true, primary, false);
    if vote_match(m, PbftMessageType::Prepare, true, v, s, true, bid, true, primary, false) {
        assert(vote_match(
            msgs[j],
            PbftMessageType::Prepare,
            true,
            v,
            s,
            true,
            bid,
            true,
            primary,
            false,
        ));
        assert(prepare_vote_set(msgs, v, s, bid, primary).contains(m.info.signer_id));
        assert(prepare_vote_set(msgs, v, s, bid, primary).insert(m.info.signer_id)
            =~= prepare_vote_set(msgs, v, s, bid, primary));
    }
}

/// A repeated Commit from a signer already counted leaves the committable
/// predicate exactly as it was.
pub proof fn lemma_duplicate_commit_not_counted(
    msgs: Seq<ParsedMessageView>,
    m: ParsedMessageView,
    v: u64,
    s: u64,
    f: u64,
)
    requires
        m.info.msg_type == PbftMessageType::Commit,
        exists|i: int|
            0 <= i < msgs.len() && #[trigger] msgs[i].info == m.info && msgs[i].block.block_id
                == m.block.block_id,
    ensures
        spec_committable(msgs.push(m), v, s, f) == spec_committable(msgs, v, s, f),
{
    let j = choose|i: int|
        0 <= i < msgs.len() && #[trigger] msgs[i].info == m.info && msgs[i].block.block_id
            == m.block.block_id;
    if spec_committable(msgs, v, s, f) {
        let i = choose|i: int|
            #[trigger] is_pre_prepare_at(msgs, i, v, s) && prepare_vote_set(
                msgs,
                v,
                s,
                msgs[i].block.block_id,
                msgs[i].info.signer_id,
            ).len() >= 2 * (f as int) && commit_vote_set(
                msgs,
                v,
                s,
                msgs[i].block.block_id,
            ).len() >= 2 * (f as int) + 1;
        let bid = msgs[i].block.block_id;
        let primary = msgs[i].info.signer_id;
        assert(msgs.push(m)[i] == msgs[i]);
        lemma_commit_sets_unchanged(msgs, m, j, v, s, bid, primary);
        assert(is_pre_prepare_at(msgs.push(m), i, v, s) && prepare_vote_set(
            msgs.push(m),
            v,
            s,
            msgs.push(m)[i].block.block_id,
            msgs.push(m)[i].info.signer_id,
        ).len() >= 2 * (f as int) && commit_vote_set(
            msgs.push(m),
            v,
            s,
            msgs.push(m)[i].block.block_id,
        ).len() >= 2 * (f as int) + 1);
        assert(spec_committable(msgs.push(m), v, s, f));
    }
    if spec_committable(msgs.push(m), v, s, f) {
        let i = choose|i: int|
            #[trigger] is_pre_prepare_at(msgs.push(m), i, v, s) && prepare_vote_set(
                msgs.push(m),
                v,
                s,
                msgs.push(m)[i].block.block_id,
                msgs.push(m)[i].info.signer_id,
            ).len() >= 2 * (f as int) && commit_vote_set(
                msgs.push(m),
                v,
                s,
                msgs.push(m)[i].block.block_id,
            ).len() >= 2 * (f as int) + 1;
        assert(i < msgs.len()) by {
            if i == msgs.len() {
                assert(msgs.push(m)[i] == m);
            }
        }
        assert(msgs.push(m)[i] == msgs[i]);
        let bid = msgs[i].block.block_id;
        let primary = msgs[i].info.signer_id;
        lemma_commit_sets_unchanged(msgs, m, j, v, s, bid, primary);
        assert(is_pre_prepare_at(msgs, i, v, s) && prepare_vote_set(
            msgs,
            v,
            s,
            msgs[i].block.block_id,
            msgs[i].info.signer_id,
        ).len() >= 2 * (f as int) && commit_vote_set(
            msgs,
            v,
            s,
            msgs[i].block.block_id,
        ).len() >= 2 * (f as int) + 1);
        assert(spec_committable(msgs, v, s, f));
    }
}

/// Adding a Commit whose signer already sent the same Commit leaves both
/// counting sets unchanged.
proof fn lemma_commit_sets_unchanged(
    msgs: Seq<ParsedMessageView>,
    m: ParsedMessageView,
    j: int,
    v: u64,
    s: u64,
    bid: Seq<u8>,
    primary: Seq<u8>,
)
    requires
        m.info.msg_type == PbftMessageType::Commit,
        0 <= j < msgs.len(),
        msgs[j].info == m.info,
        msgs[j].block.block_id == m.block.block_id,
    ensures
        prepare_vote_set(msgs.push(m), v, s, bid, primary) == prepare_vote_set(
            msgs,
            v,
            s,
            bid,
            primary,
        ),
        commit_vote_set(msgs.push(m), v, s, bid) == commit_vote_set(msgs, v, s, bid),
{
    lemma_vote_set_push(msgs, m, PbftMessageType::Prepare, true, v, s, true, bid, true, primary, false);
    lemma_vote_set_push(
        msgs,
        m,
        PbftMessageType::Commit,
        true,
        v,
        s,
        true,
        bid,
        false,
        Seq::empty(),
        false,
    );
    if vote_match(m, PbftMessageType::Commit, true, v, s, true, bid, false, Seq::empty(), false) {
        assert(vote_match(
            msgs[j],
            PbftMessageType::Commit,
            true,
            v,
            s,
            true,
            bid,
            false,
            Seq::empty(),
            false,
        ));
        assert(commit_vote_set(msgs, v, s, bid).contains(m.info.signer_id));
        assert(commit_vote_set(msgs, v, s, bid).insert(m.info.signer_id) =~= commit_vote_set(
            msgs,
            v,
            s,
            bid,
        ));
    }
}

/// A prepared quorum once reached is never lost by receiving more
/// messages.
pub proof fn lemma_prepared_monotonic(
    msgs: Seq<ParsedMessageView>,
    m: ParsedMessageView,
    v: u64,
    s: u64,
    f: u64,
)
    requires
        spec_prepared(msgs, v, s, f),
    ensures
        spec_prepared(msgs.push(m), v, s, f),
{
    let i = choose|i: int|
        #[trigger] is_pre_prepare_at(msgs, i, v, s) && prepare_vote_set(
            msgs,
            v,
            s,
            msgs[i].block.block_id,
            msgs[i].info.signer_id,
        ).len() >= 2 * (f as int);
    let bid = msgs[i].block.block_id;
    let primary = msgs[i].info.signer_id;
    assert(msgs.push(m)[i] == msgs[i]);
    assert(is_pre_prepare_at(msgs.push(m), i, v, s));
    lemma_vote_set_finite(msgs, PbftMessageType::Prepare, true, v, s, true, bid, true, primary, false);
    lemma_vote_set_push(msgs, m, PbftMessageType::Prepare, true, v, s, true, bid, true, primary, false);
    assert(prepare_vote_set(msgs.push(m), v, s, bid, primary).len() >= prepare_vote_set(
        msgs,
        v,
        s,
        bid,
        primary,
    ).len());
}

/// A quorum once reached is never lost: adding any message — in
/// particular another Commit — preserves the committable predicate.
pub proof fn lemma_committable_monotonic(
    msgs: Seq<ParsedMessageView>,
    m: ParsedMessageView,
    v: u64,
    s: u64,
    f: u64,
)
    requires
        spec_committable(msgs, v, s, f),
    ensures
        spec_committable(msgs.push(m), v, s, f),
{
    let i = choose|i: int|
        #[trigger] is_pre_prepare_at(msgs, i, v, s) && prepare_vote_set(
            msgs,
            v,
            s,
            msgs[i].block.block_id,
            msgs[i].info.signer_id,
        ).len() >= 2 * (f as int) && commit_vote_set(
            msgs,
            v,
            s,
            msgs[i].block.block_id,
        ).len() >= 2 * (f as int) + 1;
    let bid = msgs[i].block.block_id;
    let primary = msgs[i].info.signer_id;
    assert(msgs.push(m)[i] == msgs[i]);
    assert(is_pre_prepare_at(msgs.push(m), i, v, s));
    lemma_vote_set_finite(msgs, PbftMessageType::Prepare, true, v, s, true, bid, true, primary, false);
    lemma_vote_set_finite(
        msgs,
        PbftMessageType::Commit,
        true,
        v,
        s,
        true,
        bid,
        false,
        Seq::empty(),
        false,
    );
    lemma_vote_set_push(msgs, m, PbftMessageType::Prepare, true, v, s, true, bid, true, primary, false);
    lemma_vote_set_push(
        msgs,
        m,
        PbftMessageType::Commit,
        true,
        v,
        s,
        true,
        bid,
        false,
        Seq::empty(),
        false,
    );
    let p0 = prepare_vote_set(msgs, v, s, bid, primary);
    let c0 = commit_vote_set(msgs, v, s, bid);
    assert(prepare_vote_set(msgs.push(m), v, s, bid, primary).len() >= p0.len());
    assert(commit_vote_set(msgs.push(m), v, s, bid).len() >= c0.len());
}

/// Well-formedness of every element carries across equal sequences.
proof fn lemma_wf_seq_eq(a: Seq<ParsedMessageView>, b: Seq<ParsedMessageView>)
    requires
        a =~= b,
        forall|i: int| 0 <= i < a.len() ==> pm_wf(#[trigger] a[i]),
    ensures
        forall|i: int| 0 <= i < b.len() ==> pm_wf(#[trigger] b[i]),
{
    assert forall|i: int| 0 <= i < b.len() implies pm_wf(#[trigger] b[i]) by {
        assert(b[i] == a[i]);
        assert(pm_wf(a[i]));
    }
}

// ---------- The log itself ----------

/// One stored seal: the block it arrived with, the sequence number it was
/// stored under, and the seal.
struct SealEntry {
    block_id: BlockId,
    seq: u64,
    seal: PbftSeal,
}

/// The stored seal for `seq`: the most recently added entry under that
/// sequence number.
pub open spec fn last_seal_for(
    seals: Seq<(Seq<u8>, u64, PbftSealView)>,
    seq: u64,
) -> Option<PbftSealView>
    decreases seals.len(),
{
    if seals.len() == 0 {
        None
    } else if seals.last().1 == seq {
        Some(seals.last().2)
    } else {
        last_seal_for(seals.drop_last(), seq)
    }
}

/// The append-only store of consensus messages, the backlog of deferred
/// messages, and the seals this node has built or accepted.
pub struct PbftLog {
    messages: Vec<ParsedMessage>,
    backlog: Vec<ParsedMessage>,
    seals: Vec<SealEntry>,
}

impl PbftLog {
    /// The logged messages, in arrival order.
    pub closed spec fn msgs(&self) -> Seq<ParsedMessageView> {
        self.messages@.map_values(|m: ParsedMessage| m@)
    }

    /// The deferred messages, oldest first.
    pub closed spec fn backlog_msgs(&self) -> Seq<ParsedMessageView> {
        self.backlog@.map_values(|m: ParsedMessage| m@)
    }

    /// The stored seals: block id, sequence number, seal.
    pub closed spec fn seals(&self) -> Seq<(Seq<u8>, u64, PbftSealView)> {
        self.seals@.map_values(|e: SealEntry| (e.block_id@, e.seq, e.seal@))
    }

    /// Every stored or deferred message's bytes parse back to its content.
    pub open spec fn inv(&self) -> bool {
        &&& forall|i: int| 0 <= i < self.msgs().len() ==> pm_wf(#[trigger] self.msgs()[i])
        &&& forall|i: int|
            0 <= i < self.backlog_msgs().len() ==> pm_wf(#[trigger] self.backlog_msgs()[i])
    }

    /// An empty log.
    pub fn new() -> (r: PbftLog)
        ensures
            r.msgs().len() == 0,
            r.backlog_msgs().len() == 0,
            r.seals().len() == 0,
            r.inv(),
    {
        PbftLog { messages: Vec::new(), backlog: Vec::new(), seals: Vec::new() }
    }

    /// Store a message under its kind, view and sequence number; an exact
    /// duplicate of an already-stored message is dropped.
    #[verifier::loop_isolation(false)]
    pub fn add_message(&mut self, msg: ParsedMessage, state: &PbftState) -> (r: Result<
        (),
        PbftError,
    >)
        requires
            old(self).inv(),
            pm_wf(msg@),
        ensures
            r is Ok,
            final(self).inv(),
            final(self).backlog_msgs() == old(self).backlog_msgs(),
            final(self).seals() == old(self).seals(),
            final(self).msgs() == log_add(old(self).msgs(), msg@),
    {
        let n = self.messages.len();
        let mut i: usize = 0;
        while i < n
            invariant
                n == self.msgs().len(),
                0 <= i <= n,
                forall|k: int| 0 <= k < i ==> self.msgs()[k] != msg@,
            decreases n - i,
        {
            if pm_eq(&self.messages[i], &msg) {
                proof {
                    assert(self.msgs()[i as int] == msg@);
                }
                return Ok(());
            }
            i += 1;
        }
        proof {
            assert(forall|k: int| 0 <= k < old(self).msgs().len() ==> old(self).msgs()[k] != msg@);
        }
        self.messages.push(msg);
        proof {
            assert(self.msgs() =~= old(self).msgs().push(msg@));
            assert forall|k: int| 0 <= k < self.msgs().len() implies pm_wf(
                #[trigger] self.msgs()[k],
            ) by {
                if k < old(self).msgs().len() {
                    assert(pm_wf(old(self).msgs()[k]));
                }
            }
            lemma_wf_seq_eq(old(self).backlog_msgs(), self.backlog_msgs());
        }
        Ok(())
    }

    /// Whether the log holds a PrePrepare for the message's view and
    /// sequence number together with at least `2 f` Prepare messages from
    /// distinct non-primary signers for the same block.
    #[verifier::loop_isolation(false)]
    pub fn check_prepared(&self, info: &PbftMessageInfo, f: u64) -> (r: bool)
        ensures
            r == spec_prepared(self.msgs(), info.view, info.seq_num, f),
    {
        let n = self.messages.len();
        let mut i: usize = 0;
        while i < n
            invariant
                n == self.msgs().len(),
                0 <= i <= n,
                forall|k: int|
                    0 <= k < i && is_pre_prepare_at(self.msgs(), k, info.view, info.seq_num)
                        ==> prepare_vote_set(
                        self.msgs(),
                        info.view,
                        info.seq_num,
                        #[trigger] self.msgs()[k].block.block_id,
                        self.msgs()[k].info.signer_id,
                    ).len() < 2 * (f as int),
            decreases n - i,
        {
            let is_pp = self.messages[i].info.msg_type == PbftMessageType::PrePrepare
                && self.messages[i].info.view == info.view && self.messages[i].info.seq_num
                == info.seq_num;
            if is_pp {
                let votes = self.collect_votes(
                    PbftMessageType::Prepare,
                    true,
                    info.view,
                    info.seq_num,
                    true,
                    &self.messages[i].block.block_id,
                    true,
                    &self.messages[i].info.signer_id,
                    false,
                );
                proof {
                    votes@.map_values(|mm: ParsedMessage| mm@.info.signer_id).unique_seq_to_set();
                }
                if votes.len() as u128 >= 2 * (f as u128) {
                    proof {
                        assert(is_pre_prepare_at(self.msgs(), i as int, info.view, info.seq_num));
                    }
                    return true;
                }
            }
            i += 1;
        }
        proof {
            assert(!spec_prepared(self.msgs(), info.view, info.seq_num, f)) by {
                if spec_prepared(self.msgs(), info.view, info.seq_num, f) {
                    let k = choose|k: int|
                        #[trigger] is_pre_prepare_at(self.msgs(), k, info.view, info.seq_num)
                            && prepare_vote_set(
                            self.msgs(),
                            info.view,
                            info.seq_num,
                            self.msgs()[k].block.block_id,
                            self.msgs()[k].info.signer_id,
                        ).len() >= 2 * (f as int);
                    assert(self.msgs()[k].block.block_id == self.msgs()[k].block.block_id);
                }
            }
        }
        false
    }

    /// Whether `check_prepared` holds and at least `2 f + 1` Commit
    /// messages from distinct signers match the same view, sequence number
    /// and block.
    #[verifier::loop_isolation(false)]
    pub fn check_committable(&self, info: &PbftMessageInfo, f: u64) -> (r: bool)
        ensures
            r == spec_committable(self.msgs(), info.view, info.seq_num, f),
    {
        let n = self.messages.len();
        let mut i: usize = 0;
        while i < n
            invariant
                n == self.msgs().len(),
                0 <= i <= n,
                forall|k: int|
                    0 <= k < i && is_pre_prepare_at(self.msgs(), k, info.view, info.seq_num)
                        ==> !(prepare_vote_set(
                        self.msgs(),
                        info.view,
                        info.seq_num,
                        #[trigger] self.msgs()[k].block.block_id,
                        self.msgs()[k].info.signer_id,
                    ).len() >= 2 * (f as int) && commit_vote_set(
                        self.msgs(),
                        info.view,
                        info.seq_num,
                        self.msgs()[k].block.block_id,
                    ).len() >= 2 * (f as int) + 1),
            decreases n - i,
        {
            let is_pp = self.messages[i].info.msg_type == PbftMessageType::PrePrepare
                && self.messages[i].info.view == info.view && self.messages[i].info.seq_num
                == info.seq_num;
            if is_pp {
                let none: Vec<u8> = Vec::new();
                let prepares = self.collect_votes(
                    PbftMessageType::Prepare,
                    true,
                    info.view,
                    info.seq_num,
                    true,
                    &self.messages[i].block.block_id,
                    true,
                    &self.messages[i].info.signer_id,
                    false,
                );
                let commits = self.collect_votes(
                    PbftMessageType::Commit,
                    true,
                    info.view,
                    info.seq_num,
                    true,
                    &self.messages[i].block.block_id,
                    false,
                    &none,
                    false,
                );
                proof {
                    prepares@.map_values(|mm: ParsedMessage| mm@.info.signer_id).unique_seq_to_set();
                    commits@.map_values(|mm: ParsedMessage| mm@.info.signer_id).unique_seq_to_set();
                }
                if prepares.len() as u128 >= 2 * (f as u128) && commits.len() as u128 >= 2 * (
                f as u128) + 1 {
                    proof {
                        assert(is_pre_prepare_at(self.msgs(), i as int, info.view, info.seq_num));
                    }
                    return true;
                }
            }
            i += 1;
        }
        proof {
            assert(!spec_committable(self.msgs(), info.view, info.seq_num, f)) by {
                if spec_committable(self.msgs(), info.view, info.seq_num, f) {
                    let k = choose|k: int|
                        #[trigger] is_pre_prepare_at(self.msgs(), k, info.view, info.seq_num)
                            && prepare_vote_set(
                            self.msgs(),
                            info.view,
                            info.seq_num,
                            self.msgs()[k].block.block_id,
                            self.msgs()[k].info.signer_id,
                        ).len() >= 2 * (f as int) && commit_vote_set(
                            self.msgs(),
                            info.view,
                            info.seq_num,
                            self.msgs()[k].block.block_id,
                        ).len() >= 2 * (f as int) + 1;
                    assert(self.msgs()[k].block.block_id == self.msgs()[k].block.block_id);
                }
            }
        }
        false
    }

    /// How many distinct signers sent a message of kind `msg_type`
    /// matching `m` on view and sequence number — and on block id too when
    /// `exact_match` asks for it.
    pub fn count_required_msgs(
        &self,
        msg_type: &PbftMessageType,
        m: &ParsedMessage,
        exact_match: bool,
    ) -> (r: usize)
        ensures
            r == vote_signer_set(
                self.msgs(),
                *msg_type,
                true,
                m@.info.view,
                m@.info.seq_num,
                exact_match,
                m@.block.block_id,
                false,
                Seq::empty(),
                false,
            ).len(),
    {
        let none: Vec<u8> = Vec::new();
        let votes = self.collect_votes(
            *msg_type,
            true,
            m.info.view,
            m.info.seq_num,
            exact_match,
            &m.block.block_id,
            false,
            &none,
            false,
        );
        proof {
            votes@.map_values(|mm: ParsedMessage| mm@.info.signer_id).unique_seq_to_set();
        }
        votes.len()
    }

    /// Whether at least `count` messages of kind `msg_type` from distinct
    /// signers match `m` on view and sequence number — and on block id
    /// too when `exact_match` asks for it.
    #[verifier::loop_isolation(false)]
    pub fn log_has_required_msgs(
        &self,
        msg_type: &PbftMessageType,
        m: &ParsedMessage,
        exact_match: bool,
        count: u64,
    ) -> (r: bool)
        ensures
            r == (vote_signer_set(
                self.msgs(),
                *msg_type,
                true,
                m@.info.view,
                m@.info.seq_num,
                exact_match,
                m@.block.block_id,
                false,
                Seq::empty(),
                false,
            ).len() >= count),
    {
        let none: Vec<u8> = Vec::new();
        let votes = self.collect_votes(
            *msg_type,
            true,
            m.info.view,
            m.info.seq_num,
            exact_match,
            &m.block.block_id,
            false,
            &none,
            false,
        );
        proof {
            votes@.map_values(|mm: ParsedMessage| mm@.info.signer_id).unique_seq_to_set();
        }
        votes.len() as u128 >= count as u128
    }

    /// The logged messages of one kind for one sequence number, in the
    /// order they were stored.
    #[verifier::loop_isolation(false)]
    pub fn get_messages_of_type_seq(
        &self,
        msg_type: &PbftMessageType,
        sequence_number: u64,
    ) -> (r: Vec<ParsedMessage>)
        ensures
            forall|k: int|
                0 <= k < r@.len() ==> (#[trigger] r@[k]@).info.msg_type == *msg_type
                    && r@[k]@.info.seq_num == sequence_number,
            forall|k: int| 0 <= k < r@.len() ==> self.msgs().contains(#[trigger] r@[k]@),
            forall|i: int|
                0 <= i < self.msgs().len() && (#[trigger] self.msgs()[i]).info.msg_type
                    == *msg_type && self.msgs()[i].info.seq_num == sequence_number
                    ==> r@.map_values(|m: ParsedMessage| m@).contains(self.msgs()[i]),
            (exists|i: int|
                0 <= i < self.msgs().len() && (#[trigger] self.msgs()[i]).info.msg_type
                    == *msg_type && self.msgs()[i].info.seq_num == sequence_number) <==> r@.len()
                > 0,
    {
        let n = self.messages.len();
        let mut r: Vec<ParsedMessage> = Vec::new();
        let mut i: usize = 0;
        while i < n
            invariant
                n == self.msgs().len(),
                0 <= i <= n,
                forall|k: int|
                    0 <= k < r@.len() ==> (#[trigger] r@[k]@).info.msg_type == *msg_type
                        && r@[k]@.info.seq_num == sequence_number,
                forall|k: int| 0 <= k < r@.len() ==> self.msgs().contains(#[trigger] r@[k]@),
                forall|j: int|
                    0 <= j < i && (#[trigger] self.msgs()[j]).info.msg_type == *msg_type
                        && self.msgs()[j].info.seq_num == sequence_number ==> r@.map_values(
                        |m: ParsedMessage| m@,
                    ).contains(self.msgs()[j]),
                (exists|j: int|
                    0 <= j < i && (#[trigger] self.msgs()[j]).info.msg_type == *msg_type
                        && self.msgs()[j].info.seq_num == sequence_number) <==> r@.len() > 0,
            decreases n - i,
        {
            let matches = self.messages[i].info.msg_type == *msg_type
                && self.messages[i].info.seq_num == sequence_number;
            if matches {
                let ghost old_km = r@.map_values(|m: ParsedMessage| m@);
                r.push(self.messages[i].clone());
                proof {
                    let km = r@.map_values(|m: ParsedMessage| m@);
                    assert(km =~= old_km.push(self.msgs()[i as int]));
                    assert(km[km.len() - 1] == self.msgs()[i as int]);
                    assert(km.contains(self.msgs()[i as int]));
                    assert forall|x: ParsedMessageView| old_km.contains(x) implies km.contains(
                        x,
                    ) by {
                        let k = choose|k: int| 0 <= k < old_km.len() && old_km[k] == x;
                        assert(km[k] == x);
                    }
                    assert(self.msgs().contains(self.msgs()[i as int]));
                }
            }
            i += 1;
        }
        r
    }

    /// At least `min_votes` messages of one kind for one sequence number,
    /// from distinct signers other than this node, all speaking of the
    /// same block — or nothing, when no block has that many such votes.
    ///
    /// It is the node's *own* messages that are skipped, not the
    /// primary's: the publisher of the next block supplies the implicit
    /// last vote, and the seal verifier refuses any vote signed by the
    /// sealed block's own signer.
    #[verifier::loop_isolation(false)]
    pub fn get_enough_messages(
        &self,
        msg_type: &PbftMessageType,
        sequence_number: u64,
        min_votes: u64,
    ) -> (r: Option<Vec<ParsedMessage>>)
        requires
            min_votes >= 1,
        ensures
            match r {
                Some(v) => {
                    &&& v@.len() >= min_votes
                    &&& forall|k: int|
                        0 <= k < v@.len() ==> vote_match(
                            #[trigger] v@[k]@,
                            *msg_type,
                            false,
                            0,
                            sequence_number,
                            true,
                            v@[0]@.block.block_id,
                            false,
                            Seq::empty(),
                            true,
                        )
                    &&& forall|k: int|
                        0 <= k < v@.len() ==> self.msgs().contains(#[trigger] v@[k]@)
                    &&& forall|k1: int, k2: int|
                        0 <= k1 < k2 < v@.len() ==> (#[trigger] v@[k1]@).info.signer_id != (
                        #[trigger] v@[k2]@).info.signer_id
                },
                None => forall|i: int|
                    0 <= i < self.msgs().len() && vote_match(
                        #[trigger] self.msgs()[i],
                        *msg_type,
                        false,
                        0,
                        sequence_number,
                        false,
                        Seq::empty(),
                        false,
                        Seq::empty(),
                        true,
                    ) ==> vote_signer_set(
                        self.msgs(),
                        *msg_type,
                        false,
                        0,
                        sequence_number,
                        true,
                        self.msgs()[i].block.block_id,
                        false,
                        Seq::empty(),
                        true,
                    ).len() < min_votes,
            },
    {
        let n = self.messages.len();
        let none: Vec<u8> = Vec::new();
        let mut i: usize = 0;
        while i < n
            invariant
                n == self.msgs().len(),
                0 <= i <= n,
                forall|j: int|
                    0 <= j < i && vote_match(
                        #[trigger] self.msgs()[j],
                        *msg_type,
                        false,
                        0,
                        sequence_number,
                        false,
                        Seq::empty(),
                        false,
                        Seq::empty(),
                        true,
                    ) ==> vote_signer_set(
                        self.msgs(),
                        *msg_type,
                        false,
                        0,
                        sequence_number,
                        true,
                        self.msgs()[j].block.block_id,
                        false,
                        Seq::empty(),
                        true,
                    ).len() < min_votes,
            decreases n - i,
        {
            let matches = self.messages[i].info.msg_type == *msg_type && self.messages[i].info.seq_num
                == sequence_number && !self.messages[i].from_self;
            if matches {
                let votes = self.collect_votes(
                    *msg_type,
                    false,
                    0,
                    sequence_number,
                    true,
                    &self.messages[i].block.block_id,
                    false,
                    &none,
                    true,
                );
                proof {
                    votes@.map_values(|mm: ParsedMessage| mm@.info.signer_id).unique_seq_to_set();
                }
                if votes.len() as u128 >= min_votes as u128 {
                    proof {
                        let sigs = votes@.map_values(|mm: ParsedMessage| mm@.info.signer_id);
                        assert(votes@.len() >= 1);
                        assert(vote_match(
                            votes@[0]@,
                            *msg_type,
                            false,
                            0,
                            sequence_number,
                            true,
                            self.msgs()[i as int].block.block_id,
                            false,
                            Seq::empty(),
                            true,
                        ));
                        assert(votes@[0]@.block.block_id == self.msgs()[i as int].block.block_id);
                        assert forall|k1: int, k2: int|
                            0 <= k1 < k2 < votes@.len() implies (
                        #[trigger] votes@[k1]@).info.signer_id != (
                        #[trigger] votes@[k2]@).info.signer_id by {
                            assert(sigs[k1] == votes@[k1]@.info.signer_id);
                            assert(sigs[k2] == votes@[k2]@.info.signer_id);
                        }
                    }
                    return Some(votes);
                }
            }
            i += 1;
        }
        None
    }

    /// Defer a message that arrived before its prerequisites.
    pub fn push_backlog(&mut self, msg: ParsedMessage)
        requires
            old(self).inv(),
            pm_wf(msg@),
        ensures
            final(self).inv(),
            final(self).msgs() == old(self).msgs(),
            final(self).seals() == old(self).seals(),
            final(self).backlog_msgs() == old(self).backlog_msgs().push(msg@),
    {
        self.backlog.push(msg);
        proof {
            assert(self.backlog_msgs() =~= old(self).backlog_msgs().push(msg@));
            assert forall|k: int| 0 <= k < self.backlog_msgs().len() implies pm_wf(
                #[trigger] self.backlog_msgs()[k],
            ) by {
                if k < old(self).backlog_msgs().len() {
                    assert(pm_wf(old(self).backlog_msgs()[k]));
                }
            }
            lemma_wf_seq_eq(old(self).msgs(), self.msgs());
        }
    }

    /// Take the oldest deferred message, if any.
    pub fn pop_backlog(&mut self) -> (r: Option<ParsedMessage>)
        requires
            old(self).inv(),
        ensures
            final(self).inv(),
            final(self).msgs() == old(self).msgs(),
            final(self).seals() == old(self).seals(),
            match r {
                Some(m) => {
                    &&& old(self).backlog_msgs().len() > 0
                    &&& m@ == old(self).backlog_msgs()[0]
                    &&& pm_wf(m@)
                    &&& final(self).backlog_msgs() == old(self).backlog_msgs().drop_first()
                },
                None => {
                    &&& old(self).backlog_msgs().len() == 0
                    &&& final(self).backlog_msgs() == old(self).backlog_msgs()
                },
            },
    {
        if self.backlog.len() == 0 {
            None
        } else {
            let m = self.backlog.remove(0);
            proof {
                assert(self.backlog_msgs() =~= old(self).backlog_msgs().drop_first());
                assert(pm_wf(old(self).backlog_msgs()[0]));
                assert forall|k: int| 0 <= k < self.backlog_msgs().len() implies pm_wf(
                    #[trigger] self.backlog_msgs()[k],
                ) by {
                    assert(self.backlog_msgs()[k] == old(self).backlog_msgs()[k + 1]);
                    assert(pm_wf(old(self).backlog_msgs()[k + 1]));
                }
                lemma_wf_seq_eq(old(self).msgs(), self.msgs());
            }
            Some(m)
        }
    }

    /// Store a seal under the block it arrived with and a sequence number.
    pub fn add_consensus_seal(&mut self, block_id: BlockId, sequence_number: u64, seal: PbftSeal)
        requires
            old(self).inv(),
        ensures
            final(self).inv(),
            final(self).msgs() == old(self).msgs(),
            final(self).backlog_msgs() == old(self).backlog_msgs(),
            final(self).seals() == old(self).seals().push(
                (block_id@, sequence_number, seal@),
            ),
    {
        let ghost bid_v = block_id@;
        let ghost seal_v = seal@;
        self.seals.push(SealEntry { block_id, seq: sequence_number, seal });
        proof {
            assert(self.seals() =~= old(self).seals().push((bid_v, sequence_number, seal_v)));
            assert(self.msgs() =~= old(self).msgs());
            assert(self.backlog_msgs() =~= old(self).backlog_msgs());
            lemma_wf_seq_eq(old(self).msgs(), self.msgs());
            lemma_wf_seq_eq(old(self).backlog_msgs(), self.backlog_msgs());
        }
    }

    /// The most recently stored seal for `sequence_number`.
    #[verifier::loop_isolation(false)]
    pub fn get_consensus_seal(&self, sequence_number: u64) -> (r: Result<PbftSeal, PbftError>)
        ensures
            match r {
                Ok(s) => last_seal_for(self.seals(), sequence_number) == Some(s@),
                Err(e) => {
                    &&& e == PbftError::InternalError(InternalFault::MissingSeal)
                    &&& last_seal_for(self.seals(), sequence_number) is None
                },
            },
    {
        proof {
            assert(self.seals().subrange(0, self.seals().len() as int) =~= self.seals());
        }
        let mut i: usize = self.seals.len();
        while i > 0
            invariant
                0 <= i <= self.seals().len(),
                last_seal_for(self.seals(), sequence_number) == last_seal_for(
                    self.seals().subrange(0, i as int),
                    sequence_number,
                ),
            decreases i,
        {
            proof {
                assert(self.seals().subrange(0, i as int).drop_last() =~= self.seals().subrange(
                    0,
                    i - 1,
                ));
                assert(self.seals().subrange(0, i as int).last() == self.seals()[i - 1]);
            }
            if self.seals[i - 1].seq == sequence_number {
                return Ok(self.seals[i - 1].seal.clone());
            }
            i -= 1;
        }
        proof {
            assert(self.seals().subrange(0, 0) =~= Seq::<(Seq<u8>, u64, PbftSealView)>::empty());
        }
        Err(PbftError::InternalError(InternalFault::MissingSeal))
    }

    /// Drop messages and seals that have fallen out of the retention
    /// window behind the committed sequence number.
    #[verifier::loop_isolation(false)]
    pub fn garbage_collect(&mut self, committed_seq: u64, block_id: &BlockId)
        requires
            old(self).inv(),
        ensures
            final(self).inv(),
            final(self).backlog_msgs() == old(self).backlog_msgs(),
            forall|k: int|
                0 <= k < final(self).msgs().len() ==> (#[trigger] final(self).msgs()[k]).info.seq_num
                    + LOG_RETENTION >= committed_seq && old(self).msgs().contains(
                    final(self).msgs()[k],
                ),
            forall|i: int|
                0 <= i < old(self).msgs().len() && (#[trigger] old(self).msgs()[i]).info.seq_num
                    + LOG_RETENTION >= committed_seq ==> final(self).msgs().contains(
                    old(self).msgs()[i],
                ),
            forall|k: int|
                0 <= k < final(self).seals().len() ==> (#[trigger] final(self).seals()[k]).1
                    + LOG_RETENTION >= committed_seq && old(self).seals().contains(
                    final(self).seals()[k],
                ),
            forall|i: int|
                0 <= i < old(self).seals().len() && (#[trigger] old(self).seals()[i]).1
                    + LOG_RETENTION >= committed_seq ==> final(self).seals().contains(
                    old(self).seals()[i],
                ),
    {
        let n = self.messages.len();
        let mut kept: Vec<ParsedMessage> = Vec::new();
        let mut i: usize = 0;
        while i < n
            invariant
                n == self.msgs().len(),
                0 <= i <= n,
                forall|k: int|
                    0 <= k < kept@.len() ==> (#[trigger] kept@[k]@).info.seq_num + LOG_RETENTION
                        >= committed_seq && self.msgs().contains(kept@[k]@),
                forall|j: int|
                    0 <= j < i && (#[trigger] self.msgs()[j]).info.seq_num + LOG_RETENTION
                        >= committed_seq ==> kept@.map_values(|m: ParsedMessage| m@).contains(
                        self.msgs()[j],
                    ),
            decreases n - i,
        {
            let keep = self.messages[i].info.seq_num >= committed_seq || committed_seq
                - self.messages[i].info.seq_num <= LOG_RETENTION;
            if keep {
                let ghost old_km = kept@.map_values(|m: ParsedMessage| m@);
                kept.push(self.messages[i].clone());
                proof {
                    let km = kept@.map_values(|m: ParsedMessage| m@);
                    assert(km =~= old_km.push(self.msgs()[i as int]));
                    assert(km[km.len() - 1] == self.msgs()[i as int]);
                    assert(km.contains(self.msgs()[i as int]));
                    assert forall|x: ParsedMessageView| old_km.contains(x) implies km.contains(
                        x,
                    ) by {
                        let k = choose|k: int| 0 <= k < old_km.len() && old_km[k] == x;
                        assert(km[k] == x);
                    }
                    assert(self.msgs().contains(self.msgs()[i as int]));
                }
            }
            i += 1;
        }
        let ns = self.seals.len();
        let mut kept_seals: Vec<SealEntry> = Vec::new();
        let mut j: usize = 0;
        while j < ns
            invariant
                ns == self.seals().len(),
                0 <= j <= ns,
                forall|k: int|
                    0 <= k < kept_seals@.len() ==> ((#[trigger] kept_seals@[k]).seq + LOG_RETENTION
                        >= committed_seq && self.seals().contains(
                        (kept_seals@[k].block_id@, kept_seals@[k].seq, kept_seals@[k].seal@),
                    )),
                forall|jj: int|
                    0 <= jj < j && (#[trigger] self.seals()[jj]).1 + LOG_RETENTION >= committed_seq
                        ==> kept_seals@.map_values(
                        |e: SealEntry| (e.block_id@, e.seq, e.seal@),
                    ).contains(self.seals()[jj]),
            decreases ns - j,
        {
            let keep = self.seals[j].seq >= committed_seq || committed_seq - self.seals[j].seq
                <= LOG_RETENTION;
            if keep {
                let ghost old_km = kept_seals@.map_values(
                    |e2: SealEntry| (e2.block_id@, e2.seq, e2.seal@),
                );
                let e = &self.seals[j];
                kept_seals.push(
                    SealEntry {
                        block_id: crate::bytes::clone_bytes(&e.block_id),
                        seq: e.seq,
                        seal: e.seal.clone(),
                    },
                );
                proof {
                    let km = kept_seals@.map_values(|e2: SealEntry| (e2.block_id@, e2.seq, e2.seal@));
                    assert(km =~= old_km.push(self.seals()[j as int]));
                    assert(km[km.len() - 1] == self.seals()[j as int]);
                    assert(km.contains(self.seals()[j as int]));
                    assert forall|x: (Seq<u8>, u64, PbftSealView)|
                        old_km.contains(x) implies km.contains(x) by {
                        let k = choose|k: int| 0 <= k < old_km.len() && old_km[k] == x;
                        assert(km[k] == x);
                    }
                    assert(self.seals().contains(self.seals()[j as int]));
                }
            }
            j += 1;
        }
        self.messages = kept;
        self.seals = kept_seals;
        proof {
            assert(self.msgs() =~= kept@.map_values(|m: ParsedMessage| m@));
            assert(self.seals() =~= kept_seals@.map_values(
                |e2: SealEntry| (e2.block_id@, e2.seq, e2.seal@),
            ));
            assert forall|k: int|
                0 <= k < self.msgs().len() implies ((#[trigger] self.msgs()[k]).info.seq_num
                + LOG_RETENTION >= committed_seq && old(self).msgs().contains(self.msgs()[k])) by {
                assert(self.msgs()[k] == kept@[k]@);
            }
            assert forall|k: int|
                0 <= k < self.seals().len() implies ((#[trigger] self.seals()[k]).1 + LOG_RETENTION
                >= committed_seq && old(self).seals().contains(self.seals()[k])) by {
                assert(self.seals()[k] == (kept_seals@[k].block_id@, kept_seals@[k].seq,
                    kept_seals@[k].seal@));
            }
            assert forall|k: int|
                0 <= k < self.msgs().len() implies pm_wf(#[trigger] self.msgs()[k]) by {
                assert(old(self).msgs().contains(self.msgs()[k]));
                let w = choose|w: int|
                    0 <= w < old(self).msgs().len() && old(self).msgs()[w] == self.msgs()[k];
                assert(pm_wf(old(self).msgs()[w]));
            }
            lemma_wf_seq_eq(old(self).backlog_msgs(), self.backlog_msgs());
        }
    }

    /// The distinct-signer votes that match the filter: one stored message
    /// per signer, every matching signer represented.
    #[verifier::loop_isolation(false)]
    fn collect_votes(
        &self,
        t: PbftMessageType,
        use_view: bool,
        v: u64,
        s: u64,
        use_bid: bool,
        bid: &Vec<u8>,
        use_excl: bool,
        excl: &Vec<u8>,
        skip_self: bool,
    ) -> (r: Vec<ParsedMessage>)
        ensures
            r@.map_values(|mm: ParsedMessage| mm@.info.signer_id).no_duplicates(),
            r@.map_values(|mm: ParsedMessage| mm@.info.signer_id).to_set() == vote_signer_set(
                self.msgs(),
                t,
                use_view,
                v,
                s,
                use_bid,
                bid@,
                use_excl,
                excl@,
                skip_self,
            ),
            forall|k: int|
                0 <= k < r@.len() ==> vote_match(
                    #[trigger] r@[k]@,
                    t,
                    use_view,
                    v,
                    s,
                    use_bid,
                    bid@,
                    use_excl,
                    excl@,
                    skip_self,
                ),
            forall|k: int| 0 <= k < r@.len() ==> self.msgs().contains(#[trigger] r@[k]@),
    {
        let n = self.messages.len();
        let mut r: Vec<ParsedMessage> = Vec::new();
        let mut i: usize = 0;
        while i < n
            invariant
                n == self.msgs().len(),
                0 <= i <= n,
                r@.map_values(|mm: ParsedMessage| mm@.info.signer_id).no_duplicates(),
                forall|k: int|
                    0 <= k < r@.len() ==> vote_match(
                        #[trigger] r@[k]@,
                        t,
                        use_view,
                        v,
                        s,
                        use_bid,
                        bid@,
                        use_excl,
                        excl@,
                        skip_self,
                    ),
                forall|k: int| 0 <= k < r@.len() ==> self.msgs().contains(#[trigger] r@[k]@),
                forall|j: int|
                    0 <= j < i && vote_match(
                        #[trigger] self.msgs()[j],
                        t,
                        use_view,
                        v,
                        s,
                        use_bid,
                        bid@,
                        use_excl,
                        excl@,
                        skip_self,
                    ) ==> r@.map_values(|mm: ParsedMessage| mm@.info.signer_id).contains(
                        self.msgs()[j].info.signer_id,
                    ),
            decreases n - i,
        {
            let m = &self.messages[i];
            let matches = m.info.msg_type == t && (!use_view || m.info.view == v) && m.info.seq_num
                == s && (!use_bid || bytes_eq(&m.block.block_id, bid)) && (!use_excl || !bytes_eq(
                &m.info.signer_id,
                excl,
            )) && (!skip_self || !m.from_self);
            if matches && !contains_signer(&r, &m.info.signer_id) {
                let ghost old_sigs = r@.map_values(|mm: ParsedMessage| mm@.info.signer_id);
                r.push(m.clone());
                proof {
                    let sigs = r@.map_values(|mm: ParsedMessage| mm@.info.signer_id);
                    assert(r@[r@.len() - 1]@ == self.msgs()[i as int]);
                    assert(self.msgs().contains(self.msgs()[i as int]));
                    assert(sigs =~= old_sigs.push(self.msgs()[i as int].info.signer_id));
                    assert forall|a: int, b: int|
                        0 <= a < b < sigs.len() implies sigs[a] != sigs[b] by {
                        if b < sigs.len() - 1 {
                            assert(old_sigs[a] != old_sigs[b]);
                        } else {
                            assert(old_sigs.contains(old_sigs[a]));
                        }
                    }
                    assert forall|x: Seq<u8>| old_sigs.contains(x) implies sigs.contains(x) by {
                        let k = choose|k: int| 0 <= k < old_sigs.len() && old_sigs[k] == x;
                        assert(sigs[k] == x);
                    }
                    assert(sigs[sigs.len() - 1] == self.msgs()[i as int].info.signer_id);
                    assert(sigs.contains(self.msgs()[i as int].info.signer_id));
                }
            }
            i += 1;
        }
        proof {
            let sigs = r@.map_values(|mm: ParsedMessage| mm@.info.signer_id);
            let want = vote_signer_set(
                self.msgs(),
                t,
                use_view,
                v,
                s,
                use_bid,
                bid@,
                use_excl,
                excl@,
                skip_self,
            );
            assert forall|x: Seq<u8>| sigs.to_set().contains(x) implies want.contains(x) by {
                let k = choose|k: int| 0 <= k < sigs.len() && sigs[k] == x;
                assert(self.msgs().contains(r@[k]@));
                let j = choose|j: int|
                    0 <= j < self.msgs().len() && self.msgs()[j] == r@[k]@;
                assert(vote_match(
                    self.msgs()[j],
                    t,
                    use_view,
                    v,
                    s,
                    use_bid,
                    bid@,
                    use_excl,
                    excl@,
                    skip_self,
                ));
                assert(self.msgs()[j].info.signer_id == x);
            }
            assert forall|x: Seq<u8>| want.contains(x) implies sigs.to_set().contains(x) by {
                let j = choose|j: int|
                    0 <= j < self.msgs().len() && vote_match(
                        #[trigger] self.msgs()[j],
                        t,
                        use_view,
                        v,
                        s,
                        use_bid,
                        bid@,
                        use_excl,
                        excl@,
                        skip_self,
                    ) && self.msgs()[j].info.signer_id == x;
                assert(sigs.contains(x));
            }
            assert(sigs.to_set() =~= want);
        }
        r
    }
}

/// Whether a signer already appears among the collected votes.
#[verifier::loop_isolation(false)]
fn contains_signer(list: &Vec<ParsedMessage>, sid: &Vec<u8>) -> (r: bool)
    ensures
        r == list@.map_values(|mm: ParsedMessage| mm@.info.signer_id).contains(sid@),
{
    let n = list.len();
    let mut i: usize = 0;
    while i < n
        invariant
            n == list@.len(),
            0 <= i <= n,
            forall|k: int| 0 <= k < i ==> (#[trigger] list@[k]@).info.signer_id != sid@,
        decreases n - i,
    {
        if bytes_eq(&list[i].info.signer_id, sid) {
            proof {
                assert(list@.map_values(|mm: ParsedMessage| mm@.info.signer_id)[i as int] == sid@);
            }
            return true;
        }
        i += 1;
    }
    proof {
        let sigs = list@.map_values(|mm: ParsedMessage| mm@.info.signer_id);
        assert(!sigs.contains(sid@)) by {
            if sigs.contains(sid@) {
                let k = choose|k: int| 0 <= k < sigs.len() && sigs[k] == sid@;
            }
        }
    }
    false
}

/// Exact equality of two parsed messages, every field compared.
#[verifier::loop_isolation(false)]
fn pm_eq(a: &ParsedMessage, b: &ParsedMessage) -> (r: bool)
    ensures
        r == (a@ == b@),
{
    let r = a.info.msg_type == b.info.msg_type && a.info.view == b.info.view && a.info.seq_num
        == b.info.seq_num && bytes_eq(&a.info.signer_id, &b.info.signer_id) && bytes_eq(
        &a.block.block_id,
        &b.block.block_id,
    ) && bytes_eq(&a.block.signer_id, &b.block.signer_id) && a.block.block_num == b.block.block_num
        && bytes_eq(&a.block.summary, &b.block.summary) && bytes_eq(&a.header_bytes, &b.header_bytes)
        && bytes_eq(&a.header_signature, &b.header_signature) && bytes_eq(
        &a.message_bytes,
        &b.message_bytes,
    ) && a.from_self == b.from_self;
    r
}

} // verus!
