//! The deterministic wire encoding of consensus messages and seals.
//!
//! Every value is laid out as a fixed concatenation of fields: a `u64` is
//! eight big-endian bytes, a byte string is its length as a `u64` followed
//! by its bytes, and a list is its length followed by its elements.  A
//! message starts with a one-byte tag for its kind.  Identical values always
//! serialize to identical bytes, which is what lets seal-embedded votes be
//! re-verified by third parties, and decoding an encoded value gives the
//! value back (the round-trip lemmas at the end).

use vstd::prelude::*;

use crate::message::PbftBlock;
use crate::message::PbftBlockView;
use crate::message::PbftMessage;
use crate::message::PbftMessageInfo;
use crate::message::PbftMessageInfoView;
use crate::message::PbftMessageType;
use crate::message::PbftMessageView;
use crate::message::PbftSeal;
use crate::message::PbftSealView;
use crate::message::PbftSignedCommitVote;
use crate::message::PbftSignedCommitVoteView;
use crate::message::PbftViewChange;
use crate::message::PbftViewChangeView;
use crate::message::PeerMessageHeader;
use crate::message::PeerMessageHeaderView;

verus! {

// ---------- Specification: encoders ----------

/// Byte `k` of a `u64` in big-endian order.
pub open spec fn u64_byte(x: u64, k: int) -> u8 {
    if k == 0 {
        (x >> 56) as u8
    } else if k == 1 {
        (x >> 48) as u8
    } else if k == 2 {
        (x >> 40) as u8
    } else if k == 3 {
        (x >> 32) as u8
    } else if k == 4 {
        (x >> 24) as u8
    } else if k == 5 {
        (x >> 16) as u8
    } else if k == 6 {
        (x >> 8) as u8
    } else {
        x as u8
    }
}

/// A `u64` as eight big-endian bytes.
pub open spec fn enc_u64(x: u64) -> Seq<u8> {
    Seq::new(8, |k: int| u64_byte(x, k))
}

/// A byte string: its length, then its bytes.
pub open spec fn enc_bytes(s: Seq<u8>) -> Seq<u8> {
    enc_u64(s.len() as u64) + s
}

// ---------- Specification: decoders ----------

/// The value of eight big-endian bytes.
pub open spec fn be_val8(b0: u8, b1: u8, b2: u8, b3: u8, b4: u8, b5: u8, b6: u8, b7: u8) -> u64 {
    ((b0 as u64) << 56) | ((b1 as u64) << 48) | ((b2 as u64) << 40) | ((b3 as u64) << 32) | ((
    b4 as u64) << 24) | ((b5 as u64) << 16) | ((b6 as u64) << 8) | (b7 as u64)
}

/// Read a `u64` at position `i`; on success, the value and the position of
/// what follows.
pub open spec fn sdec_u64(b: Seq<u8>, i: int) -> Option<(u64, int)> {
    if 0 <= i && i + 8 <= b.len() {
        Some(
            (
                be_val8(
                    b[i],
                    b[i + 1],
                    b[i + 2],
                    b[i + 3],
                    b[i + 4],
                    b[i + 5],
                    b[i + 6],
                    b[i + 7],
                ),
                i + 8,
            ),
        )
    } else {
        None
    }
}

/// Read a length-prefixed byte string at position `i`.
pub open spec fn sdec_bytes(b: Seq<u8>, i: int) -> Option<(Seq<u8>, int)> {
    match sdec_u64(b, i) {
        Some((n, j)) => if j + n <= b.len() {
            Some((b.subrange(j, j + n), j + n))
        } else {
            None
        },
        None => None,
    }
}

// ---------- Well-formedness: every field short enough to carry a length ----------

pub open spec fn len_ok(s: Seq<u8>) -> bool {
    s.len() <= u64::MAX
}

// ---------- Round-trip lemmas for the primitives ----------

proof fn lemma_be_roundtrip(x: u64)
    ensures
        be_val8(
            u64_byte(x, 0),
            u64_byte(x, 1),
            u64_byte(x, 2),
            u64_byte(x, 3),
            u64_byte(x, 4),
            u64_byte(x, 5),
            u64_byte(x, 6),
            u64_byte(x, 7),
        ) == x,
{
    assert((((x >> 56) as u8 as u64) << 56) | (((x >> 48) as u8 as u64) << 48) | (((x
        >> 40) as u8 as u64) << 40) | (((x >> 32) as u8 as u64) << 32) | (((x
        >> 24) as u8 as u64) << 24) | (((x >> 16) as u8 as u64) << 16) | (((x >> 8) as u8 as u64)
        << 8) | (x as u8 as u64) == x) by (bit_vector);
}

/// Decoding a `u64` from its encoding, in any surrounding context.
proof fn lemma_dec_enc_u64(pre: Seq<u8>, x: u64, suf: Seq<u8>)
    ensures
        sdec_u64(pre + enc_u64(x) + suf, pre.len() as int) == Some(
            (x, pre.len() as int + 8),
        ),
{
    let b = pre + enc_u64(x) + suf;
    let i = pre.len() as int;
    assert(b.len() == pre.len() + 8 + suf.len());
    assert forall|k: int| 0 <= k < 8 implies b[i + k] == enc_u64(x)[k] by {
        assert((pre + enc_u64(x))[i + k] == enc_u64(x)[k]);
    }
    lemma_be_roundtrip(x);
}

/// Decoding a byte string from its encoding, in any surrounding context.
proof fn lemma_dec_enc_bytes(pre: Seq<u8>, s: Seq<u8>, suf: Seq<u8>)
    requires
        len_ok(s),
    ensures
        sdec_bytes(pre + enc_bytes(s) + suf, pre.len() as int) == Some(
            (s, pre.len() as int + 8 + s.len() as int),
        ),
{
    let b = pre + enc_bytes(s) + suf;
    let i = pre.len() as int;
    let n = s.len() as u64;
    assert(b =~= pre + enc_u64(n) + (s + suf));
    lemma_dec_enc_u64(pre, n, s + suf);
    assert(sdec_u64(b, i) == Some((n, i + 8)));
    assert(b.subrange(i + 8, i + 8 + n) =~= s);
}

// ---------- Specification: message structures ----------

/// The wire tag of each message kind.
pub open spec fn tag_of(t: PbftMessageType) -> u8 {
    match t {
        PbftMessageType::Unset => 0,
        PbftMessageType::PrePrepare => 1,
        PbftMessageType::Prepare => 2,
        PbftMessageType::Commit => 3,
        PbftMessageType::BlockNew => 4,
        PbftMessageType::ViewChange => 5,
    }
}

pub open spec fn type_of_tag(x: u8) -> Option<PbftMessageType> {
    if x == 0 {
        Some(PbftMessageType::Unset)
    } else if x == 1 {
        Some(PbftMessageType::PrePrepare)
    } else if x == 2 {
        Some(PbftMessageType::Prepare)
    } else if x == 3 {
        Some(PbftMessageType::Commit)
    } else if x == 4 {
        Some(PbftMessageType::BlockNew)
    } else if x == 5 {
        Some(PbftMessageType::ViewChange)
    } else {
        None
    }
}

pub open spec fn enc_info(info: PbftMessageInfoView) -> Seq<u8> {
    seq![tag_of(info.msg_type)] + enc_u64(info.view) + enc_u64(info.seq_num) + enc_bytes(
        info.signer_id,
    )
}

pub open spec fn sdec_info(b: Seq<u8>, i: int) -> Option<(PbftMessageInfoView, int)> {
    if 0 <= i < b.len() {
        match type_of_tag(b[i]) {
            Some(t) => match sdec_u64(b, i + 1) {
                Some((view, j1)) => match sdec_u64(b, j1) {
                    Some((seq_num, j2)) => match sdec_bytes(b, j2) {
                        Some((signer_id, j3)) => Some(
                            (PbftMessageInfoView { msg_type: t, view, seq_num, signer_id }, j3),
                        ),
                        None => None,
                    },
                    None => None,
                },
                None => None,
            },
            None => None,
        }
    } else {
        None
    }
}

pub open spec fn enc_block(bk: PbftBlockView) -> Seq<u8> {
    enc_bytes(bk.block_id) + enc_bytes(bk.signer_id) + enc_u64(bk.block_num) + enc_bytes(bk.summary)
}

pub open spec fn sdec_block(b: Seq<u8>, i: int) -> Option<(PbftBlockView, int)> {
    match sdec_bytes(b, i) {
        Some((block_id, j1)) => match sdec_bytes(b, j1) {
            Some((signer_id, j2)) => match sdec_u64(b, j2) {
                Some((block_num, j3)) => match sdec_bytes(b, j3) {
                    Some((summary, j4)) => Some(
                        (PbftBlockView { block_id, signer_id, block_num, summary }, j4),
                    ),
                    None => None,
                },
                None => None,
            },
            None => None,
        },
        None => None,
    }
}

pub open spec fn enc_header(h: PeerMessageHeaderView) -> Seq<u8> {
    enc_bytes(h.signer_id) + enc_bytes(h.content_sha512)
}

pub open spec fn sdec_header(b: Seq<u8>, i: int) -> Option<(PeerMessageHeaderView, int)> {
    match sdec_bytes(b, i) {
        Some((signer_id, j1)) => match sdec_bytes(b, j1) {
            Some((content_sha512, j2)) => Some(
                (PeerMessageHeaderView { signer_id, content_sha512 }, j2),
            ),
            None => None,
        },
        None => None,
    }
}

pub open spec fn enc_vote(v: PbftSignedCommitVoteView) -> Seq<u8> {
    enc_bytes(v.header_bytes) + enc_bytes(v.header_signature) + enc_bytes(v.message_bytes)
}

pub open spec fn sdec_vote(b: Seq<u8>, i: int) -> Option<(PbftSignedCommitVoteView, int)> {
    match sdec_bytes(b, i) {
        Some((header_bytes, j1)) => match sdec_bytes(b, j1) {
            Some((header_signature, j2)) => match sdec_bytes(b, j2) {
                Some((message_bytes, j3)) => Some(
                    (PbftSignedCommitVoteView { header_bytes, header_signature, message_bytes }, j3),
                ),
                None => None,
            },
            None => None,
        },
        None => None,
    }
}

pub open spec fn enc_votes(vs: Seq<PbftSignedCommitVoteView>) -> Seq<u8>
    decreases vs.len(),
{
    if vs.len() == 0 {
        Seq::empty()
    } else {
        enc_vote(vs[0]) + enc_votes(vs.drop_first())
    }
}

pub open spec fn sdec_votes(b: Seq<u8>, i: int, n: nat) -> Option<
    (Seq<PbftSignedCommitVoteView>, int),
>
    decreases n,
{
    if n == 0 {
        Some((Seq::empty(), i))
    } else {
        match sdec_vote(b, i) {
            Some((v, j)) => match sdec_votes(b, j, (n - 1) as nat) {
                Some((vs, k)) => Some((seq![v] + vs, k)),
                None => None,
            },
            None => None,
        }
    }
}

pub open spec fn enc_seal(s: PbftSealView) -> Seq<u8> {
    enc_bytes(s.previous_id) + enc_bytes(s.summary) + enc_u64(
        s.previous_commit_votes.len() as u64,
    ) + enc_votes(s.previous_commit_votes)
}

pub open spec fn sdec_seal_at(b: Seq<u8>, i: int) -> Option<(PbftSealView, int)> {
    match sdec_bytes(b, i) {
        Some((previous_id, j1)) => match sdec_bytes(b, j1) {
            Some((summary, j2)) => match sdec_u64(b, j2) {
                Some((n, j3)) => match sdec_votes(b, j3, n as nat) {
                    Some((votes, j4)) => Some(
                        (PbftSealView { previous_id, summary, previous_commit_votes: votes }, j4),
                    ),
                    None => None,
                },
                None => None,
            },
            None => None,
        },
        None => None,
    }
}

pub open spec fn enc_msg(m: PbftMessageView) -> Seq<u8> {
    enc_info(m.info) + enc_block(m.block)
}

/// The full wire parse of a consensus message: all input consumed.
pub open spec fn sdec_msg(b: Seq<u8>) -> Option<PbftMessageView> {
    match sdec_info(b, 0) {
        Some((info, j)) => match sdec_block(b, j) {
            Some((block, k)) => if k == b.len() {
                Some(PbftMessageView { info, block })
            } else {
                None
            },
            None => None,
        },
        None => None,
    }
}

pub open spec fn enc_vc(v: PbftViewChangeView) -> Seq<u8> {
    enc_info(v.info) + enc_seal(v.seal)
}

/// The full wire parse of a view-change message: all input consumed.
pub open spec fn sdec_vc(b: Seq<u8>) -> Option<PbftViewChangeView> {
    match sdec_info(b, 0) {
        Some((info, j)) => match sdec_seal_at(b, j) {
            Some((seal, k)) => if k == b.len() {
                Some(PbftViewChangeView { info, seal })
            } else {
                None
            },
            None => None,
        },
        None => None,
    }
}

/// The full wire parse of a consensus seal: all input consumed.
pub open spec fn sdec_seal(b: Seq<u8>) -> Option<PbftSealView> {
    match sdec_seal_at(b, 0) {
        Some((seal, k)) => if k == b.len() {
            Some(seal)
        } else {
            None
        },
        None => None,
    }
}

/// The full wire parse of a transport header: all input consumed.
pub open spec fn sdec_header_full(b: Seq<u8>) -> Option<PeerMessageHeaderView> {
    match sdec_header(b, 0) {
        Some((h, k)) => if k == b.len() {
            Some(h)
        } else {
            None
        },
        None => None,
    }
}

// ---------- Well-formedness of views for encoding ----------

pub open spec fn info_wf(i: PbftMessageInfoView) -> bool {
    len_ok(i.signer_id)
}

pub open spec fn block_wf(bk: PbftBlockView) -> bool {
    len_ok(bk.block_id) && len_ok(bk.signer_id) && len_ok(bk.summary)
}

pub open spec fn msg_wf(m: PbftMessageView) -> bool {
    info_wf(m.info) && block_wf(m.block)
}

pub open spec fn header_wf(h: PeerMessageHeaderView) -> bool {
    len_ok(h.signer_id) && len_ok(h.content_sha512)
}

pub open spec fn vote_wf(v: PbftSignedCommitVoteView) -> bool {
    len_ok(v.header_bytes) && len_ok(v.header_signature) && len_ok(v.message_bytes)
}

pub open spec fn seal_wf(s: PbftSealView) -> bool {
    &&& len_ok(s.previous_id)
    &&& len_ok(s.summary)
    &&& s.previous_commit_votes.len() <= u64::MAX
    &&& forall|k: int|
        0 <= k < s.previous_commit_votes.len() ==> vote_wf(#[trigger] s.previous_commit_votes[k])
}

pub open spec fn vc_wf(v: PbftViewChangeView) -> bool {
    info_wf(v.info) && seal_wf(v.seal)
}

// ---------- Round-trip lemmas for the structures ----------

#[verifier::rlimit(80)]
proof fn lemma_dec_enc_info(pre: Seq<u8>, info: PbftMessageInfoView, suf: Seq<u8>)
    requires
        info_wf(info),
    ensures
        sdec_info(pre + enc_info(info) + suf, pre.len() as int) == Some(
            (info, pre.len() as int + enc_info(info).len() as int),
        ),
{
    let b = pre + enc_info(info) + suf;
    let i = pre.len() as int;
    let t = seq![tag_of(info.msg_type)];
    let len = info.signer_id.len() as int;
    assert(b[i] == tag_of(info.msg_type)) by {
        assert((pre + enc_info(info))[i] == enc_info(info)[0]);
    }
    assert(type_of_tag(tag_of(info.msg_type)) == Some(info.msg_type));
    assert(sdec_u64(b, i + 1) == Some((info.view, i + 9))) by {
        let p = pre + t;
        let s = enc_u64(info.seq_num) + enc_bytes(info.signer_id) + suf;
        lemma_dec_enc_u64(p, info.view, s);
        assert(b =~= p + enc_u64(info.view) + s);
    }
    assert(sdec_u64(b, i + 9) == Some((info.seq_num, i + 17))) by {
        let p = pre + t + enc_u64(info.view);
        let s = enc_bytes(info.signer_id) + suf;
        lemma_dec_enc_u64(p, info.seq_num, s);
        assert(b =~= p + enc_u64(info.seq_num) + s);
    }
    assert(sdec_bytes(b, i + 17) == Some((info.signer_id, i + 25 + len))) by {
        let p = pre + t + enc_u64(info.view) + enc_u64(info.seq_num);
        lemma_dec_enc_bytes(p, info.signer_id, suf);
        assert(b =~= p + enc_bytes(info.signer_id) + suf);
    }
    assert(enc_info(info).len() == 25 + len);
}

#[verifier::rlimit(80)]
proof fn lemma_dec_enc_block(pre: Seq<u8>, bk: PbftBlockView, suf: Seq<u8>)
    requires
        block_wf(bk),
    ensures
        sdec_block(pre + enc_block(bk) + suf, pre.len() as int) == Some(
            (bk, pre.len() as int + enc_block(bk).len() as int),
        ),
{
    let b = pre + enc_block(bk) + suf;
    let i = pre.len() as int;
    let la = bk.block_id.len() as int;
    let lb = bk.signer_id.len() as int;
    let lc = bk.summary.len() as int;
    assert(sdec_bytes(b, i) == Some((bk.block_id, i + 8 + la))) by {
        let s = enc_bytes(bk.signer_id) + enc_u64(bk.block_num) + enc_bytes(bk.summary) + suf;
        lemma_dec_enc_bytes(pre, bk.block_id, s);
        assert(b =~= pre + enc_bytes(bk.block_id) + s);
    }
    assert(sdec_bytes(b, i + 8 + la) == Some((bk.signer_id, i + 16 + la + lb))) by {
        let p = pre + enc_bytes(bk.block_id);
        let s = enc_u64(bk.block_num) + enc_bytes(bk.summary) + suf;
        lemma_dec_enc_bytes(p, bk.signer_id, s);
        assert(b =~= p + enc_bytes(bk.signer_id) + s);
    }
    assert(sdec_u64(b, i + 16 + la + lb) == Some((bk.block_num, i + 24 + la + lb))) by {
        let p = pre + enc_bytes(bk.block_id) + enc_bytes(bk.signer_id);
        let s = enc_bytes(bk.summary) + suf;
        lemma_dec_enc_u64(p, bk.block_num, s);
        assert(b =~= p + enc_u64(bk.block_num) + s);
    }
    assert(sdec_bytes(b, i + 24 + la + lb) == Some((bk.summary, i + 32 + la + lb + lc))) by {
        let p = pre + enc_bytes(bk.block_id) + enc_bytes(bk.signer_id) + enc_u64(bk.block_num);
        lemma_dec_enc_bytes(p, bk.summary, suf);
        assert(b =~= p + enc_bytes(bk.summary) + suf);
    }
    assert(enc_block(bk).len() == 32 + la + lb + lc);
}

#[verifier::rlimit(80)]
proof fn lemma_dec_enc_header(pre: Seq<u8>, h: PeerMessageHeaderView, suf: Seq<u8>)
    requires
        header_wf(h),
    ensures
        sdec_header(pre + enc_header(h) + suf, pre.len() as int) == Some(
            (h, pre.len() as int + enc_header(h).len() as int),
        ),
{
    let b = pre + enc_header(h) + suf;
    let i = pre.len() as int;
    let la = h.signer_id.len() as int;
    let lc = h.content_sha512.len() as int;
    assert(sdec_bytes(b, i) == Some((h.signer_id, i + 8 + la))) by {
        let s = enc_bytes(h.content_sha512) + suf;
        lemma_dec_enc_bytes(pre, h.signer_id, s);
        assert(b =~= pre + enc_bytes(h.signer_id) + s);
    }
    assert(sdec_bytes(b, i + 8 + la) == Some((h.content_sha512, i + 16 + la + lc))) by {
        let p = pre + enc_bytes(h.signer_id);
        lemma_dec_enc_bytes(p, h.content_sha512, suf);
        assert(b =~= p + enc_bytes(h.content_sha512) + suf);
    }
    assert(enc_header(h).len() == 16 + la + lc);
}

#[verifier::rlimit(80)]
proof fn lemma_dec_enc_vote(pre: Seq<u8>, v: PbftSignedCommitVoteView, suf: Seq<u8>)
    requires
        vote_wf(v),
    ensures
        sdec_vote(pre + enc_vote(v) + suf, pre.len() as int) == Some(
            (v, pre.len() as int + enc_vote(v).len() as int),
        ),
{
    let b = pre + enc_vote(v) + suf;
    let i = pre.len() as int;
    let la = v.header_bytes.len() as int;
    let lb = v.header_signature.len() as int;
    let lc = v.message_bytes.len() as int;
    assert(sdec_bytes(b, i) == Some((v.header_bytes, i + 8 + la))) by {
        let s = enc_bytes(v.header_signature) + enc_bytes(v.message_bytes) + suf;
        lemma_dec_enc_bytes(pre, v.header_bytes, s);
        assert(b =~= pre + enc_bytes(v.header_bytes) + s);
    }
    assert(sdec_bytes(b, i + 8 + la) == Some((v.header_signature, i + 16 + la + lb))) by {
        let p = pre + enc_bytes(v.header_bytes);
        let s = enc_bytes(v.message_bytes) + suf;
        lemma_dec_enc_bytes(p, v.header_signature, s);
        assert(b =~= p + enc_bytes(v.header_signature) + s);
    }
    assert(sdec_bytes(b, i + 16 + la + lb) == Some((v.message_bytes, i + 24 + la + lb + lc))) by {
        let p = pre + enc_bytes(v.header_bytes) + enc_bytes(v.header_signature);
        lemma_dec_enc_bytes(p, v.message_bytes, suf);
        assert(b =~= p + enc_bytes(v.message_bytes) + suf);
    }
    assert(enc_vote(v).len() == 24 + la + lb + lc);
}

#[verifier::rlimit(80)]
proof fn lemma_dec_enc_votes(pre: Seq<u8>, vs: Seq<PbftSignedCommitVoteView>, suf: Seq<u8>)
    requires
        forall|k: int| 0 <= k < vs.len() ==> vote_wf(#[trigger] vs[k]),
    ensures
        sdec_votes(pre + enc_votes(vs) + suf, pre.len() as int, vs.len()) == Some(
            (vs, pre.len() as int + enc_votes(vs).len() as int),
        ),
    decreases vs.len(),
{
    let b = pre + enc_votes(vs) + suf;
    let i = pre.len() as int;
    if vs.len() == 0 {
        assert(vs =~= Seq::<PbftSignedCommitVoteView>::empty());
    } else {
        let v0 = vs[0];
        let rest = vs.drop_first();
        let evl = enc_vote(v0).len() as int;
        assert(sdec_vote(b, i) == Some((v0, i + evl))) by {
            let s = enc_votes(rest) + suf;
            lemma_dec_enc_vote(pre, v0, s);
            assert(b =~= pre + enc_vote(v0) + s);
        }
        assert forall|k: int| 0 <= k < rest.len() implies vote_wf(#[trigger] rest[k]) by {
            assert(rest[k] == vs[k + 1]);
        }
        assert(sdec_votes(b, i + evl, rest.len()) == Some(
            (rest, i + evl + enc_votes(rest).len()),
        )) by {
            let p = pre + enc_vote(v0);
            lemma_dec_enc_votes(p, rest, suf);
            assert(b =~= p + enc_votes(rest) + suf);
        }
        assert(seq![v0] + rest =~= vs);
        assert(enc_votes(vs).len() == evl + enc_votes(rest).len());
    }
}

#[verifier::rlimit(80)]
proof fn lemma_dec_enc_seal(pre: Seq<u8>, s: PbftSealView, suf: Seq<u8>)
    requires
        seal_wf(s),
    ensures
        sdec_seal_at(pre + enc_seal(s) + suf, pre.len() as int) == Some(
            (s, pre.len() as int + enc_seal(s).len() as int),
        ),
{
    let b = pre + enc_seal(s) + suf;
    let i = pre.len() as int;
    let vs = s.previous_commit_votes;
    let n = vs.len() as u64;
    let la = s.previous_id.len() as int;
    let lc = s.summary.len() as int;
    let lv = enc_votes(vs).len() as int;
    assert(sdec_bytes(b, i) == Some((s.previous_id, i + 8 + la))) by {
        let r = enc_bytes(s.summary) + enc_u64(n) + enc_votes(vs) + suf;
        lemma_dec_enc_bytes(pre, s.previous_id, r);
        assert(b =~= pre + enc_bytes(s.previous_id) + r);
    }
    assert(sdec_bytes(b, i + 8 + la) == Some((s.summary, i + 16 + la + lc))) by {
        let p = pre + enc_bytes(s.previous_id);
        let r = enc_u64(n) + enc_votes(vs) + suf;
        lemma_dec_enc_bytes(p, s.summary, r);
        assert(b =~= p + enc_bytes(s.summary) + r);
    }
    assert(sdec_u64(b, i + 16 + la + lc) == Some((n, i + 24 + la + lc))) by {
        let p = pre + enc_bytes(s.previous_id) + enc_bytes(s.summary);
        let r = enc_votes(vs) + suf;
        lemma_dec_enc_u64(p, n, r);
        assert(b =~= p + enc_u64(n) + r);
    }
    assert(sdec_votes(b, i + 24 + la + lc, vs.len()) == Some((vs, i + 24 + la + lc + lv))) by {
        let p = pre + enc_bytes(s.previous_id) + enc_bytes(s.summary) + enc_u64(n);
        lemma_dec_enc_votes(p, vs, suf);
        assert(b =~= p + enc_votes(vs) + suf);
    }
    assert(n as nat == vs.len());
    assert(enc_seal(s).len() == 24 + la + lc + lv);
}

/// Encoding then decoding a consensus message gives the message back:
/// info and block fields are preserved exactly.
pub proof fn lemma_msg_round_trip(m: PbftMessageView)
    requires
        msg_wf(m),
    ensures
        sdec_msg(enc_msg(m)) == Some(m),
{
    let b = enc_msg(m);
    assert(b =~= Seq::<u8>::empty() + enc_info(m.info) + enc_block(m.block));
    lemma_dec_enc_info(Seq::<u8>::empty(), m.info, enc_block(m.block));
    assert(b =~= enc_info(m.info) + enc_block(m.block) + Seq::<u8>::empty());
    lemma_dec_enc_block(enc_info(m.info), m.block, Seq::<u8>::empty());
}

/// Encoding then decoding a view-change message gives it back, its seal's
/// votes byte for byte.
pub proof fn lemma_vc_round_trip(v: PbftViewChangeView)
    requires
        vc_wf(v),
    ensures
        sdec_vc(enc_vc(v)) == Some(v),
{
    let b = enc_vc(v);
    assert(b =~= Seq::<u8>::empty() + enc_info(v.info) + enc_seal(v.seal));
    lemma_dec_enc_info(Seq::<u8>::empty(), v.info, enc_seal(v.seal));
    assert(b =~= enc_info(v.info) + enc_seal(v.seal) + Seq::<u8>::empty());
    lemma_dec_enc_seal(enc_info(v.info), v.seal, Seq::<u8>::empty());
}

/// Encoding then decoding a consensus seal gives it back, every embedded
/// vote's header and message bytes preserved verbatim.
pub proof fn lemma_seal_round_trip(s: PbftSealView)
    requires
        seal_wf(s),
    ensures
        sdec_seal(enc_seal(s)) == Some(s),
{
    let b = enc_seal(s);
    assert(b =~= Seq::<u8>::empty() + enc_seal(s) + Seq::<u8>::empty());
    lemma_dec_enc_seal(Seq::<u8>::empty(), s, Seq::<u8>::empty());
}

/// Encoding then decoding a transport header gives it back.
pub proof fn lemma_header_round_trip(h: PeerMessageHeaderView)
    requires
        header_wf(h),
    ensures
        sdec_header_full(enc_header(h)) == Some(h),
{
    let b = enc_header(h);
    assert(b =~= Seq::<u8>::empty() + enc_header(h) + Seq::<u8>::empty());
    lemma_dec_enc_header(Seq::<u8>::empty(), h, Seq::<u8>::empty());
}

// ---------- Executable encoders for the primitives ----------

/// Append a `u64` as eight big-endian bytes.
pub fn encode_u64(out: &mut Vec<u8>, x: u64)
    ensures
        final(out)@ == old(out)@ + enc_u64(x),
{
    out.push(#[verifier::truncate] ((x >> 56) as u8));
    out.push(#[verifier::truncate] ((x >> 48) as u8));
    out.push(#[verifier::truncate] ((x >> 40) as u8));
    out.push(#[verifier::truncate] ((x >> 32) as u8));
    out.push(#[verifier::truncate] ((x >> 24) as u8));
    out.push(#[verifier::truncate] ((x >> 16) as u8));
    out.push(#[verifier::truncate] ((x >> 8) as u8));
    out.push(#[verifier::truncate] (x as u8));
    proof {
        assert(out@ =~= old(out)@ + enc_u64(x));
    }
}

/// Append a byte string: its length, then its bytes.
pub fn encode_bytes(out: &mut Vec<u8>, s: &Vec<u8>)
    ensures
        final(out)@ == old(out)@ + enc_bytes(s@),
{
    encode_u64(out, s.len() as u64);
    let n = s.len();
    let mut k: usize = 0;
    while k < n
        invariant
            n == s@.len(),
            0 <= k <= n,
            out@ == old(out)@ + enc_u64(s@.len() as u64) + s@.subrange(0, k as int),
        decreases n - k,
    {
        out.push(s[k]);
        proof {
            assert(out@ =~= old(out)@ + enc_u64(s@.len() as u64) + s@.subrange(0, k + 1));
        }
        k += 1;
    }
    proof {
        assert(s@.subrange(0, n as int) =~= s@);
        assert(out@ =~= old(out)@ + enc_bytes(s@));
    }
}

// ---------- Executable decoders for the primitives ----------

/// Read a `u64` at position `i`.
pub fn read_u64(b: &Vec<u8>, i: usize) -> (r: Option<(u64, usize)>)
    ensures
        match r {
            Some((x, j)) => sdec_u64(b@, i as int) == Some((x, j as int)),
            None => sdec_u64(b@, i as int) is None,
        },
{
    if b.len() >= 8 && i <= b.len() - 8 {
        let x = ((b[i] as u64) << 56) | ((b[i + 1] as u64) << 48) | ((b[i + 2] as u64) << 40) | ((
        b[i + 3] as u64) << 32) | ((b[i + 4] as u64) << 24) | ((b[i + 5] as u64) << 16) | ((b[i
            + 6] as u64) << 8) | (b[i + 7] as u64);
        Some((x, i + 8))
    } else {
        None
    }
}

/// Read a length-prefixed byte string at position `i`.
pub fn read_bytes(b: &Vec<u8>, i: usize) -> (r: Option<(Vec<u8>, usize)>)
    ensures
        match r {
            Some((s, j)) => sdec_bytes(b@, i as int) == Some((s@, j as int)),
            None => sdec_bytes(b@, i as int) is None,
        },
{
    match read_u64(b, i) {
        None => None,
        Some((n, j)) => {
            let rem = b.len() - j;
            if n > rem as u64 {
                None
            } else {
                let n_us = n as usize;
                let mut s: Vec<u8> = Vec::new();
                let mut k: usize = 0;
                while k < n_us
                    invariant
                        j + n_us <= b@.len(),
                        b@.len() <= usize::MAX,
                        0 <= k <= n_us,
                        s@ == b@.subrange(j as int, j + k),
                    decreases n_us - k,
                {
                    s.push(b[j + k]);
                    proof {
                        assert(s@ =~= b@.subrange(j as int, j + k + 1));
                    }
                    k += 1;
                }
                Some((s, j + n_us))
            }
        },
    }
}

// ---------- Views taken from in-memory values are short enough to encode ----------

/// A message held in vectors always meets the encoder's length bounds.
pub proof fn lemma_msg_views_wf(m: &PbftMessage)
    ensures
        msg_wf(m@),
{
    assert(m.info.signer_id.len() == m.info.signer_id@.len());
    assert(m.block.block_id.len() == m.block.block_id@.len());
    assert(m.block.signer_id.len() == m.block.signer_id@.len());
    assert(m.block.summary.len() == m.block.summary@.len());
}

/// A seal held in vectors always meets the encoder's length bounds.
pub proof fn lemma_seal_views_wf(s: &PbftSeal)
    ensures
        seal_wf(s@),
{
    assert(s.previous_id.len() == s.previous_id@.len());
    assert(s.summary.len() == s.summary@.len());
    assert(s.previous_commit_votes.len() == s.previous_commit_votes@.len());
    assert forall|k: int|
        0 <= k < s@.previous_commit_votes.len() implies vote_wf(
        #[trigger] s@.previous_commit_votes[k],
    ) by {
        let v = s.previous_commit_votes@[k];
        assert(v.header_bytes.len() == v.header_bytes@.len());
        assert(v.header_signature.len() == v.header_signature@.len());
        assert(v.message_bytes.len() == v.message_bytes@.len());
    }
}

/// A view change held in vectors always meets the encoder's length bounds.
pub proof fn lemma_vc_views_wf(vc: &PbftViewChange)
    ensures
        vc_wf(vc@),
{
    assert(vc.info.signer_id.len() == vc.info.signer_id@.len());
    lemma_seal_views_wf(&vc.seal);
}

// ---------- Executable encoders for the structures ----------

fn tag_byte(t: PbftMessageType) -> (r: u8)
    ensures
        r == tag_of(t),
{
    match t {
        PbftMessageType::Unset => 0,
        PbftMessageType::PrePrepare => 1,
        PbftMessageType::Prepare => 2,
        PbftMessageType::Commit => 3,
        PbftMessageType::BlockNew => 4,
        PbftMessageType::ViewChange => 5,
    }
}

fn type_from_tag(x: u8) -> (r: Option<PbftMessageType>)
    ensures
        r == type_of_tag(x),
{
    if x == 0 {
        Some(PbftMessageType::Unset)
    } else if x == 1 {
        Some(PbftMessageType::PrePrepare)
    } else if x == 2 {
        Some(PbftMessageType::Prepare)
    } else if x == 3 {
        Some(PbftMessageType::Commit)
    } else if x == 4 {
        Some(PbftMessageType::BlockNew)
    } else if x == 5 {
        Some(PbftMessageType::ViewChange)
    } else {
        None
    }
}

fn encode_info(out: &mut Vec<u8>, info: &PbftMessageInfo)
    ensures
        final(out)@ == old(out)@ + enc_info(info@),
{
    out.push(tag_byte(info.msg_type));
    encode_u64(out, info.view);
    encode_u64(out, info.seq_num);
    encode_bytes(out, &info.signer_id);
    proof {
        assert(out@ =~= old(out)@ + enc_info(info@));
    }
}

fn encode_block(out: &mut Vec<u8>, bk: &PbftBlock)
    ensures
        final(out)@ == old(out)@ + enc_block(bk@),
{
    encode_bytes(out, &bk.block_id);
    encode_bytes(out, &bk.signer_id);
    encode_u64(out, bk.block_num);
    encode_bytes(out, &bk.summary);
    proof {
        assert(out@ =~= old(out)@ + enc_block(bk@));
    }
}

fn encode_header(out: &mut Vec<u8>, h: &PeerMessageHeader)
    ensures
        final(out)@ == old(out)@ + enc_header(h@),
{
    encode_bytes(out, &h.signer_id);
    encode_bytes(out, &h.content_sha512);
    proof {
        assert(out@ =~= old(out)@ + enc_header(h@));
    }
}

fn encode_vote(out: &mut Vec<u8>, v: &PbftSignedCommitVote)
    ensures
        final(out)@ == old(out)@ + enc_vote(v@),
{
    encode_bytes(out, &v.header_bytes);
    encode_bytes(out, &v.header_signature);
    encode_bytes(out, &v.message_bytes);
    proof {
        assert(out@ =~= old(out)@ + enc_vote(v@));
    }
}

/// Concatenation splits vote-list encodings.
proof fn lemma_enc_votes_app(a: Seq<PbftSignedCommitVoteView>, c: Seq<PbftSignedCommitVoteView>)
    ensures
        enc_votes(a + c) == enc_votes(a) + enc_votes(c),
    decreases a.len(),
{
    if a.len() == 0 {
        assert(a + c =~= c);
        assert(enc_votes(a) + enc_votes(c) =~= enc_votes(c));
    } else {
        assert((a + c).drop_first() =~= a.drop_first() + c);
        assert((a + c)[0] == a[0]);
        lemma_enc_votes_app(a.drop_first(), c);
        assert(enc_vote(a[0]) + (enc_votes(a.drop_first()) + enc_votes(c)) =~= (enc_vote(a[0])
            + enc_votes(a.drop_first())) + enc_votes(c));
        assert((a + c).len() != 0);
    }
}

fn encode_votes(out: &mut Vec<u8>, votes: &Vec<PbftSignedCommitVote>)
    ensures
        final(out)@ == old(out)@ + enc_votes(
            votes@.map_values(|v: PbftSignedCommitVote| v@),
        ),
{
    let ghost vmap = votes@.map_values(|v: PbftSignedCommitVote| v@);
    let n = votes.len();
    let mut k: usize = 0;
    proof {
        assert(vmap.subrange(0, 0) =~= Seq::<PbftSignedCommitVoteView>::empty());
        assert(out@ =~= old(out)@ + enc_votes(vmap.subrange(0, 0)));
    }
    while k < n
        invariant
            n == votes@.len(),
            vmap == votes@.map_values(|v: PbftSignedCommitVote| v@),
            0 <= k <= n,
            out@ == old(out)@ + enc_votes(vmap.subrange(0, k as int)),
        decreases n - k,
    {
        encode_vote(out, &votes[k]);
        proof {
            let a = vmap.subrange(0, k as int);
            let one = seq![vmap[k as int]];
            assert(one.drop_first() =~= Seq::<PbftSignedCommitVoteView>::empty());
            lemma_enc_votes_app(a, one);
            assert(enc_votes(one) =~= enc_vote(vmap[k as int]) + enc_votes(
                Seq::<PbftSignedCommitVoteView>::empty(),
            ));
            assert(enc_votes(one) =~= enc_vote(vmap[k as int]));
            assert(vmap.subrange(0, k + 1) =~= a + one);
            assert(out@ =~= old(out)@ + enc_votes(vmap.subrange(0, k + 1)));
        }
        k += 1;
    }
    proof {
        assert(vmap.subrange(0, n as int) =~= vmap);
    }
}

fn encode_seal(out: &mut Vec<u8>, s: &PbftSeal)
    ensures
        final(out)@ == old(out)@ + enc_seal(s@),
{
    encode_bytes(out, &s.previous_id);
    encode_bytes(out, &s.summary);
    encode_u64(out, s.previous_commit_votes.len() as u64);
    encode_votes(out, &s.previous_commit_votes);
    proof {
        assert(out@ =~= old(out)@ + enc_seal(s@));
    }
}

/// Serialize a consensus message.
pub fn encode_pbft_message(m: &PbftMessage) -> (r: Vec<u8>)
    ensures
        r@ == enc_msg(m@),
{
    let mut out: Vec<u8> = Vec::new();
    encode_info(&mut out, &m.info);
    encode_block(&mut out, &m.block);
    proof {
        assert(out@ =~= enc_msg(m@));
    }
    out
}

/// Serialize a view-change message.
pub fn encode_view_change(v: &PbftViewChange) -> (r: Vec<u8>)
    ensures
        r@ == enc_vc(v@),
{
    let mut out: Vec<u8> = Vec::new();
    encode_info(&mut out, &v.info);
    encode_seal(&mut out, &v.seal);
    proof {
        assert(out@ =~= enc_vc(v@));
    }
    out
}

/// Serialize a consensus seal, as embedded in a block payload.
pub fn encode_consensus_seal(s: &PbftSeal) -> (r: Vec<u8>)
    ensures
        r@ == enc_seal(s@),
{
    let mut out: Vec<u8> = Vec::new();
    encode_seal(&mut out, s);
    proof {
        assert(out@ =~= enc_seal(s@));
    }
    out
}

/// Serialize a transport-level message header.
pub fn encode_peer_header(h: &PeerMessageHeader) -> (r: Vec<u8>)
    ensures
        r@ == enc_header(h@),
{
    let mut out: Vec<u8> = Vec::new();
    encode_header(&mut out, h);
    proof {
        assert(out@ =~= enc_header(h@));
    }
    out
}

// ---------- Executable decoders for the structures ----------

fn read_info(b: &Vec<u8>, i: usize) -> (r: Option<(PbftMessageInfo, usize)>)
    ensures
        match r {
            Some((info, j)) => sdec_info(b@, i as int) == Some((info@, j as int)),
            None => sdec_info(b@, i as int) is None,
        },
{
    if i >= b.len() {
        return None;
    }
    let t = match type_from_tag(b[i]) {
        Some(t) => t,
        None => {
            return None;
        },
    };
    let (view, j1) = match read_u64(b, i + 1) {
        Some(p) => p,
        None => {
            return None;
        },
    };
    let (seq_num, j2) = match read_u64(b, j1) {
        Some(p) => p,
        None => {
            return None;
        },
    };
    let (signer_id, j3) = match read_bytes(b, j2) {
        Some(p) => p,
        None => {
            return None;
        },
    };
    Some((PbftMessageInfo { msg_type: t, view, seq_num, signer_id }, j3))
}

fn read_block(b: &Vec<u8>, i: usize) -> (r: Option<(PbftBlock, usize)>)
    ensures
        match r {
            Some((bk, j)) => sdec_block(b@, i as int) == Some((bk@, j as int)),
            None => sdec_block(b@, i as int) is None,
        },
{
    let (block_id, j1) = match read_bytes(b, i) {
        Some(p) => p,
        None => {
            return None;
        },
    };
    let (signer_id, j2) = match read_bytes(b, j1) {
        Some(p) => p,
        None => {
            return None;
        },
    };
    let (block_num, j3) = match read_u64(b, j2) {
        Some(p) => p,
        None => {
            return None;
        },
    };
    let (summary, j4) = match read_bytes(b, j3) {
        Some(p) => p,
        None => {
            return None;
        },
    };
    Some((PbftBlock { block_id, signer_id, block_num, summary }, j4))
}

fn read_header(b: &Vec<u8>, i: usize) -> (r: Option<(PeerMessageHeader, usize)>)
    ensures
        match r {
            Some((h, j)) => sdec_header(b@, i as int) == Some((h@, j as int)),
            None => sdec_header(b@, i as int) is None,
        },
{
    let (signer_id, j1) = match read_bytes(b, i) {
        Some(p) => p,
        None => {
            return None;
        },
    };
    let (content_sha512, j2) = match read_bytes(b, j1) {
        Some(p) => p,
        None => {
            return None;
        },
    };
    Some((PeerMessageHeader { signer_id, content_sha512 }, j2))
}

fn read_vote(b: &Vec<u8>, i: usize) -> (r: Option<(PbftSignedCommitVote, usize)>)
    ensures
        match r {
            Some((v, j)) => sdec_vote(b@, i as int) == Some((v@, j as int)),
            None => sdec_vote(b@, i as int) is None,
        },
{
    let (header_bytes, j1) = match read_bytes(b, i) {
        Some(p) => p,
        None => {
            return None;
        },
    };
    let (header_signature, j2) = match read_bytes(b, j1) {
        Some(p) => p,
        None => {
            return None;
        },
    };
    let (message_bytes, j3) = match read_bytes(b, j2) {
        Some(p) => p,
        None => {
            return None;
        },
    };
    Some((PbftSignedCommitVote { header_bytes, header_signature, message_bytes }, j3))
}

fn read_votes(b: &Vec<u8>, i: usize, n: u64) -> (r: Option<(Vec<PbftSignedCommitVote>, usize)>)
    ensures
        match r {
            Some((vs, j)) => sdec_votes(b@, i as int, n as nat) == Some(
                (vs@.map_values(|v: PbftSignedCommitVote| v@), j as int),
            ),
            None => sdec_votes(b@, i as int, n as nat) is None,
        },
{
    let mut acc: Vec<PbftSignedCommitVote> = Vec::new();
    let mut cur: usize = i;
    let mut k: u64 = 0;
    proof {
        assert(acc@.map_values(|v: PbftSignedCommitVote| v@) =~= Seq::<
            PbftSignedCommitVoteView,
        >::empty());
    }
    while k < n
        invariant
            0 <= k <= n,
            match sdec_votes(b@, cur as int, (n - k) as nat) {
                Some((vs, j)) => sdec_votes(b@, i as int, n as nat) == Some(
                    (acc@.map_values(|v: PbftSignedCommitVote| v@) + vs, j),
                ),
                None => sdec_votes(b@, i as int, n as nat) is None,
            },
        decreases n - k,
    {
        let (v, j2) = match read_vote(b, cur) {
            Some(p) => p,
            None => {
                return None;
            },
        };
        let ghost amap = acc@.map_values(|q: PbftSignedCommitVote| q@);
        let ghost m = (n - k) as nat;
        proof {
            assert(m != 0);
            match sdec_votes(b@, j2 as int, (m - 1) as nat) {
                Some((vs2, jj)) => {
                    assert(sdec_votes(b@, cur as int, m) == Some((seq![v@] + vs2, jj)));
                    assert(amap + (seq![v@] + vs2) =~= (amap + seq![v@]) + vs2);
                },
                None => {
                    assert(sdec_votes(b@, cur as int, m) is None);
                },
            }
        }
        acc.push(v);
        proof {
            assert(acc@.map_values(|q: PbftSignedCommitVote| q@) =~= amap + seq![v@]);
        }
        cur = j2;
        k = k + 1;
    }
    proof {
        let amap = acc@.map_values(|v: PbftSignedCommitVote| v@);
        assert(sdec_votes(b@, cur as int, 0) == Some(
            (Seq::<PbftSignedCommitVoteView>::empty(), cur as int),
        ));
        assert(amap + Seq::<PbftSignedCommitVoteView>::empty() =~= amap);
    }
    Some((acc, cur))
}

fn read_seal(b: &Vec<u8>, i: usize) -> (r: Option<(PbftSeal, usize)>)
    ensures
        match r {
            Some((s, j)) => sdec_seal_at(b@, i as int) == Some((s@, j as int)),
            None => sdec_seal_at(b@, i as int) is None,
        },
{
    let (previous_id, j1) = match read_bytes(b, i) {
        Some(p) => p,
        None => {
            return None;
        },
    };
    let (summary, j2) = match read_bytes(b, j1) {
        Some(p) => p,
        None => {
            return None;
        },
    };
    let (n, j3) = match read_u64(b, j2) {
        Some(p) => p,
        None => {
            return None;
        },
    };
    let (previous_commit_votes, j4) = match read_votes(b, j3, n) {
        Some(p) => p,
        None => {
            return None;
        },
    };
    Some((PbftSeal { previous_id, summary, previous_commit_votes }, j4))
}

/// The message kind named by the wire tag, read without a full parse.
pub fn read_message_kind(b: &Vec<u8>) -> (r: Option<PbftMessageType>)
    ensures
        r == (if b@.len() > 0 {
            type_of_tag(b@[0])
        } else {
            None::<PbftMessageType>
        }),
{
    if b.len() == 0 {
        None
    } else {
        type_from_tag(b[0])
    }
}

/// Parse a consensus message; `None` on any malformed input.
pub fn decode_pbft_message(b: &Vec<u8>) -> (r: Option<PbftMessage>)
    ensures
        match r {
            Some(m) => sdec_msg(b@) == Some(m@),
            None => sdec_msg(b@) is None,
        },
{
    let (info, j) = match read_info(b, 0) {
        Some(p) => p,
        None => {
            return None;
        },
    };
    let (block, k) = match read_block(b, j) {
        Some(p) => p,
        None => {
            return None;
        },
    };
    if k == b.len() {
        Some(PbftMessage { info, block })
    } else {
        None
    }
}

/// Parse a view-change message; `None` on any malformed input.
pub fn decode_view_change(b: &Vec<u8>) -> (r: Option<PbftViewChange>)
    ensures
        match r {
            Some(v) => sdec_vc(b@) == Some(v@),
            None => sdec_vc(b@) is None,
        },
{
    let (info, j) = match read_info(b, 0) {
        Some(p) => p,
        None => {
            return None;
        },
    };
    let (seal, k) = match read_seal(b, j) {
        Some(p) => p,
        None => {
            return None;
        },
    };
    if k == b.len() {
        Some(PbftViewChange { info, seal })
    } else {
        None
    }
}

/// Parse a consensus seal from a block payload; `None` on any malformed
/// input.
pub fn decode_consensus_seal(b: &Vec<u8>) -> (r: Option<PbftSeal>)
    ensures
        match r {
            Some(s) => sdec_seal(b@) == Some(s@),
            None => sdec_seal(b@) is None,
        },
{
    let (seal, k) = match read_seal(b, 0) {
        Some(p) => p,
        None => {
            return None;
        },
    };
    if k == b.len() {
        Some(seal)
    } else {
        None
    }
}

/// Parse a transport-level message header; `None` on any malformed input.
pub fn decode_peer_header(b: &Vec<u8>) -> (r: Option<PeerMessageHeader>)
    ensures
        match r {
            Some(h) => sdec_header_full(b@) == Some(h@),
            None => sdec_header_full(b@) is None,
        },
{
    let (h, k) = match read_header(b, 0) {
        Some(p) => p,
        None => {
            return None;
        },
    };
    if k == b.len() {
        Some(h)
    } else {
        None
    }
}

} // verus!
