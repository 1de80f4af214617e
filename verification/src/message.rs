//! The consensus message and block types, with their mathematical views.
//!
//! A peer or block identifier is an opaque byte string.  Raw wire bytes of a
//! vote (`header_bytes`, `header_signature`, `message_bytes`) are retained
//! verbatim because consensus seals re-emit them for third-party
//! verification.

use vstd::prelude::*;

use crate::bytes::clone_bytes;

verus! {

/// An opaque identifier of a network participant.
pub type PeerId = Vec<u8>;

/// An opaque identifier of a block.
pub type BlockId = Vec<u8>;

/// The kinds of message the protocol exchanges.
#[derive(Clone, Copy, PartialEq, Eq, Structural, Debug)]
pub enum PbftMessageType {
    Unset,
    PrePrepare,
    Prepare,
    Commit,
    BlockNew,
    ViewChange,
}

impl PbftMessageType {
    /// The message kinds every node sends to every other node during the
    /// three-phase exchange.
    pub open spec fn spec_is_multicast(self) -> bool {
        self == PbftMessageType::PrePrepare || self == PbftMessageType::Prepare || self
            == PbftMessageType::Commit
    }

    pub fn is_multicast(&self) -> (r: bool)
        ensures
            r == self.spec_is_multicast(),
    {
        match self {
            PbftMessageType::PrePrepare | PbftMessageType::Prepare | PbftMessageType::Commit => {
                true
            },
            _ => false,
        }
    }
}

/// What every consensus message carries: its kind, the view and sequence
/// number it speaks about, and who signed it.
#[derive(Debug, PartialEq, Eq)]
pub struct PbftMessageInfo {
    pub msg_type: PbftMessageType,
    pub view: u64,
    pub seq_num: u64,
    pub signer_id: PeerId,
}

pub struct PbftMessageInfoView {
    pub msg_type: PbftMessageType,
    pub view: u64,
    pub seq_num: u64,
    pub signer_id: Seq<u8>,
}

impl View for PbftMessageInfo {
    type V = PbftMessageInfoView;

    open spec fn view(&self) -> PbftMessageInfoView {
        PbftMessageInfoView {
            msg_type: self.msg_type,
            view: self.view,
            seq_num: self.seq_num,
            signer_id: self.signer_id@,
        }
    }
}

impl Clone for PbftMessageInfo {
    fn clone(&self) -> (r: Self)
        ensures
            r@ == self@,
    {
        PbftMessageInfo {
            msg_type: self.msg_type,
            view: self.view,
            seq_num: self.seq_num,
            signer_id: clone_bytes(&self.signer_id),
        }
    }
}

/// The core's lightweight projection of a block: no payload, since the core
/// never forwards payloads in its own messages.
#[derive(Debug, PartialEq, Eq)]
pub struct PbftBlock {
    pub block_id: BlockId,
    pub signer_id: PeerId,
    pub block_num: u64,
    pub summary: Vec<u8>,
}

pub struct PbftBlockView {
    pub block_id: Seq<u8>,
    pub signer_id: Seq<u8>,
    pub block_num: u64,
    pub summary: Seq<u8>,
}

impl View for PbftBlock {
    type V = PbftBlockView;

    open spec fn view(&self) -> PbftBlockView {
        PbftBlockView {
            block_id: self.block_id@,
            signer_id: self.signer_id@,
            block_num: self.block_num,
            summary: self.summary@,
        }
    }
}

impl Clone for PbftBlock {
    fn clone(&self) -> (r: Self)
        ensures
            r@ == self@,
    {
        PbftBlock {
            block_id: clone_bytes(&self.block_id),
            signer_id: clone_bytes(&self.signer_id),
            block_num: self.block_num,
            summary: clone_bytes(&self.summary),
        }
    }
}

impl PbftBlock {
    /// The all-empty block projection, carried by messages that speak about
    /// no particular block.
    pub fn empty() -> (r: PbftBlock)
        ensures
            r@ == PbftBlockView::spec_empty(),
    {
        PbftBlock { block_id: Vec::new(), signer_id: Vec::new(), block_num: 0, summary: Vec::new() }
    }
}

impl PbftBlockView {
    pub open spec fn spec_empty() -> PbftBlockView {
        PbftBlockView {
            block_id: Seq::empty(),
            signer_id: Seq::empty(),
            block_num: 0,
            summary: Seq::empty(),
        }
    }
}

/// A block as the host validator hands it over: the full record including
/// the payload, which for every block past the first carries the serialized
/// consensus seal over its predecessor.
#[derive(Debug, PartialEq, Eq)]
pub struct Block {
    pub block_id: BlockId,
    pub previous_id: BlockId,
    pub signer_id: PeerId,
    pub block_num: u64,
    pub payload: Vec<u8>,
    pub summary: Vec<u8>,
}

pub struct BlockView {
    pub block_id: Seq<u8>,
    pub previous_id: Seq<u8>,
    pub signer_id: Seq<u8>,
    pub block_num: u64,
    pub payload: Seq<u8>,
    pub summary: Seq<u8>,
}

impl View for Block {
    type V = BlockView;

    open spec fn view(&self) -> BlockView {
        BlockView {
            block_id: self.block_id@,
            previous_id: self.previous_id@,
            signer_id: self.signer_id@,
            block_num: self.block_num,
            payload: self.payload@,
            summary: self.summary@,
        }
    }
}

impl Clone for Block {
    fn clone(&self) -> (r: Self)
        ensures
            r@ == self@,
    {
        Block {
            block_id: clone_bytes(&self.block_id),
            previous_id: clone_bytes(&self.previous_id),
            signer_id: clone_bytes(&self.signer_id),
            block_num: self.block_num,
            payload: clone_bytes(&self.payload),
            summary: clone_bytes(&self.summary),
        }
    }
}

/// A full consensus message: info plus the block projection it speaks about.
#[derive(Debug, PartialEq, Eq)]
pub struct PbftMessage {
    pub info: PbftMessageInfo,
    pub block: PbftBlock,
}

pub struct PbftMessageView {
    pub info: PbftMessageInfoView,
    pub block: PbftBlockView,
}

impl View for PbftMessage {
    type V = PbftMessageView;

    open spec fn view(&self) -> PbftMessageView {
        PbftMessageView { info: self.info@, block: self.block@ }
    }
}

impl Clone for PbftMessage {
    fn clone(&self) -> (r: Self)
        ensures
            r@ == self@,
    {
        PbftMessage { info: self.info.clone(), block: self.block.clone() }
    }
}

/// A Commit message together with its transport-level signed header,
/// sufficient to verify its provenance without the live peer session.
#[derive(Debug, PartialEq, Eq)]
pub struct PbftSignedCommitVote {
    pub header_bytes: Vec<u8>,
    pub header_signature: Vec<u8>,
    pub message_bytes: Vec<u8>,
}

pub struct PbftSignedCommitVoteView {
    pub header_bytes: Seq<u8>,
    pub header_signature: Seq<u8>,
    pub message_bytes: Seq<u8>,
}

impl View for PbftSignedCommitVote {
    type V = PbftSignedCommitVoteView;

    open spec fn view(&self) -> PbftSignedCommitVoteView {
        PbftSignedCommitVoteView {
            header_bytes: self.header_bytes@,
            header_signature: self.header_signature@,
            message_bytes: self.message_bytes@,
        }
    }
}

impl Clone for PbftSignedCommitVote {
    fn clone(&self) -> (r: Self)
        ensures
            r@ == self@,
    {
        PbftSignedCommitVote {
            header_bytes: clone_bytes(&self.header_bytes),
            header_signature: clone_bytes(&self.header_signature),
            message_bytes: clone_bytes(&self.message_bytes),
        }
    }
}

/// A portable certificate that a quorum committed the block `previous_id`:
/// the commit votes are re-emitted verbatim so that any third party can
/// verify them.
#[derive(Debug, PartialEq, Eq)]
pub struct PbftSeal {
    pub previous_id: BlockId,
    pub summary: Vec<u8>,
    pub previous_commit_votes: Vec<PbftSignedCommitVote>,
}

pub struct PbftSealView {
    pub previous_id: Seq<u8>,
    pub summary: Seq<u8>,
    pub previous_commit_votes: Seq<PbftSignedCommitVoteView>,
}

impl View for PbftSeal {
    type V = PbftSealView;

    open spec fn view(&self) -> PbftSealView {
        PbftSealView {
            previous_id: self.previous_id@,
            summary: self.summary@,
            previous_commit_votes: self.previous_commit_votes@.map_values(
                |v: PbftSignedCommitVote| v@,
            ),
        }
    }
}

impl Clone for PbftSeal {
    fn clone(&self) -> (r: Self)
        ensures
            r@ == self@,
    {
        let votes = self.previous_commit_votes.clone();
        proof {
            assert forall|i: int|
                0 <= i < votes@.len() implies votes@[i]@ == self.previous_commit_votes@[i]@ by {
                assert(cloned::<PbftSignedCommitVote>(self.previous_commit_votes@[i], votes@[i]));
            }
            assert(votes@.map_values(|v: PbftSignedCommitVote| v@) =~= self.previous_commit_votes@.map_values(
                |v: PbftSignedCommitVote| v@,
            ));
        }
        PbftSeal {
            previous_id: clone_bytes(&self.previous_id),
            summary: clone_bytes(&self.summary),
            previous_commit_votes: votes,
        }
    }
}

impl PbftSeal {
    /// A seal with no votes and empty identifiers.
    pub fn new() -> (r: PbftSeal)
        ensures
            r@ == PbftSealView::spec_empty(),
    {
        let r = PbftSeal { previous_id: Vec::new(), summary: Vec::new(), previous_commit_votes: Vec::new() };
        proof {
            assert(r@.previous_commit_votes =~= Seq::<PbftSignedCommitVoteView>::empty());
        }
        r
    }
}

impl PbftSealView {
    pub open spec fn spec_empty() -> PbftSealView {
        PbftSealView {
            previous_id: Seq::empty(),
            summary: Seq::empty(),
            previous_commit_votes: Seq::empty(),
        }
    }
}

/// A request to move to a new view, carrying the seal that proves the
/// sender's last committed state.
#[derive(Debug, PartialEq, Eq)]
pub struct PbftViewChange {
    pub info: PbftMessageInfo,
    pub seal: PbftSeal,
}

pub struct PbftViewChangeView {
    pub info: PbftMessageInfoView,
    pub seal: PbftSealView,
}

impl View for PbftViewChange {
    type V = PbftViewChangeView;

    open spec fn view(&self) -> PbftViewChangeView {
        PbftViewChangeView { info: self.info@, seal: self.seal@ }
    }
}

impl Clone for PbftViewChange {
    fn clone(&self) -> (r: Self)
        ensures
            r@ == self@,
    {
        PbftViewChange { info: self.info.clone(), seal: self.seal.clone() }
    }
}

/// The transport-level header under which a peer message was signed: the
/// signer's public key and the digest of the message content.
#[derive(Debug, PartialEq, Eq)]
pub struct PeerMessageHeader {
    pub signer_id: Vec<u8>,
    pub content_sha512: Vec<u8>,
}

pub struct PeerMessageHeaderView {
    pub signer_id: Seq<u8>,
    pub content_sha512: Seq<u8>,
}

impl View for PeerMessageHeader {
    type V = PeerMessageHeaderView;

    open spec fn view(&self) -> PeerMessageHeaderView {
        PeerMessageHeaderView {
            signer_id: self.signer_id@,
            content_sha512: self.content_sha512@,
        }
    }
}

impl Clone for PeerMessageHeader {
    fn clone(&self) -> (r: Self)
        ensures
            r@ == self@,
    {
        PeerMessageHeader {
            signer_id: clone_bytes(&self.signer_id),
            content_sha512: clone_bytes(&self.content_sha512),
        }
    }
}

} // verus!
