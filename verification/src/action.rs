//! The calls the core asks its host validator to make.
//!
//! The core never performs I/O: each handler appends the host calls it
//! decided on to the node's outbox, and the host drains the outbox and
//! performs them, in order, before delivering the next event.

use vstd::prelude::*;

use crate::message::BlockId;
use crate::message::PbftMessageType;

verus! {

/// One call for the host to make.
#[derive(Debug)]
pub enum HostAction {
    /// Send these message bytes, of this kind, to every peer — and, when
    /// self-delivery is on, back into this node's own peer-message handler.
    Broadcast(PbftMessageType, Vec<u8>),
    /// Ask the validator to check these blocks; a BlockValid event answers.
    CheckBlocks(Vec<BlockId>),
    /// Ask the validator to commit this block; a BlockCommit event answers.
    CommitBlock(BlockId),
    /// Tell the validator this block failed consensus.
    FailBlock(BlockId),
    /// Ask the validator to start building a block on this predecessor, or
    /// on the current chain head.
    InitializeBlock(Option<BlockId>),
    /// Ask the validator to finalize the block under construction with
    /// this consensus payload; declining with "block not ready" is not an
    /// error.
    FinalizeBlock(Vec<u8>),
}

pub enum HostActionView {
    Broadcast(PbftMessageType, Seq<u8>),
    CheckBlocks(Seq<Seq<u8>>),
    CommitBlock(Seq<u8>),
    FailBlock(Seq<u8>),
    InitializeBlock(Option<Seq<u8>>),
    FinalizeBlock(Seq<u8>),
}

impl View for HostAction {
    type V = HostActionView;

    open spec fn view(&self) -> HostActionView {
        match self {
            HostAction::Broadcast(t, bytes) => HostActionView::Broadcast(*t, bytes@),
            HostAction::CheckBlocks(ids) => HostActionView::CheckBlocks(
                ids@.map_values(|b: BlockId| b@),
            ),
            HostAction::CommitBlock(id) => HostActionView::CommitBlock(id@),
            HostAction::FailBlock(id) => HostActionView::FailBlock(id@),
            HostAction::InitializeBlock(prev) => HostActionView::InitializeBlock(
                match prev {
                    Some(id) => Some(id@),
                    None => None,
                },
            ),
            HostAction::FinalizeBlock(payload) => HostActionView::FinalizeBlock(payload@),
        }
    }
}

} // verus!
