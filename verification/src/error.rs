//! Errors surfaced by the consensus core.
//!
//! Transient reordering conditions (a message ahead of its prerequisites)
//! are absorbed by the caller via the backlog; cryptographic, quorum and
//! identity failures are surfaced so the caller can take protective action.

use vstd::prelude::*;

use crate::message::PbftBlock;
use crate::message::PbftMessageType;

verus! {

/// What exactly an internal check found wrong.
#[derive(Clone, Copy, PartialEq, Eq, Structural, Debug)]
pub enum InternalFault {
    /// A block past the first arrived with an empty payload.
    EmptyPayload,
    /// A seal's `previous_id` does not match the block it came with.
    SealPreviousIdMismatch,
    /// A seal's summary does not match the block it came with.
    SealSummaryMismatch,
    /// A vote's inner message speaks of a different block than the seal.
    VoteBlockIdMismatch,
    /// A vote's header signature failed verification.
    SignatureInvalid,
    /// A vote's message bytes do not hash to the header's digest.
    DigestMismatch,
    /// A voter is not among the sealed block's peers minus its signer.
    UnknownVoter,
    /// Fewer distinct voters than the quorum requires.
    NotEnoughVotes,
    /// No stored seal for the requested sequence number.
    MissingSeal,
    /// Too few peers for the network to tolerate any fault.
    NotEnoughPeers,
}

/// The error kinds of the consensus core.
#[derive(Debug, PartialEq, Eq)]
pub enum PbftError {
    /// Malformed wire bytes; the message is rejected.
    SerializationError,
    /// A PrePrepare arrived before its matching BlockNew; retry later.
    NoBlockNew,
    /// The message does not match the working block or phase.
    NotReadyForMessage,
    /// A block event arrived while no block is being worked on.
    NoWorkingBlock,
    /// A catch-up block is inconsistent with the working block.
    BlockMismatch(PbftBlock, PbftBlock),
    /// A quorum was not met: the kind counted, how many were needed, and how
    /// many were found.
    WrongNumMessages(PbftMessageType, u64, u64),
    /// A cryptographic, quorum or identity check failed.
    InternalError(InternalFault),
    /// A timer expired; informational, drives the view-change path.
    Timeout,
}

} // verus!
