//! A consensus message as it travels through the node: the typed content
//! together with the raw wire bytes it came from (or was serialized to),
//! and the transport header under which it was signed.
//!
//! The raw bytes are kept because a seal re-emits them verbatim; the
//! well-formedness predicate [`pm_wf`] ties them to the typed content, so
//! that whoever re-parses the bytes recovers exactly what the log stored.

use vstd::prelude::*;

use crate::bytes::clone_bytes;
use crate::codec::enc_msg;
use crate::codec::enc_vc;
use crate::codec::decode_pbft_message;
use crate::codec::decode_view_change;
use crate::codec::encode_pbft_message;
use crate::codec::encode_view_change;
use crate::codec::lemma_msg_round_trip;
use crate::codec::lemma_vc_round_trip;
use crate::codec::sdec_info;
use crate::codec::sdec_msg;
use crate::codec::sdec_vc;
use crate::error::PbftError;
use crate::message::PbftBlock;
use crate::message::PbftBlockView;
use crate::message::PbftMessage;
use crate::message::PbftMessageInfo;
use crate::message::PbftMessageInfoView;
use crate::message::PbftMessageType;
use crate::message::PbftMessageView;
use crate::message::PbftViewChange;

verus! {

/// A message received from a peer or produced by this node, with its wire
/// bytes retained.
pub struct ParsedMessage {
    pub info: PbftMessageInfo,
    /// The block the message speaks about; the all-empty projection for
    /// view-change messages, which carry a seal instead.
    pub block: PbftBlock,
    /// The transport header under which the message was signed.
    pub header_bytes: Vec<u8>,
    /// The signature over `header_bytes`.
    pub header_signature: Vec<u8>,
    /// The serialized message itself.
    pub message_bytes: Vec<u8>,
    /// Whether this node produced the message itself.
    pub from_self: bool,
}

pub struct ParsedMessageView {
    pub info: PbftMessageInfoView,
    pub block: PbftBlockView,
    pub header_bytes: Seq<u8>,
    pub header_signature: Seq<u8>,
    pub message_bytes: Seq<u8>,
    pub from_self: bool,
}

impl View for ParsedMessage {
    type V = ParsedMessageView;

    open spec fn view(&self) -> ParsedMessageView {
        ParsedMessageView {
            info: self.info@,
            block: self.block@,
            header_bytes: self.header_bytes@,
            header_signature: self.header_signature@,
            message_bytes: self.message_bytes@,
            from_self: self.from_self,
        }
    }
}

impl Clone for ParsedMessage {
    fn clone(&self) -> (r: Self)
        ensures
            r@ == self@,
    {
        ParsedMessage {
            info: self.info.clone(),
            block: self.block.clone(),
            header_bytes: clone_bytes(&self.header_bytes),
            header_signature: clone_bytes(&self.header_signature),
            message_bytes: clone_bytes(&self.message_bytes),
            from_self: self.from_self,
        }
    }
}

/// The message's wire bytes parse back to exactly its typed content.
pub open spec fn pm_wf(m: ParsedMessageView) -> bool {
    if m.info.msg_type == PbftMessageType::ViewChange {
        &&& (sdec_vc(m.message_bytes) matches Some(vc) && vc.info == m.info)
        &&& m.block == PbftBlockView::spec_empty()
    } else {
        sdec_msg(m.message_bytes) == Some(PbftMessageView { info: m.info, block: m.block })
    }
}

impl ParsedMessage {
    /// Wrap a consensus message, serializing it as its wire bytes.
    pub fn from_pbft_message(m: PbftMessage) -> (r: ParsedMessage)
        requires
            m@.info.msg_type != PbftMessageType::ViewChange,
        ensures
            r@.info == m@.info,
            r@.block == m@.block,
            r@.message_bytes == enc_msg(m@),
            r@.header_bytes.len() == 0,
            r@.header_signature.len() == 0,
            r@.from_self == false,
            pm_wf(r@),
    {
        let bytes = encode_pbft_message(&m);
        proof {
            crate::codec::lemma_msg_views_wf(&m);
            lemma_msg_round_trip(m@);
        }
        ParsedMessage {
            info: m.info,
            block: m.block,
            header_bytes: Vec::new(),
            header_signature: Vec::new(),
            message_bytes: bytes,
            from_self: false,
        }
    }

    /// Wrap a view-change message, serializing it as its wire bytes.
    pub fn from_view_change_message(vc: PbftViewChange) -> (r: ParsedMessage)
        requires
            vc@.info.msg_type == PbftMessageType::ViewChange,
        ensures
            r@.info == vc@.info,
            r@.block == PbftBlockView::spec_empty(),
            r@.message_bytes == enc_vc(vc@),
            r@.header_bytes.len() == 0,
            r@.header_signature.len() == 0,
            r@.from_self == false,
            pm_wf(r@),
    {
        let bytes = encode_view_change(&vc);
        proof {
            crate::codec::lemma_vc_views_wf(&vc);
            lemma_vc_round_trip(vc@);
        }
        ParsedMessage {
            info: vc.info,
            block: PbftBlock::empty(),
            header_bytes: Vec::new(),
            header_signature: Vec::new(),
            message_bytes: bytes,
            from_self: false,
        }
    }

    /// Parse wire bytes into a message, keeping the bytes verbatim.  The
    /// one-byte tag decides whether they carry a consensus message or a
    /// view change; any malformed input is a `SerializationError`.
    pub fn from_bytes(bytes: Vec<u8>) -> (r: Result<ParsedMessage, PbftError>)
        ensures
            match r {
                Ok(m) => {
                    &&& m@.message_bytes == bytes@
                    &&& m@.from_self == false
                    &&& m@.header_bytes.len() == 0
                    &&& m@.header_signature.len() == 0
                    &&& pm_wf(m@)
                },
                Err(e) => {
                    &&& e == PbftError::SerializationError
                    &&& match sdec_info(bytes@, 0) {
                        Some((info, j)) => if info.msg_type == PbftMessageType::ViewChange {
                            sdec_vc(bytes@) is None
                        } else {
                            sdec_msg(bytes@) is None
                        },
                        None => true,
                    }
                },
            },
    {
        let is_vc = match crate::codec::read_message_kind(&bytes) {
            Some(t) => match t {
                PbftMessageType::ViewChange => true,
                _ => false,
            },
            None => {
                return Err(PbftError::SerializationError);
            },
        };
        if is_vc {
            match decode_view_change(&bytes) {
                Some(vc) => Ok(
                    ParsedMessage {
                        info: vc.info,
                        block: PbftBlock::empty(),
                        header_bytes: Vec::new(),
                        header_signature: Vec::new(),
                        message_bytes: bytes,
                        from_self: false,
                    },
                ),
                None => Err(PbftError::SerializationError),
            }
        } else {
            match decode_pbft_message(&bytes) {
                Some(m) => Ok(
                    ParsedMessage {
                        info: m.info,
                        block: m.block,
                        header_bytes: Vec::new(),
                        header_signature: Vec::new(),
                        message_bytes: bytes,
                        from_self: false,
                    },
                ),
                None => Err(PbftError::SerializationError),
            }
        }
    }

    pub fn info(&self) -> (r: &PbftMessageInfo)
        ensures
            r@ == self@.info,
    {
        &self.info
    }

    pub fn get_block(&self) -> (r: &PbftBlock)
        ensures
            r@ == self@.block,
    {
        &self.block
    }

    /// The same message under another kind; used during catch-up to replay
    /// a seal-embedded vote as a live Commit.  The wire bytes are carried
    /// over unchanged, so nothing ties them to the new kind.
    pub fn as_msg_type(&self, t: PbftMessageType) -> (r: ParsedMessage)
        ensures
            r@.info.msg_type == t,
            r@.info.view == self@.info.view,
            r@.info.seq_num == self@.info.seq_num,
            r@.info.signer_id == self@.info.signer_id,
            r@.block == self@.block,
            r@.header_bytes == self@.header_bytes,
            r@.header_signature == self@.header_signature,
            r@.message_bytes == self@.message_bytes,
            r@.from_self == self@.from_self,
    {
        ParsedMessage {
            info: PbftMessageInfo {
                msg_type: t,
                view: self.info.view,
                seq_num: self.info.seq_num,
                signer_id: clone_bytes(&self.info.signer_id),
            },
            block: self.block.clone(),
            header_bytes: clone_bytes(&self.header_bytes),
            header_signature: clone_bytes(&self.header_signature),
            message_bytes: clone_bytes(&self.message_bytes),
            from_self: self.from_self,
        }
    }
}

} // verus!
