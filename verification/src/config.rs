//! Configuration consumed once when a node starts.

use vstd::prelude::*;

use crate::bytes::clone_bytes_list;
use crate::message::PeerId;

verus! {

/// What a node needs to know at start-up: the ordered peer list read from
/// chain settings, how long to wait on a quiet primary before suspecting
/// it, and how often to rotate primaries regardless of faults.
pub struct PbftConfig {
    /// The ordered ids of all peers, this node included.
    pub peers: Vec<PeerId>,
    /// Milliseconds a secondary waits for the primary before proposing a
    /// view change.
    pub faulty_primary_timeout_ms: u64,
    /// A view change is forced whenever the sequence number is a multiple
    /// of this period; must be at least 1.
    pub forced_view_change_period: u64,
}

impl PbftConfig {
    /// The peer list as a mathematical sequence of byte strings.
    pub open spec fn spec_peers(&self) -> Seq<Seq<u8>> {
        self.peers@.map_values(|p: PeerId| p@)
    }
}

impl Clone for PbftConfig {
    fn clone(&self) -> (r: Self)
        ensures
            r.spec_peers() == self.spec_peers(),
            r.faulty_primary_timeout_ms == self.faulty_primary_timeout_ms,
            r.forced_view_change_period == self.forced_view_change_period,
    {
        PbftConfig {
            peers: clone_bytes_list(&self.peers),
            faulty_primary_timeout_ms: self.faulty_primary_timeout_ms,
            forced_view_change_period: self.forced_view_change_period,
        }
    }
}

} // verus!
