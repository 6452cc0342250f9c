//! The signals by which a call is negotiated.

use vstd::prelude::*;

verus! {

/// A signal of a call's negotiation, as it travels over the chat channel.
#[derive(Debug, Clone)]
pub enum CallSignal {
    Offer { sdp: String, call_id: String },
    Answer { sdp: String, call_id: String },
    IceCandidate { candidate: String, sdp_mid: String, sdp_mline_index: u32, call_id: String },
    HangUp { call_id: String },
}

} // verus!
