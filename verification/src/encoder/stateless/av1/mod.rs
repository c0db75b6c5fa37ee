//! The stateless AV1 encoder, without the device.

use crate::codec::av1::types::SequenceHeaderObu;
use crate::encoder::stateless::FrameMetadata;
use crate::encoder::Tunings;
use std::rc::Rc;
use vstd::prelude::*;

pub mod predictor;
pub mod results;

verus! {

/// A reconstructed frame that others can be predicted from.
pub struct DpbEntry<R> {
    /// Reconstructed picture
    pub recon_pic: R,
    /// The position of the frame in output order.
    pub order_hint: u32,
}

/// The request for a keyframe.
pub struct BackendRequest<P, R> {
    /// The active sequence header.
    pub sequence: SequenceHeaderObu,
    /// The quantizer index of the frame.
    pub base_q_idx: u8,
    /// Input frame to be encoded
    pub input: P,
    /// Input frame metadata
    pub input_meta: FrameMetadata,
    /// The frames that this one is predicted from: none.
    pub references: Vec<Rc<DpbEntry<R>>>,
    /// Period between intra frames
    pub intra_period: u32,
    /// Period between intra frame and inter frame
    pub ip_period: u32,
    /// [`Tunings`] for the frame
    pub tunings: Tunings,
    /// Container for the request output.
    pub coded_output: Vec<u8>,
}

} // verus!
