//! The low delay prediction structure: an intra frame, then frames that are each
//! predicted from the one before.

use crate::encoder::stateless::FrameMetadata;
use crate::encoder::Tunings;
use std::collections::VecDeque;
use std::marker::PhantomData;
use std::rc::Rc;
use vstd::prelude::*;

verus! {

/// The state of a low delay predictor.
pub struct LowDelay<Picture, Reference, Delegate, Request> {
    /// Frames to be encoded.
    pub queue: VecDeque<(Picture, FrameMetadata)>,
    /// Reconstructed frames that the next one can be predicted from.
    pub references: VecDeque<Rc<Reference>>,
    /// Number of the frame since the last natural intra frame.
    pub counter: usize,
    /// Number of frames between natural intra frames.
    pub limit: u16,
    /// The tunings in force.
    pub tunings: Tunings,
    /// What the codec adds to the state.
    pub delegate: Delegate,
    /// Tunings to be applied.
    pub tunings_queue: VecDeque<Tunings>,
    pub _phantom: PhantomData<Request>,
}

} // verus!
