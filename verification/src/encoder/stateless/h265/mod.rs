//! The stateless H.265 encoder, without the device.
//!
//! - The metadata of a decoded picture are its picture order count and the type of its
//!   NAL unit.
//! - A request carries the three active parameter sets, the slice segment header, and
//!   whether the picture is an IDR picture, which decides on the packed headers.
//! - The reference picture set is that of a low delay stream: one picture before the
//!   current one, carried in the slice segment header.

use crate::codec::h265::types::{NaluType, Pps, SliceHeader, Sps, Vps};
use crate::encoder::h265::{EncoderConfig, H265};
use crate::encoder::stateless::h265::predictor::LowDelayH265;
use crate::encoder::stateless::{
    BackendPromise, BitstreamPromise, FrameMetadata, StatelessVideoEncoderBackend,
};
use crate::encoder::{
    EncodeError, EncodeResult, PredictionStructure, StatelessBackendError, StatelessBackendResult,
    Tunings,
};
use crate::frame::BlockingMode;
use std::rc::Rc;
use vstd::prelude::*;

pub mod laws;
pub mod predictor;
pub mod results;
pub mod vaapi;

verus! {

/// Decoded picture buffer entry metadata. References are ordered by picture order count
/// alone.
#[derive(Clone, Copy, Debug)]
pub struct DpbEntryMeta {
    /// Picture order count (the full value, not the LSB).
    pub poc: i32,
    /// The NAL unit type the reconstructed picture was coded as.
    pub nalu_type: NaluType,
}

/// Frame structure used in the backend representing currently encoded frame or references
/// used for its encoding.
pub struct DpbEntry<R> {
    /// Reconstructed picture
    pub recon_pic: R,
    /// Decoded picture buffer entry metadata
    pub meta: DpbEntryMeta,
}

/// Stateless H.265 encoder backend input.
pub struct BackendRequest<P, R> {
    /// The active video parameter set.
    pub vps: Rc<Vps>,
    /// The active sequence parameter set.
    pub sps: Rc<Sps>,
    /// The active picture parameter set.
    pub pps: Rc<Pps>,
    /// The slice segment header of the only slice, with its reference picture set.
    pub header: SliceHeader,
    /// The NAL unit type of the coded slice (`IdrWRadl` or `TrailR`).
    pub nalu_type: NaluType,
    /// Input frame to be encoded
    pub input: P,
    /// Input frame metadata
    pub input_meta: FrameMetadata,
    /// DPB entry metadata
    pub dpb_meta: DpbEntryMeta,
    /// Reference list 0, the only one of a low delay stream.
    pub ref_list_0: Vec<Rc<DpbEntry<R>>>,
    /// Period between intra frames
    pub intra_period: u32,
    /// Period between intra frame and P frame
    pub ip_period: u32,
    /// Number of coding tree units to be encoded in the slice.
    pub num_ctu_in_slice: u32,
    /// Whether the picture is an IDR picture. It decides on the packed headers: VPS and
    /// SPS come with an IDR picture, the PPS with every picture.
    pub is_idr: bool,
    /// [`Tunings`] for the frame
    pub tunings: Tunings,
    /// Container for the request output, to which the backend appends the coded
    /// bitstream. It is empty on entry: the parameter sets reach the bitstream by packed
    /// headers, or the device generates them.
    pub coded_output: Vec<u8>,
}

/// Wrapper type for a [`BackendPromise`] of a reconstructed picture, with additional
/// metadata.
pub struct ReferencePromise<P: BackendPromise> {
    /// Slice data and reconstructed surface promise
    pub recon: P,
    /// [`DpbEntryMeta`] of reconstructed surface
    pub dpb_meta: DpbEntryMeta,
}

impl<P: BackendPromise> BackendPromise for ReferencePromise<P> {
    type Output = DpbEntry<P::Output>;

    fn is_ready(&self) -> (r: bool)
        ensures
            call_ensures(P::is_ready, (&self.recon,), r),
    {
        self.recon.is_ready()
    }

    /// The metadata come with whatever the promised picture turns out to be, and an error
    /// of the promise is passed on.
    fn sync(self) -> (r: StatelessBackendResult<DpbEntry<P::Output>>)
        ensures
            match r {
                Ok(entry) => {
                    &&& entry.meta == self.dpb_meta
                    &&& call_ensures(
                        P::sync,
                        (self.recon,),
                        Ok::<P::Output, StatelessBackendError>(entry.recon_pic),
                    )
                },
                Err(e) => call_ensures(
                    P::sync,
                    (self.recon,),
                    Err::<P::Output, StatelessBackendError>(e),
                ),
            },
    {
        match self.recon.sync() {
            Ok(recon_pic) => Ok(DpbEntry { recon_pic, meta: self.dpb_meta }),
            Err(e) => Err(e),
        }
    }
}

/// Trait for stateless encoder backend for H.265.
pub trait StatelessH265EncoderBackend: StatelessVideoEncoderBackend<H265> {
    /// Submit a [`BackendRequest`] to the backend. This operation returns both a promise
    /// of the reconstructed picture and a promise of the resulting slice data.
    fn encode_slice(
        &mut self,
        request: BackendRequest<Self::Picture, Self::Reconstructed>,
    ) -> StatelessBackendResult<(Self::ReconPromise, Self::CodedPromise)>;
}

/// A stateless H.265 encoder.
pub struct StatelessEncoder<Backend: StatelessH265EncoderBackend> {
    /// The bitstreams to come, in the order of the requests.
    pub output_queue: Vec<BitstreamPromise<Backend::CodedPromise>>,
    /// The reconstructed pictures to come, in the order of the requests.
    pub recon_queue: Vec<ReferencePromise<Backend::ReconPromise>>,
    /// Decides on each frame.
    pub predictor: LowDelayH265<Backend::Picture, Backend::Reconstructed>,
    /// Number of frames that the predictor holds.
    pub predictor_frame_count: usize,
    /// Whether a call waits for its result.
    pub blocking_mode: BlockingMode,
    /// Encodes the frames.
    pub backend: Backend,
}

impl<Backend: StatelessH265EncoderBackend> StatelessEncoder<Backend> {
    /// An encoder with the predictor that the configuration asks for.
    pub fn new_h265(
        backend: Backend,
        config: EncoderConfig,
        mode: BlockingMode,
    ) -> (r: EncodeResult<Self>)
        ensures
            r matches Ok(e) && {
                &&& e.backend == backend
                &&& e.blocking_mode == mode
                &&& e.predictor_frame_count == 0
                &&& e.output_queue@.len() == 0
                &&& e.recon_queue@.len() == 0
                &&& e.predictor.starts_with(config, config.pred_structure->limit)
            },
    {
        let PredictionStructure::LowDelay { limit } = config.pred_structure;
        Ok(
            StatelessEncoder {
                output_queue: Vec::new(),
                recon_queue: Vec::new(),
                predictor: LowDelayH265::new(config, limit),
                predictor_frame_count: 0,
                blocking_mode: mode,
                backend,
            },
        )
    }

    /// Takes in what the backend returned for a request that came with `meta` and
    /// `dpb_meta`: on success both promises are queued, with their metadata.
    pub fn enqueue(
        &mut self,
        meta: FrameMetadata,
        dpb_meta: DpbEntryMeta,
        result: StatelessBackendResult<(Backend::ReconPromise, Backend::CodedPromise)>,
    ) -> (r: EncodeResult<()>)
        ensures
            final(self).predictor == old(self).predictor,
            final(self).predictor_frame_count == old(self).predictor_frame_count,
            final(self).blocking_mode == old(self).blocking_mode,
            final(self).backend == old(self).backend,
            match result {
                Ok((recon, bitstream)) => {
                    &&& r == Ok::<(), EncodeError>(())
                    &&& final(self).output_queue@ == old(self).output_queue@.push(
                        BitstreamPromise { bitstream, meta },
                    )
                    &&& final(self).recon_queue@ == old(self).recon_queue@.push(
                        ReferencePromise { recon, dpb_meta },
                    )
                },
                Err(e) => {
                    &&& r == Err::<(), EncodeError>(EncodeError::Backend(e))
                    &&& final(self).output_queue@ == old(self).output_queue@
                    &&& final(self).recon_queue@ == old(self).recon_queue@
                },
            },
    {
        match result {
            Ok((recon, bitstream)) => {
                // Wrap the promises of the backend with their metadata.
                self.output_queue.push(BitstreamPromise { bitstream, meta });
                self.recon_queue.push(ReferencePromise { recon, dpb_meta });
                Ok(())
            },
            Err(e) => Err(EncodeError::Backend(e)),
        }
    }

    /// Submits a request of the predictor to the backend, once and as it is, and takes in
    /// what comes back.
    pub fn execute(
        &mut self,
        request: BackendRequest<Backend::Picture, Backend::Reconstructed>,
    ) -> (r: EncodeResult<()>)
        requires
            old(self).predictor_frame_count > 0,
        ensures
            final(self).predictor_frame_count == old(self).predictor_frame_count - 1,
            final(self).predictor == old(self).predictor,
            final(self).blocking_mode == old(self).blocking_mode,
            exists|
                backend: &mut Backend,
                result: StatelessBackendResult<(Backend::ReconPromise, Backend::CodedPromise)>,
            |
                {
                    &&& *backend == old(self).backend
                    &&& *final(backend) == final(self).backend
                    &&& #[trigger] call_ensures(Backend::encode_slice, (backend, request), result)
                    &&& match result {
                        Ok((recon, bitstream)) => {
                            let n = old(self).output_queue@.len() as int;
                            &&& r == Ok::<(), EncodeError>(())
                            &&& final(self).output_queue@.len() == n + 1
                            &&& final(self).output_queue@.take(n) == old(self).output_queue@
                            &&& final(self).output_queue@[n].bitstream == bitstream
                            &&& final(self).output_queue@[n].meta.same(request.input_meta)
                            &&& final(self).recon_queue@ == old(self).recon_queue@.push(
                                ReferencePromise { recon, dpb_meta: request.dpb_meta },
                            )
                        },
                        Err(e) => {
                            &&& r == Err::<(), EncodeError>(EncodeError::Backend(e))
                            &&& final(self).output_queue@ == old(self).output_queue@
                            &&& final(self).recon_queue@ == old(self).recon_queue@
                        },
                    }
                },
    {
        let meta = request.input_meta.clone();
        let dpb_meta = request.dpb_meta;
        // The request holds a frame from the predictor.
        self.predictor_frame_count = self.predictor_frame_count - 1;
        let result = self.backend.encode_slice(request);
        let ghost outputs = self.output_queue@;
        let r = self.enqueue(meta, dpb_meta, result);
        proof {
            if r is Ok {
                assert(self.output_queue@.take(outputs.len() as int) =~= outputs);
            }
        }
        r
    }
}

} // verus!
