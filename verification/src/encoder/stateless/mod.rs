//! Stateless encoders: a predictor that decides on each frame, and a backend that
//! encodes it.

use crate::encoder::{StatelessBackendError, StatelessBackendResult};
use crate::frame::FrameLayout;
use vstd::prelude::*;

pub mod av1;
pub mod h265;
pub mod predictor;

verus! {

/// What comes with a frame to be encoded.
#[derive(Debug, PartialEq, Eq)]
pub struct FrameMetadata {
    pub timestamp: u64,
    pub layout: FrameLayout,
    pub force_keyframe: bool,
}

impl FrameMetadata {
    /// Whether two frames come with the same.
    pub open spec fn same(self, other: Self) -> bool {
        &&& self.timestamp == other.timestamp
        &&& self.layout.same(other.layout)
        &&& self.force_keyframe == other.force_keyframe
    }
}

impl Clone for FrameMetadata {
    fn clone(&self) -> (r: Self)
        ensures
            r.same(*self),
    {
        FrameMetadata {
            timestamp: self.timestamp,
            layout: self.layout.clone(),
            force_keyframe: self.force_keyframe,
        }
    }
}

/// The result of a backend operation that may still be under way.
pub trait BackendPromise: Sized {
    /// What the operation gives.
    type Output;

    /// Whether [`Self::sync`] will not wait.
    fn is_ready(&self) -> bool;

    /// Waits for the result.
    fn sync(self) -> StatelessBackendResult<Self::Output>;
}

/// A result that is there from the start.
pub struct ReadyPromise<T> {
    pub value: T,
}

impl<T> BackendPromise for ReadyPromise<T> {
    type Output = T;

    fn is_ready(&self) -> (r: bool)
        ensures
            r,
    {
        true
    }

    fn sync(self) -> (r: StatelessBackendResult<T>)
        ensures
            r == Ok::<T, StatelessBackendError>(self.value),
    {
        Ok(self.value)
    }
}

/// A coded frame.
pub struct CodedBitstreamBuffer {
    pub metadata: FrameMetadata,
    pub bitstream: Vec<u8>,
}

/// The promise of a bitstream, with what came with its frame.
pub struct BitstreamPromise<P: BackendPromise<Output = Vec<u8>>> {
    pub bitstream: P,
    pub meta: FrameMetadata,
}

impl<P: BackendPromise<Output = Vec<u8>>> BackendPromise for BitstreamPromise<P> {
    type Output = CodedBitstreamBuffer;

    fn is_ready(&self) -> (r: bool)
        ensures
            call_ensures(P::is_ready, (&self.bitstream,), r),
    {
        self.bitstream.is_ready()
    }

    /// The metadata come with whatever the promised bitstream turns out to be, and an
    /// error of the promise is passed on.
    fn sync(self) -> (r: StatelessBackendResult<CodedBitstreamBuffer>)
        ensures
            match r {
                Ok(coded) => {
                    &&& coded.metadata == self.meta
                    &&& call_ensures(
                        P::sync,
                        (self.bitstream,),
                        Ok::<Vec<u8>, StatelessBackendError>(coded.bitstream),
                    )
                },
                Err(e) => call_ensures(
                    P::sync,
                    (self.bitstream,),
                    Err::<Vec<u8>, StatelessBackendError>(e),
                ),
            },
    {
        match self.bitstream.sync() {
            Ok(bitstream) => Ok(CodedBitstreamBuffer { metadata: self.meta, bitstream }),
            Err(e) => Err(e),
        }
    }
}

/// A backend that encodes frames of one codec.
pub trait StatelessVideoEncoderBackend<Codec>: Sized {
    /// A frame to be encoded.
    type Picture;

    /// A reconstructed frame.
    type Reconstructed;

    /// The promise of a bitstream.
    type CodedPromise: BackendPromise<Output = Vec<u8>>;

    /// The promise of a reconstructed frame.
    type ReconPromise: BackendPromise<Output = Self::Reconstructed>;
}

/// The copy of what comes with a frame has its timestamp, its layout, and the wish for a keyframe.
pub proof fn law_metadata_are_copied(meta: &FrameMetadata, copy: FrameMetadata)
    requires
        call_ensures(FrameMetadata::clone, (meta,), copy),
    ensures
        copy.timestamp == meta.timestamp,
        copy.force_keyframe == meta.force_keyframe,
        copy.layout.format == meta.layout.format,
        copy.layout.size == meta.layout.size,
        copy.layout.planes@ == meta.layout.planes@,
{
}

/// A result that is there from the start is ready, and is what comes of it.
pub proof fn law_ready_promise<T>(p: ReadyPromise<T>, ready: bool, r: StatelessBackendResult<T>)
    ensures
        call_ensures(ReadyPromise::<T>::is_ready, (&p,), ready) ==> ready,
        call_ensures(ReadyPromise::<T>::sync, (p,), r) ==> (r matches Ok(v) && v == p.value),
{
}

/// A promised bitstream comes with what came with its frame, or with the error of its promise; and
/// is ready when its promise is.
pub proof fn law_bitstream_comes_with_its_frame<P: BackendPromise<Output = Vec<u8>>>(
    p: BitstreamPromise<P>,
    ready: bool,
    r: StatelessBackendResult<CodedBitstreamBuffer>,
)
    ensures
        call_ensures(BitstreamPromise::<P>::is_ready, (&p,), ready) ==> call_ensures(
            P::is_ready,
            (&p.bitstream,),
            ready,
        ),
        call_ensures(BitstreamPromise::<P>::sync, (p,), r) ==> {
            &&& r matches Ok(coded) ==> coded.metadata == p.meta && call_ensures(
                P::sync,
                (p.bitstream,),
                Ok::<Vec<u8>, StatelessBackendError>(coded.bitstream),
            )
            &&& r matches Err(e) ==> call_ensures(
                P::sync,
                (p.bitstream,),
                Err::<Vec<u8>, StatelessBackendError>(e),
            )
        },
{
}

} // verus!
