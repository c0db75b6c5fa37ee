//! Frames: their size, format and layout.

use vstd::prelude::*;

verus! {

/// A frame size in samples.
#[derive(Clone, Copy, Debug, PartialEq, Eq)]
pub struct Resolution {
    pub width: u32,
    pub height: u32,
}

/// A pixel format code.
#[derive(Clone, Copy, Debug, PartialEq, Eq)]
pub struct Fourcc {
    pub code: [u8; 4],
}

impl Fourcc {
    /// The format with this four-character code.
    pub fn from(code: &[u8; 4]) -> (f: Self)
        ensures
            f.code@ == code@,
    {
        Fourcc { code: *code }
    }
}

/// The layout of one plane.
#[derive(Clone, Copy, Debug, PartialEq, Eq)]
pub struct PlaneLayout {
    /// Index of the memory buffer that the plane belongs to.
    pub buffer_index: usize,
    /// Start offset of the plane within its buffer.
    pub offset: usize,
    /// Distance in bytes between two lines.
    pub stride: usize,
}

/// The layout of a frame.
#[derive(Debug, PartialEq, Eq)]
pub struct FrameLayout {
    /// The format, and its modifier.
    pub format: (Fourcc, u64),
    /// Size of the frame in samples.
    pub size: Resolution,
    /// Layout of each plane.
    pub planes: Vec<PlaneLayout>,
}

impl FrameLayout {
    /// Whether two layouts are the same.
    pub open spec fn same(self, other: Self) -> bool {
        &&& self.format == other.format
        &&& self.size == other.size
        &&& self.planes@ == other.planes@
    }
}

impl Clone for FrameLayout {
    fn clone(&self) -> (r: Self)
        ensures
            r.same(*self),
    {
        let mut planes: Vec<PlaneLayout> = Vec::new();
        let mut i: usize = 0;
        while i < self.planes.len()
            invariant
                i <= self.planes@.len(),
                planes@ == self.planes@.take(i as int),
            decreases self.planes@.len() - i,
        {
            planes.push(self.planes[i]);
            proof {
                assert(planes@ =~= self.planes@.take(i + 1));
            }
            i = i + 1;
        }
        proof {
            assert(planes@ =~= self.planes@);
        }
        FrameLayout { format: self.format, size: self.size, planes }
    }
}

/// Whether a call waits for its result.
#[derive(Clone, Copy, Debug, PartialEq, Eq)]
pub enum BlockingMode {
    Blocking,
    NonBlocking,
}

/// The copy of a layout has its format, its size, and its planes in their order.
pub proof fn law_layout_is_copied(layout: &FrameLayout, copy: FrameLayout)
    requires
        call_ensures(FrameLayout::clone, (layout,), copy),
    ensures
        copy.format.0.code@ == layout.format.0.code@,
        copy.format.1 == layout.format.1,
        copy.size.width == layout.size.width,
        copy.size.height == layout.size.height,
        copy.planes@.len() == layout.planes@.len(),
        forall|i: int|
            0 <= i < layout.planes@.len() ==> {
                &&& (#[trigger] copy.planes@[i]).buffer_index == layout.planes@[i].buffer_index
                &&& copy.planes@[i].offset == layout.planes@[i].offset
                &&& copy.planes@[i].stride == layout.planes@[i].stride
            },
{
}

} // verus!
