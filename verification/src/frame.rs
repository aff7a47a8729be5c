//! Physical memory frames: fixed-size pieces of physical memory, and
//! the capability for handing them out.

use vstd::prelude::*;

verus! {

/// Size of one physical frame in bytes.
pub const PAGE_SIZE: usize = 4096;

/// One physical frame, named by its index.
#[derive(Debug, Clone, Copy, PartialEq, Eq, Structural, PartialOrd, Ord)]
pub struct Frame {
    /// The frame's index: its start address divided by the page size.
    pub number: usize,
}

impl Frame {
    /// The frame holding the given physical address.
    pub fn containing_address(address: usize) -> (r: Frame)
        ensures
            r.number == address as int / PAGE_SIZE as int,
    {
        Frame { number: address / PAGE_SIZE }
    }

    /// The frame's first physical address.
    pub fn start_address(&self) -> (r: usize)
        requires
            self.number * PAGE_SIZE <= usize::MAX,
        ensures
            r == self.number * PAGE_SIZE,
    {
        self.number * PAGE_SIZE
    }
}

/// The capability of handing out and taking back physical frames.
/// Nothing is promised about which frame an allocator yields.
pub trait FrameAllocator: Sized {
    /// Hand out a free frame, if one is left.
    fn allocate_frame(&mut self) -> Option<Frame>;

    /// Take a frame back.
    fn free(&mut self, frame: Frame);
}

} // verus!
