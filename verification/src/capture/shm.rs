//! Shared-memory buffers for the CPU-side capture path.

use vstd::prelude::*;

verus! {

/// Why a buffer cannot be laid out.
#[derive(Debug, Clone, Copy, PartialEq, Eq, Structural)]
pub enum ShmError {
    StrideOverflow,
    SizeOverflow,
}

/// A buffer of four bytes per pixel, line after line.
#[derive(Debug, Clone, Copy, PartialEq, Eq, Structural)]
pub struct ShmBuffer {
    pub width: u32,
    pub height: u32,
    pub stride: u32,
}

/// The layout of a buffer, where 32 bits can hold its size.
pub open spec fn layout(width: u32, height: u32) -> Result<ShmBuffer, ShmError> {
    if width * 4 > u32::MAX {
        Err(ShmError::StrideOverflow)
    } else if width * 4 * height > u32::MAX {
        Err(ShmError::SizeOverflow)
    } else {
        Ok(ShmBuffer { width, height, stride: (width * 4) as u32 })
    }
}

impl ShmBuffer {
    pub open spec fn wf(self) -> bool {
        layout(self.width, self.height) == Ok::<ShmBuffer, ShmError>(self)
    }

    pub fn new(width: u32, height: u32) -> (r: Result<Self, ShmError>)
        ensures
            r == layout(width, height),
            r matches Ok(b) ==> b.wf(),
    {
        let stride: u32 = match width.checked_mul(4) {
            Some(stride) => stride,
            None => {
                return Err(ShmError::StrideOverflow);
            },
        };
        match stride.checked_mul(height) {
            Some(_) => Ok(ShmBuffer { width, height, stride }),
            None => Err(ShmError::SizeOverflow),
        }
    }

    /// The number of bytes.
    pub fn size(&self) -> (r: usize)
        requires
            self.wf(),
        ensures
            r == self.width * 4 * self.height,
    {
        (self.stride * self.height) as usize
    }
}

} // verus!
