//! Frames and their identities: the data every other component works on.

use vstd::prelude::*;

verus! {

/// The origin of a frame: the path it was read from and the file name it
/// carries. An identity is an immutable value, used only for reporting and
/// for naming output, never for reading the file again.
#[derive(Debug, PartialEq, Eq, Hash)]
pub struct Identity {
    /// Full path of the source file, as text.
    pub path: String,
    /// File name alone, used to name the produced output.
    pub name: String,
}

impl Clone for Identity {
    fn clone(&self) -> (r: Self)
        ensures
            r == *self,
    {
        Identity { path: self.path.clone(), name: self.name.clone() }
    }
}

/// A decoded grayscale frame: `width * height` eight-bit intensities in
/// row-major order, together with the identity of the file it came from.
#[derive(Debug, PartialEq, Eq)]
pub struct Frame {
    pub width: u32,
    pub height: u32,
    pub pixels: Vec<u8>,
    pub identity: Identity,
}

/// The mathematical content of a frame: its dimensions, the sequence of its
/// pixel intensities, and its identity.
pub ghost struct FrameView {
    pub width: u32,
    pub height: u32,
    pub pixels: Seq<u8>,
    pub identity: Identity,
}

impl View for Frame {
    type V = FrameView;

    open spec fn view(&self) -> FrameView {
        FrameView {
            width: self.width,
            height: self.height,
            pixels: self.pixels@,
            identity: self.identity,
        }
    }
}

/// Why a pixel buffer could not become a frame.
#[derive(Clone, Copy, Debug, PartialEq, Eq)]
pub enum FrameError {
    /// One of the dimensions is zero: there is no pixel to compare.
    EmptyFrame,
    /// The buffer does not hold exactly one byte per pixel.
    BufferSizeMismatch,
}

impl Frame {
    /// A well-formed frame has at least one pixel and a buffer holding
    /// exactly one byte per pixel.
    pub open spec fn wf(self) -> bool {
        &&& self.width >= 1
        &&& self.height >= 1
        &&& self.pixels@.len() == self.width * self.height
    }

    /// Builds a frame from a raw buffer, rejecting empty dimensions and
    /// buffers of the wrong size.
    pub fn new(width: u32, height: u32, pixels: Vec<u8>, identity: Identity) -> (r: Result<
        Frame,
        FrameError,
    >)
        ensures
            r is Ok <==> (width >= 1 && height >= 1 && pixels@.len() == width * height),
            r matches Ok(f) ==> f == (Frame { width, height, pixels, identity }) && f.wf(),
            r matches Err(e) ==> (e == FrameError::EmptyFrame <==> (width == 0 || height == 0)),
    {
        if width == 0 || height == 0 {
            return Err(FrameError::EmptyFrame);
        }
        proof {
            assert((width as int) * (height as int) <= 0xffff_ffff * 0xffff_ffff)
                by (nonlinear_arith)
                requires
                    0 <= width as int <= 0xffff_ffff,
                    0 <= height as int <= 0xffff_ffff,
            ;
        }
        let expected: u64 = (width as u64) * (height as u64);
        if (pixels.len() as u64) != expected {
            return Err(FrameError::BufferSizeMismatch);
        }
        Ok(Frame { width, height, pixels, identity })
    }
}

} // verus!
