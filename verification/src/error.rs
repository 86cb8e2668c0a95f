//! The error values this library reports. Every failure is a distinct,
//! inspectable value; no error is used for control flow and none is
//! recoverable at the point of detection.

use vstd::prelude::*;

verus! {

/// Why an operation of this library refused to produce a result.
#[derive(Clone, Copy, Debug, PartialEq, Eq, Structural)]
pub enum Error {
    /// The surface-triangle stream is malformed: a coordinate lies outside
    /// the representable fixed-point range.
    ParseError,
    /// A bounding volume was requested for a mesh with no vertices.
    EmptyMesh,
    /// A content crop was requested but every pixel is fully transparent.
    ZeroAreaImage,
    /// A pixel buffer's length does not match its declared width and height.
    ImageContainerTooSmall,
    /// The external renderer failed; the cause is opaque to this library.
    RenderFailure,
}

impl Error {
    /// A short description of the error, for callers that report it.
    pub fn describe(&self) -> (r: &'static str)
    {
        match self {
            Error::ParseError => "surface triangle stream is malformed",
            Error::EmptyMesh => "mesh is empty",
            Error::ZeroAreaImage => "image has an area of zero",
            Error::ImageContainerTooSmall => "the container for the image data is too small",
            Error::RenderFailure => "the renderer failed",
        }
    }
}

} // verus!
