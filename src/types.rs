use vstd::prelude::*;

verus! {

/// The kinds of failure that capture, stitching and validation report.
#[derive(Debug, Clone, Copy, PartialEq, Eq, Structural)]
pub enum CaptureErrorKind {
    Permission,
    Cancelled,
    CaptureFailed,
    StitchFailed,
    CommandFailed,
    ValidationFailed,
}

/// A failure with its kind and a message for the user.
#[derive(Debug, Clone)]
pub struct CaptureError {
    pub kind: CaptureErrorKind,
    pub message: String,
}

impl CaptureError {
    pub fn new(kind: CaptureErrorKind, message: &str) -> (r: CaptureError)
        ensures
            r.kind == kind,
            r.message@ == message@,
    {
        CaptureError { kind, message: String::from_str(message) }
    }
}

/// A capture rectangle in logical coordinates.
#[derive(Debug, Clone, Copy, PartialEq, Eq, Structural)]
pub struct CaptureRect {
    pub x: i32,
    pub y: i32,
    pub width: u32,
    pub height: u32,
}

/// A screen-capture backend: returns the encoded image of a rectangle.
pub trait ScreenCaptureProvider: Send + Sync {
    fn capture_region(&self, rect: CaptureRect) -> Result<Vec<u8>, CaptureError>;
}

} // verus!
