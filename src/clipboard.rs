//! The clipboard's error and image types.
use vstd::prelude::*;

verus! {

/// What went wrong with the clipboard.
#[derive(Debug, Clone, PartialEq, Eq)]
pub enum ClipboardError {
    /// The clipboard could not be reached; the text says why.
    AccessFailed(String),
    /// The clipboard holds something other than what was asked for.
    ContentTypeMismatch,
}

impl ClipboardError {
    /// A message describing the error.
    pub fn message(&self) -> (r: String)
        ensures
            r@ == match self {
                ClipboardError::AccessFailed(m) => "clipboard access failed: "@ + m@,
                ClipboardError::ContentTypeMismatch => "clipboard content type mismatch"@,
            },
    {
        match self {
            ClipboardError::AccessFailed(m) => String::from_str("clipboard access failed: ").concat(m.as_str()),
            ClipboardError::ContentTypeMismatch => String::from_str("clipboard content type mismatch"),
        }
    }
}

/// An image on the clipboard: its size in pixels and its RGBA bytes, four
/// per pixel.
#[derive(Debug, Clone)]
pub struct ImageData {
    pub width: usize,
    pub height: usize,
    pub bytes: Vec<u8>,
}

impl ImageData {
    /// An image of `width` by `height` pixels holding `bytes`.
    pub fn new(width: usize, height: usize, bytes: Vec<u8>) -> (r: Self)
        ensures
            r.width == width,
            r.height == height,
            r.bytes@ == bytes@,
    {
        ImageData { width, height, bytes }
    }

    /// The same image, owning its bytes.
    pub fn into_owned(self) -> (r: ImageData)
        ensures
            r.width == self.width,
            r.height == self.height,
            r.bytes@ == self.bytes@,
    {
        ImageData { width: self.width, height: self.height, bytes: self.bytes }
    }
}

} // verus!
