//! The captured desktop image as plain bytes.

use vstd::prelude::*;

verus! {

/// A top-down, 4-bytes-per-pixel snapshot of the desktop, handed in by the
/// capture collaborator.
#[derive(Debug)]
pub struct ScreenImage {
    pub width: i32,
    pub height: i32,
    pub pixels: Vec<u8>,
}

impl ScreenImage {
    /// A well-formed capture: non-negative dimensions and exactly four bytes
    /// per pixel.
    pub open spec fn wf(self) -> bool {
        &&& self.width >= 0
        &&& self.height >= 0
        &&& self.pixels@.len() == self.width * self.height * 4
    }
}

} // verus!
