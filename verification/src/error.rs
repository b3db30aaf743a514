//! The failures the viewer can end with: a flat enumeration, one variant
//! for each failing step, each with the message printed at process exit.

use vstd::prelude::*;

verus! {

/// One variant for each step that can fail: window creation, reading the
/// file, decoding the image, finding the primary monitor, and building the
/// pixel surface. The first failure is printed and ends the process.
#[derive(Clone, Copy, Debug, PartialEq, Eq, Structural)]
pub enum ViewerError {
    Window,
    Io,
    Image,
    NoPrimaryMonitor,
    Pixels,
}

impl ViewerError {
    /// The message printed when the process exits with this failure.
    pub open spec fn spec_message(self) -> Seq<char> {
        match self {
            ViewerError::Window => "Unable to create the main window"@,
            ViewerError::Io => "Unable to load the image"@,
            ViewerError::Image => "Unable to decode image"@,
            ViewerError::NoPrimaryMonitor => "Unable to calculate maximum screen size on your primary monitor"@,
            ViewerError::Pixels => "Unable to view image pixels"@,
        }
    }

    pub fn message(&self) -> (r: &'static str)
        ensures
            r@ == self.spec_message(),
    {
        match self {
            ViewerError::Window => "Unable to create the main window",
            ViewerError::Io => "Unable to load the image",
            ViewerError::Image => "Unable to decode image",
            ViewerError::NoPrimaryMonitor => "Unable to calculate maximum screen size on your primary monitor",
            ViewerError::Pixels => "Unable to view image pixels",
        }
    }
}

} // verus!
