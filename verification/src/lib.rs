//! A small image-viewer library: the decoded image lives in an RGBA byte
//! buffer, the window is sized by an integer scale factor, and keyboard and
//! window events are dispatched to synchronous handlers.

pub mod error;
pub mod rgba;
pub mod scale;
pub mod viewer;
