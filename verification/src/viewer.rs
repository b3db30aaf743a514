//! The viewer's state and its reaction to events: the image on show, the
//! surface dimensions, and one synchronous handler that maps each event to
//! the action the host loop must perform.

use vstd::prelude::*;

verus! {

use crate::rgba::{RgbaImage, is_fliph_of, is_flipv_of, is_rotate180_of};

/// The keys the viewer reacts to; every other key is `Other`.
#[derive(Clone, Copy, Debug, PartialEq, Eq, Structural)]
pub enum KeyCode {
    C,
    X,
    Z,
    Other,
}

/// One event handed in by the host windowing loop.
#[derive(Clone, Copy, Debug, PartialEq, Eq, Structural)]
pub enum ViewerEvent {
    CloseRequested,
    Key { pressed: bool, key: KeyCode },
    Resized { width: u32, height: u32 },
    RedrawRequested,
}

/// What the host loop must do after an event is handled.
#[derive(Clone, Copy, Debug, PartialEq, Eq, Structural)]
pub enum ViewerAction {
    Exit,
    Render,
    ResizeSurface { width: u32, height: u32 },
    Ignore,
}

/// The whole state of the viewer: the image on show and the dimensions of
/// the display surface. The image buffer and the frame buffer mirror each
/// other, so the image is replaced wholesale and never partially written.
pub struct Viewer {
    image: RgbaImage,
    surface_width: u32,
    surface_height: u32,
}

impl Viewer {
    pub closed spec fn spec_image(self) -> RgbaImage {
        self.image
    }

    pub closed spec fn spec_surface_width(self) -> u32 {
        self.surface_width
    }

    pub closed spec fn spec_surface_height(self) -> u32 {
        self.surface_height
    }

    pub open spec fn wf(self) -> bool {
        self.spec_image().wf()
    }

    pub fn new(image: RgbaImage, surface_width: u32, surface_height: u32) -> (v: Viewer)
        requires
            image.wf(),
        ensures
            v.wf(),
            v.spec_image() == image,
            v.spec_surface_width() == surface_width,
            v.spec_surface_height() == surface_height,
    {
        Viewer { image, surface_width, surface_height }
    }

    pub fn image(&self) -> (r: &RgbaImage)
        ensures
            *r == self.spec_image(),
    {
        &self.image
    }

    pub fn surface_width(&self) -> (r: u32)
        ensures
            r == self.spec_surface_width(),
    {
        self.surface_width
    }

    pub fn surface_height(&self) -> (r: u32)
        ensures
            r == self.spec_surface_height(),
    {
        self.surface_height
    }

    /// Reacts to one event. A pressed C, X or Z key replaces the image with
    /// its horizontal flip, vertical flip or 180-degree rotation and asks
    /// for a render; a resize changes only the surface dimensions, never
    /// the image; a close request asks the loop to exit; everything else
    /// leaves the state untouched.
    pub fn handle_event(&mut self, event: ViewerEvent) -> (action: ViewerAction)
        requires
            old(self).wf(),
        ensures
            final(self).wf(),
            (match event {
                ViewerEvent::CloseRequested => action == ViewerAction::Exit && *final(self) == *old(
                    self,
                ),
                ViewerEvent::Key { pressed, key } => {
                    if pressed && key == KeyCode::C {
                        &&& is_fliph_of(final(self).spec_image(), old(self).spec_image())
                        &&& final(self).spec_surface_width() == old(self).spec_surface_width()
                        &&& final(self).spec_surface_height() == old(self).spec_surface_height()
                        &&& action == ViewerAction::Render
                    } else if pressed && key == KeyCode::X {
                        &&& is_flipv_of(final(self).spec_image(), old(self).spec_image())
                        &&& final(self).spec_surface_width() == old(self).spec_surface_width()
                        &&& final(self).spec_surface_height() == old(self).spec_surface_height()
                        &&& action == ViewerAction::Render
                    } else if pressed && key == KeyCode::Z {
                        &&& is_rotate180_of(final(self).spec_image(), old(self).spec_image())
                        &&& final(self).spec_surface_width() == old(self).spec_surface_width()
                        &&& final(self).spec_surface_height() == old(self).spec_surface_height()
                        &&& action == ViewerAction::Render
                    } else {
                        action == ViewerAction::Ignore && *final(self) == *old(self)
                    }
                },
                ViewerEvent::Resized { width, height } => {
                    &&& final(self).spec_image() == old(self).spec_image()
                    &&& final(self).spec_surface_width() == width
                    &&& final(self).spec_surface_height() == height
                    &&& action == (ViewerAction::ResizeSurface { width, height })
                },
                ViewerEvent::RedrawRequested => action == ViewerAction::Render && *final(self)
                    == *old(self),
            }),
    {
        match event {
            ViewerEvent::CloseRequested => ViewerAction::Exit,
            ViewerEvent::Key { pressed, key } => {
                if !pressed {
                    return ViewerAction::Ignore;
                }
                match key {
                    KeyCode::C => {
                        let flipped = self.image.fliph();
                        self.image = flipped;
                        ViewerAction::Render
                    },
                    KeyCode::X => {
                        let flipped = self.image.flipv();
                        self.image = flipped;
                        ViewerAction::Render
                    },
                    KeyCode::Z => {
                        let rotated = self.image.rotate180();
                        self.image = rotated;
                        ViewerAction::Render
                    },
                    KeyCode::Other => ViewerAction::Ignore,
                }
            },
            ViewerEvent::Resized { width, height } => {
                self.surface_width = width;
                self.surface_height = height;
                ViewerAction::ResizeSurface { width, height }
            },
            ViewerEvent::RedrawRequested => ViewerAction::Render,
        }
    }
}

} // verus!
