//! A double-buffered pixel canvas that reports, frame by frame, only the
//! pixels that changed since the frame before.

pub mod diff;
pub mod geometry;
pub mod pixel;
pub mod viewport;

pub use geometry::{Screen, ScreenPos, ScreenSize, World};
pub use pixel::{Pixel, PixelBuffer};
pub use viewport::Viewport;
