//! Verified core of a bot that paints an image onto a shared remote canvas:
//! the palette and colour quantizer, the pixel source and command encoder,
//! human-like pacing, and the worker's connection and paint state machine.

pub mod bot;
pub mod palette;
pub mod pixel;
pub mod raster;
pub mod sleep;
pub mod wire;
