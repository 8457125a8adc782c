//! Decoder for telemetry frames that a renderer paints into a strip of pixels,
//! and the controller that turns the decoded records into a bounded,
//! decaying actuator intensity.
//!
//! A frame is painted as a header pixel in column 0 followed by data pixels in
//! a fixed pattern of columns; every logical pixel is repeated down all rows of
//! the strip so that a capture torn in mid-repaint can be told from a settled
//! one by voting.

pub mod pixel;
pub mod error;
pub mod layout;
pub mod vote;
pub mod raster;
pub mod payload;
pub mod frame;
pub mod gate;
pub mod record;
pub mod pipeline;
pub mod controller;
