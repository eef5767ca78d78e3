//! Palette-indexed raster images, still and animated, with their binary
//! container format, palette handling, playback state machine and pixel
//! scaling.
pub mod animated;
pub mod color;
pub mod conversion;
pub mod errors;
pub mod file;
pub mod image;
pub mod indexed;
pub mod jasc_palette;
pub mod palette;
pub mod prelude;
pub mod refusals;
pub mod round_trip;
pub mod scaling;
pub mod seconds;
pub mod text;
pub mod wrapper;
