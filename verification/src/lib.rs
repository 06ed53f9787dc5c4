//! Verified core of a programmable animation engine: colours, the scene's
//! id registry, WAV container parsing and merging, argument lists for the
//! external encoders and speech synthesisers, the SVG text, the bitmap font,
//! the integer pixel work behind text rasterisation, and which fonts are
//! loaded in what order.

pub mod color;
pub mod strings;
pub mod wav;
pub mod registry;
pub mod decimal;
pub mod replace;
pub mod tts;
pub mod encode;
pub mod svg;
pub mod raster;
pub mod glyphs;
pub mod fonts;
