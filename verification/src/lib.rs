//! Draws images and polygonal shapes onto the easel of a painting game by
//! steering a pointer through press / move / release gestures.
//!
//! The crate is the geometry and quantization engine: it quantizes colors to
//! the game's fixed palette, tracks easel state (orientation, color, tool,
//! brush width), turns point lists into continuous strokes, fills closed
//! polygons by scanline, and run-length encodes a pixel raster into a minimal
//! list of horizontal strokes.  Every operation records the pointer gestures
//! it wants performed in a gesture log; a thin unverified front end replays
//! the log against the real pointer device.

pub mod colors;
pub mod coords;
pub mod easel;
pub mod fill;
pub mod image_drawer;
pub mod shapes;
