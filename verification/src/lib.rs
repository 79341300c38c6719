//! Maps a decoded RGBA image onto terminal cells: each pixel is classified
//! into an ANSI color class, given a braille glyph, and laid out over a
//! short horizontal run of cells, clipped to the drawing area.

pub mod grid;
pub mod pixel;
pub mod render;
