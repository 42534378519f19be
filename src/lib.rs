//! Text-mode console driver: a palette of sixteen colors, the attribute byte
//! that packs two of them, an 80 by 25 grid of character cells, and a writer
//! that turns bytes into glyphs on it.
pub mod color;
pub mod vga;
