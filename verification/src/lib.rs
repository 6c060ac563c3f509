//! Text consoles drawn on a grid of character cells: a pixel framebuffer
//! console and a VGA text-mode console, sharing one verified cell writer.

pub mod cell_grid;
pub mod color;
pub mod cursor;
pub mod fb;
pub mod font;
pub mod simple;
