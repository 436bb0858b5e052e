//! Painting of rectangular regions of a terminal with styled characters.
//!
//! A region is described by a rectangle of cells and a function that gives
//! the styled character of each cell. The text that paints the region holds
//! cursor movements and style changes only where they are needed.

pub mod geometry;
pub mod style;
pub mod codes;
pub mod render;
pub mod extras;

pub use extras::{DrawableToArea, DrawableToPos};
pub use geometry::{Rect, Vec2};
pub use nu_ansi_term::{Color, Style};
pub use render::{clear_all, clear_area, move_cursor_to, render};
pub use style::AnsiChar;
