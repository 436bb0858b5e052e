//! Helpers on top of the render engine.

use vstd::prelude::*;
use crate::geometry::{Rect, Vec2};

pub mod text_box;

verus! {

/// Something that can be painted at a position: the method gives the text
/// that paints it there.
pub trait DrawableToPos {
    fn draw_to_pos<V: Vec2>(&self, pos: V) -> String;
}

/// Something that can be painted into a region: the method gives the text
/// that paints it there.
pub trait DrawableToArea {
    fn draw_to_area<R: Rect>(&self, area: R) -> String;
}

} // verus!
