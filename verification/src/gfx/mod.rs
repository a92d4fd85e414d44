//! Colours and the display list handed to a renderer.

pub mod colors;
pub mod display_list;
