//! The layout pipeline: document nodes, styled nodes, boxes.

pub mod css;
pub mod dom;
pub mod geometry;
pub mod parser;
pub mod style;
