//! A small block-flow layout engine: a tree of styled document nodes goes in,
//! a tree of positioned and sized boxes comes out.
//!
//! All lengths are whole pixels. Lengths read from a style are `i32`; the
//! geometry that layout computes is `i64`, confined to
//! [`layout::geometry::MAX_EXTENT`] in absolute value.

pub mod gfx;
pub mod layout;
pub mod text;
