use crate::text::{decimal, push_decimal, push_text};
use vstd::prelude::*;

verus! {

/// An RGBA colour with eight bits per channel.
#[derive(Copy, Clone, PartialEq, Eq, Structural, Debug)]
pub struct Color {
    pub g: u8,
    pub b: u8,
    pub r: u8,
    pub a: u8,
}

impl Color {
    /// Builds a colour from its four channels.
    pub fn new_alpha(r: u8, g: u8, b: u8, a: u8) -> (c: Self)
        ensures
            c == (Color { r, g, b, a }),
    {
        Color { r, g, b, a }
    }

    /// Opaque black.
    pub fn black() -> (c: Self)
        ensures
            c == (Color { r: 0, g: 0, b: 0, a: 255 }),
    {
        Color::new_alpha(0, 0, 0, 255)
    }

    /// Fully transparent black.
    pub fn transparent() -> (c: Self)
        ensures
            c == (Color { r: 0, g: 0, b: 0, a: 0 }),
    {
        Color::new_alpha(0, 0, 0, 0)
    }

    /// The colour as a text: `rgba(`, the red, green and blue channels, then
    /// 1 for a fully opaque colour and 0 for any other, and `)`.
    pub open spec fn spec_describe(self) -> Seq<char> {
        "rgba("@ + decimal(self.r as int) + ", "@ + decimal(self.g as int) + ", "@ + decimal(
            self.b as int,
        ) + ", "@ + decimal(self.a as int / 255) + ")"@
    }

    /// Writes the colour out as a text.
    pub fn describe(&self) -> (r: String)
        ensures
            r@ == self.spec_describe(),
    {
        let mut r = "rgba(".to_owned();
        push_decimal(&mut r, self.r as i64);
        push_text(&mut r, ", ");
        push_decimal(&mut r, self.g as i64);
        push_text(&mut r, ", ");
        push_decimal(&mut r, self.b as i64);
        push_text(&mut r, ", ");
        push_decimal(&mut r, (self.a / 255) as i64);
        push_text(&mut r, ")");
        r
    }
}

} // verus!
