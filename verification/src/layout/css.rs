use crate::gfx::colors::Color;
use vstd::prelude::*;

verus! {

/// The unit of a length. Only absolute pixels exist.
#[derive(Copy, Clone, PartialEq, Eq, Structural, Debug)]
pub enum Unit {
    Px,
}

/// A value that a style assigns to a property.
#[derive(Debug)]
pub enum Value {
    Keyword(String),
    Length(i32, Unit),
    ColorValue(Color),
}

impl Value {
    /// The length in pixels that this value stands for: its number when it is
    /// a length, zero otherwise (so `auto` counts as zero).
    pub open spec fn px(self) -> int {
        match self {
            Value::Length(n, Unit::Px) => n as int,
            _ => 0,
        }
    }

    /// Whether this value is the keyword `auto`.
    pub open spec fn is_auto(self) -> bool {
        self matches Value::Keyword(s) && s@ == "auto"@
    }

    /// Whether this value is the keyword `word`.
    pub open spec fn is_keyword(self, word: Seq<char>) -> bool {
        self matches Value::Keyword(s) && s@ == word
    }

    /// The keyword `auto`.
    pub fn auto() -> (v: Value)
        ensures
            v.is_auto(),
    {
        Value::Keyword("auto".to_owned())
    }

    /// Resolves the value to pixels. `reference` is the extent that a
    /// relative unit would be measured against; pixels are absolute, so it
    /// does not enter the result.
    pub fn to_px(&self, reference: i64) -> (r: i32)
        ensures
            r == self.px(),
    {
        match self {
            Value::Length(n, Unit::Px) => *n,
            _ => 0,
        }
    }

    /// Tests for the keyword `auto`.
    pub fn is_auto_keyword(&self) -> (r: bool)
        ensures
            r == self.is_auto(),
    {
        match self {
            Value::Keyword(s) => *s.as_str() == *"auto",
            _ => false,
        }
    }
}

impl Clone for Value {
    fn clone(&self) -> (r: Self)
        ensures
            r == *self,
    {
        match self {
            Value::Keyword(s) => Value::Keyword(s.clone()),
            Value::Length(n, u) => Value::Length(*n, *u),
            Value::ColorValue(c) => Value::ColorValue(*c),
        }
    }
}

} // verus!
