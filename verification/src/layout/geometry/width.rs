use vstd::prelude::*;

verus! {

/// The horizontal lengths that a block's style declares. `None` stands for
/// `auto`, which only the width and the two margins can be.
#[derive(Copy, Clone, PartialEq, Eq, Structural, Debug)]
pub struct WidthStyle {
    pub width: Option<i32>,
    pub margin_left: Option<i32>,
    pub margin_right: Option<i32>,
    pub border_left: i32,
    pub border_right: i32,
    pub padding_left: i32,
    pub padding_right: i32,
}

/// The width and the two horizontal margins that a block ends up with.
#[derive(Copy, Clone, PartialEq, Eq, Structural, Debug)]
pub struct UsedWidths {
    pub width: i64,
    pub margin_left: i64,
    pub margin_right: i64,
}

/// The length that a declared length counts as in a sum: `auto` counts as
/// zero.
pub open spec fn or_zero(length: Option<i32>) -> int {
    match length {
        Some(n) => n as int,
        None => 0,
    }
}

impl WidthStyle {
    /// The sum of the seven declared lengths, `auto` counting as zero.
    pub open spec fn total(self) -> int {
        or_zero(self.margin_left) + or_zero(self.margin_right) + self.border_left
            + self.border_right + self.padding_left + self.padding_right + or_zero(self.width)
    }

    /// The space that the declared lengths leave of `viewport_width`;
    /// negative when they ask for more than there is.
    pub open spec fn underflow(self, viewport_width: int) -> int {
        viewport_width - self.total()
    }

    /// Whether a declared width asks for more than `containing_width`
    /// together with the other lengths. `auto` margins then count as
    /// declared zero.
    pub open spec fn overflows(self, containing_width: int) -> bool {
        self.width is Some && self.total() > containing_width
    }

    /// The left margin that enters the case analysis.
    pub open spec fn effective_margin_left(self, containing_width: int) -> Option<i32> {
        if self.overflows(containing_width) && self.margin_left is None {
            Some(0i32)
        } else {
            self.margin_left
        }
    }

    /// The right margin that enters the case analysis.
    pub open spec fn effective_margin_right(self, containing_width: int) -> Option<i32> {
        if self.overflows(containing_width) && self.margin_right is None {
            Some(0i32)
        } else {
            self.margin_right
        }
    }

    /// The used width of the content area.
    ///
    /// A declared width stands. An `auto` width takes up the underflow, and
    /// is zero where the underflow is negative.
    pub open spec fn used_width(self, viewport_width: int) -> int {
        match self.width {
            Some(w) => w as int,
            None => if self.underflow(viewport_width) >= 0 {
                self.underflow(viewport_width)
            } else {
                0
            },
        }
    }

    /// The used left margin.
    ///
    /// With an `auto` width an `auto` margin is zero. With a declared width,
    /// an `auto` left margin takes up the underflow: all of it where the
    /// right margin is declared, half of it where both are `auto`.
    pub open spec fn used_margin_left(self, containing_width: int, viewport_width: int) -> int {
        match (self.width, self.effective_margin_left(containing_width)) {
            (_, Some(l)) => l as int,
            (None, None) => 0,
            (Some(_), None) => if self.effective_margin_right(containing_width) is None {
                self.underflow(viewport_width) / 2
            } else {
                self.underflow(viewport_width)
            },
        }
    }

    /// The used right margin.
    ///
    /// With a declared width, a declared right margin gives way where the
    /// left margin is declared too: the underflow is added to it. An `auto`
    /// right margin takes up the underflow, or half of it where both margins
    /// are `auto`. With an `auto` width the right margin is what was
    /// declared (`auto` being zero), and a negative underflow is added to
    /// it.
    pub open spec fn used_margin_right(self, containing_width: int, viewport_width: int) -> int {
        let underflow = self.underflow(viewport_width);
        match self.width {
            Some(_) => match (
                self.effective_margin_left(containing_width),
                self.effective_margin_right(containing_width),
            ) {
                (Some(_), Some(r)) => r + underflow,
                (Some(_), None) => underflow,
                (None, Some(r)) => r as int,
                (None, None) => underflow / 2,
            },
            None => if underflow >= 0 {
                or_zero(self.margin_right)
            } else {
                or_zero(self.margin_right) + underflow
            },
        }
    }

    /// Whether both margins are `auto` beside a declared width that fits, so
    /// that the box is centred.
    pub open spec fn is_centred(self, containing_width: int) -> bool {
        &&& self.width is Some
        &&& self.effective_margin_left(containing_width) is None
        &&& self.effective_margin_right(containing_width) is None
    }

    /// Whether the underflow and the used lengths are numbers of `i64`. They
    /// are whenever the viewport's width is one that geometry can hold.
    pub open spec fn can_resolve(self, containing_width: int, viewport_width: int) -> bool {
        &&& i64::MIN <= self.underflow(viewport_width) <= i64::MAX
        &&& i64::MIN <= self.used_margin_right(containing_width, viewport_width) <= i64::MAX
    }

    /// Resolves the width and the horizontal margins of a block whose
    /// containing block is `containing_width` wide, in a viewport that is
    /// `viewport_width` wide.
    pub fn resolve(&self, containing_width: i64, viewport_width: i64) -> (used: UsedWidths)
        requires
            self.can_resolve(containing_width as int, viewport_width as int),
        ensures
            used.width == self.used_width(viewport_width as int),
            used.margin_left == self.used_margin_left(
                containing_width as int,
                viewport_width as int,
            ),
            used.margin_right == self.used_margin_right(
                containing_width as int,
                viewport_width as int,
            ),
    {
        let total: i64 = length_or_zero(self.margin_left) + length_or_zero(self.margin_right)
            + self.border_left as i64 + self.border_right as i64 + self.padding_left as i64
            + self.padding_right as i64 + length_or_zero(self.width);

        // A declared width that does not fit turns auto margins into zero.
        let mut margin_left = self.margin_left;
        let mut margin_right = self.margin_right;
        if self.width.is_some() && total > containing_width {
            if margin_left.is_none() {
                margin_left = Some(0);
            }
            if margin_right.is_none() {
                margin_right = Some(0);
            }
        }
        let underflow: i64 = viewport_width - total;

        match (self.width, margin_left, margin_right) {
            // Everything is declared: the right margin gives way.
            (Some(w), Some(l), Some(r)) => UsedWidths {
                width: w as i64,
                margin_left: l as i64,
                margin_right: r as i64 + underflow,
            },
            // Exactly one margin is auto: it follows from the equation.
            (Some(w), Some(l), None) => UsedWidths {
                width: w as i64,
                margin_left: l as i64,
                margin_right: underflow,
            },
            (Some(w), None, Some(r)) => UsedWidths {
                width: w as i64,
                margin_left: underflow,
                margin_right: r as i64,
            },
            // Both margins are auto: they share the underflow.
            (Some(w), None, None) => UsedWidths {
                width: w as i64,
                margin_left: half(underflow),
                margin_right: half(underflow),
            },
            // The width is auto: auto margins are zero.
            (None, l, r) => {
                if underflow >= 0 {
                    UsedWidths {
                        width: underflow,
                        margin_left: length_or_zero(l),
                        margin_right: length_or_zero(r),
                    }
                } else {
                    // The width cannot be negative: the right margin is.
                    UsedWidths {
                        width: 0,
                        margin_left: length_or_zero(l),
                        margin_right: length_or_zero(r) + underflow,
                    }
                }
            },
        }
    }
}

/// A declared length as a number, `auto` being zero.
pub fn length_or_zero(length: Option<i32>) -> (r: i64)
    ensures
        r == or_zero(length),
{
    match length {
        Some(n) => n as i64,
        None => 0,
    }
}

/// Half of `n`, rounded down.
pub fn half(n: i64) -> (r: i64)
    ensures
        r == n as int / 2,
{
    if n >= 0 {
        n / 2
    } else {
        -((-(n + 1)) / 2) - 1
    }
}

} // verus!
