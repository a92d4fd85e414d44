use crate::text::{decimal, push_decimal, push_text};
use vstd::prelude::*;

verus! {

/// The largest absolute value that a coordinate or an extent of laid-out
/// geometry may take, in pixels.
pub const MAX_EXTENT: i64 = 1_000_000_000_000;

/// Whether `v` is a coordinate or extent that geometry can hold.
pub open spec fn in_extent(v: int) -> bool {
    -MAX_EXTENT <= v <= MAX_EXTENT
}

/// Tests whether `v` lies within [`MAX_EXTENT`] of zero.
pub fn fits_extent(v: i64) -> (r: bool)
    ensures
        r == in_extent(v as int),
{
    -MAX_EXTENT <= v && v <= MAX_EXTENT
}

/// A rectangle in document coordinates: the origin is the top left corner
/// and `y` grows downwards.
#[derive(Copy, Clone, PartialEq, Eq, Structural, Debug)]
pub struct Rect {
    pub x: i64,
    pub y: i64,
    pub width: i64,
    pub height: i64,
}

/// The four widths of one band (padding, border or margin) around a box.
#[derive(Copy, Clone, PartialEq, Eq, Structural, Debug)]
pub struct EdgeSizes {
    pub left: i64,
    pub right: i64,
    pub top: i64,
    pub bottom: i64,
}

/// The content area of a box and the three bands around it.
#[derive(Copy, Clone, PartialEq, Eq, Structural, Debug)]
pub struct Dimensions {
    pub content: Rect,
    pub padding: EdgeSizes,
    pub border: EdgeSizes,
    pub margin: EdgeSizes,
}

/// A width and a height, without a position.
#[derive(Copy, Clone, PartialEq, Eq, Structural, Debug)]
pub struct SimpleDimensions {
    pub width: i64,
    pub height: i64,
}

impl Rect {
    /// The rectangle at the origin with no extent.
    pub open spec fn zero() -> Rect {
        Rect { x: 0, y: 0, width: 0, height: 0 }
    }

    /// Whether all four numbers lie within [`MAX_EXTENT`] of zero.
    pub open spec fn in_range(self) -> bool {
        &&& in_extent(self.x as int)
        &&& in_extent(self.y as int)
        &&& in_extent(self.width as int)
        &&& in_extent(self.height as int)
    }

    /// Whether growing the rectangle by `edge` stays within `i64`.
    pub open spec fn can_expand_by(self, edge: EdgeSizes) -> bool {
        &&& i64::MIN <= self.x - edge.left <= i64::MAX
        &&& i64::MIN <= self.y - edge.top <= i64::MAX
        &&& i64::MIN <= self.width + edge.left + edge.right <= i64::MAX
        &&& i64::MIN <= self.width + edge.left <= i64::MAX
        &&& i64::MIN <= self.height + edge.top + edge.bottom <= i64::MAX
        &&& i64::MIN <= self.height + edge.top <= i64::MAX
    }

    /// The rectangle grown outwards by `edge` on each side.
    pub open spec fn spec_expanded_by(self, edge: EdgeSizes) -> Rect {
        Rect {
            x: (self.x - edge.left) as i64,
            y: (self.y - edge.top) as i64,
            width: (self.width + edge.left + edge.right) as i64,
            height: (self.height + edge.top + edge.bottom) as i64,
        }
    }

    /// Whether `self` covers every point of `inner`, both taken as the
    /// half-open spans `[x, x + width)` and `[y, y + height)`.
    pub open spec fn contains_rect(self, inner: Rect) -> bool {
        &&& self.x <= inner.x
        &&& self.y <= inner.y
        &&& inner.x + inner.width <= self.x + self.width
        &&& inner.y + inner.height <= self.y + self.height
    }

    /// The rectangle as a text: its origin between braces, then its width
    /// and height.
    pub open spec fn spec_describe(self) -> Seq<char> {
        "Rect { x: "@ + decimal(self.x as int) + ", y: "@ + decimal(self.y as int) + " } "@
            + decimal(self.width as int) + " x "@ + decimal(self.height as int)
    }

    /// Writes the rectangle out as a text.
    pub fn describe(&self) -> (r: String)
        ensures
            r@ == self.spec_describe(),
    {
        let mut r = "Rect { x: ".to_owned();
        push_decimal(&mut r, self.x);
        push_text(&mut r, ", y: ");
        push_decimal(&mut r, self.y);
        push_text(&mut r, " } ");
        push_decimal(&mut r, self.width);
        push_text(&mut r, " x ");
        push_decimal(&mut r, self.height);
        r
    }

    /// Tests whether all four numbers lie within [`MAX_EXTENT`] of zero.
    pub fn fits(&self) -> (r: bool)
        ensures
            r == self.in_range(),
    {
        fits_extent(self.x) && fits_extent(self.y) && fits_extent(self.width) && fits_extent(
            self.height,
        )
    }

    /// Grows the rectangle outwards by `edge` on each side.
    pub fn expanded_by(self, edge: EdgeSizes) -> (r: Rect)
        requires
            self.can_expand_by(edge),
        ensures
            r == self.spec_expanded_by(edge),
            r.x == self.x - edge.left,
            r.y == self.y - edge.top,
            r.width == self.width + edge.left + edge.right,
            r.height == self.height + edge.top + edge.bottom,
    {
        Rect {
            x: self.x - edge.left,
            y: self.y - edge.top,
            width: self.width + edge.left + edge.right,
            height: self.height + edge.top + edge.bottom,
        }
    }
}

impl Default for Rect {
    fn default() -> (r: Rect)
        ensures
            r == Rect::zero(),
    {
        Rect { x: 0, y: 0, width: 0, height: 0 }
    }
}

impl EdgeSizes {
    /// The band of no width.
    pub open spec fn zero() -> EdgeSizes {
        EdgeSizes { left: 0, right: 0, top: 0, bottom: 0 }
    }

    /// Whether all four widths lie within [`MAX_EXTENT`] of zero.
    pub open spec fn in_range(self) -> bool {
        &&& in_extent(self.left as int)
        &&& in_extent(self.right as int)
        &&& in_extent(self.top as int)
        &&& in_extent(self.bottom as int)
    }

    /// Whether no width is negative.
    pub open spec fn non_negative(self) -> bool {
        &&& self.left >= 0
        &&& self.right >= 0
        &&& self.top >= 0
        &&& self.bottom >= 0
    }

    /// The band as a text: its four widths between braces, and a space.
    pub open spec fn spec_describe(self) -> Seq<char> {
        "EdgeSizes { left: "@ + decimal(self.left as int) + ", right: "@ + decimal(
            self.right as int,
        ) + ", top: "@ + decimal(self.top as int) + ", bottom: "@ + decimal(self.bottom as int)
            + " } "@
    }

    /// Writes the band out as a text.
    pub fn describe(&self) -> (r: String)
        ensures
            r@ == self.spec_describe(),
    {
        let mut r = "EdgeSizes { left: ".to_owned();
        push_decimal(&mut r, self.left);
        push_text(&mut r, ", right: ");
        push_decimal(&mut r, self.right);
        push_text(&mut r, ", top: ");
        push_decimal(&mut r, self.top);
        push_text(&mut r, ", bottom: ");
        push_decimal(&mut r, self.bottom);
        push_text(&mut r, " } ");
        r
    }

    /// Tests whether all four widths lie within [`MAX_EXTENT`] of zero.
    pub fn fits(&self) -> (r: bool)
        ensures
            r == self.in_range(),
    {
        fits_extent(self.left) && fits_extent(self.right) && fits_extent(self.top) && fits_extent(
            self.bottom,
        )
    }
}

impl Default for EdgeSizes {
    fn default() -> (r: EdgeSizes)
        ensures
            r == EdgeSizes::zero(),
    {
        EdgeSizes { left: 0, right: 0, top: 0, bottom: 0 }
    }
}

impl Dimensions {
    /// The dimensions with every number zero.
    pub open spec fn zero() -> Dimensions {
        Dimensions {
            content: Rect::zero(),
            padding: EdgeSizes::zero(),
            border: EdgeSizes::zero(),
            margin: EdgeSizes::zero(),
        }
    }

    /// Whether every number lies within [`MAX_EXTENT`] of zero.
    pub open spec fn in_range(self) -> bool {
        &&& self.content.in_range()
        &&& self.padding.in_range()
        &&& self.border.in_range()
        &&& self.margin.in_range()
    }

    /// Whether the padding box can be computed within `i64`.
    pub open spec fn has_padding_box(self) -> bool {
        self.content.can_expand_by(self.padding)
    }

    /// Whether the border box can be computed within `i64`.
    pub open spec fn has_border_box(self) -> bool {
        self.has_padding_box() && self.spec_padding_box().can_expand_by(self.border)
    }

    /// Whether the margin box can be computed within `i64`, and with it the
    /// two boxes inside it.
    pub open spec fn has_margin_box(self) -> bool {
        self.has_border_box() && self.spec_border_box().can_expand_by(self.margin)
    }

    /// The content area grown by the padding.
    pub open spec fn spec_padding_box(self) -> Rect {
        self.content.spec_expanded_by(self.padding)
    }

    /// The padding box grown by the border.
    pub open spec fn spec_border_box(self) -> Rect {
        self.spec_padding_box().spec_expanded_by(self.border)
    }

    /// The border box grown by the margin.
    pub open spec fn spec_margin_box(self) -> Rect {
        self.spec_border_box().spec_expanded_by(self.margin)
    }

    /// The height of the margin box, as a mathematical integer.
    pub open spec fn margin_box_height(self) -> int {
        self.content.height + self.padding.top + self.padding.bottom + self.border.top
            + self.border.bottom + self.margin.top + self.margin.bottom
    }

    /// The top of the margin box, as a mathematical integer.
    pub open spec fn margin_box_top(self) -> int {
        self.content.y - self.padding.top - self.border.top - self.margin.top
    }

    /// The sum of the seven horizontal lengths of the box, margin to margin.
    pub open spec fn horizontal_sum(self) -> int {
        self.margin.left + self.border.left + self.padding.left + self.content.width
            + self.padding.right + self.border.right + self.margin.right
    }

    /// Dimensions with the content area `rect` and no padding, border or
    /// margin.
    pub fn new(rect: Rect) -> (d: Self)
        ensures
            d.content == rect,
            d.padding == EdgeSizes::zero(),
            d.border == EdgeSizes::zero(),
            d.margin == EdgeSizes::zero(),
    {
        Dimensions {
            content: rect,
            padding: EdgeSizes::default(),
            border: EdgeSizes::default(),
            margin: EdgeSizes::default(),
        }
    }

    /// Tests whether every number lies within [`MAX_EXTENT`] of zero.
    pub fn fits(&self) -> (r: bool)
        ensures
            r == self.in_range(),
    {
        self.content.fits() && self.padding.fits() && self.border.fits() && self.margin.fits()
    }

    /// The area covered by the content area plus its padding.
    pub fn padding_box(self) -> (r: Rect)
        requires
            self.has_padding_box(),
        ensures
            r == self.spec_padding_box(),
            r.x == self.content.x - self.padding.left,
            r.y == self.content.y - self.padding.top,
            r.width == self.content.width + self.padding.left + self.padding.right,
            r.height == self.content.height + self.padding.top + self.padding.bottom,
    {
        self.content.expanded_by(self.padding)
    }

    /// The area covered by the content area plus padding and borders.
    pub fn border_box(self) -> (r: Rect)
        requires
            self.has_border_box(),
        ensures
            r == self.spec_border_box(),
            r.x == self.content.x - self.padding.left - self.border.left,
            r.y == self.content.y - self.padding.top - self.border.top,
            r.width == self.content.width + self.padding.left + self.padding.right
                + self.border.left + self.border.right,
            r.height == self.content.height + self.padding.top + self.padding.bottom
                + self.border.top + self.border.bottom,
    {
        self.padding_box().expanded_by(self.border)
    }

    /// The area covered by the content area plus padding, borders, and margin.
    pub fn margin_box(self) -> (r: Rect)
        requires
            self.has_margin_box(),
        ensures
            r == self.spec_margin_box(),
            r.x == self.content.x - self.padding.left - self.border.left - self.margin.left,
            r.y == self.margin_box_top(),
            r.width == self.horizontal_sum(),
            r.height == self.margin_box_height(),
    {
        self.border_box().expanded_by(self.margin)
    }
}

impl Default for Dimensions {
    fn default() -> (d: Dimensions)
        ensures
            d == Dimensions::zero(),
    {
        Dimensions::new(Rect::default())
    }
}

impl SimpleDimensions {
    /// Whether both numbers lie within [`MAX_EXTENT`] of zero.
    pub open spec fn in_range(self) -> bool {
        in_extent(self.width as int) && in_extent(self.height as int)
    }

    /// Tests whether both numbers lie within [`MAX_EXTENT`] of zero.
    pub fn fits(&self) -> (r: bool)
        ensures
            r == self.in_range(),
    {
        fits_extent(self.width) && fits_extent(self.height)
    }

    /// A width and a height.
    pub fn new(width: i64, height: i64) -> (s: Self)
        ensures
            s == (SimpleDimensions { width, height }),
    {
        SimpleDimensions { width, height }
    }

    /// The width and height of `rect`.
    pub fn from_dimension(rect: Rect) -> (s: Self)
        ensures
            s == (SimpleDimensions { width: rect.width, height: rect.height }),
    {
        SimpleDimensions { width: rect.width, height: rect.height }
    }
}

/// Dimensions within the range of geometry have their three boxes.
pub proof fn lemma_in_range_has_boxes(d: Dimensions)
    requires
        d.in_range(),
    ensures
        d.has_margin_box(),
{
}

/// Each derived box lies exactly the corresponding band outside the box
/// within it: its origin is moved up and left by the band's top and left
/// widths, and its extent grows by the band's widths on both sides.
pub proof fn lemma_box_offsets(d: Dimensions)
    requires
        d.has_margin_box(),
    ensures
        d.spec_padding_box().x == d.content.x - d.padding.left,
        d.spec_padding_box().y == d.content.y - d.padding.top,
        d.spec_padding_box().width == d.content.width + d.padding.left + d.padding.right,
        d.spec_padding_box().height == d.content.height + d.padding.top + d.padding.bottom,
        d.spec_border_box().x == d.spec_padding_box().x - d.border.left,
        d.spec_border_box().y == d.spec_padding_box().y - d.border.top,
        d.spec_border_box().width == d.spec_padding_box().width + d.border.left + d.border.right,
        d.spec_border_box().height == d.spec_padding_box().height + d.border.top
            + d.border.bottom,
        d.spec_margin_box().x == d.spec_border_box().x - d.margin.left,
        d.spec_margin_box().y == d.spec_border_box().y - d.margin.top,
        d.spec_margin_box().width == d.spec_border_box().width + d.margin.left + d.margin.right,
        d.spec_margin_box().height == d.spec_border_box().height + d.margin.top
            + d.margin.bottom,
{
}

/// With no negative padding, border or margin, the margin box contains the
/// border box, the border box the padding box, and the padding box the
/// content area.
pub proof fn lemma_boxes_nested(d: Dimensions)
    requires
        d.has_margin_box(),
        d.padding.non_negative(),
        d.border.non_negative(),
        d.margin.non_negative(),
    ensures
        d.spec_padding_box().contains_rect(d.content),
        d.spec_border_box().contains_rect(d.spec_padding_box()),
        d.spec_margin_box().contains_rect(d.spec_border_box()),
{
    lemma_box_offsets(d);
}

} // verus!
