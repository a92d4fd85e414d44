use crate::layout::css::{Unit, Value};
use crate::layout::geometry::boxes::{
    lemma_view_children, models, BoxModel, BoxType, LayoutBox, LayoutError,
};
use crate::layout::geometry::dimensions::{
    fits_extent, in_extent, lemma_in_range_has_boxes, Dimensions, EdgeSizes, Rect,
    SimpleDimensions,
};
use crate::layout::geometry::width::{UsedWidths, WidthStyle};
use crate::layout::style::StyledNode;
use vstd::prelude::*;

verus! {

/// The vertical lengths that a block's style declares. An `auto` margin
/// counts as zero.
#[derive(Copy, Clone, PartialEq, Eq, Structural, Debug)]
pub struct VerticalStyle {
    pub margin_top: i32,
    pub margin_bottom: i32,
    pub border_top: i32,
    pub border_bottom: i32,
    pub padding_top: i32,
    pub padding_bottom: i32,
}

/// What a style value declares for a length that may be `auto`: nothing
/// where it is `auto`, else its length in pixels.
pub open spec fn declared(v: Value) -> Option<i32> {
    if v.is_auto() {
        None
    } else {
        Some(v.px() as i32)
    }
}

/// What a style declares for a length that is `auto` by default.
pub open spec fn declared_or_auto(v: Option<Value>) -> Option<i32> {
    match v {
        Some(v) => declared(v),
        None => None,
    }
}

/// What a style declares for a length that is zero by default.
pub open spec fn px_or_zero(v: Option<Value>) -> i32 {
    match v {
        Some(v) => v.px() as i32,
        None => 0i32,
    }
}

/// The horizontal lengths that `style` declares.
///
/// The width and the two margins are `auto` unless declared; borders and
/// paddings are zero unless declared. A margin, border or padding without a
/// value of its own takes that of its shorthand.
pub open spec fn width_style(style: &StyledNode) -> WidthStyle {
    WidthStyle {
        width: declared_or_auto(style.spec_value("width"@)),
        margin_left: declared_or_auto(style.spec_find("margin-left"@, "margin"@)),
        margin_right: declared_or_auto(style.spec_find("margin-right"@, "margin"@)),
        border_left: px_or_zero(style.spec_find("border-left-width"@, "border-width"@)),
        border_right: px_or_zero(style.spec_find("border-right-width"@, "border-width"@)),
        padding_left: px_or_zero(style.spec_find("padding-left"@, "padding"@)),
        padding_right: px_or_zero(style.spec_find("padding-right"@, "padding"@)),
    }
}

/// The vertical lengths that `style` declares, each zero unless declared.
pub open spec fn vertical_style(style: &StyledNode) -> VerticalStyle {
    VerticalStyle {
        margin_top: px_or_zero(style.spec_find("margin-top"@, "margin"@)),
        margin_bottom: px_or_zero(style.spec_find("margin-bottom"@, "margin"@)),
        border_top: px_or_zero(style.spec_find("border-top-width"@, "border-width"@)),
        border_bottom: px_or_zero(style.spec_find("border-bottom-width"@, "border-width"@)),
        padding_top: px_or_zero(style.spec_find("padding-top"@, "padding"@)),
        padding_bottom: px_or_zero(style.spec_find("padding-bottom"@, "padding"@)),
    }
}

/// The height that `style` declares, if it declares one other than `auto`.
pub open spec fn declared_height(style: &StyledNode) -> Option<i32> {
    declared_or_auto(style.spec_value("height"@))
}

/// `d` with the width and the horizontal edges that `style` resolves to in a
/// containing block of width `containing_width` and a viewport of width
/// `viewport_width`; `None` where one of them leaves the range of geometry.
pub open spec fn with_widths(
    d: Dimensions,
    style: WidthStyle,
    containing_width: int,
    viewport_width: int,
) -> Option<Dimensions> {
    let width = style.used_width(viewport_width);
    let margin_left = style.used_margin_left(containing_width, viewport_width);
    let margin_right = style.used_margin_right(containing_width, viewport_width);
    if in_extent(width) && in_extent(margin_left) && in_extent(margin_right) {
        Some(
            Dimensions {
                content: Rect { width: width as i64, ..d.content },
                padding: EdgeSizes {
                    left: style.padding_left as i64,
                    right: style.padding_right as i64,
                    ..d.padding
                },
                border: EdgeSizes {
                    left: style.border_left as i64,
                    right: style.border_right as i64,
                    ..d.border
                },
                margin: EdgeSizes {
                    left: margin_left as i64,
                    right: margin_right as i64,
                    ..d.margin
                },
            },
        )
    } else {
        None
    }
}

/// The left edge of the content area of a box with the horizontal edges of
/// `d`, inside the content area `containing`.
pub open spec fn content_x(d: Dimensions, containing: Rect) -> int {
    containing.x + d.margin.left + d.border.left + d.padding.left
}

/// The top edge of the content area of a box with the vertical edges of
/// `style`, placed below all that `containing` holds so far.
pub open spec fn content_y(style: VerticalStyle, containing: Rect) -> int {
    containing.height + containing.y + style.margin_top + style.border_top + style.padding_top
}

/// `d` with the vertical edges of `style` and with its content area placed
/// in `containing`: to the right of its own left edges, and below what
/// `containing` holds so far. `None` where the position leaves the range of
/// geometry.
pub open spec fn with_position(d: Dimensions, style: VerticalStyle, containing: Rect) -> Option<
    Dimensions,
> {
    let x = content_x(d, containing);
    let y = content_y(style, containing);
    if in_extent(x) && in_extent(y) {
        Some(
            Dimensions {
                content: Rect { x: x as i64, y: y as i64, ..d.content },
                padding: EdgeSizes {
                    top: style.padding_top as i64,
                    bottom: style.padding_bottom as i64,
                    ..d.padding
                },
                border: EdgeSizes {
                    top: style.border_top as i64,
                    bottom: style.border_bottom as i64,
                    ..d.border
                },
                margin: EdgeSizes {
                    top: style.margin_top as i64,
                    bottom: style.margin_bottom as i64,
                    ..d.margin
                },
            },
        )
    } else {
        None
    }
}

/// `d` with the content height `height`.
pub open spec fn with_height(d: Dimensions, height: i64) -> Dimensions {
    Dimensions { content: Rect { height, ..d.content }, ..d }
}

/// The dimensions of a block before its children are laid out: width and
/// horizontal edges resolved, then the box placed.
pub open spec fn block_frame(
    style: &StyledNode,
    d: Dimensions,
    containing: Dimensions,
    viewport: SimpleDimensions,
) -> Option<Dimensions> {
    match with_widths(
        d,
        width_style(style),
        containing.content.width as int,
        viewport.width as int,
    ) {
        Some(sized) => with_position(sized, vertical_style(style), containing.content),
        None => None,
    }
}

/// The children of a block and its content height after layout.
pub struct Stack<'a> {
    pub boxes: Seq<BoxModel<'a>>,
    pub height: i64,
}

impl<'a> BoxModel<'a> {
    /// The box after layout in the containing block `containing`, in a
    /// viewport of size `viewport`; `None` where a coordinate or an extent
    /// leaves the range of geometry.
    ///
    /// A block gets its width and horizontal edges, then its position, then
    /// its children are laid out one below the other, and last its height:
    /// the declared one, else that of its children. Inline boxes and
    /// anonymous blocks are left as they are, and so is everything below
    /// them.
    pub open spec fn laid_out(
        self,
        containing: Dimensions,
        viewport: SimpleDimensions,
    ) -> Option<BoxModel<'a>>
        decreases self, self.children.len() + 1,
    {
        match self.box_type {
            BoxType::BlockNode(style) => match block_frame(
                style,
                self.dimensions,
                containing,
                viewport,
            ) {
                Some(frame) => match Self::stacked(
                    self.children,
                    self.children.len(),
                    frame,
                    viewport,
                ) {
                    Some(stack) => Some(
                        BoxModel {
                            dimensions: with_height(
                                frame,
                                match declared_height(style) {
                                    Some(height) => height as i64,
                                    None => stack.height,
                                },
                            ),
                            box_type: self.box_type,
                            children: stack.boxes,
                        },
                    ),
                    None => None,
                },
                None => None,
            },
            _ => Some(self),
        }
    }

    /// The first `count` boxes of `children` after layout inside a block
    /// with the dimensions `parent`, and the content height of that block
    /// once they are in it.
    ///
    /// Each child is laid out in the parent as it stands then, its content
    /// height being that of the children before. The height of the child's
    /// margin box is then added to the parent's content height.
    pub open spec fn stacked(
        children: Seq<BoxModel<'a>>,
        count: nat,
        parent: Dimensions,
        viewport: SimpleDimensions,
    ) -> Option<Stack<'a>>
        decreases children, count,
    {
        if count == 0 || count > children.len() {
            Some(Stack { boxes: Seq::empty(), height: parent.content.height })
        } else {
            match Self::stacked(children, (count - 1) as nat, parent, viewport) {
                Some(before) => match children[count - 1].laid_out(
                    with_height(parent, before.height),
                    viewport,
                ) {
                    Some(child) => {
                        let height = before.height + child.dimensions.margin_box_height();
                        if in_extent(height) {
                            Some(Stack { boxes: before.boxes.push(child), height: height as i64 })
                        } else {
                            None
                        }
                    },
                    None => None,
                },
                None => None,
            }
        }
    }
}

/// What a style value declares for a length that may be `auto`.
pub fn declared_length(v: &Value, reference: i64) -> (r: Option<i32>)
    ensures
        r == declared(*v),
{
    if v.is_auto_keyword() {
        None
    } else {
        Some(v.to_px(reference))
    }
}

/// Reads the horizontal lengths that `style` declares. `reference` is the
/// width that relative lengths are measured against.
pub fn read_width_style(style: &StyledNode, reference: i64) -> (r: WidthStyle)
    ensures
        r == width_style(style),
{
    // `width` and the margins have initial value `auto`.
    let auto = Value::auto();
    // border and padding have initial value 0.
    let zero = Value::Length(0, Unit::Px);
    let width = match style.value("width") {
        Some(v) => declared_length(&v, reference),
        None => None,
    };
    WidthStyle {
        width,
        margin_left: declared_length(&style.lookup("margin-left", "margin", &auto), reference),
        margin_right: declared_length(&style.lookup("margin-right", "margin", &auto), reference),
        border_left: style.lookup("border-left-width", "border-width", &zero).to_px(reference),
        border_right: style.lookup("border-right-width", "border-width", &zero).to_px(reference),
        padding_left: style.lookup("padding-left", "padding", &zero).to_px(reference),
        padding_right: style.lookup("padding-right", "padding", &zero).to_px(reference),
    }
}

/// Reads the vertical lengths that `style` declares. `reference` is the
/// height that relative lengths are measured against.
pub fn read_vertical_style(style: &StyledNode, reference: i64) -> (r: VerticalStyle)
    ensures
        r == vertical_style(style),
{
    // margin, border, and padding have initial value 0.
    let zero = Value::Length(0, Unit::Px);
    VerticalStyle {
        margin_top: style.lookup("margin-top", "margin", &zero).to_px(reference),
        margin_bottom: style.lookup("margin-bottom", "margin", &zero).to_px(reference),
        border_top: style.lookup("border-top-width", "border-width", &zero).to_px(reference),
        border_bottom: style.lookup("border-bottom-width", "border-width", &zero).to_px(
            reference,
        ),
        padding_top: style.lookup("padding-top", "padding", &zero).to_px(reference),
        padding_bottom: style.lookup("padding-bottom", "padding", &zero).to_px(reference),
    }
}

/// Once the first `count` children cannot be laid out, no more of them can.
pub proof fn lemma_stacked_fails_on<'a>(
    children: Seq<BoxModel<'a>>,
    count: nat,
    more: nat,
    parent: Dimensions,
    viewport: SimpleDimensions,
)
    requires
        count <= more <= children.len(),
        BoxModel::stacked(children, count, parent, viewport) is None,
    ensures
        BoxModel::stacked(children, more, parent, viewport) is None,
    decreases more,
{
    if count < more {
        lemma_stacked_fails_on(children, count, (more - 1) as nat, parent, viewport);
    }
}

impl<'a> LayoutBox<'a> {
    /// Lays out the box and its descendants in the containing block
    /// `containing_block`, whose content height is the height of what it holds
    /// so far. `viewport` is the size of the viewport.
    ///
    /// Only blocks are laid out: an inline box or an anonymous block is left
    /// as it is, with all below it.
    pub fn layout(&mut self, containing_block: Dimensions, viewport: &SimpleDimensions) -> (r:
        Result<(), LayoutError>)
        requires
            old(self)@.in_range(),
            containing_block.content.in_range(),
            viewport.in_range(),
        ensures
            match r {
                Ok(()) => {
                    &&& old(self)@.laid_out(containing_block, *viewport) == Some(final(self)@)
                    &&& final(self)@.in_range()
                },
                Err(e) => {
                    &&& e == LayoutError::OutOfRange
                    &&& old(self)@.laid_out(containing_block, *viewport) is None
                },
            },
        decreases old(self).children, 2nat,
    {
        match self.box_type {
            BoxType::BlockNode(_) => self.layout_block(containing_block, viewport),
            BoxType::InlineNode(_) => Ok(()),
            BoxType::AnonymousBlock => Ok(()),
        }
    }

    /// Lays out a block: width, position, children and height, in this
    /// order.
    pub fn layout_block(&mut self, containing_block: Dimensions, viewport: &SimpleDimensions) -> (r:
        Result<(), LayoutError>)
        requires
            old(self).box_type is BlockNode,
            old(self)@.in_range(),
            containing_block.content.in_range(),
            viewport.in_range(),
        ensures
            match r {
                Ok(()) => {
                    &&& old(self)@.laid_out(containing_block, *viewport) == Some(final(self)@)
                    &&& final(self)@.in_range()
                },
                Err(e) => {
                    &&& e == LayoutError::OutOfRange
                    &&& old(self)@.laid_out(containing_block, *viewport) is None
                },
            },
        decreases old(self).children, 1nat,
    {
        proof {
            lemma_view_children(old(self));
        }
        // Child width can depend on parent width, so this box's width is
        // calculated before its children are laid out.
        match self.calculate_block_width(containing_block, viewport) {
            Err(e) => {
                return Err(e);
            },
            Ok(()) => {},
        }

        // Determine where the box is located within its container.
        match self.calculate_block_position(containing_block, viewport) {
            Err(e) => {
                return Err(e);
            },
            Ok(()) => {},
        }
        proof {
            lemma_view_children(self);
            assert(self@.children == old(self)@.children);
        }

        // Lay out the children of this box.
        match self.layout_block_children(viewport) {
            Err(e) => {
                return Err(e);
            },
            Ok(()) => {},
        }

        // Parent height can depend on child height, so the height is
        // calculated after the children are laid out.
        self.calculate_block_height(viewport);
        proof {
            lemma_view_children(self);
        }
        Ok(())
    }

    /// Calculates the width of a block and its horizontal margin, border and
    /// padding.
    pub fn calculate_block_width(
        &mut self,
        containing_block: Dimensions,
        viewport: &SimpleDimensions,
    ) -> (r: Result<(), LayoutError>)
        requires
            old(self).box_type is BlockNode,
            viewport.in_range(),
        ensures
            final(self).box_type == old(self).box_type,
            final(self).children == old(self).children,
            match r {
                Ok(()) => with_widths(
                    old(self).dimensions,
                    width_style(old(self).box_type->BlockNode_0),
                    containing_block.content.width as int,
                    viewport.width as int,
                ) == Some(final(self).dimensions),
                Err(e) => {
                    &&& e == LayoutError::OutOfRange
                    &&& with_widths(
                        old(self).dimensions,
                        width_style(old(self).box_type->BlockNode_0),
                        containing_block.content.width as int,
                        viewport.width as int,
                    ) is None
                },
            },
    {
        let style = self.get_style_node();
        let declared = read_width_style(style, viewport.width);
        let used: UsedWidths = declared.resolve(containing_block.content.width, viewport.width);
        if !(fits_extent(used.width) && fits_extent(used.margin_left) && fits_extent(
            used.margin_right,
        )) {
            return Err(LayoutError::OutOfRange);
        }
        self.dimensions.content.width = used.width;

        self.dimensions.padding.left = declared.padding_left as i64;
        self.dimensions.padding.right = declared.padding_right as i64;

        self.dimensions.border.left = declared.border_left as i64;
        self.dimensions.border.right = declared.border_right as i64;

        self.dimensions.margin.left = used.margin_left;
        self.dimensions.margin.right = used.margin_right;
        Ok(())
    }

    /// Finishes the edges of a block with the vertical ones, and positions
    /// it within its containing block, below all that is in it so far.
    pub fn calculate_block_position(
        &mut self,
        containing_block: Dimensions,
        viewport: &SimpleDimensions,
    ) -> (r: Result<(), LayoutError>)
        requires
            old(self).box_type is BlockNode,
            old(self).dimensions.margin.in_range(),
            old(self).dimensions.border.in_range(),
            old(self).dimensions.padding.in_range(),
            containing_block.content.in_range(),
        ensures
            final(self).box_type == old(self).box_type,
            final(self).children == old(self).children,
            match r {
                Ok(()) => with_position(
                    old(self).dimensions,
                    vertical_style(old(self).box_type->BlockNode_0),
                    containing_block.content,
                ) == Some(final(self).dimensions),
                Err(e) => {
                    &&& e == LayoutError::OutOfRange
                    &&& with_position(
                        old(self).dimensions,
                        vertical_style(old(self).box_type->BlockNode_0),
                        containing_block.content,
                    ) is None
                },
            },
    {
        let style = self.get_style_node();
        let declared = read_vertical_style(style, viewport.height);

        let x: i64 = containing_block.content.x + self.dimensions.margin.left
            + self.dimensions.border.left + self.dimensions.padding.left;

        // Position the box below all the previous boxes in the container.
        let y: i64 = containing_block.content.height + containing_block.content.y
            + declared.margin_top as i64 + declared.border_top as i64
            + declared.padding_top as i64;
        if !(fits_extent(x) && fits_extent(y)) {
            return Err(LayoutError::OutOfRange);
        }
        self.dimensions.margin.top = declared.margin_top as i64;
        self.dimensions.margin.bottom = declared.margin_bottom as i64;

        self.dimensions.border.top = declared.border_top as i64;
        self.dimensions.border.bottom = declared.border_bottom as i64;

        self.dimensions.padding.top = declared.padding_top as i64;
        self.dimensions.padding.bottom = declared.padding_bottom as i64;

        self.dimensions.content.x = x;
        self.dimensions.content.y = y;
        Ok(())
    }

    /// Lays out the children of a block within its content area, one below
    /// the other, and adds the height of each to the content height of the
    /// block.
    pub fn layout_block_children(&mut self, viewport: &SimpleDimensions) -> (r: Result<
        (),
        LayoutError,
    >)
        requires
            old(self)@.in_range(),
            viewport.in_range(),
        ensures
            final(self).box_type == old(self).box_type,
            match r {
                Ok(()) => {
                    &&& BoxModel::stacked(
                        old(self)@.children,
                        old(self)@.children.len(),
                        old(self).dimensions,
                        *viewport,
                    ) == Some(
                        Stack {
                            boxes: final(self)@.children,
                            height: final(self).dimensions.content.height,
                        },
                    )
                    &&& final(self).dimensions == with_height(
                        old(self).dimensions,
                        final(self).dimensions.content.height,
                    )
                    &&& final(self)@.in_range()
                },
                Err(e) => {
                    &&& e == LayoutError::OutOfRange
                    &&& BoxModel::stacked(
                        old(self)@.children,
                        old(self)@.children.len(),
                        old(self).dimensions,
                        *viewport,
                    ) is None
                },
            },
        decreases old(self).children, 0nat,
    {
        proof {
            lemma_view_children(old(self));
        }
        let ghost before = old(self)@.children;
        let ghost parent = old(self).dimensions;
        let mut i: usize = 0;
        proof {
            assert(models(self.children@).take(0) =~= Seq::empty());
            assert forall|j: int| 0 <= j < self.children@.len() implies (
            #[trigger] self.children@[j])@.in_range() by {
                assert(before[j] == self.children@[j]@);
            }
        }
        while i < self.children.len()
            invariant
                i <= self.children@.len(),
                self.children@.len() == old(self).children@.len(),
                self.box_type == old(self).box_type,
                before == models(old(self).children@),
                before == old(self)@.children,
                parent == old(self).dimensions,
                viewport.in_range(),
                self.dimensions == with_height(parent, self.dimensions.content.height),
                self.dimensions.in_range(),
                forall|j: int|
                    i <= j < self.children@.len() ==> self.children@[j] == old(
                        self,
                    ).children@[j],
                forall|j: int|
                    0 <= j < self.children@.len() ==> (#[trigger] self.children@[j])@.in_range(),
                BoxModel::stacked(before, i as nat, parent, *viewport) == Some(
                    Stack {
                        boxes: models(self.children@).take(i as int),
                        height: self.dimensions.content.height,
                    },
                ),
            decreases self.children@.len() - i,
        {
            let containing = self.dimensions;
            let ghost laid = models(self.children@).take(i as int);
            let child = &mut self.children[i];
            let ghost child_before = *child;
            proof {
                assert(before[i as int] == child_before@);
                assert(containing == with_height(parent, containing.content.height));
            }
            match child.layout(containing, viewport) {
                Err(e) => {
                    proof {
                        assert(BoxModel::stacked(before, (i + 1) as nat, parent, *viewport) is None);
                        lemma_stacked_fails_on(
                            before,
                            (i + 1) as nat,
                            before.len(),
                            parent,
                            *viewport,
                        );
                    }
                    return Err(e);
                },
                Ok(()) => {},
            }
            proof {
                lemma_view_children(child);
                lemma_in_range_has_boxes(child.dimensions);
            }
            let child_height: i64 = child.dimensions.margin_box().height;

            // Increment the height so each child is laid out below the
            // previous one.
            let height: i64 = containing.content.height + child_height;
            if !fits_extent(height) {
                proof {
                    assert(BoxModel::stacked(before, (i + 1) as nat, parent, *viewport) is None);
                    lemma_stacked_fails_on(
                        before,
                        (i + 1) as nat,
                        before.len(),
                        parent,
                        *viewport,
                    );
                }
                return Err(LayoutError::OutOfRange);
            }
            self.dimensions.content.height = height;
            proof {
                assert(models(self.children@).take(i + 1) =~= laid.push(self.children@[i as int]@));
            }
            i += 1;
        }
        proof {
            lemma_view_children(self);
            assert(models(self.children@).take(i as int) =~= models(self.children@));
        }
        Ok(())
    }

    /// Sets the height of a block that declares one; otherwise the height
    /// that its children gave it stands.
    pub fn calculate_block_height(&mut self, viewport: &SimpleDimensions)
        requires
            old(self).box_type is BlockNode,
        ensures
            final(self).box_type == old(self).box_type,
            final(self).children == old(self).children,
            final(self).dimensions == with_height(
                old(self).dimensions,
                match declared_height(old(self).box_type->BlockNode_0) {
                    Some(height) => height as i64,
                    None => old(self).dimensions.content.height,
                },
            ),
    {
        match self.get_style_node().value("height") {
            Some(value) => match declared_length(&value, viewport.height) {
                Some(height) => {
                    self.dimensions.content.height = height as i64;
                },
                None => {},
            },
            None => {},
        }
    }
}

} // verus!
