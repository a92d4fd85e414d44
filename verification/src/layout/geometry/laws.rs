//! What holds of every layout.

use crate::layout::geometry::block::{
    block_frame, declared_height, vertical_style, width_style, with_height, with_position,
    with_widths, Stack,
};
use crate::layout::geometry::boxes::BoxModel;
use crate::layout::geometry::dimensions::{Dimensions, SimpleDimensions};
use crate::layout::geometry::width::WidthStyle;
use vstd::prelude::*;

verus! {

/// Whether the margins of a block with the declared lengths `style` cannot
/// share the underflow evenly: the block is centred and the underflow is an
/// odd number of pixels. Each margin then gets half a pixel less than half
/// the underflow.
pub open spec fn splits_unevenly(
    style: WidthStyle,
    containing_width: int,
    viewport_width: int,
) -> bool {
    style.is_centred(containing_width) && style.underflow(viewport_width) % 2 != 0
}

/// The width equation: the used width, the horizontal paddings and borders
/// and the used margins of a block add up to the width of the viewport.
///
/// The one exception is a centred block whose underflow is odd, which
/// comes out one pixel narrower.
pub proof fn lemma_width_equation(style: WidthStyle, containing_width: int, viewport_width: int)
    ensures
        !splits_unevenly(style, containing_width, viewport_width) ==> style.used_margin_left(
            containing_width,
            viewport_width,
        ) + style.border_left + style.padding_left + style.used_width(viewport_width)
            + style.padding_right + style.border_right + style.used_margin_right(
            containing_width,
            viewport_width,
        ) == viewport_width,
        splits_unevenly(style, containing_width, viewport_width) ==> style.used_margin_left(
            containing_width,
            viewport_width,
        ) + style.border_left + style.padding_left + style.used_width(viewport_width)
            + style.padding_right + style.border_right + style.used_margin_right(
            containing_width,
            viewport_width,
        ) == viewport_width - 1,
{
}

/// The width equation for a box: after layout the seven horizontal lengths
/// of a block add up to the width of the viewport, and so to the width of
/// its containing block where that is as wide as the viewport.
///
/// It holds whichever of the lengths were `auto`, and also where the
/// declared lengths ask for more than there is: the right margin is then
/// negative. It does not hold of a centred block whose underflow is odd.
pub proof fn lemma_block_fills_width<'a>(
    b: BoxModel<'a>,
    containing: Dimensions,
    viewport: SimpleDimensions,
)
    requires
        b.box_type is BlockNode,
        b.laid_out(containing, viewport) is Some,
        !splits_unevenly(
            width_style(b.box_type->BlockNode_0),
            containing.content.width as int,
            viewport.width as int,
        ),
    ensures
        b.laid_out(containing, viewport).unwrap().dimensions.horizontal_sum() == viewport.width,
        viewport.width == containing.content.width ==> b.laid_out(
            containing,
            viewport,
        ).unwrap().dimensions.horizontal_sum() == containing.content.width,
{
    let style = b.box_type->BlockNode_0;
    lemma_width_equation(
        width_style(style),
        containing.content.width as int,
        viewport.width as int,
    );
    let sized = with_widths(
        b.dimensions,
        width_style(style),
        containing.content.width as int,
        viewport.width as int,
    ).unwrap();
    let frame = block_frame(style, b.dimensions, containing, viewport).unwrap();
    assert(frame == with_position(sized, vertical_style(style), containing.content).unwrap());
    assert(frame.horizontal_sum() == sized.horizontal_sum());
}

/// Centring: where the width is declared and fits, and both horizontal
/// margins are `auto`, the two used margins are equal, and each is half of
/// what the width, the borders and the paddings leave of the viewport's
/// width (rounded down). Without borders and paddings that is half of the
/// viewport's width less the declared width.
pub proof fn lemma_auto_margins_centre(
    style: WidthStyle,
    containing_width: int,
    viewport_width: int,
)
    requires
        style.width is Some,
        style.margin_left is None,
        style.margin_right is None,
        style.total() <= containing_width,
    ensures
        style.used_margin_left(containing_width, viewport_width) == style.used_margin_right(
            containing_width,
            viewport_width,
        ),
        style.used_margin_left(containing_width, viewport_width) == (viewport_width - (
        style.width.unwrap() + style.border_left + style.border_right + style.padding_left
            + style.padding_right)) / 2,
        style.border_left == 0 && style.border_right == 0 && style.padding_left == 0
            && style.padding_right == 0 ==> style.used_margin_left(
            containing_width,
            viewport_width,
        ) == (viewport_width - style.width.unwrap()) / 2,
        style.used_width(viewport_width) == style.width.unwrap(),
{
}

/// Layout keeps the shape of the tree: the type of the box and the number
/// and types of its children.
pub proof fn lemma_layout_keeps_shape<'a>(
    b: BoxModel<'a>,
    containing: Dimensions,
    viewport: SimpleDimensions,
)
    requires
        b.laid_out(containing, viewport) is Some,
    ensures
        b.laid_out(containing, viewport).unwrap().box_type == b.box_type,
        b.laid_out(containing, viewport).unwrap().children.len() == b.children.len(),
        forall|i: int|
            0 <= i < b.children.len() ==> (#[trigger] b.laid_out(
                containing,
                viewport,
            ).unwrap().children[i]).box_type == b.children[i].box_type,
{
    if b.box_type is BlockNode {
        let frame = block_frame(b.box_type->BlockNode_0, b.dimensions, containing, viewport).unwrap();
        lemma_stack_shape(b.children, b.children.len(), frame, viewport);
    }
}

/// A stack of `count` children holds `count` boxes, of the types of the
/// children.
pub proof fn lemma_stack_shape<'a>(
    children: Seq<BoxModel<'a>>,
    count: nat,
    parent: Dimensions,
    viewport: SimpleDimensions,
)
    requires
        count <= children.len(),
        BoxModel::stacked(children, count, parent, viewport) is Some,
    ensures
        BoxModel::stacked(children, count, parent, viewport).unwrap().boxes.len() == count,
        forall|i: int|
            0 <= i < count ==> (#[trigger] BoxModel::stacked(
                children,
                count,
                parent,
                viewport,
            ).unwrap().boxes[i]).box_type == children[i].box_type,
    decreases count,
{
    if count > 0 {
        lemma_stack_shape(children, (count - 1) as nat, parent, viewport);
        let before = BoxModel::stacked(children, (count - 1) as nat, parent, viewport).unwrap();
        let all = BoxModel::stacked(children, count, parent, viewport).unwrap();
        let child = children[count - 1].laid_out(with_height(parent, before.height), viewport);
        assert(child.unwrap().box_type == children[count - 1].box_type);
        assert(all.boxes == before.boxes.push(child.unwrap()));
        assert forall|i: int| 0 <= i < count implies (#[trigger] all.boxes[i]).box_type
            == children[i].box_type by {
            if i < count - 1 {
                assert(all.boxes[i] == before.boxes[i]);
            }
        }
    }
}

/// The stack of fewer children is the beginning of the stack of more.
pub proof fn lemma_stack_prefix<'a>(
    children: Seq<BoxModel<'a>>,
    fewer: nat,
    count: nat,
    parent: Dimensions,
    viewport: SimpleDimensions,
)
    requires
        fewer <= count <= children.len(),
        BoxModel::stacked(children, count, parent, viewport) is Some,
    ensures
        BoxModel::stacked(children, fewer, parent, viewport) is Some,
        BoxModel::stacked(children, fewer, parent, viewport).unwrap().boxes
            == BoxModel::stacked(children, count, parent, viewport).unwrap().boxes.take(
            fewer as int,
        ),
        BoxModel::stacked(children, count, parent, viewport).unwrap().boxes.len() == count,
    decreases count,
{
    let all = BoxModel::stacked(children, count, parent, viewport).unwrap();
    lemma_stack_shape(children, count, parent, viewport);
    if fewer < count {
        lemma_stack_prefix(children, fewer, (count - 1) as nat, parent, viewport);
        let most = BoxModel::stacked(children, (count - 1) as nat, parent, viewport).unwrap();
        lemma_stack_shape(children, (count - 1) as nat, parent, viewport);
        assert(most.boxes.take(fewer as int) =~= all.boxes.take(fewer as int));
    } else {
        assert(all.boxes.take(count as int) =~= all.boxes);
    }
}

/// The height that the first `count` children give their parent, where
/// they can be laid out.
pub open spec fn height_after<'a>(
    children: Seq<BoxModel<'a>>,
    count: nat,
    parent: Dimensions,
    viewport: SimpleDimensions,
) -> int {
    BoxModel::stacked(children, count, parent, viewport).unwrap().height as int
}

/// Where a block child stands, and what each child adds.
///
/// The margin box of a block child begins where the content area of its
/// parent begins, moved down by the height that the children before it
/// gave the parent. Each child adds the height of its margin box to that
/// height.
pub proof fn lemma_child_position<'a>(
    children: Seq<BoxModel<'a>>,
    count: nat,
    parent: Dimensions,
    viewport: SimpleDimensions,
    i: int,
)
    requires
        0 <= i < count <= children.len(),
        BoxModel::stacked(children, count, parent, viewport) is Some,
    ensures
        BoxModel::stacked(children, i as nat, parent, viewport) is Some,
        BoxModel::stacked(children, (i + 1) as nat, parent, viewport) is Some,
        height_after(children, (i + 1) as nat, parent, viewport) == height_after(
            children,
            i as nat,
            parent,
            viewport,
        ) + BoxModel::stacked(children, count, parent, viewport).unwrap().boxes[i].dimensions.margin_box_height(),
        children[i].box_type is BlockNode ==> BoxModel::stacked(
            children,
            count,
            parent,
            viewport,
        ).unwrap().boxes[i].dimensions.margin_box_top() == parent.content.y + height_after(
            children,
            i as nat,
            parent,
            viewport,
        ),
{
    lemma_stack_prefix(children, i as nat, count, parent, viewport);
    lemma_stack_prefix(children, (i + 1) as nat, count, parent, viewport);
    let all = BoxModel::stacked(children, count, parent, viewport).unwrap();
    let upto = BoxModel::stacked(children, (i + 1) as nat, parent, viewport).unwrap();
    let before = BoxModel::stacked(children, i as nat, parent, viewport).unwrap();
    assert(upto.boxes[i] == all.boxes[i]);
    let child = children[i].laid_out(with_height(parent, before.height), viewport).unwrap();
    assert(upto.boxes == before.boxes.push(child));
    lemma_stack_shape(children, i as nat, parent, viewport);
    assert(upto.boxes[i] == child);
}

/// Stacking: of two block children that follow one another, the margin box
/// of the second begins exactly where that of the first ends. Where both
/// have the same margin, border and padding at the top, the content area
/// of the second therefore begins one margin-box height of the first below
/// the content area of the first.
pub proof fn lemma_children_stack<'a>(
    b: BoxModel<'a>,
    containing: Dimensions,
    viewport: SimpleDimensions,
    i: int,
)
    requires
        b.box_type is BlockNode,
        b.laid_out(containing, viewport) is Some,
        0 <= i,
        i + 1 < b.children.len(),
        b.children[i].box_type is BlockNode,
        b.children[i + 1].box_type is BlockNode,
    ensures
        b.laid_out(containing, viewport).unwrap().children.len() == b.children.len(),
        ({
            let first = b.laid_out(containing, viewport).unwrap().children[i].dimensions;
            let second = b.laid_out(containing, viewport).unwrap().children[i + 1].dimensions;
            &&& second.margin_box_top() == first.margin_box_top() + first.margin_box_height()
            &&& second.margin.top + second.border.top + second.padding.top == first.margin.top
                + first.border.top + first.padding.top ==> second.content.y == first.content.y
                + first.margin_box_height()
        }),
{
    let frame = block_frame(b.box_type->BlockNode_0, b.dimensions, containing, viewport).unwrap();
    let count = b.children.len();
    lemma_stack_shape(b.children, count, frame, viewport);
    lemma_child_position(b.children, count, frame, viewport, i);
    lemma_child_position(b.children, count, frame, viewport, i + 1);
}

/// What the children from `from` up to `to` add to the height of their
/// parent is not negative where none of their margin boxes has a negative
/// height.
pub proof fn lemma_height_grows<'a>(
    children: Seq<BoxModel<'a>>,
    count: nat,
    parent: Dimensions,
    viewport: SimpleDimensions,
    from: int,
    to: int,
)
    requires
        0 <= from <= to <= count <= children.len(),
        BoxModel::stacked(children, count, parent, viewport) is Some,
        forall|k: int|
            from <= k < to ==> (#[trigger] BoxModel::stacked(
                children,
                count,
                parent,
                viewport,
            ).unwrap().boxes[k]).dimensions.margin_box_height() >= 0,
    ensures
        BoxModel::stacked(children, from as nat, parent, viewport) is Some,
        BoxModel::stacked(children, to as nat, parent, viewport) is Some,
        height_after(children, from as nat, parent, viewport) <= height_after(
            children,
            to as nat,
            parent,
            viewport,
        ),
    decreases to - from,
{
    lemma_stack_prefix(children, from as nat, count, parent, viewport);
    lemma_stack_prefix(children, to as nat, count, parent, viewport);
    if from < to {
        lemma_height_grows(children, count, parent, viewport, from, to - 1);
        lemma_child_position(children, count, parent, viewport, to - 1);
    }
}

/// No overlap: of two block children, the margin box of the later one
/// begins at or below the end of the margin box of the earlier one, where
/// no margin box between the two has a negative height.
pub proof fn lemma_siblings_do_not_overlap<'a>(
    b: BoxModel<'a>,
    containing: Dimensions,
    viewport: SimpleDimensions,
    i: int,
    j: int,
)
    requires
        b.box_type is BlockNode,
        b.laid_out(containing, viewport) is Some,
        0 <= i < j < b.children.len(),
        b.children[i].box_type is BlockNode,
        b.children[j].box_type is BlockNode,
        forall|k: int|
            i < k < j ==> (#[trigger] b.laid_out(
                containing,
                viewport,
            ).unwrap().children[k]).dimensions.margin_box_height() >= 0,
    ensures
        b.laid_out(containing, viewport).unwrap().children.len() == b.children.len(),
        ({
            let earlier = b.laid_out(containing, viewport).unwrap().children[i].dimensions;
            let later = b.laid_out(containing, viewport).unwrap().children[j].dimensions;
            later.margin_box_top() >= earlier.margin_box_top() + earlier.margin_box_height()
        }),
{
    let frame = block_frame(b.box_type->BlockNode_0, b.dimensions, containing, viewport).unwrap();
    let count = b.children.len();
    lemma_stack_shape(b.children, count, frame, viewport);
    lemma_child_position(b.children, count, frame, viewport, i);
    lemma_child_position(b.children, count, frame, viewport, j);
    lemma_height_grows(b.children, count, frame, viewport, i + 1, j);
}

/// Height: a block that declares a height has it after layout, whatever its
/// children. A block that declares none and has no children keeps the
/// content height it came with, which is zero for a box as it was built.
pub proof fn lemma_block_height<'a>(
    b: BoxModel<'a>,
    containing: Dimensions,
    viewport: SimpleDimensions,
)
    requires
        b.box_type is BlockNode,
        b.laid_out(containing, viewport) is Some,
    ensures
        declared_height(b.box_type->BlockNode_0) matches Some(height) ==> b.laid_out(
            containing,
            viewport,
        ).unwrap().dimensions.content.height == height,
        declared_height(b.box_type->BlockNode_0) is None && b.children.len() == 0 ==> b.laid_out(
            containing,
            viewport,
        ).unwrap().dimensions.content.height == b.dimensions.content.height,
        declared_height(b.box_type->BlockNode_0) is None && b.children.len() == 0
            && b.is_unplaced() ==> b.laid_out(
            containing,
            viewport,
        ).unwrap().dimensions.content.height == 0,
{
}

/// Layout keeps the numbers of a tree within the range of geometry.
pub proof fn lemma_layout_in_range<'a>(
    b: BoxModel<'a>,
    containing: Dimensions,
    viewport: SimpleDimensions,
)
    requires
        b.in_range(),
        b.laid_out(containing, viewport) is Some,
    ensures
        b.laid_out(containing, viewport).unwrap().in_range(),
    decreases b, b.children.len() + 1,
{
    if b.box_type is BlockNode {
        let frame = block_frame(b.box_type->BlockNode_0, b.dimensions, containing, viewport).unwrap();
        lemma_stack_in_range(b.children, b.children.len(), frame, viewport);
        let laid = b.laid_out(containing, viewport).unwrap();
        assert forall|i: int| 0 <= i < laid.children.len() implies (
        #[trigger] laid.children[i]).in_range() by {}
    }
}

/// Laying out children that are within the range of geometry gives boxes
/// within it.
pub proof fn lemma_stack_in_range<'a>(
    children: Seq<BoxModel<'a>>,
    count: nat,
    parent: Dimensions,
    viewport: SimpleDimensions,
)
    requires
        count <= children.len(),
        forall|i: int| 0 <= i < children.len() ==> (#[trigger] children[i]).in_range(),
        BoxModel::stacked(children, count, parent, viewport) is Some,
    ensures
        forall|i: int|
            0 <= i < BoxModel::stacked(children, count, parent, viewport).unwrap().boxes.len()
                ==> (#[trigger] BoxModel::stacked(
                children,
                count,
                parent,
                viewport,
            ).unwrap().boxes[i]).in_range(),
        crate::layout::geometry::dimensions::in_extent(parent.content.height as int)
            ==> crate::layout::geometry::dimensions::in_extent(
            BoxModel::stacked(children, count, parent, viewport).unwrap().height as int,
        ),
    decreases children, count,
{
    if count > 0 {
        lemma_stack_in_range(children, (count - 1) as nat, parent, viewport);
        let before = BoxModel::stacked(children, (count - 1) as nat, parent, viewport).unwrap();
        lemma_layout_in_range(children[count - 1], with_height(parent, before.height), viewport);
    }
}

} // verus!
