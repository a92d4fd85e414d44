//! The box tree and the block layout that sizes and places its boxes.

pub mod block;
pub mod boxes;
pub mod dimensions;
pub mod laws;
pub mod width;

pub use crate::layout::geometry::boxes::{
    build_geometry_tree, BoxModel, BoxType, LayoutBox, LayoutError,
};
pub use crate::layout::geometry::dimensions::{
    Dimensions, EdgeSizes, Rect, SimpleDimensions, MAX_EXTENT,
};

use crate::layout::geometry::block::with_height;
use crate::layout::geometry::boxes::{built, lemma_view_children};
use crate::layout::style::{DisplayStyle, StyledNode};
use vstd::prelude::*;

verus! {

/// The size of the viewport that `containing_block` stands for: the width
/// and height of its content area.
pub open spec fn viewport_of(containing_block: Dimensions) -> SimpleDimensions {
    SimpleDimensions {
        width: containing_block.content.width,
        height: containing_block.content.height,
    }
}

/// The layout of the styled tree under `node` in the viewport whose area is
/// the content area of `containing_block`.
///
/// The tree of boxes is built and laid out in the viewport, which holds
/// nothing yet: its content height counts as zero. The root box then takes
/// the height of the viewport, whatever the height of what it holds.
///
/// There is no layout where the root has `display: none`. Otherwise there is
/// none where the viewport or a number of the layout leaves the range of
/// geometry.
pub open spec fn layout_of<'a>(node: &'a StyledNode<'a>, containing_block: Dimensions) -> Result<
    BoxModel<'a>,
    LayoutError,
> {
    if node.spec_display() == DisplayStyle::Hidden {
        Err(LayoutError::RootNotDisplayed)
    } else if !containing_block.content.in_range() {
        Err(LayoutError::OutOfRange)
    } else {
        match built(node).laid_out(
            with_height(containing_block, 0),
            viewport_of(containing_block),
        ) {
            Some(root) => Ok(
                BoxModel {
                    dimensions: with_height(root.dimensions, containing_block.content.height),
                    ..root
                },
            ),
            None => Err(LayoutError::OutOfRange),
        }
    }
}

/// Builds the box tree of the styled tree under `node` and lays it out in
/// the viewport whose area is the content area of `containing_block`.
pub fn layout_geometry_tree<'a>(node: &'a StyledNode<'a>, containing_block: Dimensions) -> (r:
    Result<LayoutBox<'a>, LayoutError>)
    ensures
        match r {
            Ok(root) => layout_of(node, containing_block) == Ok::<BoxModel<'a>, LayoutError>(root@),
            Err(e) => layout_of(node, containing_block) == Err::<BoxModel<'a>, LayoutError>(e),
        },
        r matches Ok(root) ==> root@.in_range(),
{
    let mut root_box = match build_geometry_tree(node) {
        Ok(root_box) => root_box,
        Err(e) => {
            return Err(e);
        },
    };
    if !containing_block.content.fits() {
        return Err(LayoutError::OutOfRange);
    }
    // The layout algorithm expects the container height to start at 0.
    let viewport = SimpleDimensions::from_dimension(containing_block.content);
    let mut containing_block = containing_block;
    containing_block.content.height = 0;
    match root_box.layout(containing_block, &viewport) {
        Ok(()) => {},
        Err(e) => {
            return Err(e);
        },
    }
    let ghost laid = root_box;
    root_box.dimensions.content.height = viewport.height;
    proof {
        lemma_view_children(&laid);
        lemma_view_children(&root_box);
        assert(laid@.in_range());
        assert forall|i: int| 0 <= i < root_box@.children.len() implies (
        #[trigger] root_box@.children[i]).in_range() by {
            assert(root_box@.children[i] == laid@.children[i]);
        }
    }
    Ok(root_box)
}

} // verus!
