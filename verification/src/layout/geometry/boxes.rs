use crate::layout::geometry::dimensions::Dimensions;
use crate::layout::style::{DisplayStyle, StyledNode};
use vstd::prelude::*;

verus! {

/// What a box stands for. A block or inline box refers to the styled node
/// it was made for; an anonymous block only groups inline boxes.
#[derive(Copy, Clone)]
pub enum BoxType<'a> {
    BlockNode(&'a StyledNode<'a>),
    InlineNode(&'a StyledNode<'a>),
    AnonymousBlock,
}

/// A box of the layout tree.
pub struct LayoutBox<'a> {
    pub dimensions: Dimensions,
    pub box_type: BoxType<'a>,
    pub children: Vec<LayoutBox<'a>>,
}

/// Why no layout came about.
#[derive(Copy, Clone, PartialEq, Eq, Structural, Debug)]
pub enum LayoutError {
    /// The root node has `display: none`.
    RootNotDisplayed,
    /// A coordinate or extent left the range that geometry can hold.
    OutOfRange,
}

/// The mathematical value of a [`LayoutBox`]: the same tree with its
/// children as a sequence.
pub struct BoxModel<'a> {
    pub dimensions: Dimensions,
    pub box_type: BoxType<'a>,
    pub children: Seq<BoxModel<'a>>,
}

impl<'a> BoxType<'a> {
    /// The styled node behind the box, if it has one.
    pub open spec fn style(self) -> Option<&'a StyledNode<'a>> {
        match self {
            BoxType::BlockNode(node) => Some(node),
            BoxType::InlineNode(node) => Some(node),
            BoxType::AnonymousBlock => None,
        }
    }
}

impl<'a> BoxModel<'a> {
    /// A box of the given type with zero dimensions and no children.
    pub open spec fn empty(box_type: BoxType<'a>) -> BoxModel<'a> {
        BoxModel { dimensions: Dimensions::zero(), box_type, children: Seq::empty() }
    }

    /// Whether every number in the tree is one that geometry can hold.
    pub open spec fn in_range(self) -> bool
        decreases self,
    {
        &&& self.dimensions.in_range()
        &&& forall|i: int|
            0 <= i < self.children.len() ==> (#[trigger] self.children[i]).in_range()
    }

    /// Whether every box of the tree has zero dimensions, as after building.
    pub open spec fn is_unplaced(self) -> bool
        decreases self,
    {
        &&& self.dimensions == Dimensions::zero()
        &&& forall|i: int|
            0 <= i < self.children.len() ==> (#[trigger] self.children[i]).is_unplaced()
    }

    /// This box with one more child at the end.
    pub open spec fn with_child(self, child: BoxModel<'a>) -> BoxModel<'a> {
        BoxModel { children: self.children.push(child), ..self }
    }
}

/// The model of `b`: its dimensions and type, over the models of its
/// children.
pub open spec fn model_of<'a>(b: LayoutBox<'a>) -> BoxModel<'a>
    decreases b,
{
    BoxModel {
        dimensions: b.dimensions,
        box_type: b.box_type,
        children: Seq::new(
            b.children@.len(),
            |i: int|
                if 0 <= i < b.children@.len() {
                    model_of(b.children@[i])
                } else {
                    BoxModel::empty(BoxType::AnonymousBlock)
                },
        ),
    }
}

impl<'a> View for LayoutBox<'a> {
    type V = BoxModel<'a>;

    open spec fn view(&self) -> BoxModel<'a> {
        model_of(*self)
    }
}

/// The models of the boxes in `boxes`, in order.
pub open spec fn models<'a>(boxes: Seq<LayoutBox<'a>>) -> Seq<BoxModel<'a>> {
    Seq::new(boxes.len(), |i: int| boxes[i]@)
}

/// The children of a box's model are the models of its children.
pub proof fn lemma_view_children<'a>(b: &LayoutBox<'a>)
    ensures
        b@.children == models(b.children@),
        b@.dimensions == b.dimensions,
        b@.box_type == b.box_type,
{
    assert(b@.children =~= models(b.children@));
}

/// Appending a box appends its model.
pub proof fn lemma_models_push<'a>(boxes: Seq<LayoutBox<'a>>, b: LayoutBox<'a>)
    ensures
        models(boxes.push(b)) == models(boxes).push(b@),
{
    assert(models(boxes.push(b)) =~= models(boxes).push(b@));
}

/// Replacing a box replaces its model.
pub proof fn lemma_models_update<'a>(boxes: Seq<LayoutBox<'a>>, i: int, b: LayoutBox<'a>)
    requires
        0 <= i < boxes.len(),
    ensures
        models(boxes.update(i, b)) == models(boxes).update(i, b@),
{
    assert(models(boxes.update(i, b)) =~= models(boxes).update(i, b@));
}

/// The type of the box that stands for `node`: block for a block node,
/// inline for any other.
pub open spec fn box_type_for<'a>(node: &'a StyledNode<'a>) -> BoxType<'a> {
    if node.spec_display() == DisplayStyle::Block {
        BoxType::BlockNode(node)
    } else {
        BoxType::InlineNode(node)
    }
}

/// Where an inline box goes among the children built so far of its parent.
///
/// Under a block parent it joins the anonymous block at the end of
/// `siblings`, and where the last sibling is none, a new anonymous block is
/// appended to hold it. Under any other parent it becomes a child itself.
pub open spec fn with_inline<'a>(
    parent: BoxType<'a>,
    siblings: Seq<BoxModel<'a>>,
    inline: BoxModel<'a>,
) -> Seq<BoxModel<'a>> {
    if !(parent is BlockNode) {
        siblings.push(inline)
    } else if siblings.len() > 0 && siblings.last().box_type is AnonymousBlock {
        siblings.update(siblings.len() - 1, siblings.last().with_child(inline))
    } else {
        siblings.push(BoxModel::empty(BoxType::AnonymousBlock).with_child(inline))
    }
}

/// The box tree that stands for the subtree of `node`, which is displayed.
///
/// The tree has zero dimensions throughout. Children with `display: none`
/// have no box, nor has anything below them.
pub open spec fn built<'a>(node: &'a StyledNode<'a>) -> BoxModel<'a>
    recommends
        node.spec_display() != DisplayStyle::Hidden,
    decreases node, node.children@.len() + 1,
{
    BoxModel {
        dimensions: Dimensions::zero(),
        box_type: box_type_for(node),
        children: built_children(node, node.children@.len()),
    }
}

/// The children of the box for `node` once the first `count` children of
/// `node` have been gone through, in document order.
pub open spec fn built_children<'a>(node: &'a StyledNode<'a>, count: nat) -> Seq<BoxModel<'a>>
    decreases node, count,
{
    if count == 0 || count > node.children@.len() {
        Seq::empty()
    } else {
        let before = built_children(node, (count - 1) as nat);
        let child = &node.children@[count - 1];
        match child.spec_display() {
            DisplayStyle::Hidden => before,
            DisplayStyle::Block => before.push(built(child)),
            DisplayStyle::Inline => with_inline(box_type_for(node), before, built(child)),
        }
    }
}

/// Whether `b` is an anonymous block that holds inline boxes only, and at
/// least one.
pub open spec fn groups_inlines<'a>(b: BoxModel<'a>) -> bool {
    &&& b.box_type is AnonymousBlock
    &&& b.children.len() > 0
    &&& forall|j: int| 0 <= j < b.children.len() ==> (#[trigger] b.children[j]).box_type is InlineNode
}

/// Whether `children` keep blocks and inline boxes apart: each is a block
/// or an anonymous block that groups inline boxes, and no two anonymous
/// blocks follow one another.
pub open spec fn keeps_inlines_apart<'a>(children: Seq<BoxModel<'a>>) -> bool {
    &&& forall|i: int|
        0 <= i < children.len() ==> (#[trigger] children[i]).box_type is BlockNode
            || groups_inlines(children[i])
    &&& forall|i: int|
        0 <= i < children.len() - 1 ==> !((#[trigger] children[i]).box_type is AnonymousBlock
            && children[i + 1].box_type is AnonymousBlock)
}

/// Grouping: the children of the box built for a block node are blocks and
/// anonymous blocks. Inline boxes that follow one another share one
/// anonymous block, so that no two anonymous blocks are neighbours.
pub proof fn lemma_block_keeps_inlines_apart<'a>(node: &'a StyledNode<'a>, count: nat)
    requires
        node.spec_display() == DisplayStyle::Block,
        count <= node.children@.len(),
    ensures
        keeps_inlines_apart(built_children(node, count)),
    decreases count,
{
    if count > 0 {
        lemma_block_keeps_inlines_apart(node, (count - 1) as nat);
        let before = built_children(node, (count - 1) as nat);
        let after = built_children(node, count);
        let child = &node.children@[count - 1];
        match child.spec_display() {
            DisplayStyle::Hidden => {},
            DisplayStyle::Block => {
                assert forall|i: int| 0 <= i < after.len() implies (#[trigger] after[i]).box_type is BlockNode
                    || groups_inlines(after[i]) by {
                    if i < before.len() {
                        assert(after[i] == before[i]);
                    }
                }
                assert forall|i: int| 0 <= i < after.len() - 1 implies !((
                #[trigger] after[i]).box_type is AnonymousBlock && after[i
                    + 1].box_type is AnonymousBlock) by {
                    if i + 1 < before.len() {
                        assert(after[i] == before[i]);
                        assert(after[i + 1] == before[i + 1]);
                    }
                }
            },
            DisplayStyle::Inline => {
                let inline = built(child);
                if before.len() > 0 && before.last().box_type is AnonymousBlock {
                    let last = before.len() - 1;
                    let joined = before.last().with_child(inline);
                    assert(groups_inlines(before[last]));
                    assert(groups_inlines(joined)) by {
                        assert forall|j: int| 0 <= j < joined.children.len() implies (
                        #[trigger] joined.children[j]).box_type is InlineNode by {
                            if j < before[last].children.len() {
                                assert(joined.children[j] == before[last].children[j]);
                            }
                        }
                    }
                    assert forall|i: int| 0 <= i < after.len() implies (
                    #[trigger] after[i]).box_type is BlockNode || groups_inlines(after[i]) by {
                        if i < last {
                            assert(after[i] == before[i]);
                        }
                    }
                    assert forall|i: int| 0 <= i < after.len() - 1 implies !((
                    #[trigger] after[i]).box_type is AnonymousBlock && after[i
                        + 1].box_type is AnonymousBlock) by {
                        assert(after[i] == before[i]);
                        if i + 1 < last {
                            assert(after[i + 1] == before[i + 1]);
                        }
                    }
                } else {
                    let wrapper = BoxModel::empty(BoxType::AnonymousBlock).with_child(inline);
                    assert(groups_inlines(wrapper));
                    assert forall|i: int| 0 <= i < after.len() implies (
                    #[trigger] after[i]).box_type is BlockNode || groups_inlines(after[i]) by {
                        if i < before.len() {
                            assert(after[i] == before[i]);
                        }
                    }
                    assert forall|i: int| 0 <= i < after.len() - 1 implies !((
                    #[trigger] after[i]).box_type is AnonymousBlock && after[i
                        + 1].box_type is AnonymousBlock) by {
                        assert(after[i] == before[i]);
                        if i + 1 < before.len() {
                            assert(after[i + 1] == before[i + 1]);
                        }
                    }
                }
            },
        }
    }
}

/// Grouping, for the whole box: the box built for a block node keeps blocks
/// and inline boxes apart among its children.
pub proof fn lemma_built_block_groups_inlines<'a>(node: &'a StyledNode<'a>)
    requires
        node.spec_display() == DisplayStyle::Block,
    ensures
        built(node).box_type is BlockNode,
        keeps_inlines_apart(built(node).children),
{
    lemma_block_keeps_inlines_apart(node, node.children@.len() as nat);
}

/// A tree of zero dimensions holds only numbers that geometry can hold.
pub proof fn lemma_unplaced_in_range<'a>(m: BoxModel<'a>)
    requires
        m.is_unplaced(),
    ensures
        m.in_range(),
    decreases m,
{
    assert forall|i: int| 0 <= i < m.children.len() implies (#[trigger] m.children[i]).in_range() by {
        lemma_unplaced_in_range(m.children[i]);
    }
}

/// Building gives every box zero dimensions.
pub proof fn lemma_built_unplaced<'a>(node: &'a StyledNode<'a>)
    ensures
        built(node).is_unplaced(),
    decreases node, node.children@.len() + 1,
{
    lemma_built_children_unplaced(node, node.children@.len());
    assert forall|i: int| 0 <= i < built(node).children.len() implies (#[trigger] built(
        node,
    ).children[i]).is_unplaced() by {
        assert(built(node).children[i] == built_children(node, node.children@.len())[i]);
    }
}

/// Building gives every child box zero dimensions, and all below it.
pub proof fn lemma_built_children_unplaced<'a>(node: &'a StyledNode<'a>, count: nat)
    requires
        count <= node.children@.len(),
    ensures
        forall|i: int|
            0 <= i < built_children(node, count).len() ==> (#[trigger] built_children(
                node,
                count,
            )[i]).is_unplaced(),
    decreases node, count,
{
    if count > 0 {
        lemma_built_children_unplaced(node, (count - 1) as nat);
        let before = built_children(node, (count - 1) as nat);
        let child = &node.children@[count - 1];
        if child.spec_display() != DisplayStyle::Hidden {
            lemma_built_unplaced(child);
            let wrapper = BoxModel::empty(BoxType::AnonymousBlock).with_child(built(child));
            assert(wrapper.is_unplaced()) by {
                assert forall|i: int| 0 <= i < wrapper.children.len() implies (
                #[trigger] wrapper.children[i]).is_unplaced() by {}
            }
            if before.len() > 0 {
                let joined = before.last().with_child(built(child));
                assert(joined.is_unplaced()) by {
                    assert forall|i: int| 0 <= i < joined.children.len() implies (
                    #[trigger] joined.children[i]).is_unplaced() by {
                        if i < before.last().children.len() {
                            assert(joined.children[i] == before.last().children[i]);
                        }
                    }
                }
            }
        }
    }
}

impl<'a> LayoutBox<'a> {
    /// A box of the given type with zero dimensions and no children.
    pub fn new(box_type: BoxType<'a>) -> (b: Self)
        ensures
            b@ == BoxModel::empty(box_type),
            b.children@.len() == 0,
            b.dimensions == Dimensions::zero(),
            b.box_type == box_type,
    {
        let b = LayoutBox { dimensions: Dimensions::default(), box_type, children: Vec::new() };
        proof {
            lemma_view_children(&b);
            assert(b@.children =~= Seq::empty());
        }
        b
    }

    /// The box that takes the inline children of this box: the box itself
    /// unless it is a block, else the anonymous block at the end of its
    /// children, which is appended where the last child is none.
    pub fn get_inline_container(&mut self) -> (container: &mut LayoutBox<'a>)
        ensures
            old(self).box_type is BlockNode ==> {
                &&& final(self).dimensions == old(self).dimensions
                &&& final(self).box_type == old(self).box_type
            },
            !(old(self).box_type is BlockNode) ==> {
                &&& *container == *old(self)
                &&& *final(self) == *final(container)
            },
            old(self).box_type is BlockNode && old(self).children@.len() > 0 && old(
                self,
            ).children@.last().box_type is AnonymousBlock ==> {
                &&& *container == old(self).children@.last()
                &&& final(self).children@ == old(self).children@.update(
                    old(self).children@.len() - 1,
                    *final(container),
                )
            },
            old(self).box_type is BlockNode && !(old(self).children@.len() > 0 && old(
                self,
            ).children@.last().box_type is AnonymousBlock) ==> {
                &&& container@ == BoxModel::empty(BoxType::AnonymousBlock)
                &&& final(self).children@ == old(self).children@.push(*final(container))
            },
    {
        match self.box_type {
            BoxType::InlineNode(_) | BoxType::AnonymousBlock => self,
            BoxType::BlockNode(_) => {
                // Keep using an anonymous block that was just made;
                // otherwise make a new one.
                let count = self.children.len();
                let reuse = count > 0 && match self.children[count - 1].box_type {
                    BoxType::AnonymousBlock => true,
                    _ => false,
                };
                if !reuse {
                    self.children.push(LayoutBox::new(BoxType::AnonymousBlock));
                }
                let last = self.children.len() - 1;
                &mut self.children[last]
            },
        }
    }

    /// Tests whether every number in the tree is one that geometry can
    /// hold.
    pub fn fits(&self) -> (r: bool)
        ensures
            r == self@.in_range(),
        decreases self,
    {
        proof {
            lemma_view_children(self);
        }
        if !self.dimensions.fits() {
            return false;
        }
        let mut i: usize = 0;
        while i < self.children.len()
            invariant
                i <= self.children@.len(),
                self@.children == models(self.children@),
                self@.dimensions.in_range(),
                forall|j: int| 0 <= j < i ==> (#[trigger] self@.children[j]).in_range(),
            decreases self.children@.len() - i,
        {
            if !self.children[i].fits() {
                assert(!self@.children[i as int].in_range());
                return false;
            }
            i += 1;
        }
        true
    }

    /// The styled node behind a block or inline box.
    pub fn get_style_node(&self) -> (node: &'a StyledNode<'a>)
        requires
            !(self.box_type is AnonymousBlock),
        ensures
            self.box_type.style() == Some(node),
    {
        match self.box_type {
            BoxType::BlockNode(node) => node,
            BoxType::InlineNode(node) => node,
            BoxType::AnonymousBlock => {
                // An anonymous block has no style node; the precondition
                // rules it out.
                vstd::pervasive::unreached()
            },
        }
    }

    /// The styled node behind the box, or `None` for an anonymous block.
    pub fn get_style_node_option(&self) -> (node: Option<&'a StyledNode<'a>>)
        ensures
            node == self.box_type.style(),
    {
        match self.box_type {
            BoxType::BlockNode(node) => Some(node),
            BoxType::InlineNode(node) => Some(node),
            BoxType::AnonymousBlock => None,
        }
    }
}

/// Builds the tree of boxes for the styled tree under `style_node`, without
/// any layout: every box has zero dimensions.
///
/// A root with `display: none` has no box tree.
pub fn build_geometry_tree<'a>(style_node: &'a StyledNode<'a>) -> (r: Result<
    LayoutBox<'a>,
    LayoutError,
>)
    ensures
        match r {
            Ok(root) => {
                &&& style_node.spec_display() != DisplayStyle::Hidden
                &&& root@ == built(style_node)
                &&& root@.is_unplaced()
                &&& root@.in_range()
            },
            Err(e) => {
                &&& style_node.spec_display() == DisplayStyle::Hidden
                &&& e == LayoutError::RootNotDisplayed
            },
        },
{
    match style_node.display() {
        DisplayStyle::Hidden => Err(LayoutError::RootNotDisplayed),
        _ => Ok(build_displayed(style_node)),
    }
}

/// Builds the tree of boxes for a node that is displayed.
pub fn build_displayed<'a>(style_node: &'a StyledNode<'a>) -> (root: LayoutBox<'a>)
    requires
        style_node.spec_display() != DisplayStyle::Hidden,
    ensures
        root@ == built(style_node),
        root@.is_unplaced(),
        root@.in_range(),
    decreases style_node,
{
    // Create the root box.
    let mut root = LayoutBox::new(
        match style_node.display() {
            DisplayStyle::Block => BoxType::BlockNode(style_node),
            _ => BoxType::InlineNode(style_node),
        },
    );

    // Create the descendant boxes.
    let mut i: usize = 0;
    while i < style_node.children.len()
        invariant
            i <= style_node.children@.len(),
            root.dimensions == Dimensions::zero(),
            root.box_type == box_type_for(style_node),
            models(root.children@) == built_children(style_node, i as nat),
        decreases style_node.children@.len() - i,
    {
        let child = &style_node.children[i];
        let ghost siblings = root.children@;
        match child.display() {
            DisplayStyle::Block => {
                let child_box = build_displayed(child);
                root.children.push(child_box);
                proof {
                    lemma_models_push(siblings, child_box);
                }
            },
            DisplayStyle::Inline => {
                let child_box = build_displayed(child);
                let container = root.get_inline_container();
                let ghost taken = *container;
                container.children.push(child_box);
                proof {
                    let grown = *container;
                    lemma_view_children(&taken);
                    lemma_view_children(&grown);
                    lemma_models_push(taken.children@, child_box);
                    assert(grown@ == taken@.with_child(child_box@));
                    if !(root.box_type is BlockNode) {
                        lemma_models_push(siblings, child_box);
                    } else if siblings.len() > 0 && siblings.last().box_type is AnonymousBlock {
                        lemma_models_update(siblings, siblings.len() - 1, grown);
                    } else {
                        lemma_models_push(siblings, grown);
                    }
                }
            },
            DisplayStyle::Hidden => {
                // Nodes with `display: none` get no box.
            },
        }
        i += 1;
    }
    proof {
        lemma_view_children(&root);
        lemma_built_unplaced(style_node);
        lemma_unplaced_in_range(built(style_node));
    }
    root
}

} // verus!
