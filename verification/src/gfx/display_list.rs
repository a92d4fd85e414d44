use crate::gfx::colors::Color;
use crate::layout::css::Value;
use crate::layout::geometry::boxes::{lemma_view_children, models, BoxModel, LayoutBox};
use crate::layout::geometry::dimensions::Rect;
use crate::layout::style::StyledNode;
use vstd::prelude::*;

verus! {

/// One drawing step for a renderer.
#[derive(Copy, Clone, PartialEq, Eq, Structural, Debug)]
pub enum DisplayListCommand {
    /// Fill the rectangle with the colour.
    Rect(Color, Rect),
}

/// Drawing steps in the order in which they are to be carried out.
pub type DisplayList = Vec<DisplayListCommand>;

/// The background colour that `style` declares: that of `background-color`,
/// else that of `background`, where that value is a colour; transparent
/// otherwise.
pub open spec fn background_color(style: &StyledNode) -> Color {
    match style.spec_find("background-color"@, "background"@) {
        Some(Value::ColorValue(color)) => color,
        _ => Color { r: 0, g: 0, b: 0, a: 0 },
    }
}

/// What is drawn for the box itself: its padding box, filled with its
/// background colour, where the box has a style whose background is fully
/// opaque; nothing otherwise.
pub open spec fn background_commands<'a>(b: BoxModel<'a>) -> Seq<DisplayListCommand> {
    match b.box_type.style() {
        Some(style) => if background_color(style).a == 255 {
            seq![DisplayListCommand::Rect(background_color(style), b.dimensions.spec_padding_box())]
        } else {
            Seq::empty()
        },
        None => Seq::empty(),
    }
}

/// What is drawn for the tree under `b`: the box itself, then its children
/// with all below them, one after the other.
pub open spec fn display_list<'a>(b: BoxModel<'a>) -> Seq<DisplayListCommand>
    decreases b, b.children.len() + 1,
{
    background_commands(b) + children_display_list(b.children, b.children.len())
}

/// What is drawn for the first `count` boxes of `children`.
pub open spec fn children_display_list<'a>(
    children: Seq<BoxModel<'a>>,
    count: nat,
) -> Seq<DisplayListCommand>
    decreases children, count,
{
    if count == 0 || count > children.len() {
        Seq::empty()
    } else {
        children_display_list(children, (count - 1) as nat) + display_list(children[count - 1])
    }
}

/// Lists what is to be drawn for the laid-out tree under `layout_root`.
pub fn build_display_list(layout_root: &LayoutBox) -> (list: DisplayList)
    requires
        layout_root@.in_range(),
    ensures
        list@ == display_list(layout_root@),
{
    let mut list = Vec::new();
    render_layout_box(&mut list, layout_root);
    list
}

/// Appends to `list` what is to be drawn for the tree under `layout_box`.
pub fn render_layout_box(list: &mut DisplayList, layout_box: &LayoutBox)
    requires
        layout_box@.in_range(),
    ensures
        final(list)@ == old(list)@ + display_list(layout_box@),
    decreases layout_box,
{
    render_background(list, layout_box);
    proof {
        lemma_view_children(layout_box);
    }
    let ghost children = layout_box@.children;
    let ghost own = list@;

    let mut i: usize = 0;
    while i < layout_box.children.len()
        invariant
            i <= layout_box.children@.len(),
            children == models(layout_box.children@),
            children == layout_box@.children,
            layout_box@.in_range(),
            list@ == own + children_display_list(children, i as nat),
        decreases layout_box.children@.len() - i,
    {
        proof {
            assert(children[i as int] == layout_box.children@[i as int]@);
            assert(children[i as int].in_range());
        }
        render_layout_box(list, &layout_box.children[i]);
        i += 1;
    }
}

/// Appends to `list` what is to be drawn for `layout_box` itself.
pub fn render_background(list: &mut DisplayList, layout_box: &LayoutBox)
    requires
        layout_box.dimensions.has_padding_box(),
    ensures
        final(list)@ == old(list)@ + background_commands(layout_box@),
{
    proof {
        lemma_view_children(layout_box);
    }
    if let Some(node) = layout_box.get_style_node_option() {
        let color = match node.lookup(
            "background-color",
            "background",
            &Value::ColorValue(Color::transparent()),
        ) {
            Value::ColorValue(color) => color,
            _ => Color::transparent(),
        };

        // A background that is not fully opaque is not drawn.
        if color.a < 255 {
            return ;
        }
        list.push(DisplayListCommand::Rect(color, layout_box.dimensions.padding_box()));
    }
}

} // verus!
