use noord::layout::css::{Unit, Value};
use noord::layout::dom::{elem, AttrMap, Node};
use noord::layout::geometry::{
    build_geometry_tree, layout_geometry_tree, BoxType, Dimensions, LayoutBox, LayoutError, Rect,
};
use noord::layout::style::{StylePropertyMap, StyledNode};

fn div() -> Node {
    elem(String::from("div"), AttrMap::new(), Vec::new())
}

fn px(n: i32) -> Value {
    Value::Length(n, Unit::Px)
}

fn keyword(word: &str) -> Value {
    Value::Keyword(String::from(word))
}

fn styled<'a>(
    node: &'a Node,
    values: Vec<(&str, Value)>,
    children: Vec<StyledNode<'a>>,
) -> StyledNode<'a> {
    let mut map = StylePropertyMap::new();
    for (name, value) in values {
        map.insert(String::from(name), value);
    }
    StyledNode { values: map, node, children }
}

fn viewport(width: i64, height: i64) -> Dimensions {
    Dimensions::new(Rect { x: 0, y: 0, width, height })
}

fn is_block(b: &LayoutBox) -> bool {
    matches!(b.box_type, BoxType::BlockNode(_))
}

fn is_inline(b: &LayoutBox) -> bool {
    matches!(b.box_type, BoxType::InlineNode(_))
}

fn is_anonymous(b: &LayoutBox) -> bool {
    matches!(b.box_type, BoxType::AnonymousBlock)
}

#[test]
fn end_to_end_two_block_children() {
    let node = div();
    let first = styled(&node, vec![("display", keyword("block")), ("height", px(100))], vec![]);
    let second = styled(&node, vec![("display", keyword("block"))], vec![]);
    let root = styled(&node, vec![("display", keyword("block"))], vec![first, second]);

    let laid = layout_geometry_tree(&root, viewport(800, 600)).unwrap();

    assert_eq!(laid.dimensions.content.width, 800);
    assert_eq!(laid.children.len(), 2);
    assert_eq!(
        laid.children[0].dimensions.content,
        Rect { x: 0, y: 0, width: 800, height: 100 }
    );
    assert_eq!(
        laid.children[1].dimensions.content,
        Rect { x: 0, y: 100, width: 800, height: 0 }
    );
    // The root reports the viewport's height, not the 100 of its children.
    assert_eq!(laid.dimensions.content.height, 600);
    assert_eq!(laid.dimensions.content.x, 0);
    assert_eq!(laid.dimensions.content.y, 0);
}

#[test]
fn hidden_middle_child_leaves_no_gap() {
    let node = div();
    let first = styled(&node, vec![("display", keyword("block")), ("height", px(40))], vec![]);
    let hidden = styled(&node, vec![("display", keyword("none")), ("height", px(70))], vec![]);
    let last = styled(&node, vec![("display", keyword("block")), ("height", px(10))], vec![]);
    let root = styled(&node, vec![("display", keyword("block"))], vec![first, hidden, last]);

    let built = build_geometry_tree(&root).unwrap();
    assert_eq!(built.children.len(), 2);

    let laid = layout_geometry_tree(&root, viewport(800, 600)).unwrap();
    assert_eq!(laid.children.len(), 2);
    assert_eq!(laid.children[0].dimensions.content.y, 0);
    assert_eq!(laid.children[0].dimensions.content.height, 40);
    assert_eq!(laid.children[1].dimensions.content.y, 40);
    assert_eq!(laid.children[1].dimensions.content.height, 10);
}

#[test]
fn consecutive_inline_children_share_an_anonymous_block() {
    let node = div();
    let a = styled(&node, vec![("display", keyword("inline"))], vec![]);
    let b = styled(&node, vec![], vec![]);
    let c = styled(&node, vec![("display", keyword("block"))], vec![]);
    let d = styled(&node, vec![("display", keyword("inline"))], vec![]);
    let root = styled(&node, vec![("display", keyword("block"))], vec![a, b, c, d]);

    let built = build_geometry_tree(&root).unwrap();

    assert!(is_block(&built));
    assert_eq!(built.children.len(), 3);
    assert!(is_anonymous(&built.children[0]));
    assert_eq!(built.children[0].children.len(), 2);
    assert!(is_inline(&built.children[0].children[0]));
    assert!(is_inline(&built.children[0].children[1]));
    assert!(is_block(&built.children[1]));
    assert!(is_anonymous(&built.children[2]));
    assert_eq!(built.children[2].children.len(), 1);
    assert!(is_inline(&built.children[2].children[0]));
}

#[test]
fn hidden_root_has_no_layout() {
    let node = div();
    let root = styled(&node, vec![("display", keyword("none"))], vec![]);
    assert!(matches!(build_geometry_tree(&root), Err(LayoutError::RootNotDisplayed)));
    assert!(matches!(
        layout_geometry_tree(&root, viewport(800, 600)),
        Err(LayoutError::RootNotDisplayed)
    ));
}
