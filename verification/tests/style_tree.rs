use noord::gfx::colors::Color;
use noord::layout::css::{Unit, Value};
use noord::layout::dom::{document, elem, text, AttrMap, ElementData, Node, NodeType};
use noord::layout::style::{
    create_styletree, styleable, DisplayStyle, StylePropertyMap, StyledNode,
};

fn plain(tag: &str, children: Vec<Node>) -> Node {
    elem(String::from(tag), AttrMap::new(), children)
}

fn styled<'a>(node: &'a Node, values: Vec<(&str, Value)>) -> StyledNode<'a> {
    let mut map = StylePropertyMap::new();
    for (name, value) in values {
        map.insert(String::from(name), value);
    }
    StyledNode { values: map, node, children: Vec::new() }
}

fn keyword(word: &str) -> Value {
    Value::Keyword(String::from(word))
}

fn same(a: &Value, b: &Value) -> bool {
    match (a, b) {
        (Value::Keyword(x), Value::Keyword(y)) => x == y,
        (Value::Length(x, Unit::Px), Value::Length(y, Unit::Px)) => x == y,
        (Value::ColorValue(x), Value::ColorValue(y)) => x == y,
        _ => false,
    }
}

#[test]
fn value_is_the_specified_value() {
    let node = plain("p", Vec::new());
    let s = styled(&node, vec![("width", Value::Length(12, Unit::Px))]);
    assert!(same(&s.value("width").unwrap(), &Value::Length(12, Unit::Px)));
    assert!(s.value("height").is_none());
    assert!(s.value("").is_none());
}

#[test]
fn lookup_falls_back_to_the_shorthand_and_the_default() {
    let node = plain("p", Vec::new());
    let zero = Value::Length(0, Unit::Px);
    let s = styled(
        &node,
        vec![
            ("margin", Value::Length(4, Unit::Px)),
            ("margin-left", Value::Length(9, Unit::Px)),
        ],
    );
    assert!(same(&s.lookup("margin-left", "margin", &zero), &Value::Length(9, Unit::Px)));
    assert!(same(&s.lookup("margin-right", "margin", &zero), &Value::Length(4, Unit::Px)));
    assert!(same(&s.lookup("padding-left", "padding", &zero), &zero));
    let red = Value::ColorValue(Color::new_alpha(255, 0, 0, 255));
    assert!(same(&s.lookup("color", "colour", &red), &red));
}

#[test]
fn display_defaults_to_inline() {
    let node = plain("p", Vec::new());
    assert_eq!(styled(&node, vec![]).display(), DisplayStyle::Inline);
    assert_eq!(styled(&node, vec![("display", keyword("block"))]).display(), DisplayStyle::Block);
    assert_eq!(styled(&node, vec![("display", keyword("none"))]).display(), DisplayStyle::Hidden);
    assert_eq!(
        styled(&node, vec![("display", keyword("inline"))]).display(),
        DisplayStyle::Inline
    );
    assert_eq!(
        styled(&node, vec![("display", keyword("flex"))]).display(),
        DisplayStyle::Inline
    );
    assert_eq!(
        styled(&node, vec![("display", Value::Length(1, Unit::Px))]).display(),
        DisplayStyle::Inline
    );
}

#[test]
fn value_helpers() {
    assert!(Value::auto().is_auto_keyword());
    assert!(keyword("auto").is_auto_keyword());
    assert!(!keyword("Auto").is_auto_keyword());
    assert!(!Value::Length(0, Unit::Px).is_auto_keyword());
    assert_eq!(Value::Length(35, Unit::Px).to_px(800), 35);
    assert_eq!(Value::Length(-35, Unit::Px).to_px(0), -35);
    assert_eq!(keyword("auto").to_px(800), 0);
    assert_eq!(Value::ColorValue(Color::black()).to_px(800), 0);
    assert!(same(&keyword("x").clone(), &keyword("x")));
    assert!(same(&Value::Length(3, Unit::Px).clone(), &Value::Length(3, Unit::Px)));
}

fn values_by_tag(data: &ElementData) -> StylePropertyMap {
    let mut map = StylePropertyMap::new();
    map.insert(String::from("tag"), Value::Keyword(data.tag_name.clone()));
    if data.tag_name == "div" {
        map.insert(String::from("display"), Value::Keyword(String::from("block")));
    }
    map
}

#[test]
fn style_tree_mirrors_the_element_tree() {
    let dom = plain(
        "div",
        vec![plain("p", vec![text(String::from("hi"))]), plain("div", Vec::new())],
    );
    assert!(styleable(&dom));
    let tree = create_styletree(&dom, &values_by_tag);

    assert!(std::ptr::eq(tree.node, &dom));
    assert_eq!(tree.display(), DisplayStyle::Block);
    assert_eq!(tree.values.len(), 2);
    assert_eq!(tree.children.len(), 2);

    let p = &tree.children[0];
    assert!(std::ptr::eq(p.node, &dom.children[0]));
    assert!(same(&p.value("tag").unwrap(), &keyword("p")));
    assert_eq!(p.display(), DisplayStyle::Inline);
    assert_eq!(p.children.len(), 1);
    // A text node has no values.
    assert!(p.children[0].values.is_empty());
    assert!(matches!(p.children[0].node.node_type, NodeType::Text(_)));

    assert_eq!(tree.children[1].display(), DisplayStyle::Block);
    assert!(tree.children[1].children.is_empty());
}

#[test]
fn style_tree_of_a_document_starts_at_the_body() {
    let body = plain("body", vec![plain("div", Vec::new())]);
    let html = plain("html", vec![plain("head", Vec::new()), body]);
    let dom = document(vec![html]);
    assert!(styleable(&dom));
    let tree = create_styletree(&dom, &values_by_tag);

    assert!(std::ptr::eq(tree.node, &dom.children[0].children[1]));
    assert!(same(&tree.value("tag").unwrap(), &keyword("body")));
    assert_eq!(tree.children.len(), 1);
    assert!(same(&tree.children[0].value("tag").unwrap(), &keyword("div")));
}

#[test]
fn document_without_a_body_cannot_be_styled() {
    assert!(!styleable(&document(Vec::new())));
    assert!(!styleable(&document(vec![plain("html", Vec::new())])));
    assert!(!styleable(&plain("div", vec![document(Vec::new())])));
    assert!(styleable(&document(vec![plain("html", vec![text(String::from("x"))])])));
    assert!(styleable(&text(String::from("x"))));
}
