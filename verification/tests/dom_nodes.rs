use noord::layout::dom::{
    attr_map, document, elem, holds_name, split_class_names, text, AttrMap, ElementData, Node,
    NodeType,
};

fn attrs(pairs: Vec<(&str, &str)>) -> AttrMap {
    let mut map = AttrMap::new();
    for (name, value) in pairs {
        map.insert(String::from(name), String::from(value));
    }
    map
}

fn element(pairs: Vec<(&str, &str)>) -> ElementData {
    match elem(String::from("div"), attrs(pairs), Vec::new()).node_type {
        NodeType::Element(data) => data,
        _ => panic!("elem made no element"),
    }
}

fn names(list: Vec<&str>) -> Vec<String> {
    list.into_iter().map(String::from).collect()
}

#[test]
fn document_holds_its_children() {
    let n = document(vec![text(String::from("a")), text(String::from("b"))]);
    assert!(matches!(n.node_type, NodeType::Document()));
    assert_eq!(n.children.len(), 2);
    assert!(!n.is_debug_mode);
}

#[test]
fn text_node_has_no_children() {
    let n = text(String::from("hello"));
    assert!(n.children.is_empty());
    assert!(!n.is_debug_mode);
    match n.node_type {
        NodeType::Text(s) => assert_eq!(s, "hello"),
        _ => panic!("text made no text node"),
    }
}

#[test]
fn element_keeps_name_attributes_and_children() {
    let n = elem(
        String::from("p"),
        attrs(vec![("id", "intro")]),
        vec![text(String::from("x"))],
    );
    assert_eq!(n.children.len(), 1);
    assert!(!n.is_debug_mode);
    match n.node_type {
        NodeType::Element(data) => {
            assert_eq!(data.tag_name, "p");
            assert!(!data.is_debug_mode);
            assert_eq!(data.attributes.get("id"), Some(&String::from("intro")));
            assert_eq!(data.attributes.len(), 1);
        }
        _ => panic!("elem made no element"),
    }
}

#[test]
fn debug_attribute_switches_debug_mode_on() {
    let n = elem(String::from("p"), attrs(vec![("__noord_debug", "")]), Vec::new());
    assert!(n.is_debug_mode);
    match n.node_type {
        NodeType::Element(data) => assert!(data.is_debug_mode),
        _ => panic!("elem made no element"),
    }
}

#[test]
fn id_is_the_id_attribute() {
    assert_eq!(element(vec![("id", "main")]).id(), Some(&String::from("main")));
    assert_eq!(element(vec![("class", "main")]).id(), None);
}

#[test]
fn classlist_needs_a_class_attribute() {
    assert_eq!(element(vec![("id", "main")]).classlist(), None);
    assert_eq!(element(vec![("class", "a b")]).classlist(), Some(names(vec!["a", "b"])));
}

#[test]
fn class_names_are_the_pieces_between_spaces() {
    assert_eq!(split_class_names("a b c"), names(vec!["a", "b", "c"]));
    assert_eq!(split_class_names("solo"), names(vec!["solo"]));
    assert_eq!(split_class_names(""), names(vec![""]));
    assert_eq!(split_class_names("a  b"), names(vec!["a", "", "b"]));
    assert_eq!(split_class_names(" a"), names(vec!["", "a"]));
    assert_eq!(split_class_names("a "), names(vec!["a", ""]));
    // Only the space separates.
    assert_eq!(split_class_names("a\tb"), names(vec!["a\tb"]));
}

#[test]
fn class_names_occur_once() {
    assert_eq!(split_class_names("a b a c b"), names(vec!["a", "b", "c"]));
    assert_eq!(split_class_names("  "), names(vec![""]));
}

#[test]
fn holds_name_compares_texts() {
    let list = names(vec!["a", "bc"]);
    assert!(holds_name(&list, &String::from("bc")));
    assert!(!holds_name(&list, &String::from("b")));
    assert!(!holds_name(&Vec::new(), &String::from("")));
}

#[test]
fn later_attribute_of_a_name_stays() {
    let pairs = vec![
        (String::from("class"), String::from("a")),
        (String::from("id"), String::from("x")),
        (String::from("class"), String::from("b")),
    ];
    let map = attr_map(&pairs);
    assert_eq!(map.len(), 2);
    assert_eq!(map.get("class"), Some(&String::from("b")));
    assert_eq!(map.get("id"), Some(&String::from("x")));
    assert!(attr_map(&Vec::new()).is_empty());
}

fn identifier(n: &Node) -> String {
    n.debug_identifier()
}

#[test]
fn document_identifier() {
    assert_eq!(identifier(&document(Vec::new())), "Node#Document");
}

#[test]
fn text_identifier_holds_the_text() {
    assert_eq!(identifier(&text(String::from("hello world"))), "Node#Text(hello world)");
    assert_eq!(identifier(&text(String::new())), "Node#Text()");
}

#[test]
fn element_identifier_lists_classes_and_id() {
    let n = elem(
        String::from("div"),
        attrs(vec![("class", "x y x"), ("id", "main")]),
        Vec::new(),
    );
    assert_eq!(identifier(&n), "Node#Element#div classlist={\"x\", \"y\"} id=main");
}

#[test]
fn element_identifier_without_class_and_id() {
    let n = elem(String::from("span"), AttrMap::new(), Vec::new());
    assert_eq!(identifier(&n), "Node#Element#span classlist={} id=none");
}

#[test]
fn element_identifier_quotes_class_names() {
    let n = elem(String::from("a"), attrs(vec![("class", "q\"r")]), Vec::new());
    assert_eq!(identifier(&n), "Node#Element#a classlist={\"q\\\"r\"} id=none");
    let n = elem(String::from("a"), attrs(vec![("class", "")]), Vec::new());
    assert_eq!(identifier(&n), "Node#Element#a classlist={\"\"} id=none");
}
