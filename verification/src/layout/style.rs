use crate::layout::css::Value;
use crate::layout::dom::{ElementData, Node, NodeType};
use vstd::hash_map::StringHashMap;
use vstd::prelude::*;

verus! {

/// The values that a style specifies, by property name.
pub type StylePropertyMap = StringHashMap<Value>;

/// A document node together with the values its style specifies.
pub struct StyledNode<'a> {
    pub values: StylePropertyMap,
    pub node: &'a Node,
    pub children: Vec<StyledNode<'a>>,
}

/// How a node takes part in layout.
#[derive(Copy, Clone, PartialEq, Eq, Structural, Debug)]
pub enum DisplayStyle {
    Inline,
    Block,
    /// `display: none`: the node and its subtree get no box.
    Hidden,
}

impl<'a> StyledNode<'a> {
    /// The specified value of property `name`, if there is one.
    pub open spec fn spec_value(&self, name: Seq<char>) -> Option<Value> {
        if self.values@.contains_key(name) {
            Some(self.values@[name])
        } else {
            None
        }
    }

    /// The specified value of `name`, else that of `fallback_name`.
    pub open spec fn spec_find(&self, name: Seq<char>, fallback_name: Seq<char>) -> Option<Value> {
        match self.spec_value(name) {
            Some(v) => Some(v),
            None => self.spec_value(fallback_name),
        }
    }

    /// The value of `name`, else that of `fallback_name`, else `default`.
    pub open spec fn spec_lookup(
        &self,
        name: Seq<char>,
        fallback_name: Seq<char>,
        default: Value,
    ) -> Value {
        match self.spec_find(name, fallback_name) {
            Some(v) => v,
            None => default,
        }
    }

    /// The display style: `block` and `none` where the `display` property is
    /// that keyword, inline in every other case.
    pub open spec fn spec_display(&self) -> DisplayStyle {
        match self.spec_value("display"@) {
            Some(Value::Keyword(s)) => if s@ == "block"@ {
                DisplayStyle::Block
            } else if s@ == "none"@ {
                DisplayStyle::Hidden
            } else {
                DisplayStyle::Inline
            },
            _ => DisplayStyle::Inline,
        }
    }

    /// Returns the specified value of a property if it exists.
    pub fn value(&self, name: &str) -> (r: Option<Value>)
        ensures
            r == self.spec_value(name@),
    {
        match self.values.get(name) {
            Some(v) => Some(v.clone()),
            None => None,
        }
    }

    /// The value of the `display` property (defaults to inline).
    pub fn display(&self) -> (r: DisplayStyle)
        ensures
            r == self.spec_display(),
    {
        match self.values.get("display") {
            Some(Value::Keyword(s)) => {
                if *s.as_str() == *"block" {
                    DisplayStyle::Block
                } else if *s.as_str() == *"none" {
                    DisplayStyle::Hidden
                } else {
                    DisplayStyle::Inline
                }
            },
            _ => DisplayStyle::Inline,
        }
    }

    /// Returns the value of `name`, falling back to `fallback_name` and then
    /// to `default`.
    pub fn lookup(&self, name: &str, fallback_name: &str, default: &Value) -> (r: Value)
        ensures
            r == self.spec_lookup(name@, fallback_name@, *default),
    {
        match self.value(name) {
            Some(v) => v,
            None => match self.value(fallback_name) {
                Some(v) => v,
                None => default.clone(),
            },
        }
    }
}

/// The node that the styled node for `node` stands for: `node` itself,
/// except that a document stands for the last child of its first child (the
/// body of its root element).
pub open spec fn styled_target(node: &Node) -> &Node
    recommends
        has_styled_target(node),
{
    if node.node_type is Document {
        &node.children@[0].children@.last()
    } else {
        node
    }
}

/// Whether `node` has a node to stand for it in the style tree: a document
/// needs a first child that has a child.
pub open spec fn has_styled_target(node: &Node) -> bool {
    node.node_type is Document ==> node.children@.len() > 0 && node.children@[0].children@.len()
        > 0
}

/// Whether the tree under `node` can be styled: the node and everything
/// below the node that stands for it have such a node.
pub open spec fn can_be_styled(node: &Node) -> bool
    decreases node,
{
    &&& has_styled_target(node)
    &&& forall|i: int|
        0 <= i < styled_target(node).children@.len() ==> can_be_styled(
            #[trigger] &styled_target(node).children@[i],
        )
}

/// Whether `styled` is the style tree of the tree under `node`, where
/// `specified_values` gives the values that the style sheet specifies for
/// an element.
///
/// The styled node stands for the target of `node`. It has the values that
/// `specified_values` gives for it where it is an element, and no values
/// otherwise. Its children are the style trees of the target's children, in
/// document order.
pub open spec fn is_styletree_of<'a, F: Fn(&ElementData) -> StylePropertyMap>(
    styled: StyledNode<'a>,
    node: &'a Node,
    specified_values: &F,
) -> bool
    decreases node,
{
    let target = styled_target(node);
    &&& has_styled_target(node)
    &&& styled.node == target
    &&& match target.node_type {
        NodeType::Element(data) => specified_values.ensures((&data,), styled.values),
        _ => styled.values@ == Map::<Seq<char>, Value>::empty(),
    }
    &&& styled.children@.len() == target.children@.len()
    &&& forall|i: int|
        0 <= i < target.children@.len() ==> is_styletree_of(
            #[trigger] styled.children@[i],
            &target.children@[i],
            specified_values,
        )
}

/// Builds the style tree of the document tree under `root`. The style sheet
/// enters through `specified_values`, which gives the values that it
/// specifies for an element.
pub fn create_styletree<'a, F: Fn(&ElementData) -> StylePropertyMap>(
    root: &'a Node,
    specified_values: &F,
) -> (styled: StyledNode<'a>)
    requires
        can_be_styled(root),
        forall|data: &ElementData| #[trigger] specified_values.requires((data,)),
    ensures
        is_styletree_of(styled, root, specified_values),
    decreases root,
{
    let target: &'a Node = match root.node_type {
        NodeType::Document() => {
            let first = &root.children[0];
            &first.children[first.children.len() - 1]
        },
        _ => root,
    };
    let values = match &target.node_type {
        NodeType::Element(data) => specified_values(data),
        _ => StylePropertyMap::new(),
    };
    let mut children: Vec<StyledNode<'a>> = Vec::new();
    let mut i: usize = 0;
    while i < target.children.len()
        invariant
            i <= target.children@.len(),
            children@.len() == i,
            has_styled_target(root),
            target == styled_target(root),
            forall|j: int|
                0 <= j < target.children@.len() ==> can_be_styled(#[trigger] &target.children@[j]),
            forall|data: &ElementData| #[trigger] specified_values.requires((data,)),
            forall|j: int|
                0 <= j < i ==> is_styletree_of(
                    #[trigger] children@[j],
                    &target.children@[j],
                    specified_values,
                ),
        decreases target.children@.len() - i,
    {
        let child = create_styletree(&target.children[i], specified_values);
        children.push(child);
        i += 1;
    }
    StyledNode { node: target, values, children }
}

/// Tests whether the tree under `node` can be styled.
pub fn styleable(node: &Node) -> (r: bool)
    ensures
        r == can_be_styled(node),
    decreases node,
{
    let target: &Node = match node.node_type {
        NodeType::Document() => {
            if node.children.len() == 0 {
                return false;
            }
            let first = &node.children[0];
            if first.children.len() == 0 {
                return false;
            }
            &first.children[first.children.len() - 1]
        },
        _ => node,
    };
    let mut i: usize = 0;
    while i < target.children.len()
        invariant
            i <= target.children@.len(),
            has_styled_target(node),
            target == styled_target(node),
            forall|j: int| 0 <= j < i ==> can_be_styled(#[trigger] &target.children@[j]),
        decreases target.children@.len() - i,
    {
        if !styleable(&target.children[i]) {
            return false;
        }
        i += 1;
    }
    true
}

} // verus!
