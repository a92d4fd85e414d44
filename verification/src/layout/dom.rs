use crate::text::{debug_quoted, push_text, quoted};
use vstd::hash_map::StringHashMap;
use vstd::prelude::*;

verus! {

/// The attributes of an element, by name.
pub type AttrMap = StringHashMap<String>;

/// What an element node carries besides its children.
pub struct ElementData {
    pub tag_name: String,
    pub attributes: AttrMap,
    pub is_debug_mode: bool,
}

/// The kind of a document node and its own data.
pub enum NodeType {
    Document(),
    Text(String),
    Element(ElementData),
}

/// A node of the document tree.
pub struct Node {
    pub children: Vec<Node>,
    pub node_type: NodeType,
    pub is_debug_mode: bool,
}

/// The attribute whose presence switches an element to debug mode.
pub open spec fn debug_attribute() -> Seq<char> {
    "__noord_debug"@
}

/// A document node over `children`.
pub fn document(children: Vec<Node>) -> (n: Node)
    ensures
        n.children == children,
        n.node_type is Document,
        !n.is_debug_mode,
{
    Node { children, node_type: NodeType::Document(), is_debug_mode: false }
}

/// A childless text node holding `data`.
pub fn text(data: String) -> (n: Node)
    ensures
        n.children@.len() == 0,
        n.node_type == NodeType::Text(data),
        !n.is_debug_mode,
{
    Node { children: Vec::new(), node_type: NodeType::Text(data), is_debug_mode: false }
}

/// An element node. It is in debug mode exactly when `attrs` names the
/// debug attribute.
pub fn elem(name: String, attrs: AttrMap, children: Vec<Node>) -> (n: Node)
    ensures
        n.children == children,
        n.is_debug_mode == attrs@.contains_key(debug_attribute()),
        n.node_type == NodeType::Element(
            ElementData { tag_name: name, attributes: attrs, is_debug_mode: n.is_debug_mode },
        ),
{
    let is_debug_mode = attrs.contains_key("__noord_debug");
    Node {
        children,
        node_type: NodeType::Element(ElementData { tag_name: name, attributes: attrs, is_debug_mode }),
        is_debug_mode,
    }
}

/// The attributes that `pairs` of a name and a value give when they are
/// entered in order: of two pairs with one name the later one stays.
pub open spec fn attributes_of(pairs: Seq<(String, String)>) -> Map<Seq<char>, String>
    decreases pairs.len(),
{
    if pairs.len() == 0 {
        Map::<Seq<char>, String>::empty()
    } else {
        attributes_of(pairs.drop_last()).insert(pairs.last().0@, pairs.last().1)
    }
}

/// Collects the attributes of an element from `pairs` of a name and a
/// value.
pub fn attr_map(pairs: &Vec<(String, String)>) -> (attrs: AttrMap)
    ensures
        attrs@ == attributes_of(pairs@),
{
    let mut attrs = AttrMap::new();
    let mut i: usize = 0;
    while i < pairs.len()
        invariant
            i <= pairs@.len(),
            attrs@ == attributes_of(pairs@.take(i as int)),
        decreases pairs@.len() - i,
    {
        proof {
            assert(pairs@.take(i + 1).drop_last() =~= pairs@.take(i as int));
        }
        attrs.insert(pairs[i].0.clone(), pairs[i].1.clone());
        i += 1;
    }
    proof {
        assert(pairs@.take(pairs@.len() as int) =~= pairs@);
    }
    attrs
}

/// The texts of `strings`, in order.
pub open spec fn texts(strings: Seq<String>) -> Seq<Seq<char>> {
    Seq::new(strings.len(), |i: int| strings[i]@)
}

/// The pieces that the spaces of `s` cut it into, in order. There is one
/// piece more than there are spaces; a piece is empty where a space stands
/// at an end of `s` or beside another space.
pub open spec fn split_at_spaces(s: Seq<char>) -> Seq<Seq<char>>
    decreases s.len(),
{
    if s.len() == 0 {
        seq![Seq::<char>::empty()]
    } else {
        let before = split_at_spaces(s.drop_last());
        if s.last() == ' ' {
            before.push(Seq::<char>::empty())
        } else {
            before.drop_last().push(before.last().push(s.last()))
        }
    }
}

/// `pieces` put together again with a space between each two.
pub open spec fn joined_by_spaces(pieces: Seq<Seq<char>>) -> Seq<char>
    decreases pieces.len(),
{
    if pieces.len() == 0 {
        Seq::<char>::empty()
    } else if pieces.len() == 1 {
        pieces[0]
    } else {
        joined_by_spaces(pieces.drop_last()) + seq![' '] + pieces.last()
    }
}

/// Splitting loses nothing: there is at least one piece, no piece holds a
/// space, and the pieces with spaces between them are the text again.
pub proof fn lemma_split_at_spaces(s: Seq<char>)
    ensures
        split_at_spaces(s).len() >= 1,
        forall|i: int, j: int|
            0 <= i < split_at_spaces(s).len() && 0 <= j < split_at_spaces(s)[i].len()
                ==> #[trigger] split_at_spaces(s)[i][j] != ' ',
        joined_by_spaces(split_at_spaces(s)) == s,
    decreases s.len(),
{
    let pieces = split_at_spaces(s);
    if s.len() == 0 {
        assert(joined_by_spaces(pieces) =~= s);
    } else {
        let front = s.drop_last();
        let before = split_at_spaces(front);
        lemma_split_at_spaces(front);
        if s.last() == ' ' {
            assert(pieces.drop_last() =~= before);
            assert(joined_by_spaces(pieces) =~= joined_by_spaces(before) + seq![' ']
                + Seq::<char>::empty());
            assert(joined_by_spaces(pieces) =~= s);
        } else {
            let grown = before.last().push(s.last());
            assert(pieces.last() == grown);
            if before.len() == 1 {
                assert(joined_by_spaces(before) == before[0]);
                assert(joined_by_spaces(pieces) =~= s);
            } else {
                assert(pieces.drop_last() =~= before.drop_last());
                assert(joined_by_spaces(before) == joined_by_spaces(before.drop_last()) + seq![
                    ' ',
                ] + before.last());
                assert(joined_by_spaces(pieces) =~= joined_by_spaces(before).push(s.last()));
                assert(joined_by_spaces(pieces) =~= s);
            }
            assert forall|i: int, j: int|
                0 <= i < pieces.len() && 0 <= j < pieces[i].len() implies #[trigger] pieces[i][j]
                != ' ' by {
                if i < pieces.len() - 1 {
                    assert(pieces[i] == before[i]);
                } else if j < before.last().len() {
                    assert(pieces[i][j] == before[before.len() - 1][j]);
                }
            }
        }
    }
}

/// `names` without the entries that occurred before: each name stays where
/// it first stood.
pub open spec fn without_repeats(names: Seq<Seq<char>>) -> Seq<Seq<char>>
    decreases names.len(),
{
    if names.len() == 0 {
        Seq::<Seq<char>>::empty()
    } else {
        let before = without_repeats(names.drop_last());
        if before.contains(names.last()) {
            before
        } else {
            before.push(names.last())
        }
    }
}

/// Leaving out repeats keeps every name, and none of them twice.
pub proof fn lemma_without_repeats(names: Seq<Seq<char>>)
    ensures
        without_repeats(names).no_duplicates(),
        forall|name: Seq<char>|
            #[trigger] without_repeats(names).contains(name) <==> names.contains(name),
    decreases names.len(),
{
    if names.len() > 0 {
        let front = names.drop_last();
        let last = names.last();
        let before = without_repeats(front);
        lemma_without_repeats(front);
        assert forall|name: Seq<char>| #[trigger]
            without_repeats(names).contains(name) <==> names.contains(name) by {
            if names.contains(name) {
                let i = choose|i: int| 0 <= i < names.len() && names[i] == name;
                if i < front.len() {
                    assert(front[i] == name);
                    assert(before.contains(name));
                    let j = choose|j: int| 0 <= j < before.len() && before[j] == name;
                    assert(without_repeats(names)[j] == name);
                } else {
                    assert(name == last);
                    if !before.contains(last) {
                        assert(without_repeats(names)[before.len() as int] == last);
                    }
                }
            }
            if without_repeats(names).contains(name) {
                let j = choose|j: int|
                    0 <= j < without_repeats(names).len() && without_repeats(names)[j] == name;
                if j < before.len() {
                    assert(before[j] == name);
                    assert(before.contains(name));
                    assert(front.contains(name));
                    let i = choose|i: int| 0 <= i < front.len() && front[i] == name;
                    assert(names[i] == name);
                } else {
                    assert(names[names.len() - 1] == name);
                }
            }
        }
    }
}

/// The class names that the attribute value `class` lists: the pieces
/// between its spaces, each once, in the order of their first occurrence.
pub open spec fn class_names(class: Seq<char>) -> Seq<Seq<char>> {
    without_repeats(split_at_spaces(class))
}

impl ElementData {
    /// The value of the attribute `name`, if the element has it.
    pub open spec fn attribute(&self, name: Seq<char>) -> Option<String> {
        if self.attributes@.contains_key(name) {
            Some(self.attributes@[name])
        } else {
            None
        }
    }

    /// The `id` attribute of the element, if it has one.
    pub fn id(&self) -> (r: Option<&String>)
        ensures
            match r {
                Some(id) => self.attribute("id"@) == Some(*id),
                None => self.attribute("id"@) is None,
            },
    {
        self.attributes.get("id")
    }

    /// The class names of the element, if it has a `class` attribute: the
    /// pieces between the spaces of its value, each once.
    pub fn classlist(&self) -> (r: Option<Vec<String>>)
        ensures
            match r {
                Some(names) => {
                    &&& self.attribute("class"@) matches Some(class)
                    &&& texts(names@) == class_names(class@)
                    &&& texts(names@).no_duplicates()
                },
                None => self.attribute("class"@) is None,
            },
    {
        match self.attributes.get("class") {
            Some(class) => {
                proof {
                    lemma_without_repeats(split_at_spaces(class@));
                }
                Some(split_class_names(class.as_str()))
            },
            None => None,
        }
    }
}

/// The class names that the attribute value `class` lists.
pub fn split_class_names(class: &str) -> (names: Vec<String>)
    ensures
        texts(names@) == class_names(class@),
{
    let mut names: Vec<String> = Vec::new();
    let mut current = String::new();
    let ghost mut closed: Seq<Seq<char>> = Seq::empty();
    proof {
        assert(class@.take(0) =~= Seq::<char>::empty());
        assert(split_at_spaces(class@.take(0)) =~= closed.push(current@));
        assert(texts(names@) =~= without_repeats(closed));
    }
    for c in it: class.chars()
        invariant
            it.seq() == class@,
            split_at_spaces(class@.take(it.index() as int)) == closed.push(current@),
            texts(names@) == without_repeats(closed),
    {
        let ghost seen = class@.take(it.index() as int);
        let ghost grown = class@.take(it.index() + 1);
        proof {
            assert(grown.drop_last() =~= seen);
            assert(grown.last() == c);
            assert(closed.push(current@).drop_last() =~= closed);
        }
        if c == ' ' {
            let ghost names_before = names@;
            if !holds_name(&names, &current) {
                names.push(current);
                proof {
                    assert(texts(names@) =~= texts(names_before).push(current@));
                }
            }
            proof {
                closed = closed.push(current@);
            }
            current = String::new();
        } else {
            current.push(c);
        }
    }
    proof {
        assert(class@.take(class@.len() as int) =~= class@);
        assert(closed.push(current@).drop_last() =~= closed);
    }
    let ghost names_before = names@;
    if !holds_name(&names, &current) {
        names.push(current);
        proof {
            assert(texts(names@) =~= texts(names_before).push(current@));
        }
    }
    names
}

/// Tests whether `names` holds the text of `name`.
pub fn holds_name(names: &Vec<String>, name: &String) -> (r: bool)
    ensures
        r == texts(names@).contains(name@),
{
    let mut i: usize = 0;
    while i < names.len()
        invariant
            i <= names@.len(),
            forall|j: int| 0 <= j < i ==> texts(names@)[j] != name@,
        decreases names@.len() - i,
    {
        if names[i] == *name {
            assert(texts(names@)[i as int] == name@);
            return true;
        }
        i += 1;
    }
    false
}

/// The quoted `names` with a comma and a space between each two.
pub open spec fn joined(names: Seq<Seq<char>>) -> Seq<char>
    decreases names.len(),
{
    if names.len() == 0 {
        Seq::<char>::empty()
    } else if names.len() == 1 {
        debug_quoted(names[0])
    } else {
        joined(names.drop_last()) + ", "@ + debug_quoted(names.last())
    }
}

/// `names` as a set is written out: each name between double quotes, a
/// comma and a space between two names, all between braces.
pub open spec fn listing(names: Seq<Seq<char>>) -> Seq<char> {
    "{"@ + joined(names) + "}"@
}

/// The text that identifies an element with the given tag name, class
/// attribute and `id` attribute.
pub open spec fn element_identifier(
    tag_name: Seq<char>,
    class: Option<String>,
    id: Option<String>,
) -> Seq<char> {
    "Node#Element#"@ + tag_name + " classlist="@ + listing(
        match class {
            Some(class) => class_names(class@),
            None => Seq::<Seq<char>>::empty(),
        },
    ) + " id="@ + match id {
        Some(id) => id@,
        None => "none"@,
    }
}

impl Node {
    /// The text that identifies the node while debugging.
    ///
    /// An element is identified by its tag name, its class names and its
    /// `id`, or `none` where it has no `id`.
    pub open spec fn spec_debug_identifier(&self) -> Seq<char> {
        match self.node_type {
            NodeType::Document() => "Node#Document"@,
            NodeType::Text(string) => "Node#Text("@ + string@ + ")"@,
            NodeType::Element(data) => element_identifier(
                data.tag_name@,
                data.attribute("class"@),
                data.attribute("id"@),
            ),
        }
    }

    /// Used to identify the given node while debugging.
    pub fn debug_identifier(&self) -> (r: String)
        ensures
            r@ == self.spec_debug_identifier(),
    {
        match &self.node_type {
            NodeType::Document() => "Node#Document".to_owned(),
            NodeType::Text(string) => {
                let mut r = "Node#Text(".to_owned();
                push_text(&mut r, string.as_str());
                push_text(&mut r, ")");
                r
            },
            NodeType::Element(data) => {
                let mut r = "Node#Element#".to_owned();
                push_text(&mut r, data.tag_name.as_str());
                push_text(&mut r, " classlist=");
                let names = match data.classlist() {
                    Some(names) => names,
                    None => Vec::new(),
                };
                proof {
                    if data.attribute("class"@) is None {
                        assert(texts(names@) =~= Seq::<Seq<char>>::empty());
                    }
                }
                push_listing(&mut r, &names);
                push_text(&mut r, " id=");
                match data.id() {
                    Some(id) => push_text(&mut r, id.as_str()),
                    None => push_text(&mut r, "none"),
                }
                r
            },
        }
    }
}

/// Appends to `s` the listing of `names`.
pub fn push_listing(s: &mut String, names: &Vec<String>)
    ensures
        final(s)@ == old(s)@ + listing(texts(names@)),
{
    push_text(s, "{");
    let ghost opened = s@;
    let mut i: usize = 0;
    while i < names.len()
        invariant
            i <= names@.len(),
            s@ == opened + joined(texts(names@).take(i as int)),
        decreases names@.len() - i,
    {
        if i > 0 {
            push_text(s, ", ");
        }
        let name = quoted(names[i].as_str());
        push_text(s, name.as_str());
        proof {
            let done = texts(names@).take(i as int);
            let more = texts(names@).take(i + 1);
            assert(more.drop_last() =~= done);
            assert(more.last() == names@[i as int]@);
            assert(s@ =~= opened + joined(more));
        }
        i += 1;
    }
    proof {
        assert(texts(names@).take(names@.len() as int) =~= texts(names@));
    }
    push_text(s, "}");
    proof {
        assert(s@ =~= old(s)@ + listing(texts(names@)));
    }
}

} // verus!
