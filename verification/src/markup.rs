//! Reading a dump: from markup text to the tree of interface elements.
//!
//! The markup itself is read by `roxmltree`. What it finds is handed over as a
//! flat list of nodes in document order, each with the position of its parent,
//! and the tree is built from that list here.

use crate::bounds::{parse_bounds, Bounds};
use crate::client::AdbClient;
use crate::element::{lemma_view_children, opt_view, views, ElementView, UIElement};
use crate::error::ParseError;
use crate::text::str_eq;
use vstd::prelude::*;

verus! {

/// One attribute of a markup element: its local name and its value.
#[derive(Debug)]
pub struct MarkupAttribute {
    pub name: String,
    pub value: String,
}

/// One node of a markup document.
#[derive(Debug)]
pub struct MarkupNode {
    /// The position, in the document's list of nodes, of the node that this
    /// one is a child of. The root of the document has none.
    pub parent: Option<u32>,
    /// Whether the node is an element, as opposed to text, a comment, a
    /// processing instruction or the root of the document.
    pub element: bool,
    /// The local name of an element; empty for a node of another kind.
    pub tag: String,
    /// The attributes of an element, in the order in which they are written.
    pub attributes: Vec<MarkupAttribute>,
}

/// What a markup node holds, as mathematical values.
pub ghost struct MarkupNodeView {
    pub parent: Option<int>,
    pub element: bool,
    pub tag: Seq<char>,
    pub attributes: Seq<(Seq<char>, Seq<char>)>,
}

impl View for MarkupAttribute {
    type V = (Seq<char>, Seq<char>);

    open spec fn view(&self) -> (Seq<char>, Seq<char>) {
        (self.name@, self.value@)
    }
}

impl View for MarkupNode {
    type V = MarkupNodeView;

    open spec fn view(&self) -> MarkupNodeView {
        MarkupNodeView {
            parent: match self.parent {
                Some(p) => Some(p as int),
                None => None,
            },
            element: self.element,
            tag: self.tag@,
            attributes: self.attributes@.map_values(|a: MarkupAttribute| a@),
        }
    }
}

/// The views of a list of nodes.
pub open spec fn node_views(nodes: Seq<MarkupNode>) -> Seq<MarkupNodeView> {
    nodes.map_values(|n: MarkupNode| n@)
}

/// `roxmltree::Error`, the reason why the parser gives up on a text. It is
/// carried through and never looked into.
#[verifier::external_type_specification]
#[verifier::external_body]
pub struct ExMarkupError(roxmltree::Error);

/// The nodes of the markup document `text`, in document order, the root of
/// the document first; `None` where `text` is not a well-formed document.
pub uninterp spec fn document_nodes(text: Seq<char>) -> Option<Seq<MarkupNodeView>>;

/// `roxmltree::Document::parse`, and then `Document::descendants` to walk
/// what was parsed. The result is the list that `document_nodes` names, or the
/// parser's error. Of each node it keeps `Node::parent` (as `NodeId::get`),
/// `Node::is_element`, the local name from `Node::tag_name` and, from
/// `Node::attributes`, each `Attribute::name` and `Attribute::value`.
#[verifier::external_body]
fn read_document(text: &str) -> (r: Result<Vec<MarkupNode>, roxmltree::Error>)
    ensures
        match r {
            Ok(nodes) => document_nodes(text@) == Some(node_views(nodes@)),
            Err(_) => document_nodes(text@) is None,
        },
{
    let doc = roxmltree::Document::parse(text)?;
    Ok(doc.descendants().map(|n| MarkupNode {
        parent: n.parent().map(|p| p.id().get()),
        element: n.is_element(),
        tag: n.tag_name().name().to_string(),
        attributes: n.attributes().map(|a| MarkupAttribute {
            name: a.name().to_string(),
            value: a.value().to_string(),
        }).collect(),
    }).collect())
}

/// The value of the first attribute called `name`.
pub open spec fn attribute(attributes: Seq<(Seq<char>, Seq<char>)>, name: Seq<char>) -> Option<
    Seq<char>,
>
    decreases attributes.len(),
{
    if attributes.len() == 0 {
        None
    } else if attributes[0].0 == name {
        Some(attributes[0].1)
    } else {
        attribute(attributes.drop_first(), name)
    }
}

/// Whether the attribute called `name` is there and reads `true`.
pub open spec fn flag(attributes: Seq<(Seq<char>, Seq<char>)>, name: Seq<char>) -> bool {
    attribute(attributes, name) == Some("true"@)
}

/// The bounds that a `bounds` attribute gives: none where the attribute is
/// missing, and none where it is there but cannot be read.
pub open spec fn bounds_of(attributes: Seq<(Seq<char>, Seq<char>)>) -> Option<Bounds> {
    match attribute(attributes, "bounds"@) {
        Some(s) => parse_bounds(s),
        None => None,
    }
}

/// The element that node `i` describes, with the elements among its children
/// as its children, in document order.
pub open spec fn element_at(nodes: Seq<MarkupNodeView>, i: int) -> ElementView
    decreases nodes.len() - i, nodes.len() + 1,
{
    if 0 <= i < nodes.len() {
        ElementView {
            tag: nodes[i].tag,
            class: attribute(nodes[i].attributes, "class"@),
            text: attribute(nodes[i].attributes, "text"@),
            content_desc: attribute(nodes[i].attributes, "content-desc"@),
            resource_id: attribute(nodes[i].attributes, "resource-id"@),
            package: attribute(nodes[i].attributes, "package"@),
            bounds: bounds_of(nodes[i].attributes),
            clickable: flag(nodes[i].attributes, "clickable"@),
            enabled: flag(nodes[i].attributes, "enabled"@),
            focused: flag(nodes[i].attributes, "focused"@),
            selected: flag(nodes[i].attributes, "selected"@),
            children: child_elements(nodes, i, i + 1),
        }
    } else {
        arbitrary()
    }
}

/// The elements described by those children of node `parent` that are
/// elements and stand at position `from` or later.
pub open spec fn child_elements(nodes: Seq<MarkupNodeView>, parent: int, from: int) -> Seq<
    ElementView,
>
    decreases nodes.len() - parent, nodes.len() - from,
{
    if 0 <= parent < from < nodes.len() {
        if nodes[from].parent == Some(parent) && nodes[from].element {
            seq![element_at(nodes, from)] + child_elements(nodes, parent, from + 1)
        } else {
            child_elements(nodes, parent, from + 1)
        }
    } else {
        Seq::empty()
    }
}

/// The first child of node `parent`, at position `from` or later, that is an
/// element and, where `tag` is given, has that tag.
pub open spec fn element_child(
    nodes: Seq<MarkupNodeView>,
    parent: int,
    tag: Option<Seq<char>>,
    from: int,
) -> Option<int>
    decreases nodes.len() - from,
{
    if 0 <= from < nodes.len() {
        if nodes[from].parent == Some(parent) && nodes[from].element && (tag is None || tag
            == Some(nodes[from].tag)) {
            Some(from)
        } else {
            element_child(nodes, parent, tag, from + 1)
        }
    } else {
        None
    }
}

/// The root of the interface tree: the first element inside the first
/// `hierarchy` element that is a child of the document's root.
pub open spec fn hierarchy_root(nodes: Seq<MarkupNodeView>) -> Option<ElementView> {
    match element_child(nodes, 0, Some("hierarchy"@), 1) {
        Some(h) => match element_child(nodes, h, None, h + 1) {
            Some(c) => Some(element_at(nodes, c)),
            None => None,
        },
        None => None,
    }
}

/// What parsing the dump `text` gives.
pub open spec fn parse_document(text: Seq<char>) -> Result<ElementView, ParseError> {
    match document_nodes(text) {
        Some(nodes) => match hierarchy_root(nodes) {
            Some(e) => Ok(e),
            None => Err(ParseError::NoHierarchyFound),
        },
        None => Err(ParseError::MalformedMarkup),
    }
}

/// The value of the first attribute of `node` called `name`.
pub fn attribute_of(node: &MarkupNode, name: &str) -> (r: Option<String>)
    ensures
        opt_view(r) == attribute(node@.attributes, name@),
{
    let ghost all = node@.attributes;
    let mut i: usize = 0;
    assert(all.skip(0) =~= all);
    while i < node.attributes.len()
        invariant
            i <= node.attributes.len(),
            all == node@.attributes,
            attribute(all, name@) == attribute(all.skip(i as int), name@),
        decreases node.attributes.len() - i,
    {
        let a = &node.attributes[i];
        assert(all.skip(i as int)[0] == a@);
        assert(all.skip(i as int).drop_first() =~= all.skip(i + 1));
        if str_eq(a.name.as_str(), name) {
            return Some(a.value.clone());
        }
        i += 1;
    }
    None
}

/// Whether the attribute of `node` called `name` is there and reads `true`.
pub fn flag_of(node: &MarkupNode, name: &str) -> (r: bool)
    ensures
        r == flag(node@.attributes, name@),
{
    match attribute_of(node, name) {
        Some(v) => str_eq(v.as_str(), "true"),
        None => false,
    }
}

/// Whether node `j` is a child of node `parent`.
fn has_parent(nodes: &Vec<MarkupNode>, j: usize, parent: usize) -> (r: bool)
    requires
        j < nodes.len(),
    ensures
        r == (node_views(nodes@)[j as int].parent == Some(parent as int)),
{
    match nodes[j].parent {
        Some(p) => p as usize == parent,
        None => false,
    }
}

/// The element that node `i` describes.
fn build_element(nodes: &Vec<MarkupNode>, i: usize) -> (e: UIElement)
    requires
        i < nodes.len(),
    ensures
        e@ == element_at(node_views(nodes@), i as int),
    decreases nodes.len() - i,
{
    let ghost nv = node_views(nodes@);
    let node = &nodes[i];
    assert(nv[i as int] == node@);
    let bounds = match attribute_of(node, "bounds") {
        Some(s) => match Bounds::from_string(s.as_str()) {
            Ok(b) => Some(b),
            Err(_) => None,
        },
        None => None,
    };
    let mut children: Vec<UIElement> = Vec::new();
    let mut j: usize = i + 1;
    while j < nodes.len()
        invariant
            i < j <= nodes.len(),
            nv == node_views(nodes@),
            child_elements(nv, i as int, i + 1) == views(children@) + child_elements(
                nv,
                i as int,
                j as int,
            ),
        decreases nodes.len() - j,
    {
        if has_parent(nodes, j, i) && nodes[j].element {
            let child = build_element(nodes, j);
            let ghost before = children@;
            children.push(child);
            proof {
                assert(nv[j as int] == nodes@[j as int]@);
                assert(views(children@) =~= views(before).push(child@));
                assert(views(before) + (seq![child@] + child_elements(nv, i as int, j + 1))
                    =~= views(children@) + child_elements(nv, i as int, j + 1));
            }
        } else {
            assert(nv[j as int] == nodes@[j as int]@);
        }
        j += 1;
    }
    let e = UIElement {
        tag: node.tag.clone(),
        class: attribute_of(node, "class"),
        text: attribute_of(node, "text"),
        content_desc: attribute_of(node, "content-desc"),
        resource_id: attribute_of(node, "resource-id"),
        package: attribute_of(node, "package"),
        bounds,
        clickable: flag_of(node, "clickable"),
        enabled: flag_of(node, "enabled"),
        focused: flag_of(node, "focused"),
        selected: flag_of(node, "selected"),
        children,
    };
    proof {
        lemma_view_children(e);
        assert(views(children@) + Seq::<ElementView>::empty() =~= views(children@));
    }
    e
}

/// The first child of node `parent`, at position `from` or later, that is an
/// element and, where `tag` is given, has that tag.
fn find_element_child(nodes: &Vec<MarkupNode>, parent: usize, tag: Option<&str>, from: usize) -> (r:
    Option<usize>)
    ensures
        match r {
            Some(j) => j < nodes.len() && element_child(
                node_views(nodes@),
                parent as int,
                match tag {
                    Some(t) => Some(t@),
                    None => None,
                },
                from as int,
            ) == Some(j as int),
            None => element_child(
                node_views(nodes@),
                parent as int,
                match tag {
                    Some(t) => Some(t@),
                    None => None,
                },
                from as int,
            ) is None,
        },
{
    let ghost nv = node_views(nodes@);
    let ghost want: Option<Seq<char>> = match tag {
        Some(t) => Some(t@),
        None => None,
    };
    let mut j: usize = from;
    while j < nodes.len()
        invariant
            from <= j,
            nv == node_views(nodes@),
            want == match tag {
                Some(t) => Some(t@),
                None => None::<Seq<char>>,
            },
            element_child(nv, parent as int, want, from as int) == element_child(
                nv,
                parent as int,
                want,
                j as int,
            ),
        decreases nodes.len() - j,
    {
        assert(nv[j as int] == nodes@[j as int]@);
        if has_parent(nodes, j, parent) && nodes[j].element {
            let named = match tag {
                Some(t) => str_eq(nodes[j].tag.as_str(), t),
                None => true,
            };
            if named {
                return Some(j);
            }
        }
        j += 1;
    }
    None
}

/// The root of the interface tree that a list of markup nodes describes.
pub fn element_from_nodes(nodes: &Vec<MarkupNode>) -> (r: Result<UIElement, ParseError>)
    ensures
        match r {
            Ok(e) => hierarchy_root(node_views(nodes@)) == Some(e@),
            Err(err) => err == ParseError::NoHierarchyFound && hierarchy_root(node_views(nodes@))
                is None,
        },
{
    let hierarchy = match find_element_child(nodes, 0, Some("hierarchy"), 1) {
        Some(h) => h,
        None => {
            return Err(ParseError::NoHierarchyFound);
        },
    };
    match find_element_child(nodes, hierarchy, None, hierarchy + 1) {
        Some(c) => Ok(build_element(nodes, c)),
        None => Err(ParseError::NoHierarchyFound),
    }
}

impl AdbClient {
    /// Parses a dump into the tree of interface elements.
    pub fn parse_ui_xml(&self, xml_content: &str) -> (r: Result<UIElement, ParseError>)
        ensures
            is_parse_of(r, xml_content@),
    {
        match read_document(xml_content) {
            Ok(nodes) => element_from_nodes(&nodes),
            Err(_) => Err(ParseError::MalformedMarkup),
        }
    }
}

/// Whether `r` is what parsing the dump `text` gives: the tree that the text
/// describes, or the reason why it describes none.
pub open spec fn is_parse_of(r: Result<UIElement, ParseError>, text: Seq<char>) -> bool {
    match r {
        Ok(e) => parse_document(text) == Ok::<ElementView, ParseError>(e@),
        Err(err) => parse_document(text) == Err::<ElementView, ParseError>(err),
    }
}

/// What a parse has given, as mathematical values.
pub open spec fn parsed_view(r: Result<UIElement, ParseError>) -> Result<ElementView, ParseError> {
    match r {
        Ok(e) => Ok(e@),
        Err(err) => Err(err),
    }
}

/// Parsing is a function of the text: two parses of the same text give trees
/// that hold the same at every element, or fail for the same reason.
pub proof fn lemma_parse_is_deterministic(
    text: Seq<char>,
    first: Result<UIElement, ParseError>,
    second: Result<UIElement, ParseError>,
)
    requires
        is_parse_of(first, text),
        is_parse_of(second, text),
    ensures
        parsed_view(first) == parsed_view(second),
{
}

/// An element as it would be if neither it nor any element below it had
/// bounds.
pub open spec fn without_bounds(e: ElementView) -> ElementView
    decreases e,
{
    ElementView {
        bounds: None,
        children: Seq::new(
            e.children.len(),
            |i: int|
                if 0 <= i < e.children.len() {
                    without_bounds(e.children[i])
                } else {
                    arbitrary()
                },
        ),
        ..e
    }
}

/// A row of elements, each without bounds.
pub open spec fn all_without_bounds(es: Seq<ElementView>) -> Seq<ElementView> {
    es.map_values(|e: ElementView| without_bounds(e))
}

/// Whether two lists of nodes are the same but for what their `bounds`
/// attributes hold: as many nodes, each with the same parent, kind and tag,
/// and with the same value for every attribute of another name.
pub open spec fn same_but_bounds(a: Seq<MarkupNodeView>, b: Seq<MarkupNodeView>) -> bool {
    &&& a.len() == b.len()
    &&& forall|i: int|
        0 <= i < a.len() ==> {
            &&& (#[trigger] a[i]).parent == b[i].parent
            &&& a[i].element == b[i].element
            &&& a[i].tag == b[i].tag
            &&& forall|name: Seq<char>|
                name != "bounds"@ ==> #[trigger] attribute(a[i].attributes, name) == attribute(
                    b[i].attributes,
                    name,
                )
        }
}

/// None of the other attributes that an element is read from is called
/// `bounds`.
proof fn lemma_other_names()
    ensures
        "class"@ != "bounds"@,
        "text"@ != "bounds"@,
        "content-desc"@ != "bounds"@,
        "resource-id"@ != "bounds"@,
        "package"@ != "bounds"@,
        "clickable"@ != "bounds"@,
        "enabled"@ != "bounds"@,
        "focused"@ != "bounds"@,
        "selected"@ != "bounds"@,
{
    reveal_strlit("bounds");
    reveal_strlit("class");
    reveal_strlit("text");
    reveal_strlit("content-desc");
    reveal_strlit("resource-id");
    reveal_strlit("package");
    reveal_strlit("clickable");
    reveal_strlit("enabled");
    reveal_strlit("focused");
    reveal_strlit("selected");
    assert("bounds"@.len() == 6);
    assert("class"@.len() == 5);
    assert("text"@.len() == 4);
    assert("content-desc"@.len() == 12);
    assert("resource-id"@.len() == 11);
    assert("package"@.len() == 7);
    assert("clickable"@.len() == 9);
    assert("enabled"@.len() == 7);
    assert("focused"@.len() == 7);
    assert("selected"@.len() == 8);
}

/// What a `bounds` attribute holds changes nothing but bounds: the elements
/// below node `parent` are the same in both lists, bounds apart.
proof fn lemma_children_but_bounds(
    a: Seq<MarkupNodeView>,
    b: Seq<MarkupNodeView>,
    parent: int,
    from: int,
)
    requires
        same_but_bounds(a, b),
    ensures
        all_without_bounds(child_elements(a, parent, from)) == all_without_bounds(
            child_elements(b, parent, from),
        ),
    decreases a.len() - parent, a.len() - from,
{
    if 0 <= parent < from < a.len() {
        lemma_children_but_bounds(a, b, parent, from + 1);
        if a[from].parent == Some(parent) && a[from].element {
            lemma_element_but_bounds(a, b, from);
            assert(all_without_bounds(child_elements(a, parent, from)) =~= seq![
                without_bounds(element_at(a, from)),
            ] + all_without_bounds(child_elements(a, parent, from + 1)));
            assert(all_without_bounds(child_elements(b, parent, from)) =~= seq![
                without_bounds(element_at(b, from)),
            ] + all_without_bounds(child_elements(b, parent, from + 1)));
        }
    }
}

/// What a `bounds` attribute holds changes nothing but bounds: the element
/// that node `i` describes is the same in both lists, bounds apart.
pub proof fn lemma_element_but_bounds(a: Seq<MarkupNodeView>, b: Seq<MarkupNodeView>, i: int)
    requires
        same_but_bounds(a, b),
        0 <= i < a.len(),
    ensures
        without_bounds(element_at(a, i)) == without_bounds(element_at(b, i)),
    decreases a.len() - i, a.len() + 1,
{
    lemma_other_names();
    lemma_children_but_bounds(a, b, i, i + 1);
    let x = element_at(a, i);
    let y = element_at(b, i);
    assert(a[i].parent == b[i].parent);
    assert(without_bounds(x).children =~= all_without_bounds(x.children));
    assert(without_bounds(y).children =~= all_without_bounds(y.children));
}

/// The same first child in both lists.
proof fn lemma_child_but_bounds(
    a: Seq<MarkupNodeView>,
    b: Seq<MarkupNodeView>,
    parent: int,
    tag: Option<Seq<char>>,
    from: int,
)
    requires
        same_but_bounds(a, b),
    ensures
        element_child(a, parent, tag, from) == element_child(b, parent, tag, from),
    decreases a.len() - from,
{
    if 0 <= from < a.len() {
        assert(a[from].parent == b[from].parent);
        lemma_child_but_bounds(a, b, parent, tag, from + 1);
    }
}

/// A `bounds` attribute that cannot be read costs the element its bounds and
/// nothing else. Whether a dump has a tree does not depend on what its
/// `bounds` attributes hold, and neither does anything in the tree but the
/// bounds themselves: the tree has the same elements in the same places with
/// the same text, description, identifier, class, package and flags. The
/// bounds of each element are what its own attribute gives, and none where
/// the attribute cannot be read.
pub proof fn lemma_malformed_bounds_are_local(a: Seq<MarkupNodeView>, b: Seq<MarkupNodeView>)
    requires
        same_but_bounds(a, b),
    ensures
        hierarchy_root(a) is Some <==> hierarchy_root(b) is Some,
        hierarchy_root(a) is Some ==> without_bounds(hierarchy_root(a)->0) == without_bounds(
            hierarchy_root(b)->0,
        ),
        forall|i: int|
            0 <= i < a.len() ==> (#[trigger] element_at(a, i)).bounds == bounds_of(
                a[i].attributes,
            ),
{
    lemma_child_but_bounds(a, b, 0, Some("hierarchy"@), 1);
    match element_child(a, 0, Some("hierarchy"@), 1) {
        Some(h) => {
            lemma_child_but_bounds(a, b, h, None, h + 1);
            match element_child(a, h, None, h + 1) {
                Some(c) => {
                    lemma_child_in_range(a, h, None, h + 1);
                    lemma_element_but_bounds(a, b, c);
                },
                None => {},
            }
        },
        None => {},
    }
}

/// A child that is found is a node of the list.
proof fn lemma_child_in_range(
    nodes: Seq<MarkupNodeView>,
    parent: int,
    tag: Option<Seq<char>>,
    from: int,
)
    ensures
        element_child(nodes, parent, tag, from) matches Some(c) ==> from <= c < nodes.len(),
    decreases nodes.len() - from,
{
    if 0 <= from < nodes.len() {
        lemma_child_in_range(nodes, parent, tag, from + 1);
    }
}

} // verus!
