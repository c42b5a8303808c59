//! The tree of interface elements that a dump describes.

use crate::bounds::Bounds;
use vstd::prelude::*;

verus! {

/// One node of the interface tree. A node owns its children; the tree has no
/// back pointers and shares nothing.
#[derive(Debug)]
pub struct UIElement {
    pub tag: String,
    pub class: Option<String>,
    pub text: Option<String>,
    pub content_desc: Option<String>,
    pub resource_id: Option<String>,
    pub package: Option<String>,
    pub bounds: Option<Bounds>,
    pub clickable: bool,
    pub enabled: bool,
    pub focused: bool,
    pub selected: bool,
    pub children: Vec<UIElement>,
}

/// What an element holds, as mathematical values.
pub ghost struct ElementView {
    pub tag: Seq<char>,
    pub class: Option<Seq<char>>,
    pub text: Option<Seq<char>>,
    pub content_desc: Option<Seq<char>>,
    pub resource_id: Option<Seq<char>>,
    pub package: Option<Seq<char>>,
    pub bounds: Option<Bounds>,
    pub clickable: bool,
    pub enabled: bool,
    pub focused: bool,
    pub selected: bool,
    pub children: Seq<ElementView>,
}

/// The characters of an optional string.
pub open spec fn opt_view(s: Option<String>) -> Option<Seq<char>> {
    match s {
        Some(x) => Some(x@),
        None => None,
    }
}

/// What `e` holds, as mathematical values.
pub open spec fn element_view(e: UIElement) -> ElementView
    decreases e,
{
    ElementView {
        tag: e.tag@,
        class: opt_view(e.class),
        text: opt_view(e.text),
        content_desc: opt_view(e.content_desc),
        resource_id: opt_view(e.resource_id),
        package: opt_view(e.package),
        bounds: e.bounds,
        clickable: e.clickable,
        enabled: e.enabled,
        focused: e.focused,
        selected: e.selected,
        children: Seq::new(
            e.children@.len(),
            |i: int|
                if 0 <= i < e.children@.len() {
                    element_view(e.children@[i])
                } else {
                    arbitrary()
                },
        ),
    }
}

impl View for UIElement {
    type V = ElementView;

    open spec fn view(&self) -> ElementView {
        element_view(*self)
    }
}

/// The children of an element's view are the views of its children.
pub proof fn lemma_view_children(e: UIElement)
    ensures
        e@.children == views(e.children@),
{
    assert(e@.children.len() == e.children@.len());
    assert forall|i: int| 0 <= i < e.children@.len() implies e@.children[i]
        == e.children@[i]@ by {}
    assert(e@.children =~= views(e.children@));
}

/// The views of a run of elements.
pub open spec fn views(elements: Seq<UIElement>) -> Seq<ElementView> {
    elements.map_values(|e: UIElement| e@)
}

/// A copy of an optional string.
pub fn copy_opt(s: &Option<String>) -> (r: Option<String>)
    ensures
        opt_view(r) == opt_view(*s),
{
    match s {
        Some(x) => Some(x.clone()),
        None => None,
    }
}

impl Clone for UIElement {
    fn clone(&self) -> (r: Self)
        ensures
            r@ == self@,
        decreases self,
    {
        let mut children: Vec<UIElement> = Vec::new();
        let mut i: usize = 0;
        while i < self.children.len()
            invariant
                i <= self.children.len(),
                children.len() == i,
                forall|k: int| 0 <= k < i ==> children@[k]@ == self.children@[k]@,
            decreases self.children.len() - i,
        {
            let c = self.children[i].clone();
            children.push(c);
            i += 1;
        }
        let r = UIElement {
            tag: self.tag.clone(),
            class: copy_opt(&self.class),
            text: copy_opt(&self.text),
            content_desc: copy_opt(&self.content_desc),
            resource_id: copy_opt(&self.resource_id),
            package: copy_opt(&self.package),
            bounds: self.bounds,
            clickable: self.clickable,
            enabled: self.enabled,
            focused: self.focused,
            selected: self.selected,
            children,
        };
        proof {
            lemma_view_children(r);
            lemma_view_children(*self);
            assert(r@.children =~= self@.children);
        }
        r
    }
}

} // verus!
