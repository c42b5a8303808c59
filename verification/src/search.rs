//! Looking for elements in the interface tree.
//!
//! Every search walks the tree in document order: an element comes before its
//! children, and children come in the order in which the dump lists them. A
//! search by text or by description reports every element that matches, once,
//! in that order. Text is compared as it stands, upper and lower case kept
//! apart, except in `search_elements_text_recursive`, which folds both sides to
//! lower case first.

use crate::client::AdbClient;
use crate::element::{lemma_view_children, opt_view, views, ElementView, UIElement};
use crate::text::{chars_eq, chars_of, contains, contains_chars};
use vstd::prelude::*;

verus! {

/// The elements of a tree in document order.
pub open spec fn preorder(e: ElementView) -> Seq<ElementView>
    decreases e,
{
    seq![e] + preorder_all(e.children)
}

/// The elements of a row of trees in document order.
pub open spec fn preorder_all(es: Seq<ElementView>) -> Seq<ElementView>
    decreases es,
{
    if es.len() == 0 {
        Seq::empty()
    } else {
        preorder_all(es.drop_last()) + preorder(es.last())
    }
}

/// The lower-case form of a text, as Unicode defines it.
pub uninterp spec fn lowercase(s: Seq<char>) -> Seq<char>;

/// `str::to_lowercase`: the lower-case form of `s`.
#[verifier::external_body]
fn to_lowercase(s: &str) -> (r: String)
    ensures
        r@ == lowercase(s@),
{
    s.to_lowercase()
}

/// What a search looks for.
pub enum Query {
    /// The text or the description contains the needle.
    Text(Vec<char>),
    /// The description contains the needle.
    Description(Vec<char>),
    /// The lower-case form of the text or of the description contains the
    /// needle, which is in lower case already.
    Folded(Vec<char>),
    /// The resource identifier is the needle, exactly.
    ResourceId(Vec<char>),
}

/// What a search looks for, as mathematical values.
pub ghost enum QueryView {
    Text(Seq<char>),
    Description(Seq<char>),
    Folded(Seq<char>),
    ResourceId(Seq<char>),
}

impl View for Query {
    type V = QueryView;

    open spec fn view(&self) -> QueryView {
        match self {
            Query::Text(needle) => QueryView::Text(needle@),
            Query::Description(needle) => QueryView::Description(needle@),
            Query::Folded(needle) => QueryView::Folded(needle@),
            Query::ResourceId(needle) => QueryView::ResourceId(needle@),
        }
    }
}

/// Whether an optional text contains `needle`.
pub open spec fn holds(field: Option<Seq<char>>, needle: Seq<char>) -> bool {
    match field {
        Some(t) => contains(t, needle),
        None => false,
    }
}

/// Whether the lower-case form of an optional text contains `needle`.
pub open spec fn holds_folded(field: Option<Seq<char>>, needle: Seq<char>) -> bool {
    match field {
        Some(t) => contains(lowercase(t), needle),
        None => false,
    }
}

impl QueryView {
    /// Whether the element `e` is one that the search looks for.
    pub open spec fn accepts(self, e: ElementView) -> bool {
        match self {
            QueryView::Text(needle) => holds(e.text, needle) || holds(e.content_desc, needle),
            QueryView::Description(needle) => holds(e.content_desc, needle),
            QueryView::Folded(needle) => holds_folded(e.text, needle) || holds_folded(
                e.content_desc,
                needle,
            ),
            QueryView::ResourceId(needle) => e.resource_id == Some(needle),
        }
    }

    /// The test that the search applies to each element.
    pub open spec fn test(self) -> spec_fn(ElementView) -> bool {
        |e: ElementView| self.accepts(e)
    }

    /// The elements of the tree `root` that the search finds, in document
    /// order.
    pub open spec fn hits(self, root: ElementView) -> Seq<ElementView> {
        preorder(root).filter(self.test())
    }

    /// The elements of the trees `roots` that the search finds, in document
    /// order.
    pub open spec fn hits_all(self, roots: Seq<ElementView>) -> Seq<ElementView> {
        preorder_all(roots).filter(self.test())
    }
}

impl Query {
    /// A search for `text` in the text and the description of an element.
    pub fn text(text: &str) -> (q: Query)
        ensures
            q@ == QueryView::Text(text@),
    {
        Query::Text(chars_of(text))
    }

    /// A search for `text` in the description of an element.
    pub fn description(text: &str) -> (q: Query)
        ensures
            q@ == QueryView::Description(text@),
    {
        Query::Description(chars_of(text))
    }

    /// A search for `text` in the text and the description of an element,
    /// both sides folded to lower case.
    pub fn folded(text: &str) -> (q: Query)
        ensures
            q@ == QueryView::Folded(lowercase(text@)),
    {
        let lower = to_lowercase(text);
        Query::Folded(chars_of(lower.as_str()))
    }

    /// A search for the resource identifier `id`.
    pub fn resource_id(id: &str) -> (q: Query)
        ensures
            q@ == QueryView::ResourceId(id@),
    {
        Query::ResourceId(chars_of(id))
    }

    /// Whether the element `e` is one that the search looks for.
    pub fn matches(&self, e: &UIElement) -> (r: bool)
        ensures
            r == self@.accepts(e@),
    {
        match self {
            Query::Text(needle) => field_holds(&e.text, needle) || field_holds(
                &e.content_desc,
                needle,
            ),
            Query::Description(needle) => field_holds(&e.content_desc, needle),
            Query::Folded(needle) => field_holds_folded(&e.text, needle) || field_holds_folded(
                &e.content_desc,
                needle,
            ),
            Query::ResourceId(needle) => match &e.resource_id {
                Some(id) => {
                    let chars = chars_of(id.as_str());
                    chars_eq(&chars, needle)
                },
                None => false,
            },
        }
    }
}

/// Whether an optional text contains `needle`.
fn field_holds(field: &Option<String>, needle: &Vec<char>) -> (r: bool)
    ensures
        r == holds(opt_view(*field), needle@),
{
    match field {
        Some(t) => {
            let chars = chars_of(t.as_str());
            contains_chars(&chars, needle)
        },
        None => false,
    }
}

/// Whether the lower-case form of an optional text contains `needle`.
fn field_holds_folded(field: &Option<String>, needle: &Vec<char>) -> (r: bool)
    ensures
        r == holds_folded(opt_view(*field), needle@),
{
    match field {
        Some(t) => {
            let lower = to_lowercase(t.as_str());
            let chars = chars_of(lower.as_str());
            contains_chars(&chars, needle)
        },
        None => false,
    }
}

/// The views of a row of borrowed elements.
pub open spec fn ref_views(rs: Seq<&UIElement>) -> Seq<ElementView> {
    rs.map_values(|r: &UIElement| r@)
}

/// The document order of a row of trees, one tree more.
pub proof fn lemma_preorder_all_step(es: Seq<ElementView>, i: int)
    requires
        0 <= i < es.len(),
    ensures
        preorder_all(es.take(i + 1)) == preorder_all(es.take(i)) + preorder(es[i]),
{
    assert(es.take(i + 1).drop_last() =~= es.take(i));
}

/// What a test keeps of a single element.
pub proof fn lemma_filter_one(e: ElementView, test: spec_fn(ElementView) -> bool)
    ensures
        seq![e].filter(test) == if test(e) {
            seq![e]
        } else {
            Seq::<ElementView>::empty()
        },
{
    reveal_with_fuel(Seq::filter, 2);
    assert(seq![e].drop_last() =~= Seq::<ElementView>::empty());
    if test(e) {
        assert(seq![e].filter(test) =~= seq![e]);
    } else {
        assert(seq![e].filter(test) =~= Seq::<ElementView>::empty());
    }
}

/// Appends to `results` the elements of the tree `element` that `query`
/// finds, in document order.
pub fn collect<'a>(element: &'a UIElement, query: &Query, results: &mut Vec<&'a UIElement>)
    ensures
        ref_views(final(results)@) == ref_views(old(results)@) + query@.hits(element@),
    decreases element,
{
    let ghost test = query@.test();
    let ghost before = results@;
    let ghost kids = element@.children;
    proof {
        lemma_view_children(*element);
        lemma_filter_one(element@, test);
    }
    if query.matches(element) {
        results.push(element);
        assert(ref_views(results@) =~= ref_views(before) + seq![element@].filter(test));
    } else {
        assert(ref_views(results@) =~= ref_views(before) + seq![element@].filter(test));
    }
    let mut i: usize = 0;
    assert(kids.take(0) =~= Seq::<ElementView>::empty());
    assert(preorder_all(kids.take(0)).filter(test) =~= Seq::<ElementView>::empty()) by {
        reveal_with_fuel(Seq::filter, 1);
    }
    while i < element.children.len()
        invariant
            i <= element.children.len(),
            test == query@.test(),
            kids == element@.children,
            kids == views(element.children@),
            ref_views(results@) == ref_views(before) + seq![element@].filter(test) + preorder_all(
                kids.take(i as int),
            ).filter(test),
        decreases element.children.len() - i,
    {
        collect(&element.children[i], query, results);
        proof {
            lemma_preorder_all_step(kids, i as int);
            Seq::filter_distributes_over_add(
                preorder_all(kids.take(i as int)),
                preorder(kids[i as int]),
                test,
            );
            assert(ref_views(results@) =~= ref_views(before) + seq![element@].filter(test)
                + preorder_all(kids.take(i + 1)).filter(test));
        }
        i += 1;
    }
    proof {
        assert(kids.take(i as int) =~= kids);
        Seq::filter_distributes_over_add(seq![element@], preorder_all(kids), test);
        assert(ref_views(results@) =~= ref_views(before) + query@.hits(element@));
    }
}

/// What a search finds in a tree: the root, where the search accepts it,
/// and then what it finds in the row of the root's children.
pub proof fn lemma_hits_of_tree(q: QueryView, e: ElementView)
    ensures
        q.hits(e) == if q.accepts(e) {
            seq![e] + q.hits_all(e.children)
        } else {
            q.hits_all(e.children)
        },
{
    lemma_filter_one(e, q.test());
    Seq::filter_distributes_over_add(seq![e], preorder_all(e.children), q.test());
    if !q.accepts(e) {
        assert(Seq::<ElementView>::empty() + q.hits_all(e.children) =~= q.hits_all(e.children));
    }
}

/// What a search finds in a row of trees: nothing in an empty row; else what
/// it finds in all trees but the last, and then what it finds in the last.
pub proof fn lemma_hits_of_row(q: QueryView, es: Seq<ElementView>)
    ensures
        q.hits_all(es) == if es.len() == 0 {
            Seq::<ElementView>::empty()
        } else {
            q.hits_all(es.drop_last()) + q.hits(es.last())
        },
{
    if es.len() == 0 {
        reveal_with_fuel(Seq::filter, 1);
        assert(q.hits_all(es) =~= Seq::<ElementView>::empty());
    } else {
        Seq::filter_distributes_over_add(preorder_all(es.drop_last()), preorder(es.last()), q.test());
    }
}

/// What a search finds in a tree whose root has no children.
pub proof fn lemma_hits_of_leaf(q: QueryView, e: ElementView)
    requires
        e.children.len() == 0,
    ensures
        q.hits(e) == if q.accepts(e) {
            seq![e]
        } else {
            Seq::<ElementView>::empty()
        },
{
    lemma_hits_of_tree(q, e);
    lemma_hits_of_row(q, e.children);
    if q.accepts(e) {
        assert(seq![e] + Seq::<ElementView>::empty() =~= seq![e]);
    }
}

/// What a search finds in a tree whose root has the one child `c`.
pub proof fn lemma_hits_of_one_child(q: QueryView, e: ElementView, c: ElementView)
    requires
        e.children.len() == 1,
        e.children[0] == c,
    ensures
        q.hits(e) == if q.accepts(e) {
            seq![e] + q.hits(c)
        } else {
            q.hits(c)
        },
{
    lemma_hits_of_tree(q, e);
    lemma_hits_of_row(q, e.children);
    lemma_hits_of_row(q, e.children.drop_last());
    assert(e.children.drop_last().len() == 0);
    assert(e.children.last() == c);
    assert(Seq::<ElementView>::empty() + q.hits(c) =~= q.hits(c));
}

/// What a search finds in a tree whose root has the two children `c` and
/// `d`, in this order.
pub proof fn lemma_hits_of_two_children(
    q: QueryView,
    e: ElementView,
    c: ElementView,
    d: ElementView,
)
    requires
        e.children.len() == 2,
        e.children[0] == c,
        e.children[1] == d,
    ensures
        q.hits(e) == if q.accepts(e) {
            seq![e] + q.hits(c) + q.hits(d)
        } else {
            q.hits(c) + q.hits(d)
        },
{
    let front = e.children.drop_last();
    lemma_hits_of_tree(q, e);
    lemma_hits_of_row(q, e.children);
    lemma_hits_of_row(q, front);
    lemma_hits_of_row(q, front.drop_last());
    assert(front.len() == 1);
    assert(front.last() == c);
    assert(front.drop_last().len() == 0);
    assert(e.children.last() == d);
    assert(Seq::<ElementView>::empty() + q.hits(c) =~= q.hits(c));
    assert(seq![e] + (q.hits(c) + q.hits(d)) =~= seq![e] + q.hits(c) + q.hits(d));
}

/// A match near the root comes before a match deep under a later sibling.
/// Let the root have the children `a` and `s`, in this order, let `s` have
/// the one child `x` and `x` the one child `b`, and let `a` and `b` have no
/// children. A search that accepts `a` and `b`, and none of the root, `s` and
/// `x`, finds `a` and then `b`.
pub proof fn lemma_shallow_before_deep(
    q: QueryView,
    root: ElementView,
    a: ElementView,
    s: ElementView,
    x: ElementView,
    b: ElementView,
)
    requires
        root.children.len() == 2 && root.children[0] == a && root.children[1] == s,
        s.children.len() == 1 && s.children[0] == x,
        x.children.len() == 1 && x.children[0] == b,
        a.children.len() == 0,
        b.children.len() == 0,
        q.accepts(a),
        q.accepts(b),
        !q.accepts(root),
        !q.accepts(s),
        !q.accepts(x),
    ensures
        q.hits(root) == seq![a, b],
{
    lemma_hits_of_leaf(q, a);
    lemma_hits_of_leaf(q, b);
    lemma_hits_of_one_child(q, x, b);
    lemma_hits_of_one_child(q, s, x);
    lemma_hits_of_two_children(q, root, a, s);
    assert(seq![a] + seq![b] =~= seq![a, b]);
}

/// The document order of a row of trees is that of its first `k` trees
/// followed by that of the others.
pub proof fn lemma_preorder_all_split(es: Seq<ElementView>, k: int)
    requires
        0 <= k <= es.len(),
    ensures
        preorder_all(es) == preorder_all(es.take(k)) + preorder_all(es.skip(k)),
    decreases es.len(),
{
    if k == es.len() {
        assert(es.take(k) =~= es);
        assert(es.skip(k) =~= Seq::<ElementView>::empty());
        assert(preorder_all(es) =~= preorder_all(es) + Seq::<ElementView>::empty());
    } else {
        let front = es.drop_last();
        lemma_preorder_all_split(front, k);
        assert(front.take(k) =~= es.take(k));
        assert(es.skip(k).drop_last() =~= front.skip(k));
        assert(es.skip(k).last() == es.last());
        assert(preorder_all(es) =~= preorder_all(es.take(k)) + preorder_all(es.skip(k)));
    }
}

/// The first element of the tree `element` that `query` finds, in document
/// order. The walk stops there.
pub fn first_hit<'a>(element: &'a UIElement, query: &Query) -> (r: Option<&'a UIElement>)
    ensures
        match r {
            Some(e) => query@.hits(element@).len() > 0 && e@ == query@.hits(element@)[0],
            None => query@.hits(element@).len() == 0,
        },
    decreases element,
{
    let ghost test = query@.test();
    let ghost kids = element@.children;
    proof {
        lemma_view_children(*element);
        lemma_filter_one(element@, test);
        Seq::filter_distributes_over_add(seq![element@], preorder_all(kids), test);
    }
    if query.matches(element) {
        return Some(element);
    }
    let mut i: usize = 0;
    assert(kids.take(0) =~= Seq::<ElementView>::empty());
    assert(preorder_all(kids.take(0)).filter(test) =~= Seq::<ElementView>::empty()) by {
        reveal_with_fuel(Seq::filter, 1);
    }
    while i < element.children.len()
        invariant
            i <= element.children.len(),
            test == query@.test(),
            kids == element@.children,
            kids == views(element.children@),
            query@.hits(element@) == seq![element@].filter(test) + preorder_all(kids).filter(
                test,
            ),
            seq![element@].filter(test).len() == 0,
            preorder_all(kids.take(i as int)).filter(test).len() == 0,
        decreases element.children.len() - i,
    {
        let found = first_hit(&element.children[i], query);
        proof {
            lemma_preorder_all_step(kids, i as int);
            lemma_preorder_all_split(kids, i + 1);
            Seq::filter_distributes_over_add(
                preorder_all(kids.take(i as int)),
                preorder(kids[i as int]),
                test,
            );
            Seq::filter_distributes_over_add(
                preorder_all(kids.take(i + 1)),
                preorder_all(kids.skip(i + 1)),
                test,
            );
        }
        if found.is_some() {
            return found;
        }
        i += 1;
    }
    proof {
        assert(kids.take(i as int) =~= kids);
    }
    None
}

/// Appends to `results` a copy of each element that `found` refers to.
fn copy_into(found: &Vec<&UIElement>, results: &mut Vec<UIElement>)
    ensures
        views(final(results)@) == views(old(results)@) + ref_views(found@),
{
    let mut i: usize = 0;
    assert(views(results@) =~= views(old(results)@) + ref_views(found@).take(0));
    while i < found.len()
        invariant
            i <= found.len(),
            views(results@) == views(old(results)@) + ref_views(found@).take(i as int),
        decreases found.len() - i,
    {
        let ghost so_far = results@;
        let copy = found[i].clone();
        results.push(copy);
        proof {
            assert(views(results@) =~= views(so_far).push(copy@));
            assert(ref_views(found@).take(i + 1) =~= ref_views(found@).take(i as int).push(
                found@[i as int]@,
            ));
            assert(views(results@) =~= views(old(results)@) + ref_views(found@).take(i + 1));
        }
        i += 1;
    }
    assert(ref_views(found@).take(i as int) =~= ref_views(found@));
}

impl AdbClient {
    /// The elements of the tree `root` whose text or description contains
    /// `text`, in document order.
    pub fn find_elements_by_text<'a>(&self, root: &'a UIElement, text: &str) -> (results: Vec<
        &'a UIElement,
    >)
        ensures
            ref_views(results@) == QueryView::Text(text@).hits(root@),
    {
        let mut results: Vec<&'a UIElement> = Vec::new();
        self.search_by_text(root, text, &mut results);
        assert(ref_views(Seq::<&UIElement>::empty()) + QueryView::Text(text@).hits(root@)
            =~= QueryView::Text(text@).hits(root@));
        results
    }

    /// Appends to `results` the elements of the tree `element` whose text or
    /// description contains `text`, in document order.
    pub fn search_by_text<'a>(
        &self,
        element: &'a UIElement,
        text: &str,
        results: &mut Vec<&'a UIElement>,
    )
        ensures
            ref_views(final(results)@) == ref_views(old(results)@) + QueryView::Text(text@).hits(
                element@,
            ),
    {
        let query = Query::text(text);
        collect(element, &query, results);
    }

    /// The first element of the tree `root`, in document order, whose
    /// resource identifier is `resource_id`, character for character.
    pub fn find_element_by_resource_id<'a>(&self, root: &'a UIElement, resource_id: &str) -> (r:
        Option<&'a UIElement>)
        ensures
            match r {
                Some(e) => QueryView::ResourceId(resource_id@).hits(root@).len() > 0 && e@
                    == QueryView::ResourceId(resource_id@).hits(root@)[0],
                None => QueryView::ResourceId(resource_id@).hits(root@).len() == 0,
            },
    {
        let query = Query::resource_id(resource_id);
        first_hit(root, &query)
    }

    /// Appends to `results` a copy of each element of the trees `elements`
    /// whose description contains `target_desc`, in document order.
    pub fn search_by_content_desc_recursive(
        &self,
        elements: &[UIElement],
        target_desc: &str,
        results: &mut Vec<UIElement>,
    )
        ensures
            views(final(results)@) == views(old(results)@) + QueryView::Description(
                target_desc@,
            ).hits_all(views(elements@)),
    {
        let query = Query::description(target_desc);
        let ghost test = query@.test();
        let ghost trees = views(elements@);
        let mut found: Vec<&UIElement> = Vec::new();
        let mut i: usize = 0;
        assert(trees.take(0) =~= Seq::<ElementView>::empty());
        assert(preorder_all(trees.take(0)).filter(test) =~= ref_views(found@)) by {
            reveal_with_fuel(Seq::filter, 1);
        }
        while i < elements.len()
            invariant
                i <= elements.len(),
                test == query@.test(),
                trees == views(elements@),
                ref_views(found@) == preorder_all(trees.take(i as int)).filter(test),
            decreases elements.len() - i,
        {
            collect(&elements[i], &query, &mut found);
            proof {
                lemma_preorder_all_step(trees, i as int);
                Seq::filter_distributes_over_add(
                    preorder_all(trees.take(i as int)),
                    preorder(trees[i as int]),
                    test,
                );
            }
            i += 1;
        }
        assert(trees.take(i as int) =~= trees);
        copy_into(&found, results);
    }

    /// Appends to `results` a copy of each element of the tree `element` whose
    /// description contains `target_desc`, in document order.
    pub fn search_by_content_desc_single(
        &self,
        element: &UIElement,
        target_desc: &str,
        results: &mut Vec<UIElement>,
    )
        ensures
            views(final(results)@) == views(old(results)@) + QueryView::Description(
                target_desc@,
            ).hits(element@),
    {
        let query = Query::description(target_desc);
        let mut found: Vec<&UIElement> = Vec::new();
        collect(element, &query, &mut found);
        assert(ref_views(Seq::<&UIElement>::empty()) + query@.hits(element@) =~= query@.hits(
            element@,
        ));
        copy_into(&found, results);
    }

    /// Appends to `results` a copy of each element of the tree `element` whose
    /// text or description, folded to lower case, contains `search_text`
    /// folded to lower case; in document order.
    pub fn search_elements_text_recursive(
        &self,
        element: &UIElement,
        search_text: &str,
        results: &mut Vec<UIElement>,
    )
        ensures
            views(final(results)@) == views(old(results)@) + QueryView::Folded(
                lowercase(search_text@),
            ).hits(element@),
    {
        let query = Query::folded(search_text);
        let mut found: Vec<&UIElement> = Vec::new();
        collect(element, &query, &mut found);
        assert(ref_views(Seq::<&UIElement>::empty()) + query@.hits(element@) =~= query@.hits(
            element@,
        ));
        copy_into(&found, results);
    }
}

impl AdbClient {
    /// A copy of the first element of the tree `root`, in document order,
    /// whose text or description contains `text`.
    pub fn find_text_element(&self, root: &UIElement, text: &str) -> (r: Option<UIElement>)
        ensures
            match r {
                Some(e) => QueryView::Text(text@).hits(root@).len() > 0 && e@ == QueryView::Text(
                    text@,
                ).hits(root@)[0],
                None => QueryView::Text(text@).hits(root@).len() == 0,
            },
    {
        let query = Query::text(text);
        match first_hit(root, &query) {
            Some(e) => Some(e.clone()),
            None => None,
        }
    }
}

} // verus!
