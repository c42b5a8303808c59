//! Choosing what to tap.
//!
//! A step of a workflow names its target by a list of keywords in order of
//! priority. The first keyword for which the screen holds a usable element
//! wins, and among the elements that match that keyword the first in document
//! order. Later keywords are looked at only where every earlier one has
//! failed.

use crate::bounds::{half, Bounds};
use crate::element::{ElementView, UIElement};
use crate::search::{collect, lowercase, ref_views, Query, QueryView};
use crate::text::{chars_of, contains, contains_chars, matches_at};
use vstd::prelude::*;

verus! {

/// Where a keyword is looked for.
#[derive(Clone, Copy, Debug, PartialEq, Eq, Structural)]
pub enum Field {
    /// In the text and in the description of an element, as they stand.
    TextOrDescription,
    /// In the description of an element only, as it stands.
    Description,
    /// In the text and in the description of an element, upper and lower
    /// case taken as one: the keyword and what the element holds are both
    /// folded to lower case before they are compared.
    Folded,
}

/// Which of the elements that match a keyword is tapped.
#[derive(Clone, Copy, Debug, PartialEq, Eq, Structural)]
pub enum Pick {
    /// The first that is clickable and has bounds.
    Clickable,
    /// The first, clickable or not; it must have bounds.
    First,
}

/// The views of a list of strings.
pub open spec fn strings(v: Seq<String>) -> Seq<Seq<char>> {
    v.map_values(|s: String| s@)
}

/// The search that a keyword stands for.
pub open spec fn query_for(field: Field, keyword: Seq<char>) -> QueryView {
    match field {
        Field::TextOrDescription => QueryView::Text(keyword),
        Field::Description => QueryView::Description(keyword),
        Field::Folded => QueryView::Folded(lowercase(keyword)),
    }
}

/// The centre of a rectangle.
pub open spec fn center_of(b: Bounds) -> (i32, i32) {
    (half(b.left + b.right) as i32, half(b.top + b.bottom) as i32)
}

/// Whether an element can be tapped under the rule `pick`.
pub open spec fn usable(e: ElementView, pick: Pick) -> bool {
    match pick {
        Pick::Clickable => e.clickable && e.bounds is Some,
        Pick::First => e.bounds is Some,
    }
}

/// The first element of `hits`, at position `from` or later, that is
/// clickable and has bounds.
pub open spec fn first_clickable(hits: Seq<ElementView>, from: int) -> Option<ElementView>
    decreases hits.len() - from,
{
    if 0 <= from < hits.len() {
        if usable(hits[from], Pick::Clickable) {
            Some(hits[from])
        } else {
            first_clickable(hits, from + 1)
        }
    } else {
        None
    }
}

/// The point to tap among the elements `hits` that a keyword has found.
pub open spec fn pick_point(hits: Seq<ElementView>, pick: Pick) -> Option<(i32, i32)> {
    match pick {
        Pick::Clickable => match first_clickable(hits, 0) {
            Some(e) => Some(center_of(e.bounds->0)),
            None => None,
        },
        Pick::First => if hits.len() > 0 && hits[0].bounds is Some {
            Some(center_of(hits[0].bounds->0))
        } else {
            None
        },
    }
}

/// The point that the keyword `keyword` gives on the screen `root`.
pub open spec fn point_for(root: ElementView, keyword: Seq<char>, field: Field, pick: Pick)
    -> Option<(i32, i32)> {
    pick_point(query_for(field, keyword).hits(root), pick)
}

/// The first keyword, at position `from` or later, that gives a point on the
/// screen `root`, with that point.
pub open spec fn target(
    root: ElementView,
    keywords: Seq<Seq<char>>,
    field: Field,
    pick: Pick,
    from: int,
) -> Option<(int, (i32, i32))>
    decreases keywords.len() - from,
{
    if 0 <= from < keywords.len() {
        match point_for(root, keywords[from], field, pick) {
            Some(p) => Some((from, p)),
            None => target(root, keywords, field, pick, from + 1),
        }
    } else {
        None
    }
}

/// The first keyword, at position `from` or later, that occurs in `text`.
pub open spec fn first_present(text: Seq<char>, keywords: Seq<Seq<char>>, from: int) -> Option<
    int,
>
    decreases keywords.len() - from,
{
    if 0 <= from < keywords.len() {
        if contains(text, keywords[from]) {
            Some(from)
        } else {
            first_present(text, keywords, from + 1)
        }
    } else {
        None
    }
}

/// Whether every keyword, at position `from` or later, occurs in `text`.
pub open spec fn all_present(text: Seq<char>, keywords: Seq<Seq<char>>, from: int) -> bool
    decreases keywords.len() - from,
{
    if 0 <= from < keywords.len() {
        contains(text, keywords[from]) && all_present(text, keywords, from + 1)
    } else {
        true
    }
}

/// The keyword that wins is the first that gives a point: it gives the point
/// that is tapped, and no keyword before it gives any.
pub proof fn lemma_target_is_first(
    root: ElementView,
    keywords: Seq<Seq<char>>,
    field: Field,
    pick: Pick,
    from: int,
)
    requires
        0 <= from,
    ensures
        match target(root, keywords, field, pick, from) {
            Some((k, p)) => from <= k < keywords.len() && point_for(
                root,
                keywords[k],
                field,
                pick,
            ) == Some(p) && forall|j: int|
                from <= j < k ==> point_for(root, #[trigger] keywords[j], field, pick) is None,
            None => forall|j: int|
                from <= j < keywords.len() ==> point_for(
                    root,
                    #[trigger] keywords[j],
                    field,
                    pick,
                ) is None,
        },
    decreases keywords.len() - from,
{
    if from < keywords.len() {
        lemma_target_is_first(root, keywords, field, pick, from + 1);
    }
}

/// Keyword priority: where keyword `k` gives the point `p` and no keyword
/// before it gives a point, `p` is what is tapped, whatever the keywords after
/// `k` would give.
pub proof fn lemma_keyword_priority(
    root: ElementView,
    keywords: Seq<Seq<char>>,
    field: Field,
    pick: Pick,
    k: int,
    p: (i32, i32),
)
    requires
        0 <= k < keywords.len(),
        point_for(root, keywords[k], field, pick) == Some(p),
        forall|j: int| 0 <= j < k ==> point_for(root, #[trigger] keywords[j], field, pick) is None,
    ensures
        target(root, keywords, field, pick, 0) == Some((k, p)),
{
    lemma_target_is_first(root, keywords, field, pick, 0);
    match target(root, keywords, field, pick, 0) {
        Some((i, q)) => {
            if i < k {
                assert(point_for(root, keywords[i], field, pick) is None);
            } else if i > k {
                assert(point_for(root, keywords[k], field, pick) is None);
            }
        },
        None => {
            assert(point_for(root, keywords[k], field, pick) is None);
        },
    }
}

/// A folded comparison does not tell apart keywords that have the same
/// lower-case form: on every screen they give the same point.
pub proof fn lemma_folded_keywords_agree(
    root: ElementView,
    first: Seq<char>,
    second: Seq<char>,
    pick: Pick,
)
    requires
        lowercase(first) == lowercase(second),
    ensures
        point_for(root, first, Field::Folded, pick) == point_for(root, second, Field::Folded, pick),
{
}

/// A folded comparison finds an element whose text or description has the
/// same lower-case form as the keyword, however either is written.
pub proof fn lemma_folded_finds_the_same_word(e: ElementView, keyword: Seq<char>)
    requires
        (e.text is Some && lowercase(e.text->0) == lowercase(keyword)) || (e.content_desc is Some
            && lowercase(e.content_desc->0) == lowercase(keyword)),
    ensures
        query_for(Field::Folded, keyword).accepts(e),
{
    let word = lowercase(keyword);
    assert(word.subrange(0, word.len() as int) =~= word);
    assert(matches_at(word, word, 0));
}

/// The centre of `b`.
pub fn center_point(b: &Bounds) -> (p: (i32, i32))
    ensures
        p == center_of(*b),
{
    b.center()
}

/// The point to tap among the elements `hits`.
pub fn point_among(hits: &Vec<&UIElement>, pick: Pick) -> (r: Option<(i32, i32)>)
    ensures
        r == pick_point(ref_views(hits@), pick),
{
    let ghost views = ref_views(hits@);
    match pick {
        Pick::First => {
            if hits.len() > 0 {
                assert(views[0] == hits@[0]@);
                match &hits[0].bounds {
                    Some(b) => Some(center_point(b)),
                    None => None,
                }
            } else {
                None
            }
        },
        Pick::Clickable => {
            let mut i: usize = 0;
            while i < hits.len()
                invariant
                    i <= hits.len(),
                    pick == Pick::Clickable,
                    views == ref_views(hits@),
                    first_clickable(views, 0) == first_clickable(views, i as int),
                decreases hits.len() - i,
            {
                assert(views[i as int] == hits@[i as int]@);
                if hits[i].clickable {
                    match &hits[i].bounds {
                        Some(b) => {
                            assert(views[i as int].bounds == Some(*b));
                            return Some(center_point(b));
                        },
                        None => {},
                    }
                }
                i += 1;
            }
            None
        },
    }
}

/// The search that `keyword` stands for.
pub fn make_query(field: Field, keyword: &str) -> (q: Query)
    ensures
        q@ == query_for(field, keyword@),
{
    match field {
        Field::TextOrDescription => Query::text(keyword),
        Field::Description => Query::description(keyword),
        Field::Folded => Query::folded(keyword),
    }
}

/// The point that the keyword `keyword` gives on the screen `root`.
pub fn point_on(root: &UIElement, keyword: &str, field: Field, pick: Pick) -> (r: Option<
    (i32, i32),
>)
    ensures
        r == point_for(root@, keyword@, field, pick),
{
    let query = make_query(field, keyword);
    let mut hits: Vec<&UIElement> = Vec::new();
    collect(root, &query, &mut hits);
    assert(ref_views(Seq::<&UIElement>::empty()) + query@.hits(root@) =~= query@.hits(root@));
    point_among(&hits, pick)
}

/// The first keyword that gives a point on the screen `root`, with that
/// point.
pub fn choose_target(root: &UIElement, keywords: &Vec<String>, field: Field, pick: Pick) -> (r:
    Option<(usize, (i32, i32))>)
    ensures
        match r {
            Some((k, p)) => target(root@, strings(keywords@), field, pick, 0) == Some(
                (k as int, p),
            ),
            None => target(root@, strings(keywords@), field, pick, 0) is None,
        },
{
    let ghost words = strings(keywords@);
    let mut k: usize = 0;
    while k < keywords.len()
        invariant
            k <= keywords.len(),
            words == strings(keywords@),
            target(root@, words, field, pick, 0) == target(root@, words, field, pick, k as int),
        decreases keywords.len() - k,
    {
        assert(words[k as int] == keywords@[k as int]@);
        match point_on(root, keywords[k].as_str(), field, pick) {
            Some(p) => {
                return Some((k, p));
            },
            None => {},
        }
        k += 1;
    }
    None
}

/// The first keyword that occurs in `text`.
pub fn find_keyword(text: &str, keywords: &Vec<String>) -> (r: Option<usize>)
    ensures
        match r {
            Some(k) => first_present(text@, strings(keywords@), 0) == Some(k as int),
            None => first_present(text@, strings(keywords@), 0) is None,
        },
{
    let ghost words = strings(keywords@);
    let hay = chars_of(text);
    let mut k: usize = 0;
    while k < keywords.len()
        invariant
            k <= keywords.len(),
            hay@ == text@,
            words == strings(keywords@),
            first_present(text@, words, 0) == first_present(text@, words, k as int),
        decreases keywords.len() - k,
    {
        assert(words[k as int] == keywords@[k as int]@);
        let needle = chars_of(keywords[k].as_str());
        if contains_chars(&hay, &needle) {
            return Some(k);
        }
        k += 1;
    }
    None
}

/// Whether every keyword occurs in `text`.
pub fn holds_all(text: &str, keywords: &Vec<String>) -> (r: bool)
    ensures
        r == all_present(text@, strings(keywords@), 0),
{
    let ghost words = strings(keywords@);
    let hay = chars_of(text);
    let mut k: usize = 0;
    while k < keywords.len()
        invariant
            k <= keywords.len(),
            hay@ == text@,
            words == strings(keywords@),
            all_present(text@, words, 0) == all_present(text@, words, k as int),
        decreases keywords.len() - k,
    {
        assert(words[k as int] == keywords@[k as int]@);
        let needle = chars_of(keywords[k].as_str());
        if !contains_chars(&hay, &needle) {
            return false;
        }
        k += 1;
    }
    true
}

} // verus!
