//! Looking at a whole tree: counting its elements and writing it out as an
//! indented outline.

use crate::bounds::serialize;
use crate::client::AdbClient;
use crate::element::{lemma_view_children, views, ElementView, UIElement};
use crate::search::{lemma_preorder_all_step, preorder, preorder_all, ref_views};
use crate::text::{append_chars, append_str, chars_of, string_of, trim, trim_chars};
use vstd::prelude::*;

verus! {

/// How many elements a tree has, and how many of them are of some kinds.
#[derive(Clone, Copy, Debug, PartialEq, Eq, Structural)]
pub struct ElementStats {
    /// All elements.
    pub total: usize,
    /// The clickable ones.
    pub clickable: usize,
    /// Those with a text that is not blank.
    pub with_text: usize,
    /// Those with a resource identifier.
    pub with_id: usize,
}

/// Whether the element has a text that is not blank.
pub open spec fn has_text(e: ElementView) -> bool {
    match e.text {
        Some(t) => trim(t).len() > 0,
        None => false,
    }
}

/// How many of the elements are clickable.
pub open spec fn count_clickable(es: Seq<ElementView>) -> nat
    decreases es.len(),
{
    if es.len() == 0 {
        0
    } else {
        count_clickable(es.drop_last()) + if es.last().clickable {
            1nat
        } else {
            0nat
        }
    }
}

/// How many of the elements have a text that is not blank.
pub open spec fn count_with_text(es: Seq<ElementView>) -> nat
    decreases es.len(),
{
    if es.len() == 0 {
        0
    } else {
        count_with_text(es.drop_last()) + if has_text(es.last()) {
            1nat
        } else {
            0nat
        }
    }
}

/// How many of the elements have a resource identifier.
pub open spec fn count_with_id(es: Seq<ElementView>) -> nat
    decreases es.len(),
{
    if es.len() == 0 {
        0
    } else {
        count_with_id(es.drop_last()) + if es.last().resource_id is Some {
            1nat
        } else {
            0nat
        }
    }
}

/// Appends to `out` the elements of the tree `element`, in document order.
pub fn flatten<'a>(element: &'a UIElement, out: &mut Vec<&'a UIElement>)
    ensures
        ref_views(final(out)@) == ref_views(old(out)@) + preorder(element@),
    decreases element,
{
    let ghost before = out@;
    let ghost kids = element@.children;
    proof {
        lemma_view_children(*element);
    }
    out.push(element);
    assert(ref_views(out@) =~= ref_views(before) + seq![element@]);
    let mut i: usize = 0;
    assert(kids.take(0) =~= Seq::<ElementView>::empty());
    assert(ref_views(out@) =~= ref_views(before) + seq![element@] + preorder_all(kids.take(0)));
    while i < element.children.len()
        invariant
            i <= element.children.len(),
            kids == element@.children,
            kids == views(element.children@),
            ref_views(out@) == ref_views(before) + seq![element@] + preorder_all(
                kids.take(i as int),
            ),
        decreases element.children.len() - i,
    {
        flatten(&element.children[i], out);
        proof {
            lemma_preorder_all_step(kids, i as int);
            assert(ref_views(out@) =~= ref_views(before) + seq![element@] + preorder_all(
                kids.take(i + 1),
            ));
        }
        i += 1;
    }
    proof {
        assert(kids.take(i as int) =~= kids);
        assert(ref_views(out@) =~= ref_views(before) + preorder(element@));
    }
}

/// Counts the elements of a tree.
pub fn count_elements(element: &UIElement) -> (stats: ElementStats)
    ensures
        stats.total == preorder(element@).len(),
        stats.clickable == count_clickable(preorder(element@)),
        stats.with_text == count_with_text(preorder(element@)),
        stats.with_id == count_with_id(preorder(element@)),
{
    let mut all: Vec<&UIElement> = Vec::new();
    flatten(element, &mut all);
    let ghost es = preorder(element@);
    assert(ref_views(all@) =~= es);
    assert(ref_views(all@).len() == all.len());
    let mut clickable: usize = 0;
    let mut with_text: usize = 0;
    let mut with_id: usize = 0;
    let mut i: usize = 0;
    assert(es.take(0) =~= Seq::<ElementView>::empty());
    while i < all.len()
        invariant
            i <= all.len(),
            ref_views(all@) == es,
            clickable <= i,
            with_text <= i,
            with_id <= i,
            clickable == count_clickable(es.take(i as int)),
            with_text == count_with_text(es.take(i as int)),
            with_id == count_with_id(es.take(i as int)),
        decreases all.len() - i,
    {
        assert(es.take(i + 1).drop_last() =~= es.take(i as int));
        assert(es[i as int] == all@[i as int]@);
        let e = all[i];
        if e.clickable {
            clickable += 1;
        }
        let texted = match &e.text {
            Some(t) => {
                let chars = chars_of(t.as_str());
                trim_chars(&chars).len() > 0
            },
            None => false,
        };
        if texted {
            with_text += 1;
        }
        if e.resource_id.is_some() {
            with_id += 1;
        }
        i += 1;
    }
    assert(es.take(i as int) =~= es);
    ElementStats { total: all.len(), clickable, with_text, with_id }
}

/// Two blanks for each level of `indent`.
pub open spec fn padding(indent: nat) -> Seq<char>
    decreases indent,
{
    if indent == 0 {
        Seq::empty()
    } else {
        padding((indent - 1) as nat) + seq![' ', ' ']
    }
}

/// A line of the outline that is written only where `present` holds.
pub open spec fn detail(pad: Seq<char>, label: Seq<char>, value: Seq<char>, close: Seq<char>,
    present: bool) -> Seq<Seq<char>> {
    if present {
        seq![pad + label + value + close]
    } else {
        Seq::empty()
    }
}

/// The characters of an optional text; none where there is no text.
pub open spec fn chars_or_none(field: Option<Seq<char>>) -> Seq<char> {
    match field {
        Some(t) => t,
        None => Seq::empty(),
    }
}

/// Whether an optional text is there and not blank.
pub open spec fn visible(field: Option<Seq<char>>) -> bool {
    match field {
        Some(t) => trim(t).len() > 0,
        None => false,
    }
}

/// The first lines that describe an element, behind the padding `pad`: its
/// tag in square brackets, then, each on a line of its own and two blanks
/// further in, its class, and its text and its description where they are not
/// blank.
pub open spec fn naming_lines(e: ElementView, pad: Seq<char>) -> Seq<Seq<char>> {
    seq![pad + seq!['['] + e.tag + seq![']']] + detail(
        pad,
        "  class: "@,
        chars_or_none(e.class),
        Seq::empty(),
        e.class is Some,
    ) + detail(pad, "  text: \""@, chars_or_none(e.text), seq!['"'], visible(e.text)) + detail(
        pad,
        "  content-desc: \""@,
        chars_or_none(e.content_desc),
        seq!['"'],
        visible(e.content_desc),
    )
}

/// The other lines that describe an element: its resource identifier, its
/// bounds, and that it is clickable.
pub open spec fn placing_lines(e: ElementView, pad: Seq<char>) -> Seq<Seq<char>> {
    detail(
        pad,
        "  resource-id: "@,
        chars_or_none(e.resource_id),
        Seq::empty(),
        e.resource_id is Some,
    ) + detail(
        pad,
        "  bounds: "@,
        match e.bounds {
            Some(b) => serialize(b),
            None => Seq::empty(),
        },
        Seq::empty(),
        e.bounds is Some,
    ) + detail(pad, "  clickable: true"@, Seq::empty(), Seq::empty(), e.clickable)
}

/// The lines that describe the element itself, behind the padding `pad`.
pub open spec fn own_lines(e: ElementView, pad: Seq<char>) -> Seq<Seq<char>> {
    naming_lines(e, pad) + placing_lines(e, pad)
}

/// The outline of a tree behind the padding `pad`: the lines of the element,
/// then the outline of each child, in order, two blanks further in.
pub open spec fn outline(e: ElementView, pad: Seq<char>) -> Seq<Seq<char>>
    decreases e,
{
    own_lines(e, pad) + outline_all(e.children, pad + seq![' ', ' '])
}

/// The outlines of a row of trees, one after the other.
pub open spec fn outline_all(es: Seq<ElementView>, pad: Seq<char>) -> Seq<Seq<char>>
    decreases es,
{
    if es.len() == 0 {
        Seq::empty()
    } else {
        outline_all(es.drop_last(), pad) + outline(es.last(), pad)
    }
}

/// The views of a list of strings.
pub open spec fn texts(v: Seq<String>) -> Seq<Seq<char>> {
    v.map_values(|s: String| s@)
}

/// Appends to `out` a line of the outline, where `present` holds.
fn push_detail(
    out: &mut Vec<String>,
    pad: &Vec<char>,
    label: &str,
    value: &Vec<char>,
    close: &Vec<char>,
    present: bool,
)
    ensures
        texts(final(out)@) == texts(old(out)@) + detail(pad@, label@, value@, close@, present),
{
    if present {
        let mut line: Vec<char> = Vec::new();
        append_chars(&mut line, pad);
        append_str(&mut line, label);
        append_chars(&mut line, value);
        append_chars(&mut line, close);
        assert(line@ =~= pad@ + label@ + value@ + close@);
        let s = string_of(&line);
        out.push(s);
        assert(texts(out@) =~= texts(old(out)@) + detail(pad@, label@, value@, close@, present));
    } else {
        assert(texts(out@) =~= texts(old(out)@) + detail(pad@, label@, value@, close@, present));
    }
}

/// The characters of an optional string, and whether it is there and, where
/// `shown` is asked for, not blank.
fn optional_chars(field: &Option<String>, shown: bool) -> (r: (Vec<char>, bool))
    ensures
        r.0@ == chars_or_none(crate::element::opt_view(*field)),
        r.1 == if shown {
            visible(crate::element::opt_view(*field))
        } else {
            field is Some
        },
{
    match field {
        Some(s) => {
            let chars = chars_of(s.as_str());
            let present = if shown {
                trim_chars(&chars).len() > 0
            } else {
                true
            };
            (chars, present)
        },
        None => (Vec::new(), false),
    }
}

/// Appends to `out` the first lines that describe the element.
fn push_naming_lines(element: &UIElement, pad: &Vec<char>, out: &mut Vec<String>)
    ensures
        texts(final(out)@) == texts(old(out)@) + naming_lines(element@, pad@),
{
    let empty: Vec<char> = Vec::new();
    let mut quote: Vec<char> = Vec::new();
    quote.push('"');
    assert(quote@ =~= seq!['"']);
    let mut head: Vec<char> = Vec::new();
    append_chars(&mut head, pad);
    head.push('[');
    append_str(&mut head, element.tag.as_str());
    head.push(']');
    assert(head@ =~= pad@ + seq!['['] + element@.tag + seq![']']);
    let ghost start = texts(out@);
    let ghost l0 = seq![head@];
    out.push(string_of(&head));
    assert(texts(out@) =~= start + l0);
    let (class, has_class) = optional_chars(&element.class, false);
    let ghost l1 = l0 + detail(pad@, "  class: "@, class@, empty@, has_class);
    push_detail(out, pad, "  class: ", &class, &empty, has_class);
    assert(texts(out@) =~= start + l1);
    let (text, has_text) = optional_chars(&element.text, true);
    let ghost l2 = l1 + detail(pad@, "  text: \""@, text@, quote@, has_text);
    push_detail(out, pad, "  text: \"", &text, &quote, has_text);
    assert(texts(out@) =~= start + l2);
    let (desc, has_desc) = optional_chars(&element.content_desc, true);
    let ghost l3 = l2 + detail(pad@, "  content-desc: \""@, desc@, quote@, has_desc);
    push_detail(out, pad, "  content-desc: \"", &desc, &quote, has_desc);
    assert(texts(out@) =~= start + l3);
}

/// Appends to `out` the other lines that describe the element.
fn push_placing_lines(element: &UIElement, pad: &Vec<char>, out: &mut Vec<String>)
    ensures
        texts(final(out)@) == texts(old(out)@) + placing_lines(element@, pad@),
{
    let empty: Vec<char> = Vec::new();
    let ghost start = texts(out@);
    let (id, has_id) = optional_chars(&element.resource_id, false);
    let ghost l1 = detail(pad@, "  resource-id: "@, id@, empty@, has_id);
    push_detail(out, pad, "  resource-id: ", &id, &empty, has_id);
    let (bounds, has_bounds) = match &element.bounds {
        Some(b) => {
            let s = b.to_string();
            (chars_of(s.as_str()), true)
        },
        None => (Vec::new(), false),
    };
    let ghost l2 = l1 + detail(pad@, "  bounds: "@, bounds@, empty@, has_bounds);
    push_detail(out, pad, "  bounds: ", &bounds, &empty, has_bounds);
    assert(texts(out@) =~= start + l2);
    let ghost l3 = l2 + detail(pad@, "  clickable: true"@, empty@, empty@, element.clickable);
    push_detail(out, pad, "  clickable: true", &empty, &empty, element.clickable);
    assert(texts(out@) =~= start + l3);
}

/// Appends to `out` the lines that describe the element itself.
fn push_own_lines(element: &UIElement, pad: &Vec<char>, out: &mut Vec<String>)
    ensures
        texts(final(out)@) == texts(old(out)@) + own_lines(element@, pad@),
{
    let ghost start = texts(out@);
    push_naming_lines(element, pad, out);
    push_placing_lines(element, pad, out);
    assert(texts(out@) =~= start + (naming_lines(element@, pad@) + placing_lines(
        element@,
        pad@,
    )));
}

/// Appends to `out` the outline of the tree `element` behind the padding
/// `pad`.
pub fn push_outline(element: &UIElement, pad: &Vec<char>, out: &mut Vec<String>)
    ensures
        texts(final(out)@) == texts(old(out)@) + outline(element@, pad@),
    decreases element,
{
    let ghost before = texts(out@);
    let ghost kids = element@.children;
    proof {
        lemma_view_children(*element);
    }
    push_own_lines(element, pad, out);
    let mut deeper: Vec<char> = Vec::new();
    append_chars(&mut deeper, pad);
    deeper.push(' ');
    deeper.push(' ');
    assert(deeper@ =~= pad@ + seq![' ', ' ']);
    let mut i: usize = 0;
    assert(kids.take(0) =~= Seq::<ElementView>::empty());
    assert(texts(out@) =~= before + own_lines(element@, pad@) + outline_all(
        kids.take(0),
        deeper@,
    ));
    while i < element.children.len()
        invariant
            i <= element.children.len(),
            kids == element@.children,
            kids == views(element.children@),
            deeper@ == pad@ + seq![' ', ' '],
            texts(out@) == before + own_lines(element@, pad@) + outline_all(
                kids.take(i as int),
                deeper@,
            ),
        decreases element.children.len() - i,
    {
        push_outline(&element.children[i], &deeper, out);
        proof {
            assert(kids.take(i + 1).drop_last() =~= kids.take(i as int));
            assert(texts(out@) =~= before + own_lines(element@, pad@) + outline_all(
                kids.take(i + 1),
                deeper@,
            ));
        }
        i += 1;
    }
    proof {
        assert(kids.take(i as int) =~= kids);
        assert(texts(out@) =~= before + outline(element@, pad@));
    }
}

impl AdbClient {
    /// The outline of the tree `element`, `indent` levels in, line by line.
    pub fn hierarchy_lines(&self, element: &UIElement, indent: usize) -> (out: Vec<String>)
        ensures
            texts(out@) == outline(element@, padding(indent as nat)),
    {
        let mut pad: Vec<char> = Vec::new();
        let mut i: usize = 0;
        while i < indent
            invariant
                i <= indent,
                pad@ == padding(i as nat),
            decreases indent - i,
        {
            pad.push(' ');
            pad.push(' ');
            i += 1;
            assert(pad@ =~= padding((i - 1) as nat) + seq![' ', ' ']);
        }
        let mut out: Vec<String> = Vec::new();
        push_outline(element, &pad, &mut out);
        assert(texts(out@) =~= outline(element@, pad@));
        out
    }
}

} // verus!
