//! Screen rectangles and their text form `[left,top][right,bottom]`.

use crate::error::ParseError;
use crate::number::{
    decimal, is_digit, lemma_decimal_round_trip, lemma_digits_round_trip, parse_i32, push_decimal,
    read_i32,
};
use crate::text::{
    chars_of, lemma_leading, lemma_split_pair, lemma_trailing, rows, split, split_chars, split_on,
    string_of, strip, strip_chars, CharClass,
};
use vstd::prelude::*;

verus! {

/// A rectangle in device pixels.
#[derive(Clone, Copy, Debug, PartialEq, Eq, Structural)]
pub struct Bounds {
    pub left: i32,
    pub top: i32,
    pub right: i32,
    pub bottom: i32,
}

/// Half of `n`, rounded toward zero.
pub open spec fn half(n: int) -> int {
    if n >= 0 {
        n / 2
    } else {
        -((-n) / 2)
    }
}

/// The two integers written by `left,right`.
pub open spec fn parse_pair(group: Seq<char>) -> Option<(i32, i32)> {
    let fields = split(group, seq![',']);
    if fields.len() == 2 {
        match (parse_i32(fields[0]), parse_i32(fields[1])) {
            (Some(a), Some(b)) => Some((a, b)),
            _ => None,
        }
    } else {
        None
    }
}

/// The rectangle written by `s`. Square brackets at either end are dropped,
/// however many; what is left must be two groups with `][` between them, each
/// of them two integers with a comma between them.
pub open spec fn parse_bounds(s: Seq<char>) -> Option<Bounds> {
    let groups = split(strip(s, CharClass::Brackets), seq![']', '[']);
    if groups.len() == 2 {
        match (parse_pair(groups[0]), parse_pair(groups[1])) {
            (Some(a), Some(b)) => Some(Bounds { left: a.0, top: a.1, right: b.0, bottom: b.1 }),
            _ => None,
        }
    } else {
        None
    }
}

/// The text form of a rectangle: `[left,top][right,bottom]`.
pub open spec fn serialize(b: Bounds) -> Seq<char> {
    seq!['['] + decimal(b.left as int) + seq![','] + decimal(b.top as int) + seq![']', '[']
        + decimal(b.right as int) + seq![','] + decimal(b.bottom as int) + seq![']']
}

impl Bounds {
    /// The right edge is not left of the left edge, nor the bottom edge above
    /// the top edge.
    pub open spec fn well_formed(self) -> bool {
        self.left <= self.right && self.top <= self.bottom
    }

    /// Whether the rectangle is well formed.
    pub fn is_well_formed(&self) -> (r: bool)
        ensures
            r == self.well_formed(),
    {
        self.left <= self.right && self.top <= self.bottom
    }

    /// Reads a rectangle from its text form.
    pub fn from_string(bounds_str: &str) -> (r: Result<Bounds, ParseError>)
        ensures
            r == match parse_bounds(bounds_str@) {
                Some(b) => Ok::<Bounds, ParseError>(b),
                None => Err(ParseError::MalformedBounds),
            },
    {
        let chars = chars_of(bounds_str);
        let inner = strip_chars(&chars, CharClass::Brackets);
        let mut between: Vec<char> = Vec::new();
        between.push(']');
        between.push('[');
        assert(between@ =~= seq![']', '[']);
        let groups = split_chars(&inner, &between);
        assert(rows(groups@).len() == groups.len());
        if groups.len() != 2 {
            return Err(ParseError::MalformedBounds);
        }
        assert(rows(groups@)[0] == groups@[0]@);
        assert(rows(groups@)[1] == groups@[1]@);
        let left_top = read_pair(&groups[0]);
        let right_bottom = read_pair(&groups[1]);
        match (left_top, right_bottom) {
            (Some(a), Some(b)) => Ok(Bounds { left: a.0, top: a.1, right: b.0, bottom: b.1 }),
            _ => Err(ParseError::MalformedBounds),
        }
    }

    /// The horizontal centre.
    pub fn center_x(&self) -> (x: i32)
        ensures
            x == half(self.left + self.right),
    {
        let sum: i64 = self.left as i64 + self.right as i64;
        (sum / 2) as i32
    }

    /// The vertical centre.
    pub fn center_y(&self) -> (y: i32)
        ensures
            y == half(self.top + self.bottom),
    {
        let sum: i64 = self.top as i64 + self.bottom as i64;
        (sum / 2) as i32
    }

    /// The centre point.
    pub fn center(&self) -> (p: (i32, i32))
        ensures
            p.0 == half(self.left + self.right),
            p.1 == half(self.top + self.bottom),
    {
        (self.center_x(), self.center_y())
    }

    /// The text form `[left,top][right,bottom]`.
    pub fn to_string(&self) -> (s: String)
        ensures
            s@ == serialize(*self),
    {
        let mut out: Vec<char> = Vec::new();
        out.push('[');
        push_decimal(&mut out, self.left as i64);
        out.push(',');
        push_decimal(&mut out, self.top as i64);
        out.push(']');
        out.push('[');
        push_decimal(&mut out, self.right as i64);
        out.push(',');
        push_decimal(&mut out, self.bottom as i64);
        out.push(']');
        assert(out@ =~= serialize(*self));
        string_of(&out)
    }
}

/// The point written by `x,y`: two integers with a comma between them.
pub fn point_from_string(text: &str) -> (r: Option<(i32, i32)>)
    ensures
        r == parse_pair(text@),
{
    let chars = chars_of(text);
    read_pair(&chars)
}

/// The two integers written by `left,right`.
fn read_pair(group: &Vec<char>) -> (r: Option<(i32, i32)>)
    ensures
        r == parse_pair(group@),
{
    let fields = split_on(group, ',');
    assert(rows(fields@).len() == fields.len());
    if fields.len() != 2 {
        return None;
    }
    assert(rows(fields@)[0] == fields@[0]@);
    assert(rows(fields@)[1] == fields@[1]@);
    match (read_i32(&fields[0]), read_i32(&fields[1])) {
        (Some(a), Some(b)) => Some((a, b)),
        _ => None,
    }
}

/// The decimal form of an integer holds digits and, at most, a leading minus.
pub proof fn lemma_decimal_chars(v: int)
    ensures
        decimal(v).len() > 0,
        forall|i: int|
            0 <= i < decimal(v).len() ==> decimal(v)[i] == '-' || is_digit(decimal(v)[i]),
{
    if v < 0 {
        lemma_digits_round_trip((-v) as nat);
    } else {
        lemma_digits_round_trip(v as nat);
    }
}

/// Two integers in decimal form, with a comma between them, read as a pair.
pub proof fn lemma_pair_round_trip(a: i32, b: i32)
    ensures
        parse_pair(decimal(a as int) + seq![','] + decimal(b as int)) == Some((a, b)),
{
    let x = decimal(a as int);
    let y = decimal(b as int);
    lemma_decimal_chars(a as int);
    lemma_decimal_chars(b as int);
    lemma_split_pair(x, y, seq![',']);
    lemma_decimal_round_trip(a as int);
    lemma_decimal_round_trip(b as int);
}

/// Reading the text form of a rectangle gives the rectangle back. This holds
/// of every rectangle, well formed or not.
pub proof fn lemma_bounds_round_trip(b: Bounds)
    ensures
        parse_bounds(serialize(b)) == Some(b),
{
    let l = decimal(b.left as int);
    let t = decimal(b.top as int);
    let r = decimal(b.right as int);
    let m = decimal(b.bottom as int);
    lemma_decimal_chars(b.left as int);
    lemma_decimal_chars(b.top as int);
    lemma_decimal_chars(b.right as int);
    lemma_decimal_chars(b.bottom as int);
    let first = l + seq![','] + t;
    let second = r + seq![','] + m;
    let between = seq![']', '['];
    let inner = first + between + second;
    let s = serialize(b);
    assert(s =~= seq!['['] + inner + seq![']']);
    assert(s[1] == l[0]);
    assert(s[s.len() - 2] == m[m.len() - 1]);
    lemma_leading(s, CharClass::Brackets, 1);
    let rest = s.skip(1);
    assert(rest =~= inner + seq![']']);
    assert(rest[rest.len() - 2] == m[m.len() - 1]);
    lemma_trailing(rest, CharClass::Brackets, 1);
    assert(strip(s, CharClass::Brackets) =~= inner);
    assert forall|i: int| 0 <= i < first.len() implies first[i] != ']' by {
        if i < l.len() {
            assert(first[i] == l[i]);
        } else if i > l.len() {
            assert(first[i] == t[i - l.len() - 1]);
        }
    }
    assert forall|i: int| 0 <= i < second.len() implies second[i] != ']' by {
        if i < r.len() {
            assert(second[i] == r[i]);
        } else if i > r.len() {
            assert(second[i] == m[i - r.len() - 1]);
        }
    }
    lemma_split_pair(first, second, between);
    lemma_pair_round_trip(b.left, b.top);
    lemma_pair_round_trip(b.right, b.bottom);
}

} // verus!
