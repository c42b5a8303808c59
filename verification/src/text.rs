//! Character-level text operations with exact contracts.
//!
//! Every function here works on the sequence of Unicode scalar values of a
//! string (`s@`), never on bytes, so an index always names a whole character.

use vstd::prelude::*;

verus! {

/// `String::push`: appends one character to the end of the string.
#[verifier::external_body]
fn push_char(s: &mut String, c: char)
    ensures
        final(s)@ == old(s)@.push(c),
{
    s.push(c)
}

/// The characters of `s`, in order.
pub fn chars_of(s: &str) -> (v: Vec<char>)
    ensures
        v@ == s@,
{
    let mut v: Vec<char> = Vec::new();
    for c in it: s.chars()
        invariant
            it.seq() == s@,
            v@ == s@.take(it.index() as int),
    {
        v.push(c);
    }
    v
}

/// The string made of the characters of `v`, in order.
pub fn string_of(v: &Vec<char>) -> (s: String)
    ensures
        s@ == v@,
{
    let mut s = String::new();
    let mut i: usize = 0;
    while i < v.len()
        invariant
            i <= v.len(),
            s@ == v@.take(i as int),
        decreases v.len() - i,
    {
        push_char(&mut s, v[i]);
        i += 1;
    }
    s
}

/// Appends the characters of `tail` to `v`.
pub fn append_chars(v: &mut Vec<char>, tail: &Vec<char>)
    ensures
        final(v)@ == old(v)@ + tail@,
{
    let mut i: usize = 0;
    while i < tail.len()
        invariant
            i <= tail.len(),
            v@ == old(v)@ + tail@.take(i as int),
        decreases tail.len() - i,
    {
        v.push(tail[i]);
        i += 1;
    }
}

/// Appends the characters of `tail` to `v`.
pub fn append_str(v: &mut Vec<char>, tail: &str)
    ensures
        final(v)@ == old(v)@ + tail@,
{
    let t = chars_of(tail);
    append_chars(v, &t);
}

/// A copy of `v[from..to]`.
pub fn slice_chars(v: &Vec<char>, from: usize, to: usize) -> (r: Vec<char>)
    requires
        from <= to <= v.len(),
    ensures
        r@ == v@.subrange(from as int, to as int),
{
    let mut r: Vec<char> = Vec::new();
    let mut i: usize = from;
    while i < to
        invariant
            from <= i <= to <= v.len(),
            r@ == v@.subrange(from as int, i as int),
        decreases to - i,
    {
        r.push(v[i]);
        i += 1;
    }
    r
}

/// Whether the two vectors hold the same characters.
pub fn chars_eq(a: &Vec<char>, b: &Vec<char>) -> (r: bool)
    ensures
        r == (a@ == b@),
{
    if a.len() != b.len() {
        return false;
    }
    let mut i: usize = 0;
    while i < a.len()
        invariant
            i <= a.len(),
            a.len() == b.len(),
            a@.take(i as int) == b@.take(i as int),
        decreases a.len() - i,
    {
        if a[i] != b[i] {
            return false;
        }
        assert(a@.take(i + 1) == a@.take(i as int).push(a@[i as int]));
        assert(b@.take(i + 1) == b@.take(i as int).push(b@[i as int]));
        i += 1;
    }
    assert(a@ == a@.take(a.len() as int));
    assert(b@ == b@.take(b.len() as int));
    true
}

/// Whether the two strings hold the same characters.
pub fn str_eq(a: &str, b: &str) -> (r: bool)
    ensures
        r == (a@ == b@),
{
    let x = chars_of(a);
    let y = chars_of(b);
    chars_eq(&x, &y)
}

// ---------------------------------------------------------------------------
// Substring search

/// `needle` occurs in `hay` starting at index `i`.
pub open spec fn matches_at(hay: Seq<char>, needle: Seq<char>, i: int) -> bool {
    0 <= i && i + needle.len() <= hay.len() && hay.subrange(i, i + needle.len()) == needle
}

/// `needle` occurs somewhere in `hay` as a contiguous run of characters.
pub open spec fn contains(hay: Seq<char>, needle: Seq<char>) -> bool {
    exists|i: int| matches_at(hay, needle, i)
}

/// Whether `needle` occurs in `hay` at index `i`.
pub fn occurs_at(hay: &Vec<char>, needle: &Vec<char>, i: usize) -> (r: bool)
    ensures
        r == matches_at(hay@, needle@, i as int),
{
    if needle.len() > hay.len() || i > hay.len() - needle.len() {
        return false;
    }
    let mut k: usize = 0;
    while k < needle.len()
        invariant
            k <= needle.len(),
            i + needle.len() <= hay.len(),
            forall|j: int| 0 <= j < k ==> hay@[i + j] == needle@[j],
        decreases needle.len() - k,
    {
        if hay[i + k] != needle[k] {
            assert(hay@.subrange(i as int, i + needle.len())[k as int] == hay@[i + k]);
            return false;
        }
        k += 1;
    }
    assert(hay@.subrange(i as int, i + needle.len()) =~= needle@);
    true
}

/// The first index at or after `from` where `needle` occurs in `hay`.
pub fn find(hay: &Vec<char>, needle: &Vec<char>, from: usize) -> (r: Option<usize>)
    ensures
        match r {
            Some(i) => from <= i && matches_at(hay@, needle@, i as int) && forall|j: int|
                from <= j < i ==> !matches_at(hay@, needle@, j),
            None => forall|j: int| from <= j ==> !matches_at(hay@, needle@, j),
        },
{
    if needle.len() > hay.len() {
        return None;
    }
    let last: usize = hay.len() - needle.len();
    let mut i: usize = from;
    while i < last
        invariant
            from <= i,
            last == hay.len() - needle.len(),
            forall|j: int| from <= j < i ==> !matches_at(hay@, needle@, j),
        decreases last - i,
    {
        if occurs_at(hay, needle, i) {
            return Some(i);
        }
        i += 1;
    }
    if i == last && occurs_at(hay, needle, i) {
        return Some(i);
    }
    None
}

/// Whether `needle` occurs in `hay`.
pub fn contains_chars(hay: &Vec<char>, needle: &Vec<char>) -> (r: bool)
    ensures
        r == contains(hay@, needle@),
{
    match find(hay, needle, 0) {
        Some(i) => {
            assert(matches_at(hay@, needle@, i as int));
            true
        },
        None => false,
    }
}

/// Whether `needle` occurs in `hay`; the empty string occurs in every string.
pub fn str_contains(hay: &str, needle: &str) -> (r: bool)
    ensures
        r == contains(hay@, needle@),
{
    let h = chars_of(hay);
    let n = chars_of(needle);
    contains_chars(&h, &n)
}

/// Whether `s` begins with `prefix`.
pub fn starts_with(s: &Vec<char>, prefix: &Vec<char>) -> (r: bool)
    ensures
        r == prefix@.is_prefix_of(s@),
{
    let r = occurs_at(s, prefix, 0);
    proof {
        if prefix@.len() <= s@.len() {
            assert(s@.subrange(0, prefix@.len() as int) =~= s@.take(prefix@.len() as int));
        }
        if r {
            assert(prefix@ =~= s@.subrange(0, prefix@.len() as int));
        }
    }
    r
}

// ---------------------------------------------------------------------------
// Character classes and trimming

/// A set of characters that can be stripped from the ends of a string.
#[derive(Clone, Copy, Debug, PartialEq, Eq, Structural)]
pub enum CharClass {
    /// The characters with the Unicode property `White_Space`.
    Whitespace,
    /// The two square brackets.
    Brackets,
    /// Every character that is not whitespace.
    Visible,
}

/// The characters with the Unicode property `White_Space`.
pub open spec fn is_whitespace(c: char) -> bool {
    let u = c as u32;
    ||| 0x09 <= u <= 0x0D
    ||| u == 0x20
    ||| u == 0x85
    ||| u == 0xA0
    ||| u == 0x1680
    ||| 0x2000 <= u <= 0x200A
    ||| u == 0x2028
    ||| u == 0x2029
    ||| u == 0x202F
    ||| u == 0x205F
    ||| u == 0x3000
}

impl CharClass {
    /// Whether `c` belongs to the class.
    pub open spec fn has(self, c: char) -> bool {
        match self {
            CharClass::Whitespace => is_whitespace(c),
            CharClass::Brackets => c == '[' || c == ']',
            CharClass::Visible => !is_whitespace(c),
        }
    }

    /// Whether `c` belongs to the class.
    pub fn holds(self, c: char) -> (r: bool)
        ensures
            r == self.has(c),
    {
        match self {
            CharClass::Whitespace => whitespace(c),
            CharClass::Brackets => c == '[' || c == ']',
            CharClass::Visible => !whitespace(c),
        }
    }
}

/// Whether `c` has the Unicode property `White_Space`.
pub fn whitespace(c: char) -> (r: bool)
    ensures
        r == is_whitespace(c),
{
    let u: u32 = c as u32;
    (0x09 <= u && u <= 0x0D) || u == 0x20 || u == 0x85 || u == 0xA0 || u == 0x1680 || (0x2000
        <= u && u <= 0x200A) || u == 0x2028 || u == 0x2029 || u == 0x202F || u == 0x205F || u
        == 0x3000
}

/// How many leading characters of `s` belong to `class`.
pub open spec fn leading(s: Seq<char>, class: CharClass) -> nat
    decreases s.len(),
{
    if s.len() > 0 && class.has(s[0]) {
        1 + leading(s.drop_first(), class)
    } else {
        0
    }
}

/// How many trailing characters of `s` belong to `class`.
pub open spec fn trailing(s: Seq<char>, class: CharClass) -> nat
    decreases s.len(),
{
    if s.len() > 0 && class.has(s.last()) {
        1 + trailing(s.drop_last(), class)
    } else {
        0
    }
}

/// `s` without its leading and trailing characters of `class`.
pub open spec fn strip(s: Seq<char>, class: CharClass) -> Seq<char> {
    let rest = s.skip(leading(s, class) as int);
    rest.take(rest.len() - trailing(rest, class))
}

/// `s` without leading and trailing whitespace.
pub open spec fn trim(s: Seq<char>) -> Seq<char> {
    strip(s, CharClass::Whitespace)
}

/// `leading` counts exactly the longest prefix made of characters of the class.
pub proof fn lemma_leading(s: Seq<char>, class: CharClass, n: int)
    requires
        0 <= n <= s.len(),
        forall|j: int| 0 <= j < n ==> class.has(s[j]),
        n == s.len() || !class.has(s[n]),
    ensures
        leading(s, class) == n,
    decreases n,
{
    if n > 0 {
        lemma_leading(s.drop_first(), class, n - 1);
    }
}

/// `trailing` counts exactly the longest suffix made of characters of the class.
pub proof fn lemma_trailing(s: Seq<char>, class: CharClass, n: int)
    requires
        0 <= n <= s.len(),
        forall|j: int| s.len() - n <= j < s.len() ==> class.has(s[j]),
        n == s.len() || !class.has(s[s.len() - n - 1]),
    ensures
        trailing(s, class) == n,
    decreases n,
{
    if n > 0 {
        lemma_trailing(s.drop_last(), class, n - 1);
    }
}

/// `v` without its leading and trailing characters of `class`.
pub fn strip_chars(v: &Vec<char>, class: CharClass) -> (r: Vec<char>)
    ensures
        r@ == strip(v@, class),
{
    let n = v.len();
    let mut start: usize = 0;
    while start < n && class.holds(v[start])
        invariant
            start <= n,
            n == v.len(),
            forall|j: int| 0 <= j < start ==> class.has(v@[j]),
        decreases n - start,
    {
        start += 1;
    }
    let mut end: usize = n;
    while end > start && class.holds(v[end - 1])
        invariant
            start <= end <= n,
            n == v.len(),
            forall|j: int| end <= j < n ==> class.has(v@[j]),
        decreases end,
    {
        end -= 1;
    }
    proof {
        lemma_leading(v@, class, start as int);
        let rest = v@.skip(start as int);
        lemma_trailing(rest, class, n - end);
        assert(rest.take(rest.len() - (n - end)) =~= v@.subrange(start as int, end as int));
    }
    slice_chars(v, start, end)
}

/// `s` without leading and trailing whitespace.
pub fn trim_chars(v: &Vec<char>) -> (r: Vec<char>)
    ensures
        r@ == trim(v@),
{
    strip_chars(v, CharClass::Whitespace)
}

// ---------------------------------------------------------------------------
// Splitting

/// The view of each row.
pub open spec fn rows(parts: Seq<Vec<char>>) -> Seq<Seq<char>> {
    parts.map_values(|p: Vec<char>| p@)
}

/// The first index at or after `from` where `needle` occurs in `hay`.
pub open spec fn next_match(hay: Seq<char>, needle: Seq<char>, from: int) -> Option<int>
    decreases hay.len() - from + 1,
{
    if from < 0 || from + needle.len() > hay.len() {
        None
    } else if matches_at(hay, needle, from) {
        Some(from)
    } else {
        next_match(hay, needle, from + 1)
    }
}

/// The pieces of `s` between the occurrences of `sep`, found from left to
/// right without overlap. A string with `k` occurrences has `k + 1` pieces;
/// pieces may be empty. With an empty separator the string is its only piece.
pub open spec fn split(s: Seq<char>, sep: Seq<char>) -> Seq<Seq<char>>
    decreases s.len(),
{
    match next_match(s, sep, 0) {
        Some(i) => if sep.len() > 0 && 0 <= i && i + sep.len() <= s.len() {
            seq![s.take(i)] + split(s.skip(i + sep.len()), sep)
        } else {
            seq![s]
        },
        None => seq![s],
    }
}

/// `next_match` is the least matching index at or after `from`.
pub proof fn lemma_next_match_some(hay: Seq<char>, needle: Seq<char>, from: int, i: int)
    requires
        0 <= from <= i,
        matches_at(hay, needle, i),
        forall|j: int| from <= j < i ==> !matches_at(hay, needle, j),
    ensures
        next_match(hay, needle, from) == Some(i),
    decreases i - from,
{
    if from < i {
        lemma_next_match_some(hay, needle, from + 1, i);
    }
}

/// `next_match` is `None` where nothing matches at or after `from`.
pub proof fn lemma_next_match_none(hay: Seq<char>, needle: Seq<char>, from: int)
    requires
        forall|j: int| from <= j ==> !matches_at(hay, needle, j),
    ensures
        next_match(hay, needle, from) is None,
    decreases hay.len() - from + 1,
{
    if !(from < 0 || from + needle.len() > hay.len()) {
        lemma_next_match_none(hay, needle, from + 1);
    }
}

/// A match in the tail of a string is a match in the string, shifted.
pub proof fn lemma_matches_at_skip(hay: Seq<char>, needle: Seq<char>, k: int, j: int)
    requires
        0 <= k <= hay.len(),
        0 <= j,
    ensures
        matches_at(hay.skip(k), needle, j) == matches_at(hay, needle, k + j),
{
    if j + needle.len() <= hay.len() - k {
        assert(hay.skip(k).subrange(j, j + needle.len()) =~= hay.subrange(
            k + j,
            k + j + needle.len(),
        ));
    }
}

/// The pieces of `s` between the occurrences of `sep`.
pub fn split_chars(s: &Vec<char>, sep: &Vec<char>) -> (parts: Vec<Vec<char>>)
    ensures
        rows(parts@) == split(s@, sep@),
        parts.len() >= 1,
{
    let n = s.len();
    let mut parts: Vec<Vec<char>> = Vec::new();
    if sep.len() == 0 {
        let whole = slice_chars(s, 0, n);
        assert(whole@ =~= s@);
        parts.push(whole);
        assert(rows(parts@) =~= seq![s@]);
        return parts;
    }
    let mut start: usize = 0;
    proof {
        assert(s@.skip(0) =~= s@);
        assert(rows(parts@) + split(s@, sep@) =~= split(s@, sep@));
    }
    loop
        invariant
            start <= n,
            n == s.len(),
            sep.len() > 0,
            split(s@, sep@) == rows(parts@) + split(s@.skip(start as int), sep@),
        decreases n - start,
    {
        let ghost rest = s@.skip(start as int);
        match find(s, sep, start) {
            Some(i) => {
                proof {
                    assert forall|j: int| 0 <= j < i - start implies !matches_at(
                        rest,
                        sep@,
                        j,
                    ) by {
                        lemma_matches_at_skip(s@, sep@, start as int, j);
                    }
                    lemma_matches_at_skip(s@, sep@, start as int, i - start);
                    lemma_next_match_some(rest, sep@, 0, i - start);
                    assert(rest.take(i - start) =~= s@.subrange(start as int, i as int));
                    assert(rest.skip(i - start + sep.len()) =~= s@.skip(i + sep.len()));
                }
                let piece = slice_chars(s, start, i);
                let ghost before = parts@;
                parts.push(piece);
                proof {
                    assert(rows(parts@) =~= rows(before).push(piece@));
                    assert(rows(before) + (seq![piece@] + split(s@.skip(i + sep.len()), sep@))
                        =~= rows(parts@) + split(s@.skip(i + sep.len()), sep@));
                }
                start = i + sep.len();
            },
            None => {
                proof {
                    assert forall|j: int| 0 <= j implies !matches_at(rest, sep@, j) by {
                        lemma_matches_at_skip(s@, sep@, start as int, j);
                    }
                    lemma_next_match_none(rest, sep@, 0);
                    assert(rest =~= s@.subrange(start as int, n as int));
                }
                let piece = slice_chars(s, start, n);
                let ghost before = parts@;
                parts.push(piece);
                proof {
                    assert(rows(parts@) =~= rows(before).push(piece@));
                    assert(rows(before) + seq![piece@] =~= rows(parts@));
                }
                return parts;
            },
        }
    }
}

/// The pieces of `s` between the occurrences of the character `sep`.
pub fn split_on(s: &Vec<char>, sep: char) -> (parts: Vec<Vec<char>>)
    ensures
        rows(parts@) == split(s@, seq![sep]),
        parts.len() >= 1,
{
    let mut pattern: Vec<char> = Vec::new();
    pattern.push(sep);
    assert(pattern@ =~= seq![sep]);
    split_chars(s, &pattern)
}

/// `s` without one trailing carriage return, if it has one.
pub open spec fn without_cr(s: Seq<char>) -> Seq<char> {
    if s.len() > 0 && s.last() == '\r' {
        s.drop_last()
    } else {
        s
    }
}

/// The lines of `s`. A line ends at a line feed or at a carriage return
/// followed by a line feed; neither is part of the line. What follows the last
/// line feed is a line of its own unless it is empty.
pub open spec fn lines(s: Seq<char>) -> Seq<Seq<char>> {
    let pieces = split(s, seq!['\n']);
    let last = pieces.len() - 1;
    let ended = Seq::new(last as nat, |i: int| without_cr(pieces[i]));
    if last >= 0 && pieces[last].len() > 0 {
        ended.push(pieces[last])
    } else {
        ended
    }
}

/// The lines of `s`.
pub fn lines_of(s: &Vec<char>) -> (r: Vec<Vec<char>>)
    ensures
        rows(r@) == lines(s@),
{
    let pieces = split_on(s, '\n');
    let last: usize = pieces.len() - 1;
    let ghost spec_pieces = split(s@, seq!['\n']);
    let mut r: Vec<Vec<char>> = Vec::new();
    let mut i: usize = 0;
    while i < last
        invariant
            i <= last,
            last == pieces.len() - 1,
            rows(pieces@) == spec_pieces,
            rows(r@) == Seq::new(i as nat, |k: int| without_cr(spec_pieces[k])),
        decreases last - i,
    {
        let p = &pieces[i];
        assert(p@ == spec_pieces[i as int]);
        let line = if p.len() > 0 && p[p.len() - 1] == '\r' {
            let l = slice_chars(p, 0, p.len() - 1);
            assert(l@ =~= p@.drop_last());
            l
        } else {
            let l = slice_chars(p, 0, p.len());
            assert(l@ =~= p@);
            l
        };
        let ghost before = r@;
        r.push(line);
        proof {
            assert(rows(r@) =~= rows(before).push(line@));
            assert(rows(r@) =~= Seq::new((i + 1) as nat, |k: int| without_cr(spec_pieces[k])));
        }
        i += 1;
    }
    let p = &pieces[last];
    assert(p@ == spec_pieces[last as int]);
    if p.len() > 0 {
        let l = slice_chars(p, 0, p.len());
        assert(l@ =~= p@);
        let ghost before = r@;
        r.push(l);
        assert(rows(r@) =~= rows(before).push(l@));
    }
    r
}

/// The maximal runs of characters of `s` that are not whitespace, in order.
pub open spec fn words(s: Seq<char>) -> Seq<Seq<char>>
    decreases s.len(),
{
    let blank = leading(s, CharClass::Whitespace);
    let rest = s.skip(blank as int);
    let k = leading(rest, CharClass::Visible);
    if blank <= s.len() && 0 < k <= rest.len() {
        seq![rest.take(k as int)] + words(rest.skip(k as int))
    } else {
        Seq::empty()
    }
}

/// The maximal runs of characters of `s` that are not whitespace, in order.
pub fn words_of(s: &Vec<char>) -> (r: Vec<Vec<char>>)
    ensures
        rows(r@) == words(s@),
{
    let n = s.len();
    let mut r: Vec<Vec<char>> = Vec::new();
    let mut pos: usize = 0;
    proof {
        assert(s@.skip(0) =~= s@);
        assert(rows(r@) + words(s@) =~= words(s@));
    }
    loop
        invariant
            pos <= n,
            n == s.len(),
            words(s@) == rows(r@) + words(s@.skip(pos as int)),
        decreases n - pos,
    {
        let ghost tail = s@.skip(pos as int);
        let mut start: usize = pos;
        while start < n && CharClass::Whitespace.holds(s[start])
            invariant
                pos <= start <= n,
                n == s.len(),
                forall|j: int| pos <= j < start ==> is_whitespace(s@[j]),
            decreases n - start,
        {
            start += 1;
        }
        let mut end: usize = start;
        while end < n && CharClass::Visible.holds(s[end])
            invariant
                start <= end <= n,
                n == s.len(),
                forall|j: int| start <= j < end ==> !is_whitespace(s@[j]),
            decreases n - end,
        {
            end += 1;
        }
        proof {
            lemma_leading(tail, CharClass::Whitespace, start - pos);
            let rest = tail.skip(start - pos);
            assert(rest =~= s@.skip(start as int));
            lemma_leading(rest, CharClass::Visible, end - start);
            assert(rest.take(end - start) =~= s@.subrange(start as int, end as int));
            assert(rest.skip(end - start) =~= s@.skip(end as int));
        }
        if end == start {
            assert(rows(r@) + Seq::<Seq<char>>::empty() =~= rows(r@));
            return r;
        }
        let word = slice_chars(s, start, end);
        let ghost before = r@;
        r.push(word);
        proof {
            assert(rows(r@) =~= rows(before).push(word@));
            assert(rows(before) + (seq![word@] + words(s@.skip(end as int))) =~= rows(r@)
                + words(s@.skip(end as int)));
        }
        pos = end;
    }
}

/// Two pieces that are free of the separator's first character, joined by the
/// separator, split into those two pieces.
pub proof fn lemma_split_pair(a: Seq<char>, b: Seq<char>, sep: Seq<char>)
    requires
        sep.len() > 0,
        forall|i: int| 0 <= i < a.len() ==> a[i] != sep[0],
        forall|i: int| 0 <= i < b.len() ==> b[i] != sep[0],
    ensures
        split(a + sep + b, sep) == seq![a, b],
{
    let s = a + sep + b;
    let n = a.len() as int;
    assert(s.subrange(n, n + sep.len()) =~= sep);
    assert forall|j: int| 0 <= j < n implies !matches_at(s, sep, j) by {
        if matches_at(s, sep, j) {
            assert(s.subrange(j, j + sep.len())[0] == s[j]);
        }
    }
    lemma_next_match_some(s, sep, 0, n);
    assert(s.take(n) =~= a);
    assert(s.skip(n + sep.len()) =~= b);
    assert forall|j: int| 0 <= j implies !matches_at(b, sep, j) by {
        if matches_at(b, sep, j) {
            assert(b.subrange(j, j + sep.len())[0] == b[j]);
        }
    }
    lemma_next_match_none(b, sep, 0);
    assert(split(b, sep) =~= seq![b]);
    assert(seq![a] + seq![b] =~= seq![a, b]);
}

} // verus!
