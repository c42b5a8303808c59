//! Contacts as vCard 2.1 text, with phone numbers written the Chinese way, and
//! what the import of such a file into a device has to decide.

use crate::batch::{classify, judge, Thresholds, Verdict};
use crate::contact::{fields, fields_of};
use crate::error::ParseError;
use crate::text::{
    append_chars, append_str, chars_of, contains, contains_chars, lines, lines_of, rows,
    slice_chars, starts_with, string_of, trim, trim_chars,
};
use vstd::prelude::*;

verus! {

/// A contact with all five fields; a field that is not known is empty.
#[derive(Debug)]
pub struct Contact {
    pub name: String,
    pub phone: String,
    pub address: String,
    pub note: String,
    pub email: String,
}

/// A contact, as mathematical values.
pub ghost struct ContactView {
    pub name: Seq<char>,
    pub phone: Seq<char>,
    pub address: Seq<char>,
    pub note: Seq<char>,
    pub email: Seq<char>,
}

impl View for Contact {
    type V = ContactView;

    open spec fn view(&self) -> ContactView {
        ContactView {
            name: self.name@,
            phone: self.phone@,
            address: self.address@,
            note: self.note@,
            email: self.email@,
        }
    }
}

impl Clone for Contact {
    fn clone(&self) -> (r: Self)
        ensures
            r@ == self@,
    {
        Contact {
            name: self.name.clone(),
            phone: self.phone.clone(),
            address: self.address.clone(),
            note: self.note.clone(),
            email: self.email.clone(),
        }
    }
}

/// The views of a list of contacts.
pub open spec fn contact_views(contacts: Seq<Contact>) -> Seq<ContactView> {
    contacts.map_values(|c: Contact| c@)
}

/// The contact that a line describes: name, phone, address, note and e-mail
/// address, apart by commas. Blanks around the line and around each field are
/// dropped, and so is what follows the fifth field. A line with fewer than
/// five fields describes no contact.
pub open spec fn parse_line(line: Seq<char>) -> Option<ContactView> {
    let parts = fields(trim(line));
    if parts.len() < 5 {
        None
    } else {
        Some(
            ContactView {
                name: parts[0],
                phone: parts[1],
                address: parts[2],
                note: parts[3],
                email: parts[4],
            },
        )
    }
}

/// The contacts that the lines describe, in order; a line that describes none
/// is passed over.
pub open spec fn contacts_in(all: Seq<Seq<char>>) -> Seq<ContactView>
    decreases all.len(),
{
    if all.len() == 0 {
        Seq::empty()
    } else {
        let before = contacts_in(all.drop_last());
        match parse_line(all.last()) {
            Some(c) => before.push(c),
            None => before,
        }
    }
}

/// How one character is written inside a vCard value: a backslash before a
/// backslash, a comma and a semicolon; `\n` for a line feed; nothing for a
/// carriage return.
pub open spec fn escaped_char(c: char) -> Seq<char> {
    if c == '\\' {
        seq!['\\', '\\']
    } else if c == ',' {
        seq!['\\', ',']
    } else if c == ';' {
        seq!['\\', ';']
    } else if c == '\n' {
        seq!['\\', 'n']
    } else if c == '\r' {
        Seq::empty()
    } else {
        seq![c]
    }
}

/// How a text is written inside a vCard value.
pub open spec fn escaped(value: Seq<char>) -> Seq<char>
    decreases value.len(),
{
    if value.len() == 0 {
        Seq::empty()
    } else {
        escaped(value.drop_last()) + escaped_char(value.last())
    }
}

/// Whether `c` is one of the signs that only space out a phone number.
pub open spec fn is_spacing(c: char) -> bool {
    c == ' ' || c == '-' || c == '(' || c == ')'
}

/// A phone number without blanks, hyphens and round brackets.
pub open spec fn bare_phone(phone: Seq<char>) -> Seq<char>
    decreases phone.len(),
{
    if phone.len() == 0 {
        Seq::empty()
    } else if is_spacing(phone.last()) {
        bare_phone(phone.drop_last())
    } else {
        bare_phone(phone.drop_last()).push(phone.last())
    }
}

/// How many bytes the character `c` takes in a text stored as UTF-8.
pub open spec fn utf8_width(c: char) -> int {
    if (c as u32) < 0x80 {
        1
    } else if (c as u32) < 0x800 {
        2
    } else if (c as u32) < 0x1_0000 {
        3
    } else {
        4
    }
}

/// How many bytes the text `s` takes stored as UTF-8.
pub open spec fn utf8_len(s: Seq<char>) -> int
    decreases s.len(),
{
    if s.len() == 0 {
        0
    } else {
        utf8_len(s.drop_last()) + utf8_width(s.last())
    }
}

/// The position in `s` before which the characters from `from` on take
/// exactly `bytes` bytes. There is none where the bytes would end within a
/// character or beyond the end of the text.
pub open spec fn cut_after(s: Seq<char>, from: int, bytes: int) -> Option<int>
    decreases s.len() - from,
{
    if bytes == 0 {
        Some(from)
    } else if bytes < 0 || !(0 <= from < s.len()) {
        None
    } else {
        cut_after(s, from + 1, bytes - utf8_width(s[from]))
    }
}

/// A bare phone number in groups of three, four and four bytes after `+86 `.
/// A number that cannot be cut there without cutting a character in two is
/// not grouped.
pub open spec fn grouped(bare: Seq<char>) -> Seq<char> {
    match cut_after(bare, 0, 3) {
        Some(i) => match cut_after(bare, i, 4) {
            Some(j) => "+86 "@ + bare.subrange(0, i) + " "@ + bare.subrange(i, j) + " "@
                + bare.subrange(j, bare.len() as int),
            None => "+86 "@ + bare,
        },
        None => "+86 "@ + bare,
    }
}

/// A phone number as it is written into a vCard. Lengths are counted in
/// bytes of UTF-8, so for a number in ASCII in characters. A bare number of
/// eleven bytes that starts with `1` becomes `+86 ` and the number in groups
/// of three, four and four; a number that starts with `+86` stays as it is;
/// any other number of ten bytes or more gets `+86 ` in front; a shorter one
/// stays as it is.
pub open spec fn chinese_phone(phone: Seq<char>) -> Seq<char> {
    let bare = bare_phone(phone);
    if utf8_len(bare) == 11 && bare.len() > 0 && bare[0] == '1' {
        grouped(bare)
    } else if "+86"@.is_prefix_of(bare) {
        bare
    } else if utf8_len(bare) >= 10 {
        "+86 "@ + bare
    } else {
        bare
    }
}

/// A text in ASCII takes as many bytes as it has characters, and can be cut
/// after any number of them.
pub proof fn lemma_ascii_bytes(s: Seq<char>, from: int, bytes: int)
    requires
        forall|i: int| 0 <= i < s.len() ==> (#[trigger] s[i] as u32) < 0x80,
        0 <= from,
        0 <= bytes,
        from + bytes <= s.len(),
    ensures
        utf8_len(s) == s.len(),
        cut_after(s, from, bytes) == Some(from + bytes),
    decreases s.len() + bytes,
{
    if s.len() > 0 {
        let front = s.drop_last();
        assert forall|i: int| 0 <= i < front.len() implies (#[trigger] front[i] as u32) < 0x80 by {
            assert(front[i] == s[i]);
        }
        lemma_ascii_bytes(front, 0, 0);
    }
    if bytes > 0 {
        lemma_ascii_bytes(s, from + 1, bytes - 1);
    }
}

/// A number of eleven characters in ASCII that starts with `1` is written in
/// groups of three, four and four characters.
pub proof fn lemma_mobile_number_is_grouped(phone: Seq<char>)
    requires
        bare_phone(phone).len() == 11,
        bare_phone(phone)[0] == '1',
        forall|i: int| 0 <= i < 11 ==> (#[trigger] bare_phone(phone)[i] as u32) < 0x80,
    ensures
        chinese_phone(phone) == "+86 "@ + bare_phone(phone).subrange(0, 3) + " "@ + bare_phone(
            phone,
        ).subrange(3, 7) + " "@ + bare_phone(phone).subrange(7, 11),
{
    let bare = bare_phone(phone);
    lemma_ascii_bytes(bare, 0, 3);
    lemma_ascii_bytes(bare, 3, 4);
}

/// A line of a vCard that is written only where its value is not empty.
pub open spec fn optional_line(head: Seq<char>, value: Seq<char>, tail: Seq<char>, present: bool)
    -> Seq<char> {
    if present {
        head + value + tail
    } else {
        Seq::empty()
    }
}

/// The two lines that give the phone number of a contact.
pub open spec fn phone_lines(phone: Seq<char>) -> Seq<char> {
    if phone.len() > 0 {
        "TEL;CELL:"@ + chinese_phone(phone) + "\r\n"@ + "TEL;TYPE=CELL:"@ + chinese_phone(phone)
            + "\r\n"@
    } else {
        Seq::empty()
    }
}

/// What comes before the phone number in the vCard of a contact.
pub open spec fn card_head(c: ContactView) -> Seq<char> {
    "BEGIN:VCARD\r\n"@ + "VERSION:2.1\r\n"@ + "N:;"@ + escaped(c.name) + ";;;\r\n"@ + "FN:"@
        + escaped(c.name) + "\r\n"@
}

/// What comes after the phone number in the vCard of a contact.
pub open spec fn card_tail(c: ContactView) -> Seq<char> {
    optional_line("EMAIL;INTERNET:"@, escaped(c.email), "\r\n"@, c.email.len() > 0)
        + optional_line("ADR;HOME:;;"@, escaped(c.address), ";;;;;中国\r\n"@, c.address.len() > 0)
        + optional_line("NOTE:"@, escaped(c.note), "\r\n"@, c.note.len() > 0) + "END:VCARD\r\n"@
}

/// The vCard of a contact, version 2.1.
pub open spec fn vcard(c: ContactView) -> Seq<char> {
    card_head(c) + phone_lines(c.phone) + card_tail(c)
}

/// The text of a vCard file: the card of each contact, a line feed after
/// each.
pub open spec fn vcf_text(contacts: Seq<ContactView>) -> Seq<char>
    decreases contacts.len(),
{
    if contacts.len() == 0 {
        Seq::empty()
    } else {
        vcf_text(contacts.drop_last()) + vcard(contacts.last()) + seq!['\n']
    }
}

/// Whether a dump shows a contact: its name, or its phone number as given or
/// without the signs that space it out.
pub open spec fn shows(dump: Seq<char>, c: ContactView) -> bool {
    contains(dump, c.name) || contains(dump, bare_phone(c.phone)) || contains(dump, c.phone)
}

/// How many of the contacts a dump shows.
pub open spec fn count_shown(dump: Seq<char>, contacts: Seq<ContactView>) -> nat
    decreases contacts.len(),
{
    if contacts.len() == 0 {
        0
    } else {
        count_shown(dump, contacts.drop_last()) + if shows(dump, contacts.last()) {
            1nat
        } else {
            0nat
        }
    }
}

/// Appends to `out` how `value` is written inside a vCard value.
pub fn push_escaped(out: &mut Vec<char>, value: &Vec<char>)
    ensures
        final(out)@ == old(out)@ + escaped(value@),
{
    let mut i: usize = 0;
    assert(value@.take(0) =~= Seq::<char>::empty());
    assert(out@ =~= old(out)@ + escaped(value@.take(0)));
    while i < value.len()
        invariant
            i <= value.len(),
            out@ == old(out)@ + escaped(value@.take(i as int)),
        decreases value.len() - i,
    {
        let c = value[i];
        let ghost before = out@;
        assert(value@.take(i + 1).drop_last() =~= value@.take(i as int));
        if c == '\\' {
            out.push('\\');
            out.push('\\');
        } else if c == ',' {
            out.push('\\');
            out.push(',');
        } else if c == ';' {
            out.push('\\');
            out.push(';');
        } else if c == '\n' {
            out.push('\\');
            out.push('n');
        } else if c == '\r' {
        } else {
            out.push(c);
        }
        assert(out@ =~= before + escaped_char(c));
        assert(out@ =~= old(out)@ + escaped(value@.take(i + 1)));
        i += 1;
    }
    assert(value@.take(i as int) =~= value@);
}

/// A phone number without blanks, hyphens and round brackets.
pub fn strip_phone(phone: &Vec<char>) -> (r: Vec<char>)
    ensures
        r@ == bare_phone(phone@),
{
    let mut r: Vec<char> = Vec::new();
    let mut i: usize = 0;
    assert(phone@.take(0) =~= Seq::<char>::empty());
    while i < phone.len()
        invariant
            i <= phone.len(),
            r@ == bare_phone(phone@.take(i as int)),
        decreases phone.len() - i,
    {
        let c = phone[i];
        assert(phone@.take(i + 1).drop_last() =~= phone@.take(i as int));
        if !(c == ' ' || c == '-' || c == '(' || c == ')') {
            r.push(c);
        }
        i += 1;
    }
    assert(phone@.take(i as int) =~= phone@);
    r
}

/// How many bytes the character `c` takes in a text stored as UTF-8.
pub fn width_of(c: char) -> (w: usize)
    ensures
        w == utf8_width(c),
        1 <= w <= 4,
{
    let code: u32 = c as u32;
    if code < 0x80 {
        1
    } else if code < 0x800 {
        2
    } else if code < 0x1_0000 {
        3
    } else {
        4
    }
}

/// How many bytes the text `s` takes stored as UTF-8.
pub fn byte_len(s: &Vec<char>) -> (n: u128)
    ensures
        n == utf8_len(s@),
{
    let mut n: u128 = 0;
    let mut i: usize = 0;
    assert(s@.take(0) =~= Seq::<char>::empty());
    while i < s.len()
        invariant
            i <= s.len(),
            n == utf8_len(s@.take(i as int)),
            n <= 4 * i,
        decreases s.len() - i,
    {
        assert(s@.take(i + 1).drop_last() =~= s@.take(i as int));
        n = n + width_of(s[i]) as u128;
        i += 1;
    }
    assert(s@.take(i as int) =~= s@);
    n
}

/// The position in `s` before which the characters from `from` on take
/// exactly `bytes` bytes, where there is one.
fn cut_at(s: &Vec<char>, from: usize, bytes: usize) -> (r: Option<usize>)
    requires
        from <= s.len(),
    ensures
        match r {
            Some(k) => cut_after(s@, from as int, bytes as int) == Some(k as int) && from <= k
                <= s.len(),
            None => cut_after(s@, from as int, bytes as int) is None,
        },
{
    let mut i: usize = from;
    let mut left: usize = bytes;
    while left > 0
        invariant
            from <= i <= s.len(),
            cut_after(s@, from as int, bytes as int) == cut_after(s@, i as int, left as int),
        decreases s.len() - i,
    {
        if i >= s.len() {
            return None;
        }
        let w = width_of(s[i]);
        if w > left {
            assert(cut_after(s@, i + 1, left - w) is None);
            return None;
        }
        left -= w;
        i += 1;
    }
    Some(i)
}

/// A bare phone number in groups of three, four and four bytes after `+86 `.
fn group(bare: &Vec<char>) -> (r: Vec<char>)
    ensures
        r@ == grouped(bare@),
{
    let mut out: Vec<char> = Vec::new();
    append_str(&mut out, "+86 ");
    let first = cut_at(bare, 0, 3);
    let second = match first {
        Some(i) => cut_at(bare, i, 4),
        None => None,
    };
    match (first, second) {
        (Some(i), Some(j)) => {
            let a = slice_chars(bare, 0, i);
            append_chars(&mut out, &a);
            append_str(&mut out, " ");
            let b = slice_chars(bare, i, j);
            append_chars(&mut out, &b);
            append_str(&mut out, " ");
            let c = slice_chars(bare, j, bare.len());
            append_chars(&mut out, &c);
            assert(out@ =~= grouped(bare@));
        },
        _ => {
            append_chars(&mut out, bare);
            assert(out@ =~= grouped(bare@));
        },
    }
    out
}

/// A phone number as it is written into a vCard.
pub fn format_phone(phone: &Vec<char>) -> (r: Vec<char>)
    ensures
        r@ == chinese_phone(phone@),
{
    let bare = strip_phone(phone);
    let prefix = chars_of("+86");
    let bytes = byte_len(&bare);
    if bytes == 11 && bare.len() > 0 && bare[0] == '1' {
        group(&bare)
    } else if starts_with(&bare, &prefix) {
        bare
    } else if bytes >= 10 {
        let mut out: Vec<char> = Vec::new();
        append_str(&mut out, "+86 ");
        append_chars(&mut out, &bare);
        assert(out@ =~= chinese_phone(phone@));
        out
    } else {
        bare
    }
}

/// Appends to `out` a line of a vCard, where `value` is not empty.
fn push_optional_line(out: &mut Vec<char>, head: &str, value: &Vec<char>, tail: &str)
    ensures
        final(out)@ == old(out)@ + optional_line(
            head@,
            escaped(value@),
            tail@,
            value@.len() > 0,
        ),
{
    if value.len() > 0 {
        append_str(out, head);
        push_escaped(out, value);
        append_str(out, tail);
        assert(final(out)@ =~= old(out)@ + (head@ + escaped(value@) + tail@));
    } else {
        assert(out@ =~= old(out)@ + Seq::<char>::empty());
    }
}

/// Appends to `out` what comes before the phone number in a vCard.
fn push_card_head(out: &mut Vec<char>, name: &Vec<char>)
    ensures
        final(out)@ == old(out)@ + ("BEGIN:VCARD\r\n"@ + "VERSION:2.1\r\n"@ + "N:;"@ + escaped(
            name@,
        ) + ";;;\r\n"@ + "FN:"@ + escaped(name@) + "\r\n"@),
{
    append_str(out, "BEGIN:VCARD\r\n");
    append_str(out, "VERSION:2.1\r\n");
    append_str(out, "N:;");
    push_escaped(out, name);
    append_str(out, ";;;\r\n");
    append_str(out, "FN:");
    push_escaped(out, name);
    append_str(out, "\r\n");
    assert(final(out)@ =~= old(out)@ + ("BEGIN:VCARD\r\n"@ + "VERSION:2.1\r\n"@ + "N:;"@ + escaped(
        name@,
    ) + ";;;\r\n"@ + "FN:"@ + escaped(name@) + "\r\n"@));
}

/// Appends to `out` what comes after the phone number in a vCard.
pub fn push_card_tail(out: &mut Vec<char>, email: &str, address: &str, note: &str)
    ensures
        final(out)@ == old(out)@ + card_tail(
            ContactView {
                name: Seq::empty(),
                phone: Seq::empty(),
                address: address@,
                note: note@,
                email: email@,
            },
        ),
{
    let e = chars_of(email);
    let a = chars_of(address);
    let n = chars_of(note);
    push_optional_line(out, "EMAIL;INTERNET:", &e, "\r\n");
    push_optional_line(out, "ADR;HOME:;;", &a, ";;;;;中国\r\n");
    push_optional_line(out, "NOTE:", &n, "\r\n");
    append_str(out, "END:VCARD\r\n");
    assert(final(out)@ =~= old(out)@ + (optional_line(
        "EMAIL;INTERNET:"@,
        escaped(email@),
        "\r\n"@,
        email@.len() > 0,
    ) + optional_line("ADR;HOME:;;"@, escaped(address@), ";;;;;中国\r\n"@, address@.len() > 0)
        + optional_line("NOTE:"@, escaped(note@), "\r\n"@, note@.len() > 0) + "END:VCARD\r\n"@));
}

/// Appends to `out` what comes before the phone number in the vCard of a
/// contact called `name`.
pub fn push_head(out: &mut Vec<char>, name: &str)
    ensures
        final(out)@ == old(out)@ + card_head(
            ContactView {
                name: name@,
                phone: Seq::empty(),
                address: Seq::empty(),
                note: Seq::empty(),
                email: Seq::empty(),
            },
        ),
{
    let n = chars_of(name);
    push_card_head(out, &n);
}

/// The five fields of the contact that `line` describes.
pub fn five_fields(line: &Vec<char>) -> (r: Option<Vec<Vec<char>>>)
    ensures
        match r {
            Some(parts) => parts.len() >= 5 && rows(parts@) == fields(trim(line@)),
            None => fields(trim(line@)).len() < 5,
        },
{
    let trimmed = trim_chars(line);
    let parts = fields_of(&trimmed);
    assert(rows(parts@).len() == parts.len());
    if parts.len() < 5 {
        None
    } else {
        Some(parts)
    }
}

impl Contact {
    /// Reads a contact from a line of five comma-separated fields.
    pub fn from_line(line: &str) -> (r: Result<Contact, ParseError>)
        ensures
            match r {
                Ok(c) => parse_line(line@) == Some(c@),
                Err(e) => e == ParseError::MalformedContact && parse_line(line@) is None,
            },
    {
        let chars = chars_of(line);
        Contact::from_chars(&chars)
    }

    /// Reads a contact from a line of five comma-separated fields.
    pub fn from_chars(line: &Vec<char>) -> (r: Result<Contact, ParseError>)
        ensures
            match r {
                Ok(c) => parse_line(line@) == Some(c@),
                Err(e) => e == ParseError::MalformedContact && parse_line(line@) is None,
            },
    {
        match five_fields(line) {
            None => Err(ParseError::MalformedContact),
            Some(parts) => {
                assert(rows(parts@)[0] == parts@[0]@);
                assert(rows(parts@)[1] == parts@[1]@);
                assert(rows(parts@)[2] == parts@[2]@);
                assert(rows(parts@)[3] == parts@[3]@);
                assert(rows(parts@)[4] == parts@[4]@);
                Ok(
                    Contact {
                        name: string_of(&parts[0]),
                        phone: string_of(&parts[1]),
                        address: string_of(&parts[2]),
                        note: string_of(&parts[3]),
                        email: string_of(&parts[4]),
                    },
                )
            },
        }
    }

    /// The vCard of the contact, version 2.1.
    pub fn to_vcf(&self) -> (vcf: String)
        ensures
            vcf@ == vcard(self@),
    {
        let mut out: Vec<char> = Vec::new();
        push_head(&mut out, self.name.as_str());
        let ghost head = out@;
        if !self.phone.as_str().is_empty() {
            let phone = chars_of(self.phone.as_str());
            let formatted = format_phone(&phone);
            append_str(&mut out, "TEL;CELL:");
            append_chars(&mut out, &formatted);
            append_str(&mut out, "\r\n");
            append_str(&mut out, "TEL;TYPE=CELL:");
            append_chars(&mut out, &formatted);
            append_str(&mut out, "\r\n");
            assert(out@ =~= head + phone_lines(self.phone@));
        } else {
            assert(out@ =~= head + phone_lines(self.phone@));
        }
        push_card_tail(&mut out, self.email.as_str(), self.address.as_str(), self.note.as_str());
        assert(out@ =~= vcard(self@));
        string_of(&out)
    }

    /// How `value` is written inside a vCard value.
    pub fn escape_vcf_value(&self, value: &str) -> (r: String)
        ensures
            r@ == escaped(value@),
    {
        let chars = chars_of(value);
        let mut out: Vec<char> = Vec::new();
        push_escaped(&mut out, &chars);
        assert(out@ =~= escaped(value@));
        string_of(&out)
    }

    /// The phone number `phone` as it is written into a vCard.
    pub fn format_chinese_phone(&self, phone: &str) -> (r: String)
        ensures
            r@ == chinese_phone(phone@),
    {
        let chars = chars_of(phone);
        let out = format_phone(&chars);
        string_of(&out)
    }

    /// Whether the dump `dump` shows the contact.
    pub fn shown_in(&self, dump: &Vec<char>) -> (r: bool)
        ensures
            r == shows(dump@, self@),
    {
        let name = chars_of(self.name.as_str());
        if contains_chars(dump, &name) {
            return true;
        }
        let phone = chars_of(self.phone.as_str());
        let bare = strip_phone(&phone);
        contains_chars(dump, &bare) || contains_chars(dump, &phone)
    }
}

/// The importer of vCard files into one device.
pub struct VcfImporter<'a> {
    pub adb_path: &'a str,
    pub device_id: &'a str,
}

impl<'a> VcfImporter<'a> {
    /// An importer that reaches the device `device_id` through the bridge
    /// tool at `adb_path`.
    pub fn new(adb_path: &'a str, device_id: &'a str) -> (importer: Self)
        ensures
            importer.adb_path@ == adb_path@,
            importer.device_id@ == device_id@,
    {
        VcfImporter { adb_path, device_id }
    }

    /// The contacts listed in `contents`, one to a line. A line that does not
    /// describe a contact is passed over.
    pub fn read_contacts(contents: &str) -> (contacts: Vec<Contact>)
        ensures
            contact_views(contacts@) == contacts_in(lines(contents@)),
    {
        let chars = chars_of(contents);
        let all = lines_of(&chars);
        let ghost spec_lines = lines(contents@);
        let mut contacts: Vec<Contact> = Vec::new();
        let mut i: usize = 0;
        assert(rows(all@).len() == all.len());
        assert(spec_lines.take(0) =~= Seq::<Seq<char>>::empty());
        while i < all.len()
            invariant
                i <= all.len(),
                rows(all@) == spec_lines,
                contact_views(contacts@) == contacts_in(spec_lines.take(i as int)),
            decreases all.len() - i,
        {
            assert(rows(all@)[i as int] == all@[i as int]@);
            assert(spec_lines.take(i + 1).drop_last() =~= spec_lines.take(i as int));
            let ghost before = contacts@;
            match Contact::from_chars(&all[i]) {
                Ok(c) => {
                    contacts.push(c);
                    assert(contact_views(contacts@) =~= contact_views(before).push(c@));
                },
                Err(_) => {},
            }
            i += 1;
        }
        assert(spec_lines.take(i as int) =~= spec_lines);
        contacts
    }

    /// The contacts to import from a list: the contacts that `contents`
    /// lists, of which there must be at least one. Nothing is written and
    /// nothing is sent to a device for a list without contacts.
    pub fn contacts_to_import(contents: &str) -> (r: Result<Vec<Contact>, ParseError>)
        ensures
            match r {
                Ok(contacts) => contacts@.len() > 0 && contact_views(contacts@) == contacts_in(
                    lines(contents@),
                ),
                Err(e) => e == ParseError::NoContacts && contacts_in(lines(contents@)).len() == 0,
            },
    {
        let contacts = Self::read_contacts(contents);
        assert(contact_views(contacts@).len() == contacts@.len());
        if contacts.len() == 0 {
            Err(ParseError::NoContacts)
        } else {
            Ok(contacts)
        }
    }

    /// The text of the vCard file for `contacts`.
    pub fn vcf_content(contacts: &[Contact]) -> (text: String)
        ensures
            text@ == vcf_text(contact_views(contacts@)),
    {
        let ghost all = contact_views(contacts@);
        let mut out: Vec<char> = Vec::new();
        let mut i: usize = 0;
        assert(all.take(0) =~= Seq::<ContactView>::empty());
        while i < contacts.len()
            invariant
                i <= contacts.len(),
                all == contact_views(contacts@),
                out@ == vcf_text(all.take(i as int)),
            decreases contacts.len() - i,
        {
            assert(all.take(i + 1).drop_last() =~= all.take(i as int));
            assert(all[i as int] == contacts@[i as int]@);
            let card = contacts[i].to_vcf();
            append_str(&mut out, card.as_str());
            out.push('\n');
            assert(out@ =~= vcf_text(all.take(i as int)) + vcard(all[i as int]) + seq!['\n']);
            i += 1;
        }
        assert(all.take(i as int) =~= all);
        string_of(&out)
    }

    /// How many of the contacts the dump `ui_dump` shows.
    pub fn count_verified(ui_dump: &str, contacts: &[Contact]) -> (n: usize)
        ensures
            n == count_shown(ui_dump@, contact_views(contacts@)),
            n <= contacts@.len(),
    {
        let ghost all = contact_views(contacts@);
        let dump = chars_of(ui_dump);
        let mut n: usize = 0;
        let mut i: usize = 0;
        assert(all.take(0) =~= Seq::<ContactView>::empty());
        while i < contacts.len()
            invariant
                i <= contacts.len(),
                dump@ == ui_dump@,
                all == contact_views(contacts@),
                n == count_shown(ui_dump@, all.take(i as int)),
                n <= i,
            decreases contacts.len() - i,
        {
            assert(all.take(i + 1).drop_last() =~= all.take(i as int));
            assert(all[i as int] == contacts@[i as int]@);
            if contacts[i].shown_in(&dump) {
                n += 1;
            }
            i += 1;
        }
        assert(all.take(i as int) =~= all);
        n
    }

    /// The judgement on an import by the screen that the device shows
    /// afterwards: by the share of the contacts that the screen shows.
    pub fn judge_import(ui_dump: &str, contacts: &[Contact], thresholds: Thresholds) -> (v: Verdict)
        ensures
            v == judge(
                count_shown(ui_dump@, contact_views(contacts@)) as int,
                contacts@.len() as int,
                thresholds,
            ),
    {
        let shown = Self::count_verified(ui_dump, contacts);
        classify(shown, contacts.len(), thresholds)
    }

    /// Two contacts to try an import with.
    pub fn sample_contacts() -> (contacts: Vec<Contact>)
        ensures
            contacts.len() == 2,
            contacts@[0]@ == (ContactView {
                name: "张小美"@,
                phone: "13800138000"@,
                address: "北京市朝阳区"@,
                note: "时尚博主"@,
                email: "zhangxiaomei@example.com"@,
            }),
            contacts@[1]@ == (ContactView {
                name: "Test User"@,
                phone: "13900139000"@,
                address: "上海市浦东新区"@,
                note: "测试用户"@,
                email: "test@example.com"@,
            }),
    {
        let mut contacts: Vec<Contact> = Vec::new();
        contacts.push(
            Contact {
                name: "张小美".to_owned(),
                phone: "13800138000".to_owned(),
                address: "北京市朝阳区".to_owned(),
                note: "时尚博主".to_owned(),
                email: "zhangxiaomei@example.com".to_owned(),
            },
        );
        contacts.push(
            Contact {
                name: "Test User".to_owned(),
                phone: "13900139000".to_owned(),
                address: "上海市浦东新区".to_owned(),
                note: "测试用户".to_owned(),
                email: "test@example.com".to_owned(),
            },
        );
        contacts
    }
}

} // verus!
