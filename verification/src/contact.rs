//! Contacts as they are listed in a plain text file: one contact to a line,
//! the fields of a contact apart by commas.

use crate::client::AdbClient;
use crate::element::opt_view;
use crate::error::ParseError;
use crate::text::{chars_of, lines, lines_of, rows, split, split_on, string_of, trim, trim_chars};
use vstd::prelude::*;

verus! {

/// A contact: a name and a phone number, and what else is known.
#[derive(Debug)]
pub struct Contact {
    pub name: String,
    pub phone: String,
    pub address: Option<String>,
    pub profession: Option<String>,
    pub email: Option<String>,
}

/// A contact, as mathematical values.
pub ghost struct ContactView {
    pub name: Seq<char>,
    pub phone: Seq<char>,
    pub address: Option<Seq<char>>,
    pub profession: Option<Seq<char>>,
    pub email: Option<Seq<char>>,
}

impl View for Contact {
    type V = ContactView;

    open spec fn view(&self) -> ContactView {
        ContactView {
            name: self.name@,
            phone: self.phone@,
            address: opt_view(self.address),
            profession: opt_view(self.profession),
            email: opt_view(self.email),
        }
    }
}

impl Clone for Contact {
    fn clone(&self) -> (r: Self)
        ensures
            r@ == self@,
    {
        Contact {
            name: self.name.clone(),
            phone: self.phone.clone(),
            address: crate::element::copy_opt(&self.address),
            profession: crate::element::copy_opt(&self.profession),
            email: crate::element::copy_opt(&self.email),
        }
    }
}

/// The views of a list of contacts.
pub open spec fn contact_views(contacts: Seq<Contact>) -> Seq<ContactView> {
    contacts.map_values(|c: Contact| c@)
}

/// The comma-separated fields of a line, each without the blanks around it.
pub open spec fn fields(line: Seq<char>) -> Seq<Seq<char>> {
    split(line, seq![',']).map_values(|f: Seq<char>| trim(f))
}

/// Field `i` of a line, where the line has it and it is not empty.
pub open spec fn optional_field(parts: Seq<Seq<char>>, i: int) -> Option<Seq<char>> {
    if 0 <= i < parts.len() && parts[i].len() > 0 {
        Some(parts[i])
    } else {
        None
    }
}

/// The contact that a line describes: name, phone and, optionally, address,
/// profession and e-mail address, in this order. A line with a single field
/// describes none.
pub open spec fn parse_contact(line: Seq<char>) -> Option<ContactView> {
    let parts = fields(line);
    if parts.len() < 2 {
        None
    } else {
        Some(
            ContactView {
                name: parts[0],
                phone: parts[1],
                address: optional_field(parts, 2),
                profession: optional_field(parts, 3),
                email: optional_field(parts, 4),
            },
        )
    }
}

/// The contacts that the lines describe, in order; a line that describes none
/// is passed over.
pub open spec fn contacts_in(all: Seq<Seq<char>>) -> Seq<ContactView>
    decreases all.len(),
{
    if all.len() == 0 {
        Seq::empty()
    } else {
        let before = contacts_in(all.drop_last());
        match parse_contact(trim(all.last())) {
            Some(c) => before.push(c),
            None => before,
        }
    }
}

/// The comma-separated fields of a line, each without the blanks around it.
pub fn fields_of(line: &Vec<char>) -> (parts: Vec<Vec<char>>)
    ensures
        rows(parts@) == fields(line@),
        parts.len() >= 1,
{
    let raw = split_on(line, ',');
    let ghost pieces = split(line@, seq![',']);
    assert(rows(raw@).len() == raw.len());
    let mut parts: Vec<Vec<char>> = Vec::new();
    let mut i: usize = 0;
    while i < raw.len()
        invariant
            i <= raw.len(),
            parts.len() == i,
            rows(raw@) == pieces,
            forall|k: int| 0 <= k < i ==> parts@[k]@ == trim(pieces[k]),
        decreases raw.len() - i,
    {
        assert(rows(raw@)[i as int] == raw@[i as int]@);
        parts.push(trim_chars(&raw[i]));
        i += 1;
    }
    assert(rows(parts@) =~= fields(line@));
    parts
}

/// Field `i` of a line, where the line has it and it is not empty.
pub fn optional_field_of(parts: &Vec<Vec<char>>, i: usize) -> (r: Option<String>)
    ensures
        opt_view(r) == optional_field(rows(parts@), i as int),
{
    assert(rows(parts@).len() == parts.len());
    if i < parts.len() {
        assert(rows(parts@)[i as int] == parts@[i as int]@);
        if parts[i].len() > 0 {
            Some(string_of(&parts[i]))
        } else {
            None
        }
    } else {
        None
    }
}

/// The contact that the line `line` describes.
pub fn contact_from_chars(line: &Vec<char>) -> (r: Result<Contact, ParseError>)
    ensures
        match r {
            Ok(c) => parse_contact(line@) == Some(c@),
            Err(e) => e == ParseError::MalformedContact && parse_contact(line@) is None,
        },
{
    let parts = fields_of(line);
    assert(rows(parts@).len() == parts.len());
    if parts.len() < 2 {
        return Err(ParseError::MalformedContact);
    }
    assert(rows(parts@)[0] == parts@[0]@);
    assert(rows(parts@)[1] == parts@[1]@);
    Ok(
        Contact {
            name: string_of(&parts[0]),
            phone: string_of(&parts[1]),
            address: optional_field_of(&parts, 2),
            profession: optional_field_of(&parts, 3),
            email: optional_field_of(&parts, 4),
        },
    )
}

impl Contact {
    /// Reads a contact from a line of comma-separated fields.
    pub fn from_csv_line(line: &str) -> (r: Result<Contact, ParseError>)
        ensures
            match r {
                Ok(c) => parse_contact(line@) == Some(c@),
                Err(e) => e == ParseError::MalformedContact && parse_contact(line@) is None,
            },
    {
        let chars = chars_of(line);
        contact_from_chars(&chars)
    }
}

impl AdbClient {
    /// The contacts listed in `content`, one to a line. A line that does not
    /// describe a contact is passed over.
    pub fn load_contacts(&self, content: &str) -> (contacts: Vec<Contact>)
        ensures
            contact_views(contacts@) == contacts_in(lines(content@)),
    {
        let chars = chars_of(content);
        let all = lines_of(&chars);
        let ghost spec_lines = lines(content@);
        let mut contacts: Vec<Contact> = Vec::new();
        let mut i: usize = 0;
        assert(rows(all@).len() == all.len());
        assert(spec_lines.take(0) =~= Seq::<Seq<char>>::empty());
        while i < all.len()
            invariant
                i <= all.len(),
                rows(all@) == spec_lines,
                contact_views(contacts@) == contacts_in(spec_lines.take(i as int)),
            decreases all.len() - i,
        {
            assert(rows(all@)[i as int] == all@[i as int]@);
            assert(spec_lines.take(i + 1).drop_last() =~= spec_lines.take(i as int));
            let line = trim_chars(&all[i]);
            let ghost before = contacts@;
            match contact_from_chars(&line) {
                Ok(c) => {
                    contacts.push(c);
                    assert(contact_views(contacts@) =~= contact_views(before).push(c@));
                },
                Err(_) => {},
            }
            i += 1;
        }
        assert(spec_lines.take(i as int) =~= spec_lines);
        contacts
    }
}

} // verus!
