//! Contacts as vCard 2.1 text with the phone number written as it was given,
//! for devices that take the number as it stands.

use crate::error::ParseError;
use crate::text::{append_str, chars_of, lines, string_of};
use crate::vcf_import::{
    card_head, card_tail, contacts_in, escaped, parse_line, push_card_tail, push_escaped, push_head,
    ContactView,
};
use vstd::prelude::*;

verus! {

/// A contact with all five fields; a field that is not known is empty.
#[derive(Debug)]
pub struct Contact {
    pub name: String,
    pub phone: String,
    pub address: String,
    pub note: String,
    pub email: String,
}

impl View for Contact {
    type V = ContactView;

    open spec fn view(&self) -> ContactView {
        ContactView {
            name: self.name@,
            phone: self.phone@,
            address: self.address@,
            note: self.note@,
            email: self.email@,
        }
    }
}

impl Clone for Contact {
    fn clone(&self) -> (r: Self)
        ensures
            r@ == self@,
    {
        Contact {
            name: self.name.clone(),
            phone: self.phone.clone(),
            address: self.address.clone(),
            note: self.note.clone(),
            email: self.email.clone(),
        }
    }
}

/// The views of a list of contacts.
pub open spec fn contact_views(contacts: Seq<Contact>) -> Seq<ContactView> {
    contacts.map_values(|c: Contact| c@)
}

/// The line that gives the phone number of a contact, as it was given.
pub open spec fn phone_line(phone: Seq<char>) -> Seq<char> {
    if phone.len() > 0 {
        "TEL;CELL:"@ + phone + "\r\n"@
    } else {
        Seq::empty()
    }
}

/// The vCard of a contact, version 2.1, with the phone number as given.
pub open spec fn vcard(c: ContactView) -> Seq<char> {
    card_head(c) + phone_line(c.phone) + card_tail(c)
}

/// The text of a vCard file: the card of each contact, a line feed after
/// each.
pub open spec fn vcf_text(contacts: Seq<ContactView>) -> Seq<char>
    decreases contacts.len(),
{
    if contacts.len() == 0 {
        Seq::empty()
    } else {
        vcf_text(contacts.drop_last()) + vcard(contacts.last()) + seq!['\n']
    }
}

impl Contact {
    /// The same contact, as the importer that rewrites phone numbers holds
    /// it.
    pub fn to_formatted(&self) -> (c: crate::vcf_import::Contact)
        ensures
            c@ == self@,
    {
        crate::vcf_import::Contact {
            name: self.name.clone(),
            phone: self.phone.clone(),
            address: self.address.clone(),
            note: self.note.clone(),
            email: self.email.clone(),
        }
    }

    /// Reads a contact from a line of five comma-separated fields.
    pub fn from_line(line: &str) -> (r: Result<Contact, ParseError>)
        ensures
            match r {
                Ok(c) => parse_line(line@) == Some(c@),
                Err(e) => e == ParseError::MalformedContact && parse_line(line@) is None,
            },
    {
        match crate::vcf_import::Contact::from_line(line) {
            Ok(c) => Ok(
                Contact {
                    name: c.name,
                    phone: c.phone,
                    address: c.address,
                    note: c.note,
                    email: c.email,
                },
            ),
            Err(e) => Err(e),
        }
    }

    /// The vCard of the contact, version 2.1.
    pub fn to_vcf(&self) -> (vcf: String)
        ensures
            vcf@ == vcard(self@),
    {
        let mut out: Vec<char> = Vec::new();
        push_head(&mut out, self.name.as_str());
        let ghost head = out@;
        if !self.phone.as_str().is_empty() {
            append_str(&mut out, "TEL;CELL:");
            append_str(&mut out, self.phone.as_str());
            append_str(&mut out, "\r\n");
            assert(out@ =~= head + phone_line(self.phone@));
        } else {
            assert(out@ =~= head + phone_line(self.phone@));
        }
        push_card_tail(&mut out, self.email.as_str(), self.address.as_str(), self.note.as_str());
        assert(out@ =~= vcard(self@));
        string_of(&out)
    }

    /// How `value` is written inside a vCard value.
    pub fn escape_vcf_value(&self, value: &str) -> (r: String)
        ensures
            r@ == escaped(value@),
    {
        let chars = chars_of(value);
        let mut out: Vec<char> = Vec::new();
        push_escaped(&mut out, &chars);
        assert(out@ =~= escaped(value@));
        string_of(&out)
    }
}

/// The importer of vCard files into one device.
pub struct VcfImporter<'a> {
    pub adb_path: &'a str,
    pub device_id: &'a str,
}

impl<'a> VcfImporter<'a> {
    /// An importer that reaches the device `device_id` through the bridge
    /// tool at `adb_path`.
    pub fn new(adb_path: &'a str, device_id: &'a str) -> (importer: Self)
        ensures
            importer.adb_path@ == adb_path@,
            importer.device_id@ == device_id@,
    {
        VcfImporter { adb_path, device_id }
    }

    /// The contacts listed in `contents`, one to a line. A line that does not
    /// describe a contact is passed over.
    pub fn read_contacts(contents: &str) -> (contacts: Vec<Contact>)
        ensures
            contact_views(contacts@) == contacts_in(lines(contents@)),
    {
        let found = crate::vcf_import::VcfImporter::read_contacts(contents);
        let mut contacts: Vec<Contact> = Vec::new();
        let mut i: usize = 0;
        while i < found.len()
            invariant
                i <= found.len(),
                contacts.len() == i,
                forall|k: int| 0 <= k < i ==> contacts@[k]@ == found@[k]@,
            decreases found.len() - i,
        {
            let c = &found[i];
            contacts.push(
                Contact {
                    name: c.name.clone(),
                    phone: c.phone.clone(),
                    address: c.address.clone(),
                    note: c.note.clone(),
                    email: c.email.clone(),
                },
            );
            i += 1;
        }
        assert(contact_views(contacts@) =~= crate::vcf_import::contact_views(found@));
        contacts
    }

    /// The contacts to import from a list: the contacts that `contents`
    /// lists, of which there must be at least one.
    pub fn contacts_to_import(contents: &str) -> (r: Result<Vec<Contact>, ParseError>)
        ensures
            match r {
                Ok(contacts) => contacts@.len() > 0 && contact_views(contacts@) == contacts_in(
                    lines(contents@),
                ),
                Err(e) => e == ParseError::NoContacts && contacts_in(lines(contents@)).len() == 0,
            },
    {
        let contacts = Self::read_contacts(contents);
        assert(contact_views(contacts@).len() == contacts@.len());
        if contacts.len() == 0 {
            Err(ParseError::NoContacts)
        } else {
            Ok(contacts)
        }
    }

    /// The text of the vCard file for `contacts`.
    pub fn vcf_content(contacts: &[Contact]) -> (text: String)
        ensures
            text@ == vcf_text(contact_views(contacts@)),
    {
        let ghost all = contact_views(contacts@);
        let mut out: Vec<char> = Vec::new();
        let mut i: usize = 0;
        assert(all.take(0) =~= Seq::<ContactView>::empty());
        while i < contacts.len()
            invariant
                i <= contacts.len(),
                all == contact_views(contacts@),
                out@ == vcf_text(all.take(i as int)),
            decreases contacts.len() - i,
        {
            assert(all.take(i + 1).drop_last() =~= all.take(i as int));
            assert(all[i as int] == contacts@[i as int]@);
            let card = contacts[i].to_vcf();
            append_str(&mut out, card.as_str());
            out.push('\n');
            assert(out@ =~= vcf_text(all.take(i as int)) + vcard(all[i as int]) + seq!['\n']);
            i += 1;
        }
        assert(all.take(i as int) =~= all);
        string_of(&out)
    }
}

} // verus!
