//! Small helpers of the desktop client: checking what the user typed and
//! reading the contact lists that the user picked.

use crate::contact::{fields, fields_of};
use crate::models::{contact_views, Contact, ContactView};
use crate::number::{decimal, digits_of, parse_u16, push_decimal, push_digits, read_u16};
use crate::text::{
    append_str, chars_of, contains, contains_chars, lines, lines_of, rows, split, split_on,
    string_of, trim, trim_chars,
};
use vstd::prelude::*;

verus! {

/// What is wrong with a device identifier, if anything. An identifier is a
/// serial number, which may be any text without a colon, or an address
/// followed by a colon and a port number.
pub open spec fn device_id_problem(id: Seq<char>) -> Option<Seq<char>> {
    if id.len() == 0 {
        Some("设备ID不能为空"@)
    } else if contains(id, seq![':']) {
        let parts = split(id, seq![':']);
        if parts.len() != 2 {
            Some("IP:Port 格式错误"@)
        } else if parse_u16(parts[1]) is None {
            Some("端口号格式错误"@)
        } else {
            None
        }
    } else {
        None
    }
}

/// Checks the form of a device identifier.
pub fn validate_device_id(device_id: &str) -> (r: Result<(), String>)
    ensures
        match r {
            Ok(_) => device_id_problem(device_id@) is None,
            Err(message) => device_id_problem(device_id@) == Some(message@),
        },
{
    let id = chars_of(device_id);
    if id.len() == 0 {
        return Err("设备ID不能为空".to_owned());
    }
    let mut colon: Vec<char> = Vec::new();
    colon.push(':');
    assert(colon@ =~= seq![':']);
    if contains_chars(&id, &colon) {
        let parts = split_on(&id, ':');
        assert(rows(parts@).len() == parts.len());
        if parts.len() != 2 {
            return Err("IP:Port 格式错误".to_owned());
        }
        assert(rows(parts@)[1] == parts@[1]@);
        if read_u16(&parts[1]).is_none() {
            return Err("端口号格式错误".to_owned());
        }
    }
    Ok(())
}

/// The contact that a line of a table of contacts describes: name, phone and,
/// where there is a third field, the identifier on the platform.
pub open spec fn table_contact(line: Seq<char>) -> Option<ContactView> {
    let parts = fields(line);
    if parts.len() >= 2 {
        Some(
            ContactView {
                name: parts[0],
                phone: parts[1],
                platform_id: if parts.len() >= 3 {
                    Some(parts[2])
                } else {
                    None
                },
            },
        )
    } else {
        None
    }
}

/// The contacts that the lines of a table describe, in order.
pub open spec fn table_contacts(all: Seq<Seq<char>>) -> Seq<ContactView>
    decreases all.len(),
{
    if all.len() == 0 {
        Seq::empty()
    } else {
        let before = table_contacts(all.drop_last());
        match table_contact(all.last()) {
            Some(c) => before.push(c),
            None => before,
        }
    }
}

/// The contacts of a table whose first line is a heading.
pub open spec fn csv_contacts(content: Seq<char>) -> Seq<ContactView> {
    let all = lines(content);
    if all.len() > 0 {
        table_contacts(all.skip(1))
    } else {
        Seq::empty()
    }
}

/// The contacts that the lines of a plain list describe, in order. A line
/// with a comma gives name and phone; any other line that is not blank is
/// taken as a phone number, and the contact is named by its place in the
/// list.
pub open spec fn listed_contacts(all: Seq<Seq<char>>) -> Seq<ContactView>
    decreases all.len(),
{
    if all.len() == 0 {
        Seq::empty()
    } else {
        let before = listed_contacts(all.drop_last());
        let line = trim(all.last());
        let parts = fields(line);
        if line.len() == 0 {
            before
        } else if parts.len() >= 2 {
            before.push(ContactView { name: parts[0], phone: parts[1], platform_id: None })
        } else {
            before.push(
                ContactView {
                    name: "联系人"@ + digits_of((before.len() + 1) as nat),
                    phone: line,
                    platform_id: None,
                },
            )
        }
    }
}

/// Reads a table of contacts: a heading, then one contact to a line.
pub fn parse_csv_contacts(content: &str) -> (r: Result<Vec<Contact>, String>)
    ensures
        r is Ok,
        contact_views(r->Ok_0@) == csv_contacts(content@),
{
    let chars = chars_of(content);
    let all = lines_of(&chars);
    let mut contacts: Vec<Contact> = Vec::new();
    assert(rows(all@).len() == all.len());
    if all.len() == 0 {
        assert(contact_views(contacts@) =~= csv_contacts(content@));
        return Ok(contacts);
    }
    let ghost body = lines(content@).skip(1);
    let mut i: usize = 1;
    assert(body.take(0) =~= Seq::<Seq<char>>::empty());
    assert(contact_views(contacts@) =~= table_contacts(body.take(0)));
    while i < all.len()
        invariant
            1 <= i <= all.len(),
            rows(all@) == lines(content@),
            body == lines(content@).skip(1),
            body.len() == all.len() - 1,
            contact_views(contacts@) == table_contacts(body.take(i - 1)),
        decreases all.len() - i,
    {
        assert(rows(all@)[i as int] == all@[i as int]@);
        assert(body[i - 1] == all@[i as int]@);
        assert(body.take(i as int).drop_last() =~= body.take(i - 1));
        let parts = fields_of(&all[i]);
        assert(rows(parts@).len() == parts.len());
        let ghost before = contacts@;
        if parts.len() >= 2 {
            assert(rows(parts@)[0] == parts@[0]@);
            assert(rows(parts@)[1] == parts@[1]@);
            let platform_id = if parts.len() >= 3 {
                assert(rows(parts@)[2] == parts@[2]@);
                Some(string_of(&parts[2]))
            } else {
                None
            };
            let c = Contact {
                name: string_of(&parts[0]),
                phone: string_of(&parts[1]),
                platform_id,
            };
            contacts.push(c);
            assert(contact_views(contacts@) =~= contact_views(before).push(c@));
        }
        i += 1;
    }
    assert(body.take(i - 1) =~= body);
    Ok(contacts)
}

/// Reads a plain list of contacts, one to a line.
pub fn parse_txt_contacts(content: &str) -> (r: Result<Vec<Contact>, String>)
    ensures
        r is Ok,
        contact_views(r->Ok_0@) == listed_contacts(lines(content@)),
{
    let chars = chars_of(content);
    let all = lines_of(&chars);
    let ghost spec_lines = lines(content@);
    let mut contacts: Vec<Contact> = Vec::new();
    assert(rows(all@).len() == all.len());
    let mut i: usize = 0;
    assert(spec_lines.take(0) =~= Seq::<Seq<char>>::empty());
    assert(contact_views(contacts@) =~= listed_contacts(spec_lines.take(0)));
    while i < all.len()
        invariant
            i <= all.len(),
            rows(all@) == spec_lines,
            contacts.len() <= i,
            contact_views(contacts@) == listed_contacts(spec_lines.take(i as int)),
        decreases all.len() - i,
    {
        assert(rows(all@)[i as int] == all@[i as int]@);
        assert(spec_lines.take(i + 1).drop_last() =~= spec_lines.take(i as int));
        let line = trim_chars(&all[i]);
        let ghost before = contacts@;
        assert(contact_views(before).len() == before.len());
        if line.len() > 0 {
            let parts = fields_of(&line);
            assert(rows(parts@).len() == parts.len());
            let c = if parts.len() >= 2 {
                assert(rows(parts@)[0] == parts@[0]@);
                assert(rows(parts@)[1] == parts@[1]@);
                Contact {
                    name: string_of(&parts[0]),
                    phone: string_of(&parts[1]),
                    platform_id: None,
                }
            } else {
                let mut name: Vec<char> = Vec::new();
                append_str(&mut name, "联系人");
                push_digits(&mut name, (contacts.len() + 1) as u64);
                assert(name@ =~= "联系人"@ + digits_of((before.len() + 1) as nat));
                Contact { name: string_of(&name), phone: string_of(&line), platform_id: None }
            };
            contacts.push(c);
            assert(contact_views(contacts@) =~= contact_views(before).push(c@));
        }
        i += 1;
    }
    assert(spec_lines.take(i as int) =~= spec_lines);
    Ok(contacts)
}

/// A length of time in words: seconds below a minute, minutes and seconds
/// below an hour, hours and minutes from there on.
pub open spec fn duration_text(total_seconds: int) -> Seq<char> {
    if total_seconds < 60 {
        decimal(total_seconds) + "秒"@
    } else if total_seconds < 3600 {
        decimal(total_seconds / 60) + "分"@ + decimal(total_seconds % 60) + "秒"@
    } else {
        decimal(total_seconds / 3600) + "小时"@ + decimal((total_seconds % 3600) / 60) + "分"@
    }
}

/// A length of time of `total_seconds` seconds, in words.
pub fn format_seconds(total_seconds: i64) -> (r: String)
    ensures
        r@ == duration_text(total_seconds as int),
{
    let mut out: Vec<char> = Vec::new();
    if total_seconds < 60 {
        push_decimal(&mut out, total_seconds);
        append_str(&mut out, "秒");
    } else if total_seconds < 3600 {
        push_decimal(&mut out, total_seconds / 60);
        append_str(&mut out, "分");
        push_decimal(&mut out, total_seconds % 60);
        append_str(&mut out, "秒");
    } else {
        push_decimal(&mut out, total_seconds / 3600);
        append_str(&mut out, "小时");
        push_decimal(&mut out, (total_seconds % 3600) / 60);
        append_str(&mut out, "分");
    }
    assert(out@ =~= duration_text(total_seconds as int));
    string_of(&out)
}

} // verus!
