//! Reading what the bridge tool reports about the devices it knows.

use crate::client::AdbClient;
use crate::decide::strings;
use crate::number::{parse_i32, read_i32};
use crate::text::{
    chars_eq, chars_of, contains, contains_chars, lines, lines_of, rows, split, split_on, string_of,
    trim, trim_chars, words, words_of,
};
use vstd::prelude::*;

verus! {

/// The device that a line of the device list names as ready: the first word
/// of a line whose second word is `device`.
pub open spec fn ready_device(line: Seq<char>) -> Option<Seq<char>> {
    let w = words(line);
    if w.len() >= 2 && w[1] == "device"@ {
        Some(w[0])
    } else {
        None
    }
}

/// The device that a line of the long device list names as reachable: the
/// first word of a line that does not mention `offline`.
pub open spec fn reachable_device(line: Seq<char>) -> Option<Seq<char>> {
    let w = words(line);
    if w.len() >= 1 && !contains(line, "offline"@) {
        Some(w[0])
    } else {
        None
    }
}

/// The devices that the lines name, in order, under the rule `long`: the rule
/// of the long list where it is set, the rule of the short list where not.
pub open spec fn devices_in(all: Seq<Seq<char>>, long: bool) -> Seq<Seq<char>>
    decreases all.len(),
{
    if all.len() == 0 {
        Seq::empty()
    } else {
        let before = devices_in(all.drop_last(), long);
        let named = if long {
            reachable_device(all.last())
        } else {
            ready_device(all.last())
        };
        match named {
            Some(id) => before.push(id),
            None => before,
        }
    }
}

/// The devices that a device list names: its first line is a heading and
/// names none.
pub open spec fn listed(output: Seq<char>, long: bool) -> Seq<Seq<char>> {
    devices_in(below_heading(lines(output)), long)
}

/// The lines after the first.
pub open spec fn below_heading(all: Seq<Seq<char>>) -> Seq<Seq<char>> {
    if all.len() > 0 {
        all.skip(1)
    } else {
        all
    }
}

/// The first of the lines, at position `from` or later, that holds `key`.
pub open spec fn line_with(all: Seq<Seq<char>>, key: Seq<char>, from: int) -> Option<Seq<char>>
    decreases all.len() - from,
{
    if 0 <= from < all.len() {
        if contains(all[from], key) {
            Some(all[from])
        } else {
            line_with(all, key, from + 1)
        }
    } else {
        None
    }
}

/// What stands between the first and the second colon of the first line that
/// holds `key`, without the blanks around it.
pub open spec fn value_after(output: Seq<char>, key: Seq<char>) -> Option<Seq<char>> {
    match line_with(lines(output), key, 0) {
        Some(line) => {
            let parts = split(line, seq![':']);
            if parts.len() >= 2 {
                Some(trim(parts[1]))
            } else {
                None
            }
        },
        None => None,
    }
}

/// The battery level that a battery report gives.
pub open spec fn battery_level_in(output: Seq<char>) -> Option<i32> {
    match value_after(output, "level:"@) {
        Some(v) => parse_i32(v),
        None => None,
    }
}

/// The devices that a device list names.
fn list_devices(output: &str, long: bool) -> (devices: Vec<String>)
    ensures
        strings(devices@) == listed(output@, long),
{
    let chars = chars_of(output);
    let all = lines_of(&chars);
    let ghost body = below_heading(lines(output@));
    let offline = chars_of("offline");
    let ready = chars_of("device");
    let mut devices: Vec<String> = Vec::new();
    assert(rows(all@).len() == all.len());
    if all.len() == 0 {
        assert(body =~= Seq::<Seq<char>>::empty());
        assert(strings(devices@) =~= listed(output@, long));
        return devices;
    }
    let mut i: usize = 1;
    assert(body.take(0) =~= Seq::<Seq<char>>::empty());
    assert(strings(devices@) =~= devices_in(body.take(0), long));
    while i < all.len()
        invariant
            1 <= i <= all.len(),
            rows(all@) == lines(output@),
            body == lines(output@).skip(1),
            body.len() == all.len() - 1,
            offline@ == "offline"@,
            ready@ == "device"@,
            strings(devices@) == devices_in(body.take(i - 1), long),
        decreases all.len() - i,
    {
        assert(rows(all@)[i as int] == all@[i as int]@);
        assert(body[i - 1] == all@[i as int]@);
        assert(body.take(i as int).drop_last() =~= body.take(i - 1));
        let line = &all[i];
        let w = words_of(line);
        assert(rows(w@).len() == w.len());
        let ghost before = devices@;
        if long {
            if w.len() >= 1 && !contains_chars(line, &offline) {
                assert(rows(w@)[0] == w@[0]@);
                devices.push(string_of(&w[0]));
                assert(strings(devices@) =~= strings(before).push(w@[0]@));
            }
        } else {
            if w.len() >= 2 {
                assert(rows(w@)[0] == w@[0]@);
                assert(rows(w@)[1] == w@[1]@);
                if chars_eq(&w[1], &ready) {
                    devices.push(string_of(&w[0]));
                    assert(strings(devices@) =~= strings(before).push(w@[0]@));
                }
            }
        }
        i += 1;
    }
    assert(body.take(i - 1) =~= body);
    devices
}

/// What stands between the first and the second colon of the first line of
/// `output` that holds `key`, without the blanks around it.
pub fn find_value(output: &str, key: &str) -> (r: Option<Vec<char>>)
    ensures
        match r {
            Some(v) => value_after(output@, key@) == Some(v@),
            None => value_after(output@, key@) is None,
        },
{
    let chars = chars_of(output);
    let all = lines_of(&chars);
    let needle = chars_of(key);
    let ghost spec_lines = lines(output@);
    assert(rows(all@).len() == all.len());
    let mut i: usize = 0;
    while i < all.len()
        invariant
            i <= all.len(),
            rows(all@) == spec_lines,
            spec_lines == lines(output@),
            needle@ == key@,
            line_with(spec_lines, key@, 0) == line_with(spec_lines, key@, i as int),
        decreases all.len() - i,
    {
        assert(rows(all@)[i as int] == all@[i as int]@);
        if contains_chars(&all[i], &needle) {
            assert(line_with(spec_lines, key@, i as int) == Some(all@[i as int]@));
            let parts = split_on(&all[i], ':');
            assert(rows(parts@).len() == parts.len());
            if parts.len() >= 2 {
                assert(rows(parts@)[1] == parts@[1]@);
                return Some(trim_chars(&parts[1]));
            } else {
                return None;
            }
        }
        i += 1;
    }
    None
}

impl AdbClient {
    /// The devices that the output of the bridge tool's device list names as
    /// ready.
    pub fn parse_devices(output: &str) -> (devices: Vec<String>)
        ensures
            strings(devices@) == listed(output@, false),
    {
        list_devices(output, false)
    }
}

/// The bridge tool, and what it reports about devices.
#[derive(Debug)]
pub struct DeviceManager {
    adb_path: String,
}

impl DeviceManager {
    /// Where the bridge tool is found.
    pub closed spec fn path(&self) -> Seq<char> {
        self.adb_path@
    }

    /// A manager that expects the bridge tool on the search path, as `adb`.
    pub fn new() -> (manager: Self)
        ensures
            manager.path() == "adb"@,
    {
        Self { adb_path: "adb".to_owned() }
    }

    /// Tells the manager where the bridge tool is found.
    pub fn set_adb_path(&mut self, path: String)
        ensures
            final(self).path() == path@,
    {
        self.adb_path = path;
    }

    /// Where the bridge tool is found.
    pub fn adb_path(&self) -> (r: &String)
        ensures
            r@ == self.path(),
    {
        &self.adb_path
    }

    /// The devices that the output of the long device list names and does not
    /// report as offline.
    pub fn reachable_devices(output: &str) -> (devices: Vec<String>)
        ensures
            strings(devices@) == listed(output@, true),
    {
        list_devices(output, true)
    }

    /// The battery level that a battery report gives.
    pub fn battery_level(output: &str) -> (r: Option<i32>)
        ensures
            r == battery_level_in(output@),
    {
        match find_value(output, "level:") {
            Some(v) => read_i32(&v),
            None => None,
        }
    }

    /// The screen size that a window manager report gives.
    pub fn screen_resolution(output: &str) -> (r: Option<String>)
        ensures
            match r {
                Some(v) => value_after(output@, "Physical size:"@) == Some(v@),
                None => value_after(output@, "Physical size:"@) is None,
            },
    {
        match find_value(output, "Physical size:") {
            Some(v) => Some(string_of(&v)),
            None => None,
        }
    }
}

} // verus!
