//! What a device can be asked to do, and the words in which it is asked.
//!
//! Nothing here talks to a device. A `Command` says what is wanted; the
//! functions here turn it into the arguments of the bridge tool and judge what
//! the tool reports. The pauses that follow a command are part of the script
//! that asks for the command.

use crate::bounds::{half, parse_bounds, Bounds};
use crate::client::AdbClient;
use crate::decide::strings;
use crate::error::{CommandError, ParseError};
use crate::number::{decimal, push_decimal};
use crate::text::{chars_of, string_of};
use vstd::prelude::*;

verus! {

/// A key that can be pressed on the device.
#[derive(Clone, Copy, Debug, PartialEq, Eq, Structural)]
pub enum KeyCode {
    Back,
    Enter,
    CtrlA,
    Del,
}

/// The name under which the device knows a key.
pub open spec fn key_name(key: KeyCode) -> Seq<char> {
    match key {
        KeyCode::Back => "KEYCODE_BACK"@,
        KeyCode::Enter => "KEYCODE_ENTER"@,
        KeyCode::CtrlA => "KEYCODE_CTRL_A"@,
        KeyCode::Del => "KEYCODE_DEL"@,
    }
}

impl KeyCode {
    /// The name under which the device knows the key.
    pub fn name(&self) -> (r: &'static str)
        ensures
            r@ == key_name(*self),
    {
        match self {
            KeyCode::Back => "KEYCODE_BACK",
            KeyCode::Enter => "KEYCODE_ENTER",
            KeyCode::CtrlA => "KEYCODE_CTRL_A",
            KeyCode::Del => "KEYCODE_DEL",
        }
    }
}

/// One thing that a device can be asked to do.
#[derive(Debug)]
pub enum Command {
    /// Write out the interface hierarchy and hand back its text.
    Dump,
    /// Tap the screen at a point.
    Tap { x: i32, y: i32 },
    /// Press a key.
    Key(KeyCode),
    /// Type a text. Blanks are written `%s` already.
    Text(String),
    /// Any other command, as the arguments of the bridge tool.
    Shell(Vec<String>),
}

/// A command, as mathematical values.
pub ghost enum CommandView {
    Dump,
    Tap { x: i32, y: i32 },
    Key(KeyCode),
    Text(Seq<char>),
    Shell(Seq<Seq<char>>),
}

impl View for Command {
    type V = CommandView;

    open spec fn view(&self) -> CommandView {
        match self {
            Command::Dump => CommandView::Dump,
            Command::Tap { x, y } => CommandView::Tap { x: *x, y: *y },
            Command::Key(k) => CommandView::Key(*k),
            Command::Text(t) => CommandView::Text(t@),
            Command::Shell(args) => CommandView::Shell(strings(args@)),
        }
    }
}

/// A copy of a list of strings.
pub fn copy_strings(v: &Vec<String>) -> (r: Vec<String>)
    ensures
        strings(r@) == strings(v@),
{
    let mut r: Vec<String> = Vec::new();
    let mut i: usize = 0;
    while i < v.len()
        invariant
            i <= v.len(),
            r.len() == i,
            forall|k: int| 0 <= k < i ==> r@[k]@ == v@[k]@,
        decreases v.len() - i,
    {
        r.push(v[i].clone());
        i += 1;
    }
    assert(strings(r@) =~= strings(v@));
    r
}

impl Clone for Command {
    fn clone(&self) -> (r: Self)
        ensures
            r@ == self@,
    {
        match self {
            Command::Dump => Command::Dump,
            Command::Tap { x, y } => Command::Tap { x: *x, y: *y },
            Command::Key(k) => Command::Key(*k),
            Command::Text(t) => Command::Text(t.clone()),
            Command::Shell(args) => Command::Shell(copy_strings(args)),
        }
    }
}

/// `text` with each blank written as `%s`, which is how the device's input
/// command wants blanks.
pub open spec fn escaped_input(text: Seq<char>) -> Seq<char>
    decreases text.len(),
{
    if text.len() == 0 {
        Seq::empty()
    } else if text.last() == ' ' {
        escaped_input(text.drop_last()) + seq!['%', 's']
    } else {
        escaped_input(text.drop_last()).push(text.last())
    }
}

/// `text` with each blank written as `%s`.
pub fn escape_input(text: &str) -> (r: String)
    ensures
        r@ == escaped_input(text@),
{
    let chars = chars_of(text);
    let mut out: Vec<char> = Vec::new();
    let mut i: usize = 0;
    assert(chars@.take(0) =~= Seq::<char>::empty());
    while i < chars.len()
        invariant
            i <= chars.len(),
            out@ == escaped_input(chars@.take(i as int)),
        decreases chars.len() - i,
    {
        assert(chars@.take(i + 1).drop_last() =~= chars@.take(i as int));
        if chars[i] == ' ' {
            out.push('%');
            out.push('s');
            assert(out@ =~= escaped_input(chars@.take(i as int)) + seq!['%', 's']);
        } else {
            out.push(chars[i]);
        }
        i += 1;
    }
    assert(chars@.take(i as int) =~= chars@);
    string_of(&out)
}

/// The arguments that ask the device itself for `command`, after the part
/// that selects the device. A dump is written to `/sdcard/ui_dump.xml`; it is
/// read back with `read_dump_words`.
pub open spec fn command_words(command: CommandView) -> Seq<Seq<char>> {
    match command {
        CommandView::Dump => seq!["shell"@, "uiautomator"@, "dump"@, "/sdcard/ui_dump.xml"@],
        CommandView::Tap { x, y } => seq![
            "shell"@,
            "input"@,
            "tap"@,
            decimal(x as int),
            decimal(y as int),
        ],
        CommandView::Key(k) => seq!["shell"@, "input"@, "keyevent"@, key_name(k)],
        CommandView::Text(t) => seq!["shell"@, "input"@, "text"@, t],
        CommandView::Shell(args) => args,
    }
}

/// The arguments that read back the dump that a `Dump` command wrote.
pub open spec fn read_dump_words() -> Seq<Seq<char>> {
    seq!["shell"@, "cat"@, "/sdcard/ui_dump.xml"@]
}

/// The arguments that select the device `device`: `-s` and its identifier,
/// or nothing where no device is named.
pub open spec fn device_words(device: Option<Seq<char>>) -> Seq<Seq<char>> {
    match device {
        Some(id) => seq!["-s"@, id],
        None => Seq::empty(),
    }
}

/// The decimal form of `v`.
pub fn decimal_string(v: i32) -> (s: String)
    ensures
        s@ == decimal(v as int),
{
    let mut out: Vec<char> = Vec::new();
    push_decimal(&mut out, v as i64);
    assert(out@ =~= decimal(v as int));
    string_of(&out)
}

/// What a finished command amounts to: success, or a failure that carries
/// what the executor wrote to its error stream.
pub fn command_outcome(success: bool, stderr: &str) -> (r: Result<(), CommandError>)
    ensures
        match r {
            Ok(_) => success,
            Err(CommandError::DeviceCommandFailed { message }) => !success && message@ == stderr@,
        },
{
    if success {
        Ok(())
    } else {
        Err(CommandError::DeviceCommandFailed { message: stderr.to_owned() })
    }
}

impl AdbClient {
    /// The device that the client addresses, as characters.
    pub open spec fn device_view(&self) -> Option<Seq<char>> {
        match self.device() {
            Some(id) => Some(id@),
            None => None,
        }
    }

    /// The arguments that select the client's device.
    pub fn device_args(&self) -> (args: Vec<String>)
        ensures
            strings(args@) == device_words(self.device_view()),
    {
        let mut args: Vec<String> = Vec::new();
        match self.device_id() {
            Some(id) => {
                args.push("-s".to_owned());
                args.push(id.clone());
                assert(strings(args@) =~= device_words(self.device_view()));
            },
            None => {
                assert(strings(args@) =~= device_words(self.device_view()));
            },
        }
        args
    }

    /// The full arguments of the bridge tool for `command` on the client's
    /// device.
    pub fn command_args(&self, command: &Command) -> (args: Vec<String>)
        ensures
            strings(args@) == device_words(self.device_view()) + command_words(command@),
    {
        let mut args = self.device_args();
        let ghost head = strings(args@);
        match command {
            Command::Dump => {
                args.push("shell".to_owned());
                args.push("uiautomator".to_owned());
                args.push("dump".to_owned());
                args.push("/sdcard/ui_dump.xml".to_owned());
                assert(strings(args@) =~= head + command_words(command@));
            },
            Command::Tap { x, y } => {
                args.push("shell".to_owned());
                args.push("input".to_owned());
                args.push("tap".to_owned());
                args.push(decimal_string(*x));
                args.push(decimal_string(*y));
                assert(strings(args@) =~= head + command_words(command@));
            },
            Command::Key(k) => {
                args.push("shell".to_owned());
                args.push("input".to_owned());
                args.push("keyevent".to_owned());
                args.push(k.name().to_owned());
                assert(strings(args@) =~= head + command_words(command@));
            },
            Command::Text(t) => {
                args.push("shell".to_owned());
                args.push("input".to_owned());
                args.push("text".to_owned());
                args.push(t.clone());
                assert(strings(args@) =~= head + command_words(command@));
            },
            Command::Shell(rest) => {
                let mut i: usize = 0;
                while i < rest.len()
                    invariant
                        i <= rest.len(),
                        strings(args@) == head + strings(rest@).take(i as int),
                    decreases rest.len() - i,
                {
                    let ghost before = strings(args@);
                    args.push(rest[i].clone());
                    assert(strings(args@) =~= before.push(rest@[i as int]@));
                    assert(strings(rest@).take(i + 1) =~= strings(rest@).take(i as int).push(
                        rest@[i as int]@,
                    ));
                    i += 1;
                }
                assert(strings(rest@).take(i as int) =~= strings(rest@));
            },
        }
        args
    }

    /// The full arguments of the bridge tool that read back a dump.
    pub fn read_dump_args(&self) -> (args: Vec<String>)
        ensures
            strings(args@) == device_words(self.device_view()) + read_dump_words(),
    {
        let mut args = self.device_args();
        let ghost head = strings(args@);
        args.push("shell".to_owned());
        args.push("cat".to_owned());
        args.push("/sdcard/ui_dump.xml".to_owned());
        assert(strings(args@) =~= head + read_dump_words());
        args
    }
}

impl AdbClient {
    /// The command that taps the point `(x, y)`.
    pub fn click_coordinates(&self, x: i32, y: i32) -> (command: Command)
        ensures
            command@ == (CommandView::Tap { x, y }),
    {
        Command::Tap { x, y }
    }

    /// The command that taps the centre of `bounds`.
    pub fn click_element_bounds(&self, bounds: &Bounds) -> (command: Command)
        ensures
            command@ == (CommandView::Tap {
                x: half(bounds.left + bounds.right) as i32,
                y: half(bounds.top + bounds.bottom) as i32,
            }),
    {
        Command::Tap { x: bounds.center_x(), y: bounds.center_y() }
    }

    /// The command that taps the centre of the rectangle that `bounds`
    /// writes, or the reason why `bounds` writes none.
    pub fn click_element_bounds_str(&self, bounds: &str) -> (r: Result<Command, ParseError>)
        ensures
            match r {
                Ok(command) => parse_bounds(bounds@) matches Some(b) && command@
                    == (CommandView::Tap {
                    x: half(b.left + b.right) as i32,
                    y: half(b.top + b.bottom) as i32,
                }),
                Err(e) => e == ParseError::MalformedBounds && parse_bounds(bounds@) is None,
            },
    {
        match Bounds::from_string(bounds) {
            Ok(b) => Ok(self.click_element_bounds(&b)),
            Err(e) => Err(e),
        }
    }
}

} // verus!
