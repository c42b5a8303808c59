//! The scripts of the flows that work on the screen of a social application
//! and of the contacts application: what to look for, what to tap, how long to
//! wait, and what to fall back on.
//!
//! Each script is a table. The table is given twice: as a mathematical value,
//! which is what a flow is proved against, and as the function that builds
//! it. Beside the table stands what a flow on it asks of a device on which
//! every command succeeds: which screens it reads, what it taps on which
//! screen, and how it ends.

use crate::actions::{escape_input, escaped_input, Command, CommandView, KeyCode};
use crate::contact::{Contact, ContactView};
use crate::decide::{
    center_of, first_clickable, lemma_folded_finds_the_same_word, strings, target, Field, Pick,
};
use crate::element::ElementView;
use crate::error::ParseError;
use crate::markup::parse_document;
use crate::search::{lemma_hits_of_leaf, lowercase, QueryView};
use crate::script::{
    click, click_step, completes, dumped, dumps, extend, fails, go, jumps_fit, key, key_step,
    lemma_fits_together, lemma_fits_with_room, look, look_step, obeyed, only, owned, pass, presses,
    run, run_step, runs, shell, shell_step, shell_words, strs, tap, tap_and_go, tap_then, taps_at,
    wait, wait_step, waits, words_step,
};
use crate::text::{append_str, string_of};
use crate::workflow::{
    first_shown, from_step, head, lemma_at_end, lemma_at_run, lemma_at_screen, lemma_at_wait,
    lowered, session, steps, tail, Accept, AcceptView, ActionView, Device, Failure, Reaction, Step,
    StepView,
};
use vstd::prelude::*;

verus! {

/// Finds an element by the text `search_text` and taps it: the first element
/// that shows the text, is clickable and has bounds. Upper and lower case are
/// taken as one.
pub open spec fn find_and_click_text_table(search_text: Seq<char>) -> Seq<StepView> {
    seq![
        click_step(
            seq![search_text],
            Field::Folded,
            Pick::Clickable,
            0,
            0,
            0,
            Reaction::Fail(Failure::ElementNotFound),
        ),
    ]
}

/// The script that finds an element by the text `search_text` and taps it.
pub fn find_and_click_text_steps(search_text: &str) -> (script: Vec<Step>)
    ensures
        steps(script@) == find_and_click_text_table(search_text@),
{
    let mut script: Vec<Step> = Vec::new();
    script.push(
        click(
            only(search_text),
            Field::Folded,
            Pick::Clickable,
            0,
            0,
            0,
            Reaction::Fail(Failure::ElementNotFound),
        ),
    );
    assert(steps(script@) =~= find_and_click_text_table(search_text@));
    script
}

/// Finds an element by its description and taps it. The description is
/// compared as it stands.
pub open spec fn find_and_click_content_desc_table(content_desc: Seq<char>) -> Seq<StepView> {
    seq![
        click_step(
            seq![content_desc],
            Field::Description,
            Pick::Clickable,
            0,
            0,
            0,
            Reaction::Fail(Failure::ElementNotFound),
        ),
    ]
}

/// The script that finds an element by its description and taps it.
pub fn find_and_click_content_desc_steps(content_desc: &str) -> (script: Vec<Step>)
    ensures
        steps(script@) == find_and_click_content_desc_table(content_desc@),
{
    let mut script: Vec<Step> = Vec::new();
    script.push(
        click(
            only(content_desc),
            Field::Description,
            Pick::Clickable,
            0,
            0,
            0,
            Reaction::Fail(Failure::ElementNotFound),
        ),
    );
    assert(steps(script@) =~= find_and_click_content_desc_table(content_desc@));
    script
}

/// Lets the page come up for two seconds and checks that it shows
/// `expected_text`, upper and lower case taken as one.
pub open spec fn verify_page_contains_table(expected_text: Seq<char>) -> Seq<StepView> {
    seq![
        wait_step(2000),
        look_step(
            seq![expected_text],
            pass(0),
            Reaction::Fail(Failure::VerificationInconclusive),
        ),
    ]
}

/// The script that checks that the page shows `expected_text`.
pub fn verify_page_contains_steps(expected_text: &str) -> (script: Vec<Step>)
    ensures
        steps(script@) == verify_page_contains_table(expected_text@),
{
    let mut script: Vec<Step> = Vec::new();
    script.push(wait(2000));
    script.push(
        look(only(expected_text), go(0), Reaction::Fail(Failure::VerificationInconclusive)),
    );
    assert(steps(script@) =~= verify_page_contains_table(expected_text@));
    script
}

/// One leg of the way to the contacts page: tap what `keyword` names, let the
/// page come up, and check that it shows `marker`.
pub open spec fn leg_table(keyword: Seq<char>, field: Field, marker: Seq<char>) -> Seq<StepView> {
    seq![
        click_step(
            seq![keyword],
            field,
            Pick::Clickable,
            0,
            0,
            0,
            Reaction::Fail(Failure::ElementNotFound),
        ),
        wait_step(2000),
        look_step(seq![marker], pass(0), Reaction::Fail(Failure::VerificationInconclusive)),
    ]
}

/// The script of one leg of the way to the contacts page.
pub fn leg_steps(keyword: &str, field: Field, marker: &str) -> (script: Vec<Step>)
    ensures
        steps(script@) == leg_table(keyword@, field, marker@),
{
    let mut script: Vec<Step> = Vec::new();
    script.push(
        click(
            only(keyword),
            field,
            Pick::Clickable,
            0,
            0,
            0,
            Reaction::Fail(Failure::ElementNotFound),
        ),
    );
    script.push(wait(2000));
    script.push(look(only(marker), go(0), Reaction::Fail(Failure::VerificationInconclusive)));
    assert(steps(script@) =~= leg_table(keyword@, field, marker@));
    script
}

/// The end of the way to the contacts page: tap `通讯录`, check for `联系人`
/// or, failing that, for `导入`, without insisting on either; then take a
/// picture of the screen, fetch it, and read the screen once more.
pub open spec fn arrival_table() -> Seq<StepView> {
    seq![
        click_step(
            seq!["通讯录"@],
            Field::Folded,
            Pick::Clickable,
            0,
            0,
            0,
            Reaction::Fail(Failure::ElementNotFound),
        ),
        wait_step(2000),
        look_step(seq!["联系人"@], pass(2), pass(0)),
        wait_step(2000),
        look_step(seq!["导入"@], pass(0), pass(0)),
        shell_step(seq!["shell", "screencap", "/sdcard/screenshot.png"], true),
        shell_step(seq!["pull", "/sdcard/screenshot.png", "final_contacts_page.png"], true),
        run_step(CommandView::Dump, true),
    ]
}

/// The script of the end of the way to the contacts page.
pub fn arrival_steps() -> (script: Vec<Step>)
    ensures
        steps(script@) == arrival_table(),
{
    let mut script: Vec<Step> = Vec::new();
    script.push(
        click(
            only("通讯录"),
            Field::Folded,
            Pick::Clickable,
            0,
            0,
            0,
            Reaction::Fail(Failure::ElementNotFound),
        ),
    );
    script.push(wait(2000));
    script.push(look(only("联系人"), go(2), go(0)));
    script.push(wait(2000));
    script.push(look(only("导入"), go(0), go(0)));
    script.push(shell(vec!["shell", "screencap", "/sdcard/screenshot.png"], true));
    script.push(shell(vec!["pull", "/sdcard/screenshot.png", "final_contacts_page.png"], true));
    script.push(run(Command::Dump, true));
    assert(steps(script@) =~= arrival_table());
    script
}

/// The whole way to the contacts page: the menu at the top left, then
/// `发现好友`, then `通讯录`; each tap checked by what the next page shows.
pub open spec fn execute_contact_flow_table() -> Seq<StepView> {
    leg_table("菜单"@, Field::Description, "发现好友"@) + leg_table(
        "发现好友"@,
        Field::Folded,
        "通讯录"@,
    ) + arrival_table()
}

/// The script of the whole way to the contacts page.
pub fn execute_contact_flow_steps() -> (script: Vec<Step>)
    ensures
        steps(script@) == execute_contact_flow_table(),
{
    let mut script = leg_steps("菜单", Field::Description, "发现好友");
    extend(&mut script, leg_steps("发现好友", Field::Folded, "通讯录"));
    extend(&mut script, arrival_steps());
    script
}

/// Types a text into the field that has the focus: select what the field
/// holds, delete it, and type `text`, with a short pause after each. The three
/// commands stand or fall together: where one of them fails the flow ends
/// with that failure, and what has been typed by then stays typed.
pub open spec fn input_text_table(text: Seq<char>) -> Seq<StepView> {
    seq![
        key_step(KeyCode::CtrlA),
        wait_step(200),
        key_step(KeyCode::Del),
        wait_step(200),
        run_step(CommandView::Text(escaped_input(text)), true),
        wait_step(300),
    ]
}

/// The script that types a text into the field that has the focus.
pub fn input_text_steps(text: &str) -> (script: Vec<Step>)
    ensures
        steps(script@) == input_text_table(text@),
{
    let mut script: Vec<Step> = Vec::new();
    script.push(key(KeyCode::CtrlA));
    script.push(wait(200));
    script.push(key(KeyCode::Del));
    script.push(wait(200));
    script.push(run(Command::Text(escape_input(text)), true));
    script.push(wait(300));
    assert(steps(script@) =~= input_text_table(text@));
    script
}

/// The words on a button that saves, in order of priority.
pub open spec fn save_words() -> Seq<&'static str> {
    seq!["保存", "确定", "完成", "Save", "Done", "OK"]
}

/// Saves the contact that is being edited: after a second, tap the first
/// clickable element that shows one of the save words, or, where there is
/// none, the top right corner, where the button usually is.
pub open spec fn try_save_contact_table() -> Seq<StepView> {
    seq![
        wait_step(1000),
        click_step(
            strs(save_words()),
            Field::TextOrDescription,
            Pick::Clickable,
            0,
            1000,
            0,
            tap_then(1000, 100, 0, 0),
        ),
    ]
}

/// The script that saves the contact that is being edited.
pub fn try_save_contact_steps() -> (script: Vec<Step>)
    ensures
        steps(script@) == try_save_contact_table(),
{
    let mut script: Vec<Step> = Vec::new();
    script.push(wait(1000));
    script.push(
        click(
            owned(vec!["保存", "确定", "完成", "Save", "Done", "OK"]),
            Field::TextOrDescription,
            Pick::Clickable,
            0,
            1000,
            0,
            tap_and_go(1000, 100, 0),
        ),
    );
    assert(steps(script@) =~= try_save_contact_table());
    script
}

/// The command that opens the editor for a new contact with name, phone and,
/// where it is known, e-mail address filled in.
pub open spec fn insert_intent(c: ContactView) -> Seq<char> {
    "am start -a android.intent.action.INSERT -t vnd.android.cursor.dir/contact -e name '"@
        + c.name + "' -e phone '"@ + c.phone + "'"@ + match c.email {
        Some(e) => " -e email '"@ + e + "'"@,
        None => Seq::empty(),
    }
}

/// The command that opens the editor for a new contact.
pub fn insert_intent_text(contact: &Contact) -> (r: String)
    ensures
        r@ == insert_intent(contact@),
{
    let mut out: Vec<char> = Vec::new();
    append_str(
        &mut out,
        "am start -a android.intent.action.INSERT -t vnd.android.cursor.dir/contact -e name '",
    );
    append_str(&mut out, contact.name.as_str());
    append_str(&mut out, "' -e phone '");
    append_str(&mut out, contact.phone.as_str());
    append_str(&mut out, "'");
    match &contact.email {
        Some(e) => {
            append_str(&mut out, " -e email '");
            append_str(&mut out, e.as_str());
            append_str(&mut out, "'");
            assert(out@ =~= insert_intent(contact@));
        },
        None => {
            assert(out@ =~= insert_intent(contact@));
        },
    }
    string_of(&out)
}

/// The command that makes room for a new raw contact on the device.
pub open spec fn insert_raw_contact() -> Seq<char> {
    "content insert --uri content://com.android.contacts/raw_contacts --bind account_type:s:null --bind account_name:s:null"@
}

/// Adds a contact to the device: make room for it, open the editor with its
/// data filled in, let the editor come up, and save.
pub open spec fn add_contact_to_device_table(c: ContactView) -> Seq<StepView> {
    seq![
        words_step(seq!["shell"@, insert_raw_contact()], true),
        words_step(seq!["shell"@, insert_intent(c)], true),
        wait_step(2000),
    ] + try_save_contact_table()
}

/// The script that adds a contact to the device.
pub fn add_contact_to_device_steps(contact: &Contact) -> (script: Vec<Step>)
    ensures
        steps(script@) == add_contact_to_device_table(contact@),
{
    let mut script: Vec<Step> = Vec::new();
    let mut first: Vec<String> = Vec::new();
    first.push("shell".to_owned());
    first.push(
        "content insert --uri content://com.android.contacts/raw_contacts --bind account_type:s:null --bind account_name:s:null".to_owned(),
    );
    assert(strings(first@) =~= seq!["shell"@, insert_raw_contact()]);
    let mut second: Vec<String> = Vec::new();
    second.push("shell".to_owned());
    second.push(insert_intent_text(contact));
    assert(strings(second@) =~= seq!["shell"@, insert_intent(contact@)]);
    script.push(shell_words(first, true));
    script.push(shell_words(second, true));
    script.push(wait(2000));
    assert(steps(script@) =~= seq![
        words_step(seq!["shell"@, insert_raw_contact()], true),
        words_step(seq!["shell"@, insert_intent(contact@)], true),
        wait_step(2000),
    ]);
    extend(&mut script, try_save_contact_steps());
    script
}

/// Opens the contacts application: by its name or, where that fails, by the
/// address of its list; then lets it come up for three seconds.
pub open spec fn open_contacts_app_table() -> Seq<StepView> {
    seq![
        StepView::Run {
            command: CommandView::Shell(
                strs(
                    seq![
                        "shell",
                        "am",
                        "start",
                        "-n",
                        "com.android.contacts/.activities.PeopleActivity",
                    ],
                ),
            ),
            accept: AcceptView::Always,
            skip: 1,
            reject: None,
            required: false,
            failed_skip: 0,
        },
        shell_step(
            seq![
                "shell",
                "am",
                "start",
                "-a",
                "android.intent.action.VIEW",
                "-d",
                "content://contacts/people",
            ],
            false,
        ),
        wait_step(3000),
    ]
}

/// The script that opens the contacts application.
pub fn open_contacts_app_steps() -> (script: Vec<Step>)
    ensures
        steps(script@) == open_contacts_app_table(),
{
    let mut script: Vec<Step> = Vec::new();
    script.push(
        Step::Run {
            command: Command::Shell(
                owned(
                    vec![
                        "shell",
                        "am",
                        "start",
                        "-n",
                        "com.android.contacts/.activities.PeopleActivity",
                    ],
                ),
            ),
            accept: Accept::Always,
            skip: 1,
            reject: None,
            required: false,
            failed_skip: 0,
        },
    );
    script.push(
        shell(
            vec![
                "shell",
                "am",
                "start",
                "-a",
                "android.intent.action.VIEW",
                "-d",
                "content://contacts/people",
            ],
            false,
        ),
    );
    script.push(wait(3000));
    assert(steps(script@) =~= open_contacts_app_table());
    script
}

/// The script that makes the device ready for `contacts` to be added to it:
/// it opens the contacts application. Where there is no contact to add there
/// is no such script, and the application is left alone.
pub fn import_contacts_to_device_steps(contacts: &Vec<Contact>) -> (r: Option<Vec<Step>>)
    ensures
        match r {
            Some(script) => contacts@.len() > 0 && steps(script@) == open_contacts_app_table(),
            None => contacts@.len() == 0,
        },
{
    if contacts.len() > 0 {
        Some(open_contacts_app_steps())
    } else {
        None
    }
}

/// The jumps of every script of this module stay within the script.
pub proof fn lemma_scripts_fit(text: Seq<char>, field: Field, marker: Seq<char>, c: ContactView)
    ensures
        jumps_fit(find_and_click_text_table(text)),
        jumps_fit(find_and_click_content_desc_table(text)),
        jumps_fit(verify_page_contains_table(text)),
        jumps_fit(leg_table(text, field, marker)),
        jumps_fit(arrival_table()),
        jumps_fit(execute_contact_flow_table()),
        jumps_fit(try_save_contact_table()),
        jumps_fit(add_contact_to_device_table(c)),
        jumps_fit(open_contacts_app_table()),
        jumps_fit(input_text_table(text)),
{
    let first = leg_table("菜单"@, Field::Description, "发现好友"@);
    let second = leg_table("发现好友"@, Field::Folded, "通讯录"@);
    lemma_fits_with_room(first, 0, second.len() as int);
    lemma_fits_together(first, second, 0);
    lemma_fits_with_room(first + second, 0, arrival_table().len() as int);
    lemma_fits_together(first + second, arrival_table(), 0);
    let head = seq![
        words_step(seq!["shell"@, insert_raw_contact()], true),
        words_step(seq!["shell"@, insert_intent(c)], true),
        wait_step(2000),
    ];
    lemma_fits_with_room(head, 0, try_save_contact_table().len() as int);
    lemma_fits_together(head, try_save_contact_table(), 0);
}

/// What a step that taps by keyword asks for once it has read the dump `d`:
/// where the dump cannot be parsed the flow ends with that failure; where a
/// keyword gives an element the element is tapped `drop` pixels below its
/// centre and `found` follows; where none does, `missing` follows.
pub open spec fn on_target(
    d: Seq<char>,
    keywords: Seq<Seq<char>>,
    field: Field,
    pick: Pick,
    drop: i32,
    found: Seq<ActionView>,
    missing: Seq<ActionView>,
) -> Seq<ActionView> {
    match parse_document(d) {
        Err(e) => seq![fails(Failure::Parse(e))],
        Ok(root) => match target(root, keywords, field, pick, 0) {
            Some((_, p)) => seq![taps_at(p.0, lowered(p.1, drop))] + found,
            None => missing,
        },
    }
}

/// What a step that looks for markers among the elements asks for once it
/// has read the dump `d`: where the dump cannot be parsed the flow ends with
/// that failure; where some element shows a marker, upper and lower case
/// taken as one, `shown` follows; where none does, `missing` follows.
pub open spec fn on_marker(
    d: Seq<char>,
    markers: Seq<Seq<char>>,
    shown: Seq<ActionView>,
    missing: Seq<ActionView>,
) -> Seq<ActionView> {
    match parse_document(d) {
        Err(e) => seq![fails(Failure::Parse(e))],
        Ok(root) => if first_shown(root, markers, 0) is Some {
            shown
        } else {
            missing
        },
    }
}

/// A flow that finds and taps by text reads the screen once. Among the
/// elements whose text or description holds the text, upper and lower case
/// taken as one, it taps the centre of the first in document order that is
/// clickable and has bounds, and is completed; where there is no such element
/// it taps nothing and fails.
pub proof fn lemma_find_and_click_text(search_text: Seq<char>, device: Device)
    ensures
        session(find_and_click_text_table(search_text), device) == seq![dumps()] + on_target(
            head(device.dumps),
            seq![search_text],
            Field::Folded,
            Pick::Clickable,
            0,
            seq![completes()],
            seq![fails(Failure::ElementNotFound)],
        ),
{
    let t = find_and_click_text_table(search_text);
    lemma_at_screen(t, 0, device);
    lemma_at_end(t, 1);
}

/// Finding and tapping by text on a screen that parses as `root`. Take the
/// elements of `root` whose text or description holds `search_text`, upper
/// and lower case taken as one, in document order. Where one of them is
/// clickable and has bounds, the flow asks for exactly one tap, at the centre
/// of the first such element, and is completed. Where none is, it asks for no
/// tap and fails.
pub proof fn lemma_find_and_click_text_taps_first_match(
    search_text: Seq<char>,
    root: ElementView,
    device: Device,
)
    requires
        parse_document(head(device.dumps)) == Ok::<ElementView, ParseError>(root),
    ensures
        session(find_and_click_text_table(search_text), device) == match first_clickable(
            QueryView::Folded(lowercase(search_text)).hits(root),
            0,
        ) {
            Some(e) => seq![
                dumps(),
                taps_at(center_of(e.bounds->0).0, center_of(e.bounds->0).1),
                completes(),
            ],
            None => seq![dumps(), fails(Failure::ElementNotFound)],
        },
{
    lemma_find_and_click_text(search_text, device);
    reveal_with_fuel(target, 2);
}

/// Finding and tapping by text does not depend on how the text is written.
/// On a screen that holds one element, which is clickable, has bounds and
/// shows a text with the same lower-case form as `search_text`, the flow taps
/// the centre of that element and is completed.
pub proof fn lemma_find_and_click_text_is_case_blind(
    search_text: Seq<char>,
    root: ElementView,
    device: Device,
)
    requires
        parse_document(head(device.dumps)) == Ok::<ElementView, ParseError>(root),
        root.children.len() == 0,
        root.clickable,
        root.bounds is Some,
        root.text is Some,
        lowercase(root.text->0) == lowercase(search_text),
    ensures
        session(find_and_click_text_table(search_text), device) == seq![
            dumps(),
            taps_at(center_of(root.bounds->0).0, center_of(root.bounds->0).1),
            completes(),
        ],
{
    let q = QueryView::Folded(lowercase(search_text));
    lemma_find_and_click_text_taps_first_match(search_text, root, device);
    lemma_folded_finds_the_same_word(root, search_text);
    lemma_hits_of_leaf(q, root);
    assert(q.hits(root)[0] == root);
}

/// Verifying a page on a screen that parses as `root`: the flow is completed
/// where some element of `root` holds the expected text in its text or
/// description, upper and lower case taken as one, and fails where none does.
pub proof fn lemma_verify_page_contains_any_match(
    expected_text: Seq<char>,
    root: ElementView,
    device: Device,
)
    requires
        parse_document(head(device.dumps)) == Ok::<ElementView, ParseError>(root),
    ensures
        session(verify_page_contains_table(expected_text), device) == seq![
            waits(2000),
            dumps(),
            if QueryView::Folded(lowercase(expected_text)).hits(root).len() > 0 {
                completes()
            } else {
                fails(Failure::VerificationInconclusive)
            },
        ],
{
    lemma_verify_page_contains(expected_text, device);
    reveal_with_fuel(first_shown, 2);
}

/// A flow that finds and taps by description reads the screen once. It taps
/// the centre of the first clickable element that has the description and is
/// completed, or fails where there is no such element.
pub proof fn lemma_find_and_click_content_desc(content_desc: Seq<char>, device: Device)
    ensures
        session(find_and_click_content_desc_table(content_desc), device) == seq![dumps()]
            + on_target(
            head(device.dumps),
            seq![content_desc],
            Field::Description,
            Pick::Clickable,
            0,
            seq![completes()],
            seq![fails(Failure::ElementNotFound)],
        ),
{
    let t = find_and_click_content_desc_table(content_desc);
    lemma_at_screen(t, 0, device);
    lemma_at_end(t, 1);
}

/// Verifying a page waits two seconds and reads the screen once. It is
/// completed where an element shows the expected text and fails where none
/// does.
pub proof fn lemma_verify_page_contains(expected_text: Seq<char>, device: Device)
    ensures
        session(verify_page_contains_table(expected_text), device) == seq![waits(2000), dumps()]
            + on_marker(
            head(device.dumps),
            seq![expected_text],
            seq![completes()],
            seq![fails(Failure::VerificationInconclusive)],
        ),
{
    let t = verify_page_contains_table(expected_text);
    lemma_at_wait(t, 0, device);
    lemma_at_screen(t, 1, device);
    lemma_at_end(t, 2);
}

/// Typing a text asks for three commands in this order, each followed by its
/// pause: select all, delete, type the text with its blanks escaped. No
/// screen is read.
pub proof fn lemma_input_text(text: Seq<char>, device: Device)
    ensures
        session(input_text_table(text), device) == seq![
            presses(KeyCode::CtrlA),
            waits(200),
            presses(KeyCode::Del),
            waits(200),
            ActionView::Run(CommandView::Text(escaped_input(text))),
            waits(300),
            completes(),
        ],
{
    let t = input_text_table(text);
    let d1 = obeyed(device);
    let d2 = obeyed(d1);
    let d3 = obeyed(d2);
    lemma_at_run(t, 0, device);
    lemma_at_wait(t, 1, d1);
    lemma_at_run(t, 2, d1);
    lemma_at_wait(t, 3, d2);
    lemma_at_run(t, 4, d2);
    lemma_at_wait(t, 5, d3);
    lemma_at_end(t, 6);
}

/// What saving a contact asks for on the screen whose dump is `d`: after a
/// second it reads the screen once. Where a save word gives a clickable
/// element, the first such word wins: that element is tapped, and a second
/// passes. Where none does, the top right corner is tapped instead.
pub open spec fn save_asks(d: Seq<char>) -> Seq<ActionView> {
    seq![waits(1000), dumps()] + on_target(
        d,
        strs(save_words()),
        Field::TextOrDescription,
        Pick::Clickable,
        0,
        seq![waits(1000), completes()],
        seq![taps_at(1000, 100), completes()],
    )
}

/// Saving a contact asks for what `save_asks` says.
pub proof fn lemma_try_save_contact(device: Device)
    ensures
        session(try_save_contact_table(), device) == save_asks(head(device.dumps)),
{
    let t = try_save_contact_table();
    lemma_at_wait(t, 0, device);
    lemma_at_screen(t, 1, device);
    lemma_at_end(t, 2);
}

/// Adding a contact asks for two commands, makes room for the contact and
/// opens the editor with its data, waits two seconds for the editor, and
/// then saves as `save_asks` says, on the first screen that it reads.
pub proof fn lemma_add_contact_to_device(c: ContactView, device: Device)
    ensures
        session(add_contact_to_device_table(c), device) == seq![
            ActionView::Run(CommandView::Shell(seq!["shell"@, insert_raw_contact()])),
            ActionView::Run(CommandView::Shell(seq!["shell"@, insert_intent(c)])),
            waits(2000),
        ] + save_asks(head(device.dumps)),
{
    let t = add_contact_to_device_table(c);
    let d1 = obeyed(device);
    let d2 = obeyed(d1);
    assert(t.len() == 5);
    assert(t[0] == words_step(seq!["shell"@, insert_raw_contact()], true));
    assert(t[1] == words_step(seq!["shell"@, insert_intent(c)], true));
    assert(t[2] == wait_step(2000));
    assert(t[3] == try_save_contact_table()[0]);
    assert(t[4] == try_save_contact_table()[1]);
    lemma_at_run(t, 0, device);
    lemma_at_run(t, 1, d1);
    lemma_at_wait(t, 2, d2);
    lemma_at_wait(t, 3, d2);
    lemma_at_screen(t, 4, d2);
    lemma_at_end(t, 5);
}

/// Opening the contacts application, on a device on which every command
/// succeeds, asks for the first way only and then waits three seconds.
pub proof fn lemma_open_contacts_app(device: Device)
    ensures
        session(open_contacts_app_table(), device) == seq![
            runs(
                seq![
                    "shell",
                    "am",
                    "start",
                    "-n",
                    "com.android.contacts/.activities.PeopleActivity",
                ],
            ),
            waits(3000),
            completes(),
        ],
{
    let t = open_contacts_app_table();
    lemma_at_run(t, 0, device);
    lemma_at_wait(t, 2, obeyed(device));
    lemma_at_end(t, 3);
}

/// How the way to the contacts page ends once it has arrived: a picture of
/// the screen is taken and fetched, and the screen is read a last time.
pub open spec fn arrival_end() -> Seq<ActionView> {
    seq![
        runs(seq!["shell", "screencap", "/sdcard/screenshot.png"]),
        runs(seq!["pull", "/sdcard/screenshot.png", "final_contacts_page.png"]),
        dumps(),
        completes(),
    ]
}

/// What one leg of the way asks for: it reads the screen `d` and taps what
/// `keyword` names, or fails where nothing is named so; it waits two seconds,
/// reads the screen `check` and goes on with `rest` where that shows
/// `marker`, or fails where it does not.
pub open spec fn leg_asks(
    keyword: Seq<char>,
    field: Field,
    marker: Seq<char>,
    d: Seq<char>,
    check: Seq<char>,
    rest: Seq<ActionView>,
) -> Seq<ActionView> {
    seq![dumps()] + on_target(
        d,
        seq![keyword],
        field,
        Pick::Clickable,
        0,
        seq![waits(2000), dumps()] + on_marker(
            check,
            seq![marker],
            rest,
            seq![fails(Failure::VerificationInconclusive)],
        ),
        seq![fails(Failure::ElementNotFound)],
    )
}

/// What the arrival asks for: it reads the screen `d` and taps `通讯录`, or
/// fails where nothing shows it; it waits two seconds and reads the screen
/// `first`; where that does not show `联系人` it waits two seconds more and
/// reads the screen `second`; whatever the screens show, it ends as
/// `arrival_end` says.
pub open spec fn arrival_asks(d: Seq<char>, first: Seq<char>, second: Seq<char>) -> Seq<
    ActionView,
> {
    seq![dumps()] + on_target(
        d,
        seq!["通讯录"@],
        Field::Folded,
        Pick::Clickable,
        0,
        seq![waits(2000), dumps()] + on_marker(
            first,
            seq!["联系人"@],
            arrival_end(),
            seq![waits(2000), dumps()] + on_marker(
                second,
                seq!["导入"@],
                arrival_end(),
                arrival_end(),
            ),
        ),
        seq![fails(Failure::ElementNotFound)],
    )
}

/// One leg of the way, wherever it stands in a script.
proof fn lemma_leg(
    t: Seq<StepView>,
    pc: int,
    keyword: Seq<char>,
    field: Field,
    marker: Seq<char>,
    device: Device,
)
    requires
        0 <= pc,
        pc + 3 <= t.len(),
        t[pc] == leg_table(keyword, field, marker)[0],
        t[pc + 1] == leg_table(keyword, field, marker)[1],
        t[pc + 2] == leg_table(keyword, field, marker)[2],
    ensures
        from_step(t, pc, device) == leg_asks(
            keyword,
            field,
            marker,
            head(device.dumps),
            head(tail(device.dumps)),
            from_step(t, pc + 3, dumped(obeyed(dumped(device)))),
        ),
{
    let a = dumped(device);
    let b = obeyed(a);
    lemma_at_screen(t, pc, device);
    lemma_at_wait(t, pc + 1, b);
    lemma_at_screen(t, pc + 2, b);
}

/// The arrival, as the last eight steps of a script of fourteen.
proof fn lemma_arrival(t: Seq<StepView>, device: Device)
    requires
        t.len() == 14,
        forall|i: int| 0 <= i < 8 ==> t[6 + i] == #[trigger] arrival_table()[i],
    ensures
        from_step(t, 6, device) == arrival_asks(
            head(device.dumps),
            head(tail(device.dumps)),
            head(tail(tail(device.dumps))),
        ),
{
    let ar = arrival_table();
    assert(t[6] == ar[0] && t[7] == ar[1] && t[8] == ar[2] && t[9] == ar[3]);
    assert(t[10] == ar[4] && t[11] == ar[5] && t[12] == ar[6] && t[13] == ar[7]);
    let a5 = dumped(device);
    let b5 = obeyed(a5);
    let a6 = dumped(b5);
    let a7 = dumped(a6);
    lemma_at_screen(t, 6, device);
    lemma_at_wait(t, 7, b5);
    lemma_at_screen(t, 8, b5);
    lemma_at_wait(t, 9, a6);
    lemma_at_screen(t, 10, a6);
    lemma_arrival_end(t, a6);
    lemma_arrival_end(t, a7);
}

/// The whole way to the contacts page reads the screen before and after each
/// of its three taps, seven or eight times in all where it arrives: the menu
/// by its description on the first screen, `发现好友` on the third, `通讯录`
/// on the fifth; the second and the fourth must show what the tap before
/// them was to open.
pub proof fn lemma_execute_contact_flow(
    d1: Seq<char>,
    d2: Seq<char>,
    d3: Seq<char>,
    d4: Seq<char>,
    d5: Seq<char>,
    d6: Seq<char>,
    d7: Seq<char>,
    device: Device,
)
    requires
        device.dumps.len() >= 7,
        device.dumps.take(7) =~= seq![d1, d2, d3, d4, d5, d6, d7],
    ensures
        session(execute_contact_flow_table(), device) == leg_asks(
            "菜单"@,
            Field::Description,
            "发现好友"@,
            d1,
            d2,
            leg_asks(
                "发现好友"@,
                Field::Folded,
                "通讯录"@,
                d3,
                d4,
                arrival_asks(d5, d6, d7),
            ),
        ),
{
    let t = execute_contact_flow_table();
    let l1 = leg_table("菜单"@, Field::Description, "发现好友"@);
    let l2 = leg_table("发现好友"@, Field::Folded, "通讯录"@);
    let ar = arrival_table();
    assert(t.len() == 14);
    assert(t[0] == l1[0] && t[1] == l1[1] && t[2] == l1[2]);
    assert(t[3] == l2[0] && t[4] == l2[1] && t[5] == l2[2]);
    assert forall|i: int| 0 <= i < 8 implies t[6 + i] == #[trigger] ar[i] by {}
    let all = device.dumps;
    let s1 = dumped(obeyed(dumped(device)));
    let s2 = dumped(obeyed(dumped(s1)));
    assert(all.take(7)[0] == d1 && all.take(7)[1] == d2 && all.take(7)[2] == d3);
    assert(all.take(7)[3] == d4 && all.take(7)[4] == d5 && all.take(7)[5] == d6);
    assert(all.take(7)[6] == d7);
    assert(tail(all) =~= all.skip(1));
    assert(s1.dumps =~= all.skip(2));
    assert(tail(s1.dumps) =~= all.skip(3));
    assert(s2.dumps =~= all.skip(4));
    assert(tail(s2.dumps) =~= all.skip(5));
    assert(tail(tail(s2.dumps)) =~= all.skip(6));
    lemma_leg(t, 0, "菜单"@, Field::Description, "发现好友"@, device);
    lemma_leg(t, 3, "发现好友"@, Field::Folded, "通讯录"@, s1);
    lemma_arrival(t, s2);
}

/// The end of the way, from the step that takes the picture.
proof fn lemma_arrival_end(t: Seq<StepView>, device: Device)
    requires
        t.len() == 14,
        t[11] == arrival_table()[5],
        t[12] == arrival_table()[6],
        t[13] == arrival_table()[7],
    ensures
        from_step(t, 11, device) == arrival_end(),
{
    let c1 = obeyed(device);
    let c2 = obeyed(c1);
    lemma_at_run(t, 11, device);
    lemma_at_run(t, 12, c1);
    lemma_at_run(t, 13, c2);
    lemma_at_end(t, 14);
}

} // verus!
