//! The scripts that enter contacts into the contacts page of the social
//! application by hand, one field after the other.

use crate::actions::{escape_input, escaped_input, Command, CommandView, KeyCode};
use crate::batch::Report;
use crate::contact::{Contact, ContactView};
use crate::decide::{strings, Field, Pick};
use crate::error::ImportError;
use crate::flows::on_target;
use crate::script::{
    attempt, click, click_step, completes, dumped, dumps, extend, fails, fits, go, jumps_fit, key,
    key_step, lemma_fits_together, lemma_fits_with_room, lemma_shows_one, obeyed, only, owned,
    pass, presses, probe, probe_step, recognise, recognise_step, shows, shows_all,
    strs, tap, tap_step, taps_at, try_step, wait, wait_step, waits,
};
use crate::text::{contains, str_contains};
use crate::workflow::{
    from_step, head, lemma_at_end, lemma_at_give_up, lemma_at_run, lemma_at_screen, lemma_at_wait,
    enter, next, session, steps, tail, ActionView, Device, EventView, Failure, FlowView, Outcome,
    OutcomeView, Reaction, Stage, Step, StepView,
};
use vstd::prelude::*;

verus! {

/// The words that show that the page for adding a contact has come up.
pub open spec fn add_page_words() -> Seq<&'static str> {
    seq!["添加", "新建", "姓名", "电话"]
}

/// One try for the button that adds a contact: tap the point, let the page
/// come up, and, where the page for adding a contact shows, pass over the
/// `rest` steps that would go on looking for the button. After a tap that
/// fails the flow neither waits nor reads the screen: it goes straight to
/// the next try.
pub open spec fn button_try_table(x: i32, y: i32, rest: usize) -> Seq<StepView> {
    seq![
        try_step(CommandView::Tap { x, y }, 2),
        wait_step(2000),
        probe_step(add_page_words(), pass(rest), pass(0)),
    ]
}

/// The script of one try for the button that adds a contact.
pub fn button_try_steps(x: i32, y: i32, rest: usize) -> (script: Vec<Step>)
    ensures
        steps(script@) == button_try_table(x, y, rest),
{
    let mut script: Vec<Step> = Vec::new();
    script.push(attempt(Command::Tap { x, y }, 2));
    script.push(wait(2000));
    script.push(probe(vec!["添加", "新建", "姓名", "电话"], go(rest), go(0)));
    assert(steps(script@) =~= button_try_table(x, y, rest));
    script
}

/// The last try for the button that adds a contact: tap the first element
/// that shows `添加` and let the page come up, or fail where no element does.
pub open spec fn button_by_text_table() -> Seq<StepView> {
    seq![
        click_step(
            seq!["添加"@],
            Field::TextOrDescription,
            Pick::First,
            0,
            2000,
            0,
            Reaction::Fail(Failure::ElementNotFound),
        ),
    ]
}

/// Opens the page for adding a contact: try the four points where the button
/// has been seen, in order; where none of them opens the page, look for an
/// element that shows `添加` and tap that. Without such an element the step
/// has failed.
pub open spec fn click_add_contact_button_table() -> Seq<StepView> {
    button_try_table(194, 249, 10) + button_try_table(360, 249, 7) + button_try_table(
        180,
        260,
        4,
    ) + button_try_table(200, 240, 1) + button_by_text_table()
}

/// The script that opens the page for adding a contact.
pub fn click_add_contact_button_steps() -> (script: Vec<Step>)
    ensures
        steps(script@) == click_add_contact_button_table(),
{
    let mut script = button_try_steps(194, 249, 10);
    extend(&mut script, button_try_steps(360, 249, 7));
    extend(&mut script, button_try_steps(180, 260, 4));
    extend(&mut script, button_try_steps(200, 240, 1));
    let mut last: Vec<Step> = Vec::new();
    last.push(
        click(
            only("添加"),
            Field::TextOrDescription,
            Pick::First,
            0,
            2000,
            0,
            Reaction::Fail(Failure::ElementNotFound),
        ),
    );
    assert(steps(last@) =~= button_by_text_table());
    extend(&mut script, last);
    script
}

/// The words that show that a dialog about accounts has come up.
pub open spec fn account_words() -> Seq<&'static str> {
    seq!["Google", "账户", "登录", "选择账户", "添加账户"]
}

/// The words on a button that declines, in order of priority.
pub open spec fn decline_words() -> Seq<&'static str> {
    seq!["取消", "跳过", "稍后", "不了", "本地", "Cancel", "Skip", "Later", "Local"]
}

/// Gets rid of a dialog about accounts, if one has come up: tap the first
/// element that shows a word that declines; where there is none, tap beside
/// the dialog and press the back key.
pub open spec fn check_and_handle_account_dialog_table() -> Seq<StepView> {
    seq![
        wait_step(500),
        probe_step(account_words(), pass(0), pass(5)),
        click_step(
            strs(decline_words()),
            Field::TextOrDescription,
            Pick::First,
            0,
            1000,
            4,
            pass(0),
        ),
        tap_step(50, 50),
        wait_step(500),
        key_step(KeyCode::Back),
        wait_step(500),
    ]
}

/// The script that gets rid of a dialog about accounts.
pub fn check_and_handle_account_dialog_steps() -> (script: Vec<Step>)
    ensures
        steps(script@) == check_and_handle_account_dialog_table(),
{
    let mut script: Vec<Step> = Vec::new();
    script.push(wait(500));
    script.push(probe(vec!["Google", "账户", "登录", "选择账户", "添加账户"], go(0), go(5)));
    script.push(
        click(
            owned(vec!["取消", "跳过", "稍后", "不了", "本地", "Cancel", "Skip", "Later", "Local"]),
            Field::TextOrDescription,
            Pick::First,
            0,
            1000,
            4,
            go(0),
        ),
    );
    script.push(tap(50, 50));
    script.push(wait(500));
    script.push(key(KeyCode::Back));
    script.push(wait(500));
    assert(steps(script@) =~= check_and_handle_account_dialog_table());
    script
}

/// One look for the contacts page on the way back to it: where the page
/// shows, pass over the `rest` steps that would go further back; where not,
/// press the back key and let the screen settle.
pub open spec fn back_try_table(rest: usize) -> Seq<StepView> {
    seq![
        probe_step(seq!["通讯录"], pass(rest), pass(0)),
        key_step(KeyCode::Back),
        wait_step(800),
    ]
}

/// The script of one look for the contacts page on the way back to it.
pub fn back_try_steps(rest: usize) -> (script: Vec<Step>)
    ensures
        steps(script@) == back_try_table(rest),
{
    let mut script: Vec<Step> = Vec::new();
    let page = vec!["通讯录"];
    assert(page@ =~= seq!["通讯录"]);
    script.push(probe(page, go(rest), go(0)));
    script.push(key(KeyCode::Back));
    script.push(wait(800));
    assert(steps(script@) =~= back_try_table(rest));
    script
}

/// How the way back to the contacts page ends where the page does not show
/// at any of its three looks: a way back that is required gives up, any other
/// just ends.
pub open spec fn lost(required: bool) -> Seq<StepView> {
    if required {
        seq![StepView::GiveUp { failure: Failure::VerificationInconclusive }]
    } else {
        Seq::empty()
    }
}

/// How many steps the end of the way back has.
pub open spec fn lost_len(required: bool) -> usize {
    if required {
        1
    } else {
        0
    }
}

/// Goes back to the contacts page: look for the page and, where it does not
/// show, press the back key and let the screen settle; three times at most.
/// The screen is not read again after the third press.
pub open spec fn navigate_back_to_contacts_table(required: bool) -> Seq<StepView> {
    back_try_table((8 + lost_len(required)) as usize) + back_try_table(
        (5 + lost_len(required)) as usize,
    ) + back_try_table((2 + lost_len(required)) as usize) + lost(required)
}

/// The script that goes back to the contacts page.
pub fn navigate_back_to_contacts_steps(required: bool) -> (script: Vec<Step>)
    ensures
        steps(script@) == navigate_back_to_contacts_table(required),
{
    let tail: usize = if required {
        1
    } else {
        0
    };
    let mut script = back_try_steps(8 + tail);
    extend(&mut script, back_try_steps(5 + tail));
    extend(&mut script, back_try_steps(2 + tail));
    let mut last: Vec<Step> = Vec::new();
    if required {
        last.push(Step::GiveUp { failure: Failure::VerificationInconclusive });
    }
    assert(steps(last@) =~= lost(required));
    extend(&mut script, last);
    script
}

/// The three actions of one round of the way back: read the screen, press
/// the back key, let the screen settle.
pub open spec fn back_round() -> Seq<ActionView> {
    seq![
        ActionView::Run(CommandView::Dump),
        ActionView::Run(CommandView::Key(KeyCode::Back)),
        ActionView::Wait { ms: 800 },
    ]
}

/// The labels of the field for the name, in order of priority.
pub open spec fn name_labels() -> Seq<&'static str> {
    seq!["姓名", "名字", "Name", "姓", "全名"]
}

/// The labels of the field for the phone number, in order of priority.
pub open spec fn phone_labels() -> Seq<&'static str> {
    seq!["电话", "手机", "Phone", "号码", "Mobile"]
}

/// Fills a field: tap thirty pixels below the first label that the screen
/// shows, which is where the field is; then select what the field holds,
/// delete it and type `text`. Where the screen shows no label, the field is
/// left alone. A text that cannot be typed is passed over, and so is the
/// pause that would follow it.
pub open spec fn fill_field_table(labels: Seq<Seq<char>>, text: Seq<char>) -> Seq<StepView> {
    seq![
        click_step(labels, Field::TextOrDescription, Pick::First, 30, 500, 0, pass(6)),
        key_step(KeyCode::CtrlA),
        wait_step(200),
        key_step(KeyCode::Del),
        wait_step(200),
        try_step(CommandView::Text(escaped_input(text)), 1),
        wait_step(300),
    ]
}

/// The script that fills a field.
pub fn fill_field_steps(labels: Vec<String>, text: &str) -> (script: Vec<Step>)
    ensures
        steps(script@) == fill_field_table(strings(labels@), text@),
{
    let ghost names = strings(labels@);
    let mut script: Vec<Step> = Vec::new();
    script.push(click(labels, Field::TextOrDescription, Pick::First, 30, 500, 0, go(6)));
    script.push(key(KeyCode::CtrlA));
    script.push(wait(200));
    script.push(key(KeyCode::Del));
    script.push(wait(200));
    script.push(attempt(Command::Text(escape_input(text)), 1));
    script.push(wait(300));
    assert(steps(script@) =~= fill_field_table(names, text@));
    script
}

/// The script that fills in the name.
pub fn fill_name_field_steps(name: &str) -> (script: Vec<Step>)
    ensures
        steps(script@) == fill_field_table(strs(name_labels()), name@),
{
    fill_field_steps(owned(vec!["姓名", "名字", "Name", "姓", "全名"]), name)
}

/// The script that fills in the phone number.
pub fn fill_phone_field_steps(phone: &str) -> (script: Vec<Step>)
    ensures
        steps(script@) == fill_field_table(strs(phone_labels()), phone@),
{
    fill_field_steps(owned(vec!["电话", "手机", "Phone", "号码", "Mobile"]), phone)
}

/// The words on a button that saves what has been entered, in order of
/// priority.
pub open spec fn saving_words() -> Seq<&'static str> {
    seq!["保存", "完成", "确定", "Save", "Done", "OK"]
}

/// Saves the contact: tap the first element that shows a word that saves and
/// let the page settle; where there is none, press the enter key. After a
/// tap the screen is read to see what has become of the page: up to four
/// looks, for the contacts page under its two names and for the page for
/// adding a contact under its two names, each on a screen of its own and each
/// only where the one before found nothing. The flow goes on whatever they
/// find.
pub open spec fn save_contact_table() -> Seq<StepView> {
    seq![
        click_step(
            strs(saving_words()),
            Field::TextOrDescription,
            Pick::First,
            0,
            2000,
            0,
            pass(5),
        ),
        wait_step(500),
        probe_step(seq!["通讯录"], pass(5), pass(0)),
        probe_step(seq!["联系人"], pass(4), pass(0)),
        probe_step(seq!["添加"], pass(3), pass(0)),
        probe_step(seq!["新建"], pass(2), pass(2)),
        key_step(KeyCode::Enter),
        wait_step(1000),
    ]
}

/// The script that saves the contact.
pub fn save_contact_steps() -> (script: Vec<Step>)
    ensures
        steps(script@) == save_contact_table(),
{
    let mut script: Vec<Step> = Vec::new();
    script.push(
        click(
            owned(vec!["保存", "完成", "确定", "Save", "Done", "OK"]),
            Field::TextOrDescription,
            Pick::First,
            0,
            2000,
            0,
            go(5),
        ),
    );
    script.push(wait(500));
    let contacts = vec!["通讯录"];
    assert(contacts@ =~= seq!["通讯录"]);
    script.push(probe(contacts, go(5), go(0)));
    let people = vec!["联系人"];
    assert(people@ =~= seq!["联系人"]);
    script.push(probe(people, go(4), go(0)));
    let adding = vec!["添加"];
    assert(adding@ =~= seq!["添加"]);
    script.push(probe(adding, go(3), go(0)));
    let making = vec!["新建"];
    assert(making@ =~= seq!["新建"]);
    script.push(probe(making, go(2), go(2)));
    script.push(key(KeyCode::Enter));
    script.push(wait(1000));
    assert(steps(script@) =~= save_contact_table());
    script
}

/// Enters one contact on the page for adding a contact: name, phone, save.
pub open spec fn import_single_contact_table(c: ContactView) -> Seq<StepView> {
    seq![wait_step(1000)] + fill_field_table(strs(name_labels()), c.name) + fill_field_table(
        strs(phone_labels()),
        c.phone,
    ) + save_contact_table()
}

/// The script that enters one contact on the page for adding a contact.
pub fn import_single_contact_steps(contact: &Contact) -> (script: Vec<Step>)
    ensures
        steps(script@) == import_single_contact_table(contact@),
{
    let mut script: Vec<Step> = Vec::new();
    script.push(wait(1000));
    assert(steps(script@) =~= seq![wait_step(1000)]);
    extend(&mut script, fill_name_field_steps(contact.name.as_str()));
    extend(&mut script, fill_phone_field_steps(contact.phone.as_str()));
    extend(&mut script, save_contact_steps());
    script
}

/// Enters one contact, starting from wherever the application stands and
/// ending on the contacts page: where the contacts page does not show, go
/// back to it, which must succeed; open the page for adding a contact, which
/// must succeed; get rid of a dialog about accounts; enter the contact; go
/// back to the contacts page.
pub open spec fn import_one_by_one_table(c: ContactView) -> Seq<StepView> {
    seq![probe_step(seq!["通讯录"], pass(10), pass(0))] + navigate_back_to_contacts_table(true)
        + click_add_contact_button_table() + seq![wait_step(1000)]
        + check_and_handle_account_dialog_table() + import_single_contact_table(c)
        + navigate_back_to_contacts_table(false) + seq![wait_step(500)]
}

/// The script that enters one contact, from the contacts page and back to
/// it.
pub fn import_one_by_one_steps(contact: &Contact) -> (script: Vec<Step>)
    ensures
        steps(script@) == import_one_by_one_table(contact@),
{
    let mut script: Vec<Step> = Vec::new();
    let page = vec!["通讯录"];
    assert(page@ =~= seq!["通讯录"]);
    script.push(probe(page, go(10), go(0)));
    assert(steps(script@) =~= seq![probe_step(seq!["通讯录"], pass(10), pass(0))]);
    extend(&mut script, navigate_back_to_contacts_steps(true));
    extend(&mut script, click_add_contact_button_steps());
    let mut pause: Vec<Step> = Vec::new();
    pause.push(wait(1000));
    assert(steps(pause@) =~= seq![wait_step(1000)]);
    extend(&mut script, pause);
    extend(&mut script, check_and_handle_account_dialog_steps());
    extend(&mut script, import_single_contact_steps(contact));
    extend(&mut script, navigate_back_to_contacts_steps(false));
    let mut end: Vec<Step> = Vec::new();
    end.push(wait(500));
    assert(steps(end@) =~= seq![wait_step(500)]);
    extend(&mut script, end);
    script
}

/// Checks that the contacts page of the application shows, as it must before
/// contacts are entered.
pub open spec fn entry_check_table() -> Seq<StepView> {
    seq![
        probe_step(seq!["通讯录"], pass(0), Reaction::Fail(Failure::VerificationInconclusive)),
    ]
}

/// The script that checks that the contacts page of the application shows.
pub fn entry_check_steps() -> (script: Vec<Step>)
    ensures
        steps(script@) == entry_check_table(),
{
    let mut script: Vec<Step> = Vec::new();
    let page = vec!["通讯录"];
    assert(page@ =~= seq!["通讯录"]);
    script.push(probe(page, go(0), Reaction::Fail(Failure::VerificationInconclusive)));
    assert(steps(script@) =~= entry_check_table());
    script
}

/// The titles of the page for adding a contact.
pub open spec fn add_page_titles() -> Seq<&'static str> {
    seq!["添加联系人", "新建联系人"]
}

/// The labels of the two fields of the page for adding a contact.
pub open spec fn add_page_fields() -> Seq<&'static str> {
    seq!["姓名", "电话"]
}

/// Makes sure that the page for adding a contact shows. The screen is read
/// once: where it names the page, or shows both the name and the phone field,
/// nothing is done; else the page is opened with the button.
pub open spec fn navigate_to_add_contact_table() -> Seq<StepView> {
    seq![recognise_step(add_page_titles(), add_page_fields(), pass(13), pass(0))]
        + click_add_contact_button_table()
}

/// The script that makes sure that the page for adding a contact shows.
pub fn navigate_to_add_contact_steps() -> (script: Vec<Step>)
    ensures
        steps(script@) == navigate_to_add_contact_table(),
{
    let mut script: Vec<Step> = Vec::new();
    let titles = vec!["添加联系人", "新建联系人"];
    assert(titles@ =~= add_page_titles());
    let fields = vec!["姓名", "电话"];
    assert(fields@ =~= add_page_fields());
    script.push(recognise(titles, fields, go(13), go(0)));
    assert(steps(script@) =~= seq![
        recognise_step(add_page_titles(), add_page_fields(), pass(13), pass(0)),
    ]);
    extend(&mut script, click_add_contact_button_steps());
    script
}

/// Starts on a row of contacts that are entered without leaving the page
/// for adding a contact: open the page, and get rid of a dialog about
/// accounts. No contact is entered yet.
pub open spec fn import_start_table() -> Seq<StepView> {
    click_add_contact_button_table() + check_and_handle_account_dialog_table()
}

/// The script that starts on such a row.
pub fn import_start_steps() -> (script: Vec<Step>)
    ensures
        steps(script@) == import_start_table(),
{
    let mut script = click_add_contact_button_steps();
    extend(&mut script, check_and_handle_account_dialog_steps());
    script
}

/// Enters the first contact of such a row, on the page that the start has
/// opened, and lets the screen settle.
pub open spec fn import_first_locally_table(c: ContactView) -> Seq<StepView> {
    import_single_contact_table(c) + seq![wait_step(800)]
}

/// The script that enters the first contact of such a row.
pub fn import_first_locally_steps(contact: &Contact) -> (script: Vec<Step>)
    ensures
        steps(script@) == import_first_locally_table(contact@),
{
    let mut script = import_single_contact_steps(contact);
    let mut end: Vec<Step> = Vec::new();
    end.push(wait(800));
    assert(steps(end@) =~= seq![wait_step(800)]);
    extend(&mut script, end);
    script
}

/// Enters a further contact of such a row: make sure that the page for
/// adding a contact shows, and enter the contact.
pub open spec fn import_next_locally_table(c: ContactView) -> Seq<StepView> {
    navigate_to_add_contact_table() + import_single_contact_table(c) + seq![wait_step(800)]
}

/// The script that enters a further contact of such a row.
pub fn import_next_locally_steps(contact: &Contact) -> (script: Vec<Step>)
    ensures
        steps(script@) == import_next_locally_table(contact@),
{
    let mut script = navigate_to_add_contact_steps();
    extend(&mut script, import_single_contact_steps(contact));
    let mut end: Vec<Step> = Vec::new();
    end.push(wait(800));
    assert(steps(end@) =~= seq![wait_step(800)]);
    extend(&mut script, end);
    script
}

/// Enters the contact at `index` of a row: the first on the page that the
/// start has opened, every other after making sure of that page.
pub open spec fn import_locally_table(c: ContactView, index: usize) -> Seq<StepView> {
    if index == 0 {
        import_first_locally_table(c)
    } else {
        import_next_locally_table(c)
    }
}

/// The script that enters the contact at `index` of a row.
pub fn import_locally_steps(contact: &Contact, index: usize) -> (script: Vec<Step>)
    ensures
        steps(script@) == import_locally_table(contact@, index),
{
    if index == 0 {
        import_first_locally_steps(contact)
    } else {
        import_next_locally_steps(contact)
    }
}

/// The jumps of the tries for the button stay within the tries that follow.
proof fn lemma_button_fits()
    ensures
        jumps_fit(click_add_contact_button_table()),
{
    let last = button_by_text_table();
    let a = button_try_table(194, 249, 10);
    let b = button_try_table(360, 249, 7);
    let c = button_try_table(180, 260, 4);
    let d = button_try_table(200, 240, 1);
    assert(fits(a, 10));
    assert(fits(b, 7));
    assert(fits(c, 4));
    assert(fits(d, 1));
    assert(fits(last, 0));
    lemma_fits_together(a, b, 7);
    lemma_fits_together(a + b, c, 4);
    lemma_fits_together(a + b + c, d, 1);
    lemma_fits_together(a + b + c + d, last, 0);
}

/// The jumps of the way back stay within the way back.
proof fn lemma_back_fits(required: bool)
    ensures
        jumps_fit(navigate_back_to_contacts_table(required)),
        navigate_back_to_contacts_table(required).len() == 9 + lost_len(required),
{
    let n = lost_len(required);
    let a = back_try_table((8 + n) as usize);
    let b = back_try_table((5 + n) as usize);
    let c = back_try_table((2 + n) as usize);
    assert(fits(a, 6 + n));
    assert(fits(b, 3 + n));
    assert(fits(c, n as int));
    assert(fits(lost(required), 0));
    assert(lost(required).len() == n);
    lemma_fits_together(a, b, 3 + n);
    lemma_fits_together(a + b, c, n as int);
    lemma_fits_together(a + b + c, lost(required), 0);
}

/// The jumps of the entry of one contact stay within it.
proof fn lemma_single_fits(c: ContactView)
    ensures
        jumps_fit(import_single_contact_table(c)),
{
    let start = seq![wait_step(1000)];
    let name = fill_field_table(strs(name_labels()), c.name);
    let phone = fill_field_table(strs(phone_labels()), c.phone);
    let save = save_contact_table();
    assert(fits(start, 0));
    assert(fits(name, 0));
    assert(fits(phone, 0));
    assert(fits(save, 0));
    lemma_fits_with_room(start, 0, name.len() as int);
    lemma_fits_together(start, name, 0);
    lemma_fits_with_room(start + name, 0, phone.len() as int);
    lemma_fits_together(start + name, phone, 0);
    lemma_fits_with_room(start + name + phone, 0, save.len() as int);
    lemma_fits_together(start + name + phone, save, 0);
}

/// Two scripts whose jumps fit, one after the other.
proof fn lemma_join(a: Seq<StepView>, b: Seq<StepView>)
    requires
        jumps_fit(a),
        jumps_fit(b),
    ensures
        jumps_fit(a + b),
{
    lemma_fits_with_room(a, 0, b.len() as int);
    lemma_fits_together(a, b, 0);
}

/// The jumps of every script of this module stay within the script: a part
/// of a script never jumps into the part that follows it.
pub proof fn lemma_scripts_fit(c: ContactView, labels: Seq<Seq<char>>, text: Seq<char>, required:
    bool)
    ensures
        jumps_fit(click_add_contact_button_table()),
        jumps_fit(check_and_handle_account_dialog_table()),
        jumps_fit(navigate_back_to_contacts_table(required)),
        jumps_fit(fill_field_table(labels, text)),
        jumps_fit(save_contact_table()),
        jumps_fit(import_single_contact_table(c)),
        jumps_fit(import_one_by_one_table(c)),
        jumps_fit(entry_check_table()),
        jumps_fit(navigate_to_add_contact_table()),
        jumps_fit(import_start_table()),
        jumps_fit(import_first_locally_table(c)),
        jumps_fit(import_next_locally_table(c)),
{
    lemma_button_fits();
    lemma_back_fits(required);
    lemma_back_fits(true);
    lemma_back_fits(false);
    lemma_single_fits(c);
    let button = click_add_contact_button_table();
    let dialog = check_and_handle_account_dialog_table();
    let single = import_single_contact_table(c);
    assert(fits(dialog, 0));
    assert(fits(fill_field_table(labels, text), 0));
    assert(fits(save_contact_table(), 0));
    assert(fits(entry_check_table(), 0));
    let pause = seq![wait_step(1000)];
    let end = seq![wait_step(500)];
    let rest = seq![wait_step(800)];
    assert(fits(pause, 0));
    assert(fits(end, 0));
    assert(fits(rest, 0));
    let back = navigate_back_to_contacts_table(true);
    let home = navigate_back_to_contacts_table(false);
    let look = seq![probe_step(seq!["通讯录"], pass(10), pass(0))];
    assert(back.len() == 10);
    assert(fits(look, 10));
    lemma_fits_together(look, back, 0);
    let start = look + back;
    lemma_join(start, button);
    lemma_join(start + button, pause);
    lemma_join(start + button + pause, dialog);
    lemma_join(start + button + pause + dialog, single);
    lemma_join(start + button + pause + dialog + single, home);
    lemma_join(start + button + pause + dialog + single + home, end);
    let looks = seq![recognise_step(add_page_titles(), add_page_fields(), pass(13), pass(0))];
    assert(button.len() == 13);
    assert(fits(looks, 13));
    lemma_fits_together(looks, button, 0);
    lemma_join(button, dialog);
    lemma_join(single, rest);
    lemma_join(looks + button, single);
    lemma_join(looks + button + single, rest);
}

/// How the contacts of a batch are entered.
#[derive(Clone, Copy, Debug, PartialEq, Eq, Structural)]
pub enum Method {
    /// In a row, without leaving the page for adding a contact.
    InARow,
    /// One by one, each from the contacts page and back to it.
    OneByOne,
}

/// The method by which the contacts are entered, given how the start on a
/// row of contacts ended: in a row where the page for adding a contact could
/// be opened, one by one where not.
pub open spec fn method_for(start: OutcomeView) -> Method {
    if start == OutcomeView::Completed {
        Method::InARow
    } else {
        Method::OneByOne
    }
}

/// The method by which the contacts are entered.
pub fn method_after(start: &Outcome) -> (m: Method)
    ensures
        m == method_for(start@),
{
    if start.is_success() {
        Method::InARow
    } else {
        Method::OneByOne
    }
}

/// What entering contacts has come to, given how the start on a row of them
/// ended and the report on the batch that followed. Contacts that were
/// entered in a row are reported as they are, however many of them failed.
/// Contacts that had to be entered one by one are reported where at least one
/// of them could be entered; where none could, the import has failed.
pub open spec fn import_result_of(start: OutcomeView, report: Report) -> Result<
    Report,
    ImportError,
> {
    if method_for(start) == Method::OneByOne && report.success == 0 {
        Err(ImportError::NothingEntered)
    } else {
        Ok(report)
    }
}

/// What entering contacts has come to.
pub fn import_result(start: &Outcome, report: Report) -> (r: Result<Report, ImportError>)
    ensures
        r == import_result_of(start@, report),
{
    match method_after(start) {
        Method::InARow => Ok(report),
        Method::OneByOne => if report.any_success() {
            Ok(report)
        } else {
            Err(ImportError::NothingEntered)
        },
    }
}

/// Whether a page looks as if the contact had been saved: it shows the
/// contacts, or at least it does not show the page for adding a contact any
/// more.
pub open spec fn saved(page: Seq<char>) -> bool {
    contains(page, "通讯录"@) || contains(page, "联系人"@) || !(contains(page, "添加"@) || contains(
        page,
        "新建"@,
    ))
}

/// Whether a page looks as if the contact had been saved.
pub fn looks_saved(page: &str) -> (r: bool)
    ensures
        r == saved(page@),
{
    if str_contains(page, "通讯录") || str_contains(page, "联系人") {
        true
    } else {
        !(str_contains(page, "添加") || str_contains(page, "新建"))
    }
}

/// Whether the steps of `part` stand in `t` from position `pc` on.
pub open spec fn stands_at(t: Seq<StepView>, pc: int, part: Seq<StepView>) -> bool {
    0 <= pc && pc + part.len() <= t.len() && t.subrange(pc, pc + part.len()) == part
}

/// A part that stands in a script holds the steps of the script.
proof fn lemma_stands(t: Seq<StepView>, pc: int, part: Seq<StepView>)
    requires
        stands_at(t, pc, part),
    ensures
        forall|i: int| 0 <= i < part.len() ==> t[pc + i] == #[trigger] part[i],
{
    assert forall|i: int| 0 <= i < part.len() implies t[pc + i] == #[trigger] part[i] by {
        assert(t.subrange(pc, pc + part.len())[i] == t[pc + i]);
    }
}

/// What the way back asks for, wherever it stands in a script, of a device
/// on which every command succeeds. It reads the screen three times at most
/// and presses the back key three times at most. Where the first, second or
/// third screen shows the contacts page, it has pressed the back key no
/// times, once or twice by then, and the flow goes on behind the way back
/// without reading that screen again. Where none of the three does, it
/// presses the back key a third time, lets the screen settle and does not
/// read the screen again: a way back that is required ends the flow as
/// failed, any other lets it go on.
pub proof fn lemma_way_back_at(t: Seq<StepView>, pc: int, required: bool, device: Device)
    requires
        stands_at(t, pc, navigate_back_to_contacts_table(required)),
    ensures
        ({
            let d1 = head(device.dumps);
            let d2 = head(tail(device.dumps));
            let d3 = head(tail(tail(device.dumps)));
            let a1 = dumped(device);
            let a2 = dumped(obeyed(a1));
            let a3 = dumped(obeyed(a2));
            let behind = pc + 9 + lost_len(required);
            from_step(t, pc, device) == if contains(d1, "通讯录"@) {
                seq![dumps()] + from_step(t, behind, a1)
            } else if contains(d2, "通讯录"@) {
                back_round() + seq![dumps()] + from_step(t, behind, a2)
            } else if contains(d3, "通讯录"@) {
                back_round() + back_round() + seq![dumps()] + from_step(t, behind, a3)
            } else {
                back_round() + back_round() + back_round() + if required {
                    seq![fails(Failure::VerificationInconclusive)]
                } else {
                    from_step(t, behind, obeyed(a3))
                }
            }
        }),
{
    let part = navigate_back_to_contacts_table(required);
    lemma_stands(t, pc, part);
    let d1 = head(device.dumps);
    let d2 = head(tail(device.dumps));
    let d3 = head(tail(tail(device.dumps)));
    lemma_shows_one(d1, "通讯录");
    lemma_shows_one(d2, "通讯录");
    lemma_shows_one(d3, "通讯录");
    let n = lost_len(required);
    assert(part.len() == 9 + n);
    assert(part[0] == probe_step(seq!["通讯录"], pass((8 + n) as usize), pass(0)));
    assert(part[1] == key_step(KeyCode::Back));
    assert(part[2] == wait_step(800));
    assert(part[3] == probe_step(seq!["通讯录"], pass((5 + n) as usize), pass(0)));
    assert(part[4] == key_step(KeyCode::Back));
    assert(part[5] == wait_step(800));
    assert(part[6] == probe_step(seq!["通讯录"], pass((2 + n) as usize), pass(0)));
    assert(part[7] == key_step(KeyCode::Back));
    assert(part[8] == wait_step(800));
    assert(t[pc + 0] == part[0]);
    assert(t[pc + 1] == part[1] && t[pc + 2] == part[2] && t[pc + 3] == part[3]);
    assert(t[pc + 4] == part[4] && t[pc + 5] == part[5] && t[pc + 6] == part[6]);
    assert(t[pc + 7] == part[7] && t[pc + 8] == part[8]);
    let a1 = dumped(device);
    let b1 = obeyed(a1);
    let a2 = dumped(b1);
    let b2 = obeyed(a2);
    let a3 = dumped(b2);
    let b3 = obeyed(a3);
    lemma_at_screen(t, pc, device);
    lemma_at_run(t, pc + 1, a1);
    lemma_at_wait(t, pc + 2, b1);
    lemma_at_screen(t, pc + 3, b1);
    lemma_at_run(t, pc + 4, a2);
    lemma_at_wait(t, pc + 5, b2);
    lemma_at_screen(t, pc + 6, b2);
    lemma_at_run(t, pc + 7, a3);
    lemma_at_wait(t, pc + 8, b3);
    if required {
        assert(part[9] == StepView::GiveUp { failure: Failure::VerificationInconclusive });
        assert(t[pc + 9] == part[9]);
        lemma_at_give_up(t, pc + 9);
    }
}

/// What the way back asks of a device on which every command succeeds and
/// whose first three dumps are `d1`, `d2` and `d3`. It reads the screen three
/// times at most and presses the back key three times at most. Where the
/// first, second or third screen shows the contacts page, it has pressed the
/// back key no times, once or twice by then, reads nothing more and is
/// completed. Where none of the three does, it presses the back key a third
/// time, lets the screen settle and ends without reading the screen again:
/// as failed where it is required, as completed where not.
pub proof fn lemma_way_back(required: bool, d1: Seq<char>, d2: Seq<char>, d3: Seq<char>, device:
    Device)
    requires
        device.dumps.len() >= 3,
        device.dumps[0] == d1,
        device.dumps[1] == d2,
        device.dumps[2] == d3,
    ensures
        session(navigate_back_to_contacts_table(required), device) == if contains(
            d1,
            "通讯录"@,
        ) {
            seq![dumps(), completes()]
        } else if contains(d2, "通讯录"@) {
            back_round() + seq![dumps(), completes()]
        } else if contains(d3, "通讯录"@) {
            back_round() + back_round() + seq![dumps(), completes()]
        } else {
            back_round() + back_round() + back_round() + seq![
                if required {
                    fails(Failure::VerificationInconclusive)
                } else {
                    completes()
                },
            ]
        },
{
    let t = navigate_back_to_contacts_table(required);
    lemma_back_fits(required);
    assert(t.subrange(0, t.len() as int) =~= t);
    lemma_way_back_at(t, 0, required, device);
    lemma_at_end(t, 9 + lost_len(required));
    assert(head(tail(device.dumps)) == d2);
    assert(head(tail(tail(device.dumps))) == d3);
}

/// What filling a field asks for, wherever it stands in a script: it reads
/// the screen once. Where a label gives an element, the first such label
/// wins: the flow taps thirty pixels below the centre of that element, waits,
/// and asks for the three commands that type the text, in order, each
/// followed by its pause. Where no label gives an element nothing is tapped
/// or typed. Either way the flow goes on behind the seven steps.
pub proof fn lemma_fill_field_at(
    t: Seq<StepView>,
    pc: int,
    labels: Seq<Seq<char>>,
    text: Seq<char>,
    device: Device,
)
    requires
        stands_at(t, pc, fill_field_table(labels, text)),
    ensures
        from_step(t, pc, device) == seq![dumps()] + on_target(
            head(device.dumps),
            labels,
            Field::TextOrDescription,
            Pick::First,
            30,
            seq![
                waits(500),
                presses(KeyCode::CtrlA),
                waits(200),
                presses(KeyCode::Del),
                waits(200),
                ActionView::Run(CommandView::Text(escaped_input(text))),
                waits(300),
            ] + from_step(t, pc + 7, obeyed(obeyed(obeyed(obeyed(dumped(device)))))),
            from_step(t, pc + 7, dumped(device)),
        ),
{
    let part = fill_field_table(labels, text);
    lemma_stands(t, pc, part);
    assert(t[pc + 0] == part[0] && t[pc + 1] == part[1] && t[pc + 2] == part[2]);
    assert(t[pc + 3] == part[3] && t[pc + 4] == part[4] && t[pc + 5] == part[5]);
    assert(t[pc + 6] == part[6]);
    let a = dumped(device);
    let b = obeyed(a);
    let c = obeyed(b);
    let d = obeyed(c);
    let e = obeyed(d);
    lemma_at_screen(t, pc, device);
    lemma_at_run(t, pc + 1, b);
    lemma_at_wait(t, pc + 2, c);
    lemma_at_run(t, pc + 3, c);
    lemma_at_wait(t, pc + 4, d);
    lemma_at_run(t, pc + 5, d);
    lemma_at_wait(t, pc + 6, e);
}

/// What filling a field asks of a device on which every command succeeds:
/// one look at the screen; then, where a label gives an element, one tap
/// thirty pixels below it and the three commands that type the text; and
/// nothing more where no label does.
pub open spec fn fill_asks(labels: Seq<Seq<char>>, text: Seq<char>, d: Seq<char>) -> Seq<
    ActionView,
> {
    seq![dumps()] + on_target(
        d,
        labels,
        Field::TextOrDescription,
        Pick::First,
        30,
        seq![
            waits(500),
            presses(KeyCode::CtrlA),
            waits(200),
            presses(KeyCode::Del),
            waits(200),
            ActionView::Run(CommandView::Text(escaped_input(text))),
            waits(300),
            completes(),
        ],
        seq![completes()],
    )
}

/// Filling in the name asks for what `fill_asks` says of the labels of the
/// name.
pub proof fn lemma_fill_name_field(name: Seq<char>, device: Device)
    ensures
        session(fill_field_table(strs(name_labels()), name), device) == fill_asks(
            strs(name_labels()),
            name,
            head(device.dumps),
        ),
{
    let t = fill_field_table(strs(name_labels()), name);
    assert(t.subrange(0, t.len() as int) =~= t);
    lemma_fill_field_at(t, 0, strs(name_labels()), name, device);
    lemma_at_end(t, 7);
}

/// Filling in the phone number asks for what `fill_asks` says of the labels
/// of the phone number.
pub proof fn lemma_fill_phone_field(phone: Seq<char>, device: Device)
    ensures
        session(fill_field_table(strs(phone_labels()), phone), device) == fill_asks(
            strs(phone_labels()),
            phone,
            head(device.dumps),
        ),
{
    let t = fill_field_table(strs(phone_labels()), phone);
    assert(t.subrange(0, t.len() as int) =~= t);
    lemma_fill_field_at(t, 0, strs(phone_labels()), phone, device);
    lemma_at_end(t, 7);
}

/// What the looks after a tap on the button that saves ask of the device
/// `a`, where the flow goes on at `behind` after them: the screen is read up
/// to four times, each time only where the look before found nothing, and
/// whatever is found the flow goes on.
pub open spec fn looks_after_save(t: Seq<StepView>, behind: int, a: Device) -> Seq<ActionView> {
    let a1 = dumped(a);
    let a2 = dumped(a1);
    let a3 = dumped(a2);
    let a4 = dumped(a3);
    seq![dumps()] + if contains(head(a.dumps), "通讯录"@) {
        from_step(t, behind, a1)
    } else {
        seq![dumps()] + if contains(head(a1.dumps), "联系人"@) {
            from_step(t, behind, a2)
        } else {
            seq![dumps()] + if contains(head(a2.dumps), "添加"@) {
                from_step(t, behind, a3)
            } else {
                seq![dumps()] + from_step(t, behind, a4)
            }
        }
    }
}

/// What saving the contact asks for, wherever it stands in a script: it
/// reads the screen once. Where a word that saves gives an element, the first
/// such word wins: the flow taps that element, waits two seconds and half a
/// second more, and looks at what has become of the page as
/// `looks_after_save` says. Where no word gives an element, it presses the
/// enter key and waits a second, and does not look. Either way the flow goes
/// on behind the eight steps.
pub proof fn lemma_save_contact_at(t: Seq<StepView>, pc: int, device: Device)
    requires
        stands_at(t, pc, save_contact_table()),
    ensures
        from_step(t, pc, device) == seq![dumps()] + on_target(
            head(device.dumps),
            strs(saving_words()),
            Field::TextOrDescription,
            Pick::First,
            0,
            seq![waits(2000), waits(500)] + looks_after_save(t, pc + 8, obeyed(dumped(device))),
            seq![presses(KeyCode::Enter), waits(1000)] + from_step(
                t,
                pc + 8,
                obeyed(dumped(device)),
            ),
        ),
{
    let part = save_contact_table();
    lemma_stands(t, pc, part);
    assert(t[pc + 0] == part[0] && t[pc + 1] == part[1] && t[pc + 2] == part[2]);
    assert(t[pc + 3] == part[3] && t[pc + 4] == part[4] && t[pc + 5] == part[5]);
    assert(t[pc + 6] == part[6] && t[pc + 7] == part[7]);
    let a = dumped(device);
    let b = obeyed(a);
    let b1 = dumped(b);
    let b2 = dumped(b1);
    let b3 = dumped(b2);
    lemma_at_screen(t, pc, device);
    lemma_at_wait(t, pc + 1, b);
    lemma_at_screen(t, pc + 2, b);
    lemma_at_screen(t, pc + 3, b1);
    lemma_at_screen(t, pc + 4, b2);
    lemma_at_screen(t, pc + 5, b3);
    lemma_shows_one(head(b.dumps), "通讯录");
    lemma_shows_one(head(b1.dumps), "联系人");
    lemma_shows_one(head(b2.dumps), "添加");
    lemma_shows_one(head(b3.dumps), "新建");
    lemma_at_run(t, pc + 6, a);
    lemma_at_wait(t, pc + 7, b);
}

/// Where the parts of the entry of one contact stand in its script.
pub proof fn lemma_one_by_one_layout(c: ContactView)
    ensures
        ({
            let t = import_one_by_one_table(c);
            &&& t.len() == 65
            &&& t[0] == probe_step(seq!["通讯录"], pass(10), pass(0))
            &&& stands_at(t, 1, navigate_back_to_contacts_table(true))
            &&& stands_at(t, 11, click_add_contact_button_table())
            &&& t[24] == wait_step(1000)
            &&& stands_at(t, 25, check_and_handle_account_dialog_table())
            &&& t[32] == wait_step(1000)
            &&& stands_at(t, 33, fill_field_table(strs(name_labels()), c.name))
            &&& stands_at(t, 40, fill_field_table(strs(phone_labels()), c.phone))
            &&& stands_at(t, 47, save_contact_table())
            &&& stands_at(t, 55, navigate_back_to_contacts_table(false))
            &&& t[64] == wait_step(500)
        }),
{
    let t = import_one_by_one_table(c);
    let back = navigate_back_to_contacts_table(true);
    let home = navigate_back_to_contacts_table(false);
    let button = click_add_contact_button_table();
    let dialog = check_and_handle_account_dialog_table();
    let name = fill_field_table(strs(name_labels()), c.name);
    let phone = fill_field_table(strs(phone_labels()), c.phone);
    let save = save_contact_table();
    let single = import_single_contact_table(c);
    lemma_back_fits(true);
    lemma_back_fits(false);
    assert(button.len() == 13);
    assert(dialog.len() == 7);
    assert(single.len() == 23);
    assert(single.subrange(1, 8) =~= name);
    assert(single.subrange(8, 15) =~= phone);
    assert(single.subrange(15, 23) =~= save);
    assert(single[0] == wait_step(1000));
    assert(t.subrange(1, 11) =~= back);
    assert(t.subrange(11, 24) =~= button);
    assert(t.subrange(25, 32) =~= dialog);
    assert(t.subrange(32, 55) =~= single);
    assert(t.subrange(33, 40) =~= single.subrange(1, 8));
    assert(t.subrange(40, 47) =~= single.subrange(8, 15));
    assert(t.subrange(47, 55) =~= single.subrange(15, 23));
    assert(t.subrange(55, 64) =~= home);
    assert(t[32] == single[0]);
}

/// How the entry of one contact starts. It reads the screen once. Where that
/// shows the contacts page the flow goes straight to the button that adds a
/// contact. Only where it does not, the flow walks back as the way back
/// says: it reads the same kind of screen again, up to three times, and ends
/// as failed without a further look where none of them shows the contacts
/// page.
pub proof fn lemma_one_by_one_start(c: ContactView, device: Device)
    ensures
        ({
            let t = import_one_by_one_table(c);
            let d0 = head(device.dumps);
            let walk = dumped(device);
            let d1 = head(walk.dumps);
            let d2 = head(tail(walk.dumps));
            let d3 = head(tail(tail(walk.dumps)));
            let a1 = dumped(walk);
            let a2 = dumped(obeyed(a1));
            let a3 = dumped(obeyed(a2));
            session(t, device) == seq![dumps()] + if contains(d0, "通讯录"@) {
                from_step(t, 11, walk)
            } else if contains(d1, "通讯录"@) {
                seq![dumps()] + from_step(t, 11, a1)
            } else if contains(d2, "通讯录"@) {
                back_round() + seq![dumps()] + from_step(t, 11, a2)
            } else if contains(d3, "通讯录"@) {
                back_round() + back_round() + seq![dumps()] + from_step(t, 11, a3)
            } else {
                back_round() + back_round() + back_round() + seq![
                    fails(Failure::VerificationInconclusive),
                ]
            }
        }),
{
    let t = import_one_by_one_table(c);
    lemma_one_by_one_layout(c);
    lemma_look_then_way_back(t, device);
}

/// A look for the contacts page that passes over the way back behind it
/// where the page shows.
proof fn lemma_look_then_way_back(t: Seq<StepView>, device: Device)
    requires
        t.len() >= 11,
        t[0] == probe_step(seq!["通讯录"], pass(10), pass(0)),
        stands_at(t, 1, navigate_back_to_contacts_table(true)),
    ensures
        ({
            let d0 = head(device.dumps);
            let walk = dumped(device);
            let d1 = head(walk.dumps);
            let d2 = head(tail(walk.dumps));
            let d3 = head(tail(tail(walk.dumps)));
            let a1 = dumped(walk);
            let a2 = dumped(obeyed(a1));
            let a3 = dumped(obeyed(a2));
            session(t, device) == seq![dumps()] + if contains(d0, "通讯录"@) {
                from_step(t, 11, walk)
            } else if contains(d1, "通讯录"@) {
                seq![dumps()] + from_step(t, 11, a1)
            } else if contains(d2, "通讯录"@) {
                back_round() + seq![dumps()] + from_step(t, 11, a2)
            } else if contains(d3, "通讯录"@) {
                back_round() + back_round() + seq![dumps()] + from_step(t, 11, a3)
            } else {
                back_round() + back_round() + back_round() + seq![
                    fails(Failure::VerificationInconclusive),
                ]
            }
        }),
{
    lemma_shows_one(head(device.dumps), "通讯录");
    lemma_at_screen(t, 0, device);
    lemma_way_back_at(t, 1, true, dumped(device));
}

/// What one try for the button asks for, wherever it stands in a script: the
/// tap, a wait of two seconds and one look at the screen. Where the screen
/// shows the page for adding a contact, the flow passes over the `rest`
/// steps behind the try; where not, it goes on with the step behind the
/// try.
pub proof fn lemma_button_try_at(
    t: Seq<StepView>,
    pc: int,
    x: i32,
    y: i32,
    rest: usize,
    device: Device,
)
    requires
        stands_at(t, pc, button_try_table(x, y, rest)),
    ensures
        from_step(t, pc, device) == seq![taps_at(x, y), waits(2000), dumps()] + if shows(
            head(device.dumps),
            add_page_words(),
        ) {
            from_step(t, pc + 3 + rest, dumped(obeyed(device)))
        } else {
            from_step(t, pc + 3, dumped(obeyed(device)))
        },
{
    let part = button_try_table(x, y, rest);
    lemma_stands(t, pc, part);
    assert(t[pc + 0] == part[0] && t[pc + 1] == part[1] && t[pc + 2] == part[2]);
    let a = obeyed(device);
    lemma_at_run(t, pc, device);
    lemma_at_wait(t, pc + 1, a);
    lemma_at_screen(t, pc + 2, a);
}

/// A tap on one of the points that fails leads straight to the next try: the
/// flow neither waits nor reads the screen before it goes on.
pub proof fn lemma_failed_try_goes_on(
    f: FlowView,
    x: i32,
    y: i32,
    rest: usize,
    message: Seq<char>,
)
    requires
        f.stage == Stage::Acting,
        stands_at(f.script, f.pc, button_try_table(x, y, rest)),
    ensures
        next(f, EventView::Failed(message)) == enter(f, f.pc + 3),
{
    let part = button_try_table(x, y, rest);
    lemma_stands(f.script, f.pc, part);
    assert(f.script[f.pc + 0] == part[0]);
}

/// What making sure of the page for adding a contact asks for, wherever it
/// stands in a script. It reads the screen once. Where that one screen names
/// the page, or shows the name field and the phone field together, the flow
/// goes on past the search for the button; else it searches for the button.
pub proof fn lemma_navigate_to_add_contact_at(t: Seq<StepView>, pc: int, device: Device)
    requires
        stands_at(t, pc, navigate_to_add_contact_table()),
    ensures
        from_step(t, pc, device) == seq![dumps()] + if shows(
            head(device.dumps),
            add_page_titles(),
        ) || shows_all(head(device.dumps), add_page_fields()) {
            from_step(t, pc + 14, dumped(device))
        } else {
            from_step(t, pc + 1, dumped(device))
        },
        stands_at(t, pc + 1, click_add_contact_button_table()),
{
    let part = navigate_to_add_contact_table();
    let button = click_add_contact_button_table();
    lemma_stands(t, pc, part);
    assert(button.len() == 13);
    assert(t[pc + 0] == part[0]);
    assert(t.subrange(pc + 1, pc + 14) =~= button) by {
        assert forall|i: int| 0 <= i < 13 implies t[pc + 1 + i] == button[i] by {
            assert(part[1 + i] == button[i]);
        }
    }
    lemma_at_screen(t, pc, device);
}

/// What the last try for the button asks for once the four points have
/// failed: one look at the screen and a tap on the first element that shows
/// `添加`, or the end of the flow as failed where no element does.
pub open spec fn button_by_text(d: Seq<char>, found: Seq<ActionView>) -> Seq<ActionView> {
    seq![dumps()] + on_target(
        d,
        seq!["添加"@],
        Field::TextOrDescription,
        Pick::First,
        0,
        seq![waits(2000)] + found,
        seq![fails(Failure::ElementNotFound)],
    )
}

/// What opening the page for adding a contact asks for, wherever it stands
/// in a script. The four points are tapped in order, each followed by a wait
/// and one look; the first look that shows the page ends the search, and no
/// further point is tapped. Where no look does, the screen is read a fifth
/// time and the button is looked for by its text.
pub proof fn lemma_click_add_contact_button_at(t: Seq<StepView>, pc: int, device: Device)
    requires
        stands_at(t, pc, click_add_contact_button_table()),
    ensures
        ({
            let b1 = dumped(obeyed(device));
            let b2 = dumped(obeyed(b1));
            let b3 = dumped(obeyed(b2));
            let b4 = dumped(obeyed(b3));
            let words = add_page_words();
            from_step(t, pc, device) == seq![taps_at(194, 249), waits(2000), dumps()]
                + if shows(head(device.dumps), words) {
                from_step(t, pc + 13, b1)
            } else {
                seq![taps_at(360, 249), waits(2000), dumps()] + if shows(head(b1.dumps), words) {
                    from_step(t, pc + 13, b2)
                } else {
                    seq![taps_at(180, 260), waits(2000), dumps()] + if shows(
                        head(b2.dumps),
                        words,
                    ) {
                        from_step(t, pc + 13, b3)
                    } else {
                        seq![taps_at(200, 240), waits(2000), dumps()] + if shows(
                            head(b3.dumps),
                            words,
                        ) {
                            from_step(t, pc + 13, b4)
                        } else {
                            button_by_text(
                                head(b4.dumps),
                                from_step(t, pc + 13, obeyed(dumped(b4))),
                            )
                        }
                    }
                }
            }
        }),
{
    let part = click_add_contact_button_table();
    lemma_stands(t, pc, part);
    assert(part.len() == 13);
    assert(t.subrange(pc, pc + 3) =~= button_try_table(194, 249, 10)) by {
        assert forall|i: int| 0 <= i < 3 implies t[pc + i] == button_try_table(194, 249, 10)[i] by {
            assert(part[i] == button_try_table(194, 249, 10)[i]);
        }
    }
    assert(t.subrange(pc + 3, pc + 6) =~= button_try_table(360, 249, 7)) by {
        assert forall|i: int| 0 <= i < 3 implies t[pc + 3 + i] == button_try_table(360, 249, 7)[i] by {
            assert(part[3 + i] == button_try_table(360, 249, 7)[i]);
        }
    }
    assert(t.subrange(pc + 6, pc + 9) =~= button_try_table(180, 260, 4)) by {
        assert forall|i: int| 0 <= i < 3 implies t[pc + 6 + i] == button_try_table(180, 260, 4)[i] by {
            assert(part[6 + i] == button_try_table(180, 260, 4)[i]);
        }
    }
    assert(t.subrange(pc + 9, pc + 12) =~= button_try_table(200, 240, 1)) by {
        assert forall|i: int| 0 <= i < 3 implies t[pc + 9 + i] == button_try_table(200, 240, 1)[i] by {
            assert(part[9 + i] == button_try_table(200, 240, 1)[i]);
        }
    }
    assert(t[pc + 12] == part[12]);
    let b1 = dumped(obeyed(device));
    let b2 = dumped(obeyed(b1));
    let b3 = dumped(obeyed(b2));
    let b4 = dumped(obeyed(b3));
    lemma_button_try_at(t, pc, 194, 249, 10, device);
    lemma_button_try_at(t, pc + 3, 360, 249, 7, b1);
    lemma_button_try_at(t, pc + 6, 180, 260, 4, b2);
    lemma_button_try_at(t, pc + 9, 200, 240, 1, b3);
    lemma_at_screen(t, pc + 12, b4);
}

/// What getting rid of a dialog about accounts asks for, wherever it stands
/// in a script. After half a second it reads the screen once. Where that
/// names no account the flow goes on at once. Where it does, the screen is
/// read again: the first element that shows a word that declines is tapped;
/// where there is none, the flow taps beside the dialog and presses the back
/// key.
pub proof fn lemma_account_dialog_at(t: Seq<StepView>, pc: int, device: Device)
    requires
        stands_at(t, pc, check_and_handle_account_dialog_table()),
    ensures
        ({
            let a1 = dumped(device);
            let a2 = dumped(a1);
            from_step(t, pc, device) == seq![waits(500), dumps()] + if shows(
                head(device.dumps),
                account_words(),
            ) {
                seq![dumps()] + on_target(
                    head(a1.dumps),
                    strs(decline_words()),
                    Field::TextOrDescription,
                    Pick::First,
                    0,
                    seq![waits(1000)] + from_step(t, pc + 7, obeyed(a2)),
                    seq![taps_at(50, 50), waits(500), presses(KeyCode::Back), waits(500)]
                        + from_step(t, pc + 7, obeyed(obeyed(a2))),
                )
            } else {
                from_step(t, pc + 7, a1)
            }
        }),
{
    let part = check_and_handle_account_dialog_table();
    lemma_stands(t, pc, part);
    assert(t[pc + 0] == part[0] && t[pc + 1] == part[1] && t[pc + 2] == part[2]);
    assert(t[pc + 3] == part[3] && t[pc + 4] == part[4] && t[pc + 5] == part[5]);
    assert(t[pc + 6] == part[6]);
    let a1 = dumped(device);
    let a2 = dumped(a1);
    let b = obeyed(a2);
    let c = obeyed(b);
    lemma_at_wait(t, pc, device);
    lemma_at_screen(t, pc + 1, device);
    lemma_at_screen(t, pc + 2, a1);
    lemma_at_run(t, pc + 3, a2);
    lemma_at_wait(t, pc + 4, b);
    lemma_at_run(t, pc + 5, b);
    lemma_at_wait(t, pc + 6, c);
}

} // verus!
