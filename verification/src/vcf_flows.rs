//! The scripts that bring a vCard file to a device and lead the contacts
//! application to the point where the file is picked.

use crate::actions::{Command, CommandView};
use crate::decide::strings;
use crate::plan::{after_phase, turn_to, Phase, PlanActionView, PlanView};
use crate::script::{
    completes, dumped, dumps, extend, fails, fits, go, jumps_fit, lemma_fits_together,
    lemma_fits_with_room, obeyed, pass, probe, probe_step, rest, run, run_step, runs, shell,
    shell_step, shows, strs, tap, tap_and_go, tap_step, tap_then, taps_at, wait, wait_step, waits,
};
use crate::text::{append_str, string_of, trim};
use crate::workflow::{
    from_step, head, lemma_at_end, lemma_at_run, lemma_at_screen, lemma_at_wait, session, steps,
    tail, Accept, AcceptView, ActionView, Device, Failure, OutcomeView, Reaction, Step, StepView,
};
use vstd::prelude::*;

verus! {

/// The arguments that start the contacts application by its name.
pub open spec fn launch_words() -> Seq<&'static str> {
    seq!["shell", "am", "start", "-n", "com.android.contacts/.activities.PeopleActivity"]
}

/// Starts the contacts application, which must succeed, and lets it come up
/// for three seconds.
pub open spec fn launch_table() -> Seq<StepView> {
    seq![shell_step(launch_words(), true), wait_step(3000)]
}

/// The script that starts the contacts application.
pub fn launch_steps() -> (script: Vec<Step>)
    ensures
        steps(script@) == launch_table(),
{
    let mut script: Vec<Step> = Vec::new();
    script.push(
        shell(
            vec!["shell", "am", "start", "-n", "com.android.contacts/.activities.PeopleActivity"],
            true,
        ),
    );
    script.push(wait(3000));
    assert(steps(script@) =~= launch_table());
    script
}

/// The words by which the button that opens the side bar is known.
pub open spec fn menu_words() -> Seq<&'static str> {
    seq![
        "Open drawer",
        "Open navigation drawer",
        "更多选项",
        "菜单",
        "导航抽屉",
        "Menu",
        "Drawer",
        "Navigation",
        "汉堡菜单",
    ]
}

/// The words by which the settings are known in the side bar.
pub open spec fn settings_words() -> Seq<&'static str> {
    seq!["设置", "Settings", "設定", "设定"]
}

/// The words by which the import is known in the settings.
pub open spec fn import_words() -> Seq<&'static str> {
    seq!["导入", "Import", "匯入", "导入联系人", "Import contacts"]
}

/// The words by which the import from storage is known.
pub open spec fn storage_words() -> Seq<&'static str> {
    seq!["从存储", "From storage", "存储卡", "SD卡", "文件", "Storage"]
}

/// The steps that lead through the side bar once the contacts application
/// has come up: four looks at the screen, each followed by the tap that the
/// table of the lead describes, and a wait.
pub open spec fn side_bar_lead() -> Seq<StepView> {
    seq![
        probe_step(menu_words(), tap_then(75, 150, 0, 0), tap_then(50, 120, 0, 0)),
        wait_step(2000),
        probe_step(settings_words(), tap_then(200, 400, 0, 0), rest(10000)),
        wait_step(3000),
        probe_step(import_words(), tap_then(400, 300, 0, 0), rest(10000)),
        wait_step(3000),
        probe_step(storage_words(), tap_then(400, 350, 0, 0), pass(0)),
        wait_step(3000),
    ]
}

/// Leads the contacts application through its side bar to the import of a
/// file: open the side bar, then the settings, then the import, then the
/// import from storage. Each of the four is tapped where it usually is, once
/// the screen names it. Where the screen does not name the button of the side
/// bar, the top left corner is tapped; where it does not name the settings or
/// the import, ten seconds are given to whoever sits at the device.
pub open spec fn import_via_contacts_sidebar_menu_table() -> Seq<StepView> {
    launch_table() + side_bar_lead()
}

/// The script that leads through the side bar to the import of a file.
pub fn import_via_contacts_sidebar_menu_steps() -> (script: Vec<Step>)
    ensures
        steps(script@) == import_via_contacts_sidebar_menu_table(),
{
    let mut script = launch_steps();
    let mut more: Vec<Step> = Vec::new();
    more.push(
        probe(
            vec![
                "Open drawer",
                "Open navigation drawer",
                "更多选项",
                "菜单",
                "导航抽屉",
                "Menu",
                "Drawer",
                "Navigation",
                "汉堡菜单",
            ],
            tap_and_go(75, 150, 0),
            tap_and_go(50, 120, 0),
        ),
    );
    more.push(wait(2000));
    more.push(
        probe(
            vec!["设置", "Settings", "設定", "设定"],
            tap_and_go(200, 400, 0),
            Reaction::Go { tap: None, wait_ms: 10000, skip: 0 },
        ),
    );
    more.push(wait(3000));
    more.push(
        probe(
            vec!["导入", "Import", "匯入", "导入联系人", "Import contacts"],
            tap_and_go(400, 300, 0),
            Reaction::Go { tap: None, wait_ms: 10000, skip: 0 },
        ),
    );
    more.push(wait(3000));
    more.push(
        probe(
            vec!["从存储", "From storage", "存储卡", "SD卡", "文件", "Storage"],
            tap_and_go(400, 350, 0),
            go(0),
        ),
    );
    more.push(wait(3000));
    assert(steps(more@) =~= side_bar_lead());
    extend(&mut script, more);
    script
}

/// The words by which the settings are known in the menu.
pub open spec fn menu_settings_words() -> Seq<&'static str> {
    seq!["设置", "Settings", "设定", "配置"]
}

/// The words by which the import is known in the settings of the menu.
pub open spec fn menu_import_words() -> Seq<&'static str> {
    seq!["导入", "Import", "匯入", "导入联系人"]
}

/// The steps that lead through the settings once the contacts application
/// has come up: a tap on the menu, and two looks at the screen, each followed
/// by the tap that the table of the lead describes, and a wait.
pub open spec fn settings_lead() -> Seq<StepView> {
    seq![
        tap_step(50, 100),
        wait_step(2000),
        probe_step(menu_settings_words(), tap_then(200, 300, 0, 0), tap_then(200, 400, 0, 0)),
        wait_step(3000),
        probe_step(menu_import_words(), tap_then(400, 500, 2000, 0), rest(10000)),
        wait_step(60000),
    ]
}

/// Leads the contacts application through its settings to the import of a
/// file: tap the menu at the top left; tap the settings where the screen
/// names them, and where they usually are if it does not; tap the import
/// where the screen names it, and give ten seconds to whoever sits at the
/// device if it does not; then give a minute to pick the file.
pub open spec fn import_via_contacts_settings_table() -> Seq<StepView> {
    launch_table() + settings_lead()
}

/// The script that leads through the settings to the import of a file.
pub fn import_via_contacts_settings_steps() -> (script: Vec<Step>)
    ensures
        steps(script@) == import_via_contacts_settings_table(),
{
    let mut script = launch_steps();
    let mut more: Vec<Step> = Vec::new();
    more.push(tap(50, 100));
    more.push(wait(2000));
    more.push(
        probe(
            vec!["设置", "Settings", "设定", "配置"],
            tap_and_go(200, 300, 0),
            tap_and_go(200, 400, 0),
        ),
    );
    more.push(wait(3000));
    more.push(
        probe(
            vec!["导入", "Import", "匯入", "导入联系人"],
            tap_and_go(400, 500, 2000),
            Reaction::Go { tap: None, wait_ms: 10000, skip: 0 },
        ),
    );
    more.push(wait(60000));
    assert(steps(more@) =~= settings_lead());
    extend(&mut script, more);
    script
}

/// The arguments that ask the device to open the file at `path` as a file of
/// the kind `kind`.
pub open spec fn view_words(path: Seq<char>, kind: Seq<char>) -> Seq<Seq<char>> {
    seq![
        "shell"@,
        "am"@,
        "start"@,
        "-a"@,
        "android.intent.action.VIEW"@,
        "-d"@,
        "file://"@ + path,
        "-t"@,
        kind,
    ]
}

/// The arguments that ask the device to open the file at `path`.
pub fn view_args(path: &str, kind: &str) -> (args: Vec<String>)
    ensures
        strings(args@) == view_words(path@, kind@),
{
    let mut address: Vec<char> = Vec::new();
    append_str(&mut address, "file://");
    append_str(&mut address, path);
    assert(address@ =~= "file://"@ + path@);
    let mut args: Vec<String> = Vec::new();
    args.push("shell".to_owned());
    args.push("am".to_owned());
    args.push("start".to_owned());
    args.push("-a".to_owned());
    args.push("android.intent.action.VIEW".to_owned());
    args.push("-d".to_owned());
    args.push(string_of(&address));
    args.push("-t".to_owned());
    args.push(kind.to_owned());
    assert(strings(args@) =~= view_words(path@, kind@));
    args
}

/// Asks the device to open a vCard file: first as `text/vcard`; where the
/// device does not answer that it is starting something, as `text/x-vcard`.
/// Neither request has to succeed.
pub open spec fn import_vcf_via_intent_table(path: Seq<char>) -> Seq<StepView> {
    seq![
        StepView::Run {
            command: CommandView::Shell(view_words(path, "text/vcard"@)),
            accept: AcceptView::Output { keywords: strs(seq!["Starting"]), or_empty: true },
            skip: 1,
            reject: None,
            required: false,
            failed_skip: 0,
        },
        run_step(CommandView::Shell(view_words(path, "text/x-vcard"@)), false),
    ]
}

/// The script that asks the device to open a vCard file.
pub fn import_vcf_via_intent_steps(vcf_path: &str) -> (script: Vec<Step>)
    ensures
        steps(script@) == import_vcf_via_intent_table(vcf_path@),
{
    let mut script: Vec<Step> = Vec::new();
    let word = vec!["Starting"];
    assert(word@ =~= seq!["Starting"]);
    script.push(
        Step::Run {
            command: Command::Shell(view_args(vcf_path, "text/vcard")),
            accept: Accept::Output { keywords: crate::script::owned(word), or_empty: true },
            skip: 1,
            reject: None,
            required: false,
            failed_skip: 0,
        },
    );
    script.push(run(Command::Shell(view_args(vcf_path, "text/x-vcard")), false));
    assert(steps(script@) =~= import_vcf_via_intent_table(vcf_path@));
    script
}

/// Brings a file to the device and makes sure that it is there: the listing
/// of the file must not be blank and must not say that there is no such
/// file.
pub open spec fn transfer_vcf_table(local: Seq<char>, remote: Seq<char>) -> Seq<StepView> {
    seq![
        run_step(CommandView::Shell(seq!["push"@, local, remote]), true),
        StepView::Run {
            command: CommandView::Shell(seq!["shell"@, "ls"@, "-l"@, remote]),
            accept: AcceptView::Without { keywords: strs(seq!["No such file"]) },
            skip: 0,
            reject: Some(Failure::VerificationInconclusive),
            required: true,
            failed_skip: 0,
        },
    ]
}

/// The script that brings a file to the device.
pub fn transfer_vcf_steps(local_path: &str, device_path: &str) -> (script: Vec<Step>)
    ensures
        steps(script@) == transfer_vcf_table(local_path@, device_path@),
{
    let mut push: Vec<String> = Vec::new();
    push.push("push".to_owned());
    push.push(local_path.to_owned());
    push.push(device_path.to_owned());
    assert(strings(push@) =~= seq!["push"@, local_path@, device_path@]);
    let mut list: Vec<String> = Vec::new();
    list.push("shell".to_owned());
    list.push("ls".to_owned());
    list.push("-l".to_owned());
    list.push(device_path.to_owned());
    assert(strings(list@) =~= seq!["shell"@, "ls"@, "-l"@, device_path@]);
    let word = vec!["No such file"];
    assert(word@ =~= seq!["No such file"]);
    let mut script: Vec<Step> = Vec::new();
    script.push(run(Command::Shell(push), true));
    script.push(
        Step::Run {
            command: Command::Shell(list),
            accept: Accept::Without { keywords: crate::script::owned(word) },
            skip: 0,
            reject: Some(Failure::VerificationInconclusive),
            required: true,
            failed_skip: 0,
        },
    );
    assert(steps(script@) =~= transfer_vcf_table(local_path@, device_path@));
    script
}

/// Gets the screen on which the imported contacts are looked for: give the
/// device three seconds to take in the file, start the contacts application,
/// give it two seconds, and read the screen.
pub open spec fn verify_contacts_import_table() -> Seq<StepView> {
    seq![
        wait_step(3000),
        shell_step(launch_words(), true),
        wait_step(2000),
        run_step(CommandView::Dump, true),
    ]
}

/// The script that gets the screen on which the imported contacts are looked
/// for.
pub fn verify_contacts_import_steps() -> (script: Vec<Step>)
    ensures
        steps(script@) == verify_contacts_import_table(),
{
    let mut script: Vec<Step> = Vec::new();
    script.push(wait(3000));
    script.push(
        shell(
            vec!["shell", "am", "start", "-n", "com.android.contacts/.activities.PeopleActivity"],
            true,
        ),
    );
    script.push(wait(2000));
    script.push(run(Command::Dump, true));
    assert(steps(script@) =~= verify_contacts_import_table());
    script
}

/// The import of a vCard file, phase by phase: bring the file to the device,
/// which must succeed; lead the contacts application to the import, after
/// which whoever sits at the device is given half a minute to pick the file,
/// or twenty seconds where the application could not be led and everything is
/// left to be done by hand; and get the screen on which the imported contacts
/// are looked for.
pub open spec fn import_contacts_from_file_plan() -> Seq<Phase> {
    seq![
        Phase { required: true, wait_after_success_ms: 0, wait_after_failure_ms: 0 },
        Phase { required: false, wait_after_success_ms: 30000, wait_after_failure_ms: 20000 },
        Phase { required: false, wait_after_success_ms: 0, wait_after_failure_ms: 0 },
    ]
}

/// The phases of the import of a vCard file.
pub fn import_contacts_from_file_phases() -> (phases: Vec<Phase>)
    ensures
        phases@ == import_contacts_from_file_plan(),
{
    let mut phases: Vec<Phase> = Vec::new();
    phases.push(Phase { required: true, wait_after_success_ms: 0, wait_after_failure_ms: 0 });
    phases.push(
        Phase { required: false, wait_after_success_ms: 30000, wait_after_failure_ms: 20000 },
    );
    phases.push(Phase { required: false, wait_after_success_ms: 0, wait_after_failure_ms: 0 });
    assert(phases@ =~= import_contacts_from_file_plan());
    phases
}

/// The import of a vCard file by asking the device to open it, phase by
/// phase: bring the file to the device, which must succeed; ask the device to
/// open it, after which whoever sits at the device is given ten seconds to
/// confirm, or twenty where the device could not be asked; and get the screen
/// on which the imported contacts are looked for.
pub open spec fn import_by_intent_plan() -> Seq<Phase> {
    seq![
        Phase { required: true, wait_after_success_ms: 0, wait_after_failure_ms: 0 },
        Phase { required: false, wait_after_success_ms: 10000, wait_after_failure_ms: 20000 },
        Phase { required: false, wait_after_success_ms: 0, wait_after_failure_ms: 0 },
    ]
}

/// The phases of the import of a vCard file by asking the device to open it.
pub fn import_by_intent_phases() -> (phases: Vec<Phase>)
    ensures
        phases@ == import_by_intent_plan(),
{
    let mut phases: Vec<Phase> = Vec::new();
    phases.push(Phase { required: true, wait_after_success_ms: 0, wait_after_failure_ms: 0 });
    phases.push(
        Phase { required: false, wait_after_success_ms: 10000, wait_after_failure_ms: 20000 },
    );
    phases.push(Phase { required: false, wait_after_success_ms: 0, wait_after_failure_ms: 0 });
    assert(phases@ =~= import_by_intent_plan());
    phases
}

/// The script of a phase of the import of a vCard file that has been written
/// to `local_path` and is to stand at `device_path`: the transfer, the lead
/// through the side bar, the look at the screen; no step for a phase that the
/// import does not have.
pub fn import_contacts_from_file_script(phase: usize, local_path: &str, device_path: &str) -> (script:
    Vec<Step>)
    ensures
        steps(script@) == if phase == 0 {
            transfer_vcf_table(local_path@, device_path@)
        } else if phase == 1 {
            import_via_contacts_sidebar_menu_table()
        } else if phase == 2 {
            verify_contacts_import_table()
        } else {
            Seq::<StepView>::empty()
        },
{
    if phase == 0 {
        transfer_vcf_steps(local_path, device_path)
    } else if phase == 1 {
        import_via_contacts_sidebar_menu_steps()
    } else if phase == 2 {
        verify_contacts_import_steps()
    } else {
        let script: Vec<Step> = Vec::new();
        assert(steps(script@) =~= Seq::<StepView>::empty());
        script
    }
}

/// The script of a phase of the import of a vCard file by asking the device
/// to open it.
pub fn import_by_intent_script(phase: usize, local_path: &str, device_path: &str) -> (script: Vec<
    Step,
>)
    ensures
        steps(script@) == if phase == 0 {
            transfer_vcf_table(local_path@, device_path@)
        } else if phase == 1 {
            import_vcf_via_intent_table(device_path@)
        } else if phase == 2 {
            verify_contacts_import_table()
        } else {
            Seq::<StepView>::empty()
        },
{
    if phase == 0 {
        transfer_vcf_steps(local_path, device_path)
    } else if phase == 1 {
        import_vcf_via_intent_steps(device_path)
    } else if phase == 2 {
        verify_contacts_import_steps()
    } else {
        let script: Vec<Step> = Vec::new();
        assert(steps(script@) =~= Seq::<StepView>::empty());
        script
    }
}

/// The jumps of every script of this module stay within the script.
pub proof fn lemma_scripts_fit(path: Seq<char>, local: Seq<char>, remote: Seq<char>)
    ensures
        jumps_fit(launch_table()),
        jumps_fit(import_via_contacts_sidebar_menu_table()),
        jumps_fit(import_via_contacts_settings_table()),
        jumps_fit(import_vcf_via_intent_table(path)),
        jumps_fit(transfer_vcf_table(local, remote)),
        jumps_fit(verify_contacts_import_table()),
{
    let side = side_bar_lead();
    let settings = settings_lead();
    assert(fits(launch_table(), 0));
    assert(fits(side, 0));
    assert(fits(settings, 0));
    lemma_fits_with_room(launch_table(), 0, side.len() as int);
    lemma_fits_together(launch_table(), side, 0);
    lemma_fits_with_room(launch_table(), 0, settings.len() as int);
    lemma_fits_together(launch_table(), settings, 0);
}

/// What a step that looks for keywords in the text of the dump `d` asks for
/// after the dump: `hit` where the dump holds one of the keywords, `miss`
/// where it holds none.
pub open spec fn on_keyword(
    d: Seq<char>,
    keywords: Seq<&str>,
    hit: Seq<ActionView>,
    miss: Seq<ActionView>,
) -> Seq<ActionView> {
    if shows(d, keywords) {
        hit
    } else {
        miss
    }
}

/// What the lead through the side bar asks for from its fourth look on: it
/// reads the screen and taps the import from storage where the screen names
/// it, and nothing where it does not.
pub open spec fn side_storage(screens: Seq<Seq<char>>) -> Seq<ActionView> {
    seq![dumps()] + on_keyword(
        head(screens),
        storage_words(),
        seq![taps_at(400, 350)],
        Seq::empty(),
    ) + seq![waits(3000), completes()]
}

/// What the lead through the side bar asks for from its third look on: it
/// reads the screen and taps the import where the screen names it, and waits
/// ten seconds where it does not.
pub open spec fn side_import(screens: Seq<Seq<char>>) -> Seq<ActionView> {
    seq![dumps()] + on_keyword(
        head(screens),
        import_words(),
        seq![taps_at(400, 300)],
        seq![waits(10000)],
    ) + seq![waits(3000)] + side_storage(tail(screens))
}

/// What the lead through the side bar asks for from its second look on: it
/// reads the screen and taps the settings where the screen names them, and
/// waits ten seconds where it does not.
pub open spec fn side_settings(screens: Seq<Seq<char>>) -> Seq<ActionView> {
    seq![dumps()] + on_keyword(
        head(screens),
        settings_words(),
        seq![taps_at(200, 400)],
        seq![waits(10000)],
    ) + seq![waits(3000)] + side_import(tail(screens))
}

/// What the lead through the side bar asks of a device on which every
/// command succeeds and whose successive dumps are `screens`: it starts the
/// contacts application and reads the screen four times. The button of the
/// side bar is tapped where the first screen names it, and the top left
/// corner where it does not; the settings, the import and the import from
/// storage are tapped exactly where the second, third and fourth screen name
/// them.
pub open spec fn side_bar_asks(screens: Seq<Seq<char>>) -> Seq<ActionView> {
    seq![runs(launch_words()), waits(3000), dumps()] + on_keyword(
        head(screens),
        menu_words(),
        seq![taps_at(75, 150)],
        seq![taps_at(50, 120)],
    ) + seq![waits(2000)] + side_settings(tail(screens))
}

proof fn lemma_side_storage(device: Device)
    ensures
        from_step(import_via_contacts_sidebar_menu_table(), 8, device) == side_storage(
            device.dumps,
        ),
{
    let t = import_via_contacts_sidebar_menu_table();
    let a = dumped(device);
    lemma_at_screen(t, 8, device);
    lemma_at_wait(t, 9, a);
    lemma_at_wait(t, 9, obeyed(a));
    lemma_at_end(t, 10);
}

proof fn lemma_side_import(device: Device)
    ensures
        from_step(import_via_contacts_sidebar_menu_table(), 6, device) == side_import(
            device.dumps,
        ),
{
    let t = import_via_contacts_sidebar_menu_table();
    let a = dumped(device);
    lemma_at_screen(t, 6, device);
    lemma_at_wait(t, 7, a);
    lemma_at_wait(t, 7, obeyed(a));
    lemma_side_storage(a);
    lemma_side_storage(obeyed(a));
}

proof fn lemma_side_settings(device: Device)
    ensures
        from_step(import_via_contacts_sidebar_menu_table(), 4, device) == side_settings(
            device.dumps,
        ),
{
    let t = import_via_contacts_sidebar_menu_table();
    let a = dumped(device);
    lemma_at_screen(t, 4, device);
    lemma_at_wait(t, 5, a);
    lemma_at_wait(t, 5, obeyed(a));
    lemma_side_import(a);
    lemma_side_import(obeyed(a));
}

/// The lead through the side bar asks for what `side_bar_asks` says.
pub proof fn lemma_import_via_contacts_sidebar_menu(device: Device)
    ensures
        session(import_via_contacts_sidebar_menu_table(), device) == side_bar_asks(device.dumps),
{
    let t = import_via_contacts_sidebar_menu_table();
    let l = obeyed(device);
    let a = dumped(l);
    assert(t[0] == launch_table()[0]);
    assert(t[1] == launch_table()[1]);
    lemma_at_run(t, 0, device);
    lemma_at_wait(t, 1, l);
    lemma_at_screen(t, 2, l);
    lemma_at_wait(t, 3, obeyed(a));
    lemma_side_settings(obeyed(a));
}

/// What the lead through the settings asks of a device on which every
/// command succeeds and whose successive dumps are `screens`: it starts the
/// contacts application, taps the menu at the top left and reads the screen
/// twice. The settings are tapped at one point where the first screen names
/// them and at another where it does not; the import is tapped where the
/// second screen names it, and ten seconds are waited where it does not.
/// Then a minute passes.
pub open spec fn settings_asks(screens: Seq<Seq<char>>) -> Seq<ActionView> {
    seq![runs(launch_words()), waits(3000), taps_at(50, 100), waits(2000), dumps()] + on_keyword(
        head(screens),
        menu_settings_words(),
        seq![taps_at(200, 300)],
        seq![taps_at(200, 400)],
    ) + seq![waits(3000), dumps()] + on_keyword(
        head(tail(screens)),
        menu_import_words(),
        seq![taps_at(400, 500), waits(2000)],
        seq![waits(10000)],
    ) + seq![waits(60000), completes()]
}

proof fn lemma_settings_import(device: Device)
    ensures
        from_step(import_via_contacts_settings_table(), 6, device) == seq![dumps()] + on_keyword(
            head(device.dumps),
            menu_import_words(),
            seq![taps_at(400, 500), waits(2000)],
            seq![waits(10000)],
        ) + seq![waits(60000), completes()],
{
    let t = import_via_contacts_settings_table();
    let a = dumped(device);
    lemma_at_screen(t, 6, device);
    lemma_at_wait(t, 7, a);
    lemma_at_wait(t, 7, obeyed(a));
    lemma_at_end(t, 8);
}

/// The lead through the settings asks for what `settings_asks` says.
pub proof fn lemma_import_via_contacts_settings(device: Device)
    ensures
        session(import_via_contacts_settings_table(), device) == settings_asks(device.dumps),
{
    let t = import_via_contacts_settings_table();
    let l = obeyed(device);
    let m = obeyed(l);
    let a = dumped(m);
    assert(t[0] == launch_table()[0]);
    assert(t[1] == launch_table()[1]);
    lemma_at_run(t, 0, device);
    lemma_at_wait(t, 1, l);
    lemma_at_run(t, 2, l);
    lemma_at_wait(t, 3, m);
    lemma_at_screen(t, 4, m);
    lemma_at_wait(t, 5, obeyed(a));
    lemma_settings_import(obeyed(a));
}

/// Asking the device to open a vCard file asks for one command where the
/// device answers the first request with nothing or with a text that holds
/// `Starting`, and for the second request as well where it answers with
/// anything else. No screen is read.
pub proof fn lemma_import_vcf_via_intent(path: Seq<char>, device: Device)
    ensures
        session(import_vcf_via_intent_table(path), device) == seq![
            ActionView::Run(CommandView::Shell(view_words(path, "text/vcard"@))),
        ] + if head(device.outputs).len() == 0 || shows(head(device.outputs), seq!["Starting"]) {
            seq![completes()]
        } else {
            seq![
                ActionView::Run(CommandView::Shell(view_words(path, "text/x-vcard"@))),
                completes(),
            ]
        },
{
    let t = import_vcf_via_intent_table(path);
    lemma_at_run(t, 0, device);
    lemma_at_run(t, 1, obeyed(device));
    lemma_at_end(t, 2);
}

/// Bringing a file to the device asks for two commands, the transfer and the
/// listing of the file. It is completed where the listing is not blank and
/// does not say that there is no such file, and has failed where it is or
/// does.
pub proof fn lemma_transfer_vcf(local: Seq<char>, remote: Seq<char>, device: Device)
    ensures
        session(transfer_vcf_table(local, remote), device) == seq![
            ActionView::Run(CommandView::Shell(seq!["push"@, local, remote])),
            ActionView::Run(CommandView::Shell(seq!["shell"@, "ls"@, "-l"@, remote])),
            if trim(head(tail(device.outputs))).len() > 0 && !shows(
                head(tail(device.outputs)),
                seq!["No such file"],
            ) {
                completes()
            } else {
                fails(Failure::VerificationInconclusive)
            },
        ],
{
    let t = transfer_vcf_table(local, remote);
    lemma_at_run(t, 0, device);
    lemma_at_run(t, 1, obeyed(device));
    lemma_at_end(t, 2);
}

/// Getting the screen for the look at the imported contacts asks for the
/// start of the contacts application between two waits, and reads the screen
/// once, at the end.
pub proof fn lemma_verify_contacts_import(device: Device)
    ensures
        session(verify_contacts_import_table(), device) == seq![
            waits(3000),
            runs(launch_words()),
            waits(2000),
            dumps(),
            completes(),
        ],
{
    let t = verify_contacts_import_table();
    let l = obeyed(device);
    lemma_at_wait(t, 0, device);
    lemma_at_run(t, 1, device);
    lemma_at_wait(t, 2, l);
    lemma_at_run(t, 3, l);
    lemma_at_end(t, 4);
}

/// The import of a vCard file, phase by phase. Where the transfer fails the
/// import ends there and names that phase. Where it succeeds, the lead is
/// run, then half a minute or twenty seconds are waited according to how the
/// lead has ended, then the look is run, and the import is over whatever
/// becomes of the look.
pub proof fn lemma_import_contacts_from_file(
    transfer: OutcomeView,
    lead: OutcomeView,
    look: OutcomeView,
)
    ensures
        ({
            let start = PlanView { phases: import_contacts_from_file_plan(), at: 0, over: false };
            let (p1, a1) = after_phase(start, transfer);
            let (p2, a2) = after_phase(p1, lead);
            let (p3, a3) = turn_to(p2, p2.at);
            let (p4, a4) = after_phase(p3, look);
            if transfer != OutcomeView::Completed {
                a1 == (PlanActionView::Failed { phase: 0, outcome: transfer }) && p1.over
            } else {
                &&& a1 == (PlanActionView::Run { phase: 1 })
                &&& a2 == (PlanActionView::Wait {
                    ms: if lead == OutcomeView::Completed {
                        30000
                    } else {
                        20000
                    },
                })
                &&& a3 == (PlanActionView::Run { phase: 2 })
                &&& a4 == PlanActionView::Completed
                &&& p4.over
            }
        }),
{
}

} // verus!
