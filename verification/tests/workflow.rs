use flow_farm::actions::{Command, KeyCode};
use flow_farm::batch::{Batch, BatchAction, Report};
use flow_farm::client::AdbClient;
use flow_farm::contact::Contact;
use flow_farm::decide::{choose_target, find_keyword, holds_all, point_on, Field, Pick};
use flow_farm::error::ParseError;
use flow_farm::flows::{
    add_contact_to_device_steps, execute_contact_flow_steps, find_and_click_content_desc_steps,
    find_and_click_text_steps, input_text_steps, open_contacts_app_steps,
    try_save_contact_steps, verify_page_contains_steps,
};
use flow_farm::script::attempt;
use flow_farm::workflow::{
    decide_on, find_shown, Accept, Action, Event, Failure, Flow, Outcome, Reaction, Scope, Stage,
    Step,
};

fn client() -> AdbClient {
    AdbClient::new(None)
}

fn node(text: &str, desc: &str, clickable: bool, bounds: &str) -> String {
    format!(
        "<node text=\"{}\" content-desc=\"{}\" clickable=\"{}\" bounds=\"{}\" />",
        text, desc, clickable, bounds
    )
}

fn screen(nodes: &[String]) -> String {
    format!(
        "<hierarchy rotation=\"0\"><node text=\"\" bounds=\"[0,0][1080,1920]\">{}</node></hierarchy>",
        nodes.concat()
    )
}

fn words(list: &[&str]) -> Vec<String> {
    list.iter().map(|s| s.to_string()).collect()
}

fn show(command: &Command) -> String {
    match command {
        Command::Dump => "dump".to_string(),
        Command::Tap { x, y } => format!("tap {} {}", x, y),
        Command::Key(k) => format!("key {}", k.name()),
        Command::Text(t) => format!("text {}", t),
        Command::Shell(args) => format!("shell {}", args.join(" ")),
    }
}

/// Runs a flow against a device that answers each command with `device`, and
/// gives back how the flow ended and what it asked for.
fn drive(script: Vec<Step>, mut device: impl FnMut(&Command) -> Result<String, String>) -> (Outcome, Vec<String>) {
    let mut flow = Flow::new(script);
    let mut log = Vec::new();
    let mut event = Event::Begin;
    for _ in 0..10_000 {
        match flow.advance(&client(), event) {
            Action::Run(command) => {
                log.push(show(&command));
                event = match device(&command) {
                    Ok(output) => Event::Output(output),
                    Err(message) => Event::Failed(message),
                };
            }
            Action::Wait { ms } => {
                log.push(format!("wait {}", ms));
                event = Event::Waited;
            }
            Action::Finish(outcome) => {
                assert!(flow.is_finished());
                assert_eq!(flow.outcome(), Some(outcome.clone()));
                return (outcome, log);
            }
        }
    }
    panic!("the flow did not end");
}

fn always(dump: String) -> impl FnMut(&Command) -> Result<String, String> {
    move |command| match command {
        Command::Dump => Ok(dump.clone()),
        _ => Ok(String::new()),
    }
}

#[test]
fn the_first_keyword_with_a_clickable_match_wins() {
    let dump = screen(&[node("确定", "", true, "[100,200][300,400]")]);
    let root = client().parse_ui_xml(&dump).unwrap();
    let keywords = words(&["保存", "确定", "完成"]);
    assert_eq!(
        choose_target(&root, &keywords, Field::TextOrDescription, Pick::Clickable),
        Some((1, (200, 300)))
    );
    let (outcome, log) = drive(try_save_contact_steps(), always(dump));
    assert_eq!(outcome, Outcome::Completed);
    assert_eq!(log, vec!["wait 1000", "dump", "tap 200 300", "wait 1000"]);
}

#[test]
fn an_earlier_keyword_beats_a_later_one_wherever_they_stand() {
    let dump = screen(&[
        node("完成", "", true, "[0,0][10,10]"),
        node("确定", "", true, "[20,20][40,40]"),
        node("保存", "", false, "[50,50][70,70]"),
        node("保存", "", true, ""),
    ]);
    let root = client().parse_ui_xml(&dump).unwrap();
    let keywords = words(&["保存", "确定", "完成"]);
    assert_eq!(
        choose_target(&root, &keywords, Field::TextOrDescription, Pick::Clickable),
        Some((1, (30, 30)))
    );
    assert_eq!(
        choose_target(&root, &keywords, Field::TextOrDescription, Pick::First),
        Some((0, (60, 60)))
    );
    assert_eq!(choose_target(&root, &words(&["取消"]), Field::TextOrDescription, Pick::First), None);
    assert_eq!(choose_target(&root, &Vec::new(), Field::TextOrDescription, Pick::First), None);
}

#[test]
fn among_the_matches_of_a_keyword_the_first_usable_one_is_taken() {
    let dump = screen(&[
        node("保存 1", "", false, "[0,0][10,10]"),
        node("保存 2", "", true, "bad"),
        node("保存 3", "", true, "[20,20][40,40]"),
        node("保存 4", "", true, "[60,60][80,80]"),
    ]);
    let root = client().parse_ui_xml(&dump).unwrap();
    assert_eq!(point_on(&root, "保存", Field::TextOrDescription, Pick::Clickable), Some((30, 30)));
    assert_eq!(point_on(&root, "保存", Field::TextOrDescription, Pick::First), Some((5, 5)));
    assert_eq!(point_on(&root, "保存 2", Field::TextOrDescription, Pick::First), None);
    assert_eq!(point_on(&root, "保存", Field::Description, Pick::First), None);
}

#[test]
fn without_a_match_the_fallback_point_is_tapped() {
    let dump = screen(&[node("nothing", "", true, "[100,200][300,400]")]);
    let (outcome, log) = drive(try_save_contact_steps(), always(dump));
    assert_eq!(outcome, Outcome::Completed);
    assert_eq!(log, vec!["wait 1000", "dump", "tap 1000 100"]);
}

#[test]
fn find_and_click_taps_the_centre_or_fails() {
    let dump = screen(&[node("发现好友", "", true, "[0,100][200,300]"), node("x", "菜单", true, "[10,10][30,30]")]);
    let (outcome, log) = drive(find_and_click_text_steps("发现好友"), always(dump.clone()));
    assert_eq!(outcome, Outcome::Completed);
    assert_eq!(log, vec!["dump", "tap 100 200"]);
    let (outcome, log) = drive(find_and_click_content_desc_steps("菜单"), always(dump.clone()));
    assert_eq!(outcome, Outcome::Completed);
    assert_eq!(log, vec!["dump", "tap 20 20"]);
    let (outcome, log) = drive(find_and_click_content_desc_steps("发现好友"), always(dump.clone()));
    assert_eq!(outcome, Outcome::ElementNotFound);
    assert_eq!(log, vec!["dump"]);
    let (outcome, _) = drive(find_and_click_text_steps("通讯录"), always(dump));
    assert_eq!(outcome, Outcome::ElementNotFound);
}

#[test]
fn find_and_click_by_text_takes_upper_and_lower_case_as_one() {
    let only = screen(&[node("Save", "", true, "[0,100][200,300]")]);
    let (outcome, log) = drive(find_and_click_text_steps("save"), always(only.clone()));
    assert_eq!(outcome, Outcome::Completed);
    assert_eq!(log, vec!["dump", "tap 100 200"]);
    let (outcome, log) = drive(find_and_click_text_steps("SAVE"), always(only.clone()));
    assert_eq!(outcome, Outcome::Completed);
    assert_eq!(log, vec!["dump", "tap 100 200"]);
    let (outcome, log) = drive(find_and_click_text_steps("saved"), always(only));
    assert_eq!(outcome, Outcome::ElementNotFound);
    assert_eq!(log, vec!["dump"]);

    let by_description = screen(&[node("", "Find FRIENDS", true, "[10,10][30,50]")]);
    let (outcome, log) = drive(find_and_click_text_steps("find friends"), always(by_description.clone()));
    assert_eq!(outcome, Outcome::Completed);
    assert_eq!(log, vec!["dump", "tap 20 30"]);
    let (outcome, log) = drive(find_and_click_content_desc_steps("find friends"), always(by_description));
    assert_eq!(outcome, Outcome::ElementNotFound);
    assert_eq!(log, vec!["dump"]);
}

#[test]
fn find_and_click_by_text_taps_the_first_match_that_can_be_tapped() {
    let dump = screen(&[
        node("SAVE all", "", false, "[0,0][10,10]"),
        node("save", "", true, ""),
        node("x", "Save", true, "[100,100][200,300]"),
        node("save", "", true, "[500,500][600,600]"),
    ]);
    let (outcome, log) = drive(find_and_click_text_steps("Save"), always(dump));
    assert_eq!(outcome, Outcome::Completed);
    assert_eq!(log, vec!["dump", "tap 150 200"]);
    let none = screen(&[node("SAVE", "", false, "[0,0][10,10]"), node("save", "", true, "")]);
    let (outcome, log) = drive(find_and_click_text_steps("save"), always(none));
    assert_eq!(outcome, Outcome::ElementNotFound);
    assert_eq!(log, vec!["dump"]);
}

#[test]
fn verification_takes_upper_and_lower_case_as_one() {
    let dump = screen(&[node("", "Contacts", false, "")]);
    let (outcome, log) = drive(verify_page_contains_steps("contacts"), always(dump.clone()));
    assert_eq!(outcome, Outcome::Completed);
    assert_eq!(log, vec!["wait 2000", "dump"]);
    let (outcome, _) = drive(verify_page_contains_steps("CONTACT"), always(dump.clone()));
    assert_eq!(outcome, Outcome::Completed);
    let (outcome, _) = drive(verify_page_contains_steps("contacts!"), always(dump.clone()));
    assert_eq!(outcome, Outcome::VerificationInconclusive);
    assert_eq!(find_shown(&client().parse_ui_xml(&dump).unwrap(), &words(&["x", "CONTACTS", "contacts"])), Some(1));
}

#[test]
fn saving_compares_the_words_as_they_stand() {
    let dump = screen(&[node("save", "", true, "[0,0][10,10]"), node("Done", "", true, "[100,100][200,300]")]);
    let (outcome, log) = drive(try_save_contact_steps(), always(dump));
    assert_eq!(outcome, Outcome::Completed);
    assert_eq!(log, vec!["wait 1000", "dump", "tap 150 200", "wait 1000"]);
}

#[test]
fn a_keyword_can_be_compared_in_three_ways() {
    let dump = screen(&[node("Save", "save it", true, "[0,0][10,10]")]);
    let root = client().parse_ui_xml(&dump).unwrap();
    assert_eq!(point_on(&root, "SAVE", Field::Folded, Pick::Clickable), Some((5, 5)));
    assert_eq!(point_on(&root, "SAVE IT", Field::Folded, Pick::First), Some((5, 5)));
    assert_eq!(point_on(&root, "SAVE", Field::TextOrDescription, Pick::Clickable), None);
    assert_eq!(point_on(&root, "Save", Field::TextOrDescription, Pick::Clickable), Some((5, 5)));
    assert_eq!(point_on(&root, "Save", Field::Description, Pick::Clickable), None);
    assert_eq!(point_on(&root, "save", Field::Description, Pick::Clickable), Some((5, 5)));
    assert_eq!(
        choose_target(&root, &words(&["nothing", "sAvE"]), Field::Folded, Pick::Clickable),
        Some((1, (5, 5)))
    );
}

#[test]
fn a_screen_is_recognised_by_one_word_or_by_all_of_a_set() {
    let step = Step::Recognise {
        one_of: words(&["title", "heading"]),
        each_of: words(&["name", "phone"]),
        hit: Reaction::Go { tap: None, wait_ms: 0, skip: 1 },
        miss: Reaction::Go { tap: None, wait_ms: 0, skip: 0 },
    };
    let unread = Err(ParseError::MalformedMarkup);
    let hit = Reaction::Go { tap: None, wait_ms: 0, skip: 1 };
    let miss = Reaction::Go { tap: None, wait_ms: 0, skip: 0 };
    assert_eq!(decide_on(&step, "a heading", &unread), hit);
    assert_eq!(decide_on(&step, "phone, then name", &unread), hit);
    assert_eq!(decide_on(&step, "name only", &unread), miss);
    assert_eq!(decide_on(&step, "phone only", &unread), miss);
    assert_eq!(decide_on(&step, "", &unread), miss);
    assert!(holds_all("abc", &words(&["a", "bc", ""])));
    assert!(!holds_all("abc", &words(&["a", "cb"])));
    assert!(holds_all("", &Vec::new()));
    let (outcome, log) = drive(vec![step, Step::Wait { ms: 7 }], always("name and phone".to_string()));
    assert_eq!(outcome, Outcome::Completed);
    assert_eq!(log, vec!["dump"]);
}

#[test]
fn a_command_that_fails_can_pass_over_what_depends_on_it() {
    let script = |failed_skip: usize| {
        vec![
            Step::Run {
                command: Command::Tap { x: 1, y: 2 },
                accept: Accept::Always,
                skip: 0,
                reject: None,
                required: false,
                failed_skip,
            },
            Step::Wait { ms: 5 },
            Step::Wait { ms: 6 },
            Step::Wait { ms: 7 },
        ]
    };
    let broken = |_: &Command| -> Result<String, String> { Err("no".to_string()) };
    let (outcome, log) = drive(script(0), broken);
    assert_eq!(outcome, Outcome::Completed);
    assert_eq!(log, vec!["tap 1 2", "wait 5", "wait 6", "wait 7"]);
    let (outcome, log) = drive(script(2), broken);
    assert_eq!(outcome, Outcome::Completed);
    assert_eq!(log, vec!["tap 1 2", "wait 7"]);
    let (outcome, log) = drive(script(usize::MAX), broken);
    assert_eq!(outcome, Outcome::Completed);
    assert_eq!(log, vec!["tap 1 2"]);
    let (outcome, log) = drive(script(2), always(String::new()));
    assert_eq!(outcome, Outcome::Completed);
    assert_eq!(log, vec!["tap 1 2", "wait 5", "wait 6", "wait 7"]);
    let (_, log) = drive(vec![attempt(Command::Key(KeyCode::Back), 1), Step::Wait { ms: 1 }], broken);
    assert_eq!(log, vec!["key KEYCODE_BACK"]);
}

#[test]
fn verification_looks_for_the_marker() {
    let dump = screen(&[node("通讯录", "", false, "")]);
    let (outcome, log) = drive(verify_page_contains_steps("通讯录"), always(dump.clone()));
    assert_eq!(outcome, Outcome::Completed);
    assert_eq!(log, vec!["wait 2000", "dump"]);
    let (outcome, _) = drive(verify_page_contains_steps("联系人"), always(dump));
    assert_eq!(outcome, Outcome::VerificationInconclusive);
}

#[test]
fn a_dump_that_cannot_be_read_ends_the_flow() {
    let (outcome, log) = drive(find_and_click_text_steps("x"), always("not markup".to_string()));
    assert_eq!(outcome, Outcome::ParseFailed(ParseError::MalformedMarkup));
    assert_eq!(log, vec!["dump"]);
    let (outcome, _) = drive(verify_page_contains_steps("x"), always("<a/>".to_string()));
    assert_eq!(outcome, Outcome::ParseFailed(ParseError::NoHierarchyFound));
}

#[test]
fn a_failed_command_ends_the_flow_with_its_message() {
    let (outcome, log) = drive(find_and_click_text_steps("x"), |_| Err("device offline".to_string()));
    assert_eq!(outcome, Outcome::DeviceFailed("device offline".to_string()));
    assert_eq!(log, vec!["dump"]);
    let dump = screen(&[node("x", "", true, "[0,0][2,2]")]);
    let (outcome, log) = drive(find_and_click_text_steps("x"), |c| match c {
        Command::Dump => Ok(dump.clone()),
        _ => Err("tap failed".to_string()),
    });
    assert_eq!(outcome, Outcome::DeviceFailed("tap failed".to_string()));
    assert_eq!(log, vec!["dump", "tap 1 1"]);
}

#[test]
fn the_whole_way_to_the_contacts_page() {
    let pages = [
        screen(&[node("", "菜单", true, "[0,0][100,100]")]),
        screen(&[node("发现好友", "", true, "[0,200][100,300]")]),
        screen(&[node("发现好友", "", true, "[0,200][100,300]")]),
        screen(&[node("通讯录", "", true, "[0,400][100,500]")]),
        screen(&[node("通讯录", "", true, "[0,400][100,500]")]),
        screen(&[node("导入", "", true, "[0,0][1,1]")]),
        screen(&[node("导入", "", true, "[0,0][1,1]")]),
        screen(&[node("final", "", true, "[0,0][1,1]")]),
    ];
    let mut dumps = 0;
    let (outcome, log) = drive(execute_contact_flow_steps(), |c| match c {
        Command::Dump => {
            dumps += 1;
            Ok(pages[dumps - 1].clone())
        }
        _ => Ok(String::new()),
    });
    assert_eq!(outcome, Outcome::Completed);
    assert_eq!(
        log,
        vec![
            "dump", "tap 50 50", "wait 2000", "dump",
            "dump", "tap 50 250", "wait 2000", "dump",
            "dump", "tap 50 450", "wait 2000", "dump", "wait 2000", "dump",
            "shell shell screencap /sdcard/screenshot.png",
            "shell pull /sdcard/screenshot.png final_contacts_page.png",
            "dump",
        ]
    );
}

#[test]
fn the_second_check_of_arrival_is_skipped_where_the_first_succeeds() {
    let page = screen(&[
        node("", "菜单", true, "[0,0][100,100]"),
        node("发现好友", "", true, "[0,200][100,300]"),
        node("通讯录", "", true, "[0,400][100,500]"),
        node("联系人", "", false, ""),
    ]);
    let (outcome, log) = drive(execute_contact_flow_steps(), always(page));
    assert_eq!(outcome, Outcome::Completed);
    assert_eq!(log.iter().filter(|l| l.as_str() == "dump").count(), 7);
    assert_eq!(log.iter().filter(|l| l.as_str() == "wait 2000").count(), 3);
}

#[test]
fn the_way_stops_at_the_first_leg_that_fails() {
    let page = screen(&[node("", "菜单", true, "[0,0][100,100]")]);
    let (outcome, log) = drive(execute_contact_flow_steps(), always(page));
    assert_eq!(outcome, Outcome::VerificationInconclusive);
    assert_eq!(log, vec!["dump", "tap 50 50", "wait 2000", "dump"]);
    let (outcome, log) = drive(execute_contact_flow_steps(), always(screen(&[])));
    assert_eq!(outcome, Outcome::ElementNotFound);
    assert_eq!(log, vec!["dump"]);
}

#[test]
fn opening_the_contacts_application_falls_back_on_the_second_way() {
    let (outcome, log) = drive(open_contacts_app_steps(), |_| Ok(String::new()));
    assert_eq!(outcome, Outcome::Completed);
    assert_eq!(
        log,
        vec!["shell shell am start -n com.android.contacts/.activities.PeopleActivity", "wait 3000"]
    );
    let (outcome, log) = drive(open_contacts_app_steps(), |c| match c {
        Command::Shell(args) if args.contains(&"-n".to_string()) => Err("no such activity".to_string()),
        _ => Ok(String::new()),
    });
    assert_eq!(outcome, Outcome::Completed);
    assert_eq!(
        log,
        vec![
            "shell shell am start -n com.android.contacts/.activities.PeopleActivity",
            "shell shell am start -a android.intent.action.VIEW -d content://contacts/people",
            "wait 3000",
        ]
    );
    let (outcome, _) = drive(open_contacts_app_steps(), |_| Err("gone".to_string()));
    assert_eq!(outcome, Outcome::Completed);
}

#[test]
fn typing_is_three_commands_that_stand_or_fall_together() {
    let (outcome, log) = drive(input_text_steps("Li Lei 138"), |_| Ok(String::new()));
    assert_eq!(outcome, Outcome::Completed);
    assert_eq!(
        log,
        vec!["key KEYCODE_CTRL_A", "wait 200", "key KEYCODE_DEL", "wait 200", "text Li%sLei%s138", "wait 300"]
    );
    let (outcome, log) = drive(input_text_steps("x"), |c| match c {
        Command::Text(_) => Err("input: not found".to_string()),
        _ => Ok(String::new()),
    });
    assert_eq!(outcome, Outcome::DeviceFailed("input: not found".to_string()));
    assert_eq!(log.len(), 5);
    let (outcome, log) = drive(input_text_steps("x"), |c| match c {
        Command::Key(KeyCode::Del) => Err("no".to_string()),
        _ => Ok(String::new()),
    });
    assert_eq!(outcome, Outcome::DeviceFailed("no".to_string()));
    assert_eq!(log, vec!["key KEYCODE_CTRL_A", "wait 200", "key KEYCODE_DEL"]);
}

#[test]
fn a_cancelled_flow_stops_between_two_steps() {
    let mut flow = Flow::new(try_save_contact_steps());
    assert_eq!(flow.stage(), Stage::Ready);
    assert!(matches!(flow.advance(&client(), Event::Begin), Action::Wait { ms: 1000 }));
    assert_eq!(flow.stage(), Stage::Pausing);
    assert!(matches!(flow.advance(&client(), Event::Waited), Action::Run(Command::Dump)));
    assert_eq!(flow.stage(), Stage::Dumping);
    assert_eq!(flow.position(), 1);
    assert!(flow.wants_tree());
    assert!(matches!(flow.advance(&client(), Event::Cancel), Action::Finish(Outcome::Stopped)));
    assert!(flow.is_finished());
    let late = Event::Output(screen(&[node("保存", "", true, "[0,0][2,2]")]));
    assert!(matches!(flow.advance(&client(), late), Action::Finish(Outcome::Stopped)));
    assert!(matches!(flow.advance(&client(), Event::Begin), Action::Finish(Outcome::Stopped)));
    assert_eq!(flow.outcome(), Some(Outcome::Stopped));
}

#[test]
fn an_event_that_does_not_fit_ends_the_flow() {
    let mut flow = Flow::new(try_save_contact_steps());
    assert!(matches!(flow.advance(&client(), Event::Waited), Action::Finish(Outcome::Unexpected)));
    let mut flow = Flow::new(try_save_contact_steps());
    flow.advance(&client(), Event::Begin);
    assert!(matches!(
        flow.advance(&client(), Event::Output(String::new())),
        Action::Finish(Outcome::Unexpected)
    ));
}

#[test]
fn a_step_that_gives_up_ends_the_flow_without_asking_anything() {
    let script = vec![
        Step::Wait { ms: 5 },
        Step::GiveUp { failure: Failure::VerificationInconclusive },
        Step::Wait { ms: 7 },
    ];
    let (outcome, log) = drive(script, |_| Ok(String::new()));
    assert_eq!(outcome, Outcome::VerificationInconclusive);
    assert_eq!(log, vec!["wait 5"]);
    let (outcome, log) = drive(vec![Step::GiveUp { failure: Failure::ElementNotFound }], |_| Ok(String::new()));
    assert_eq!(outcome, Outcome::ElementNotFound);
    assert!(log.is_empty());
    let jumped = vec![
        Step::Probe {
            keywords: words(&["yes"]),
            scope: Scope::RawText,
            hit: Reaction::Go { tap: None, wait_ms: 0, skip: 1 },
            miss: Reaction::Go { tap: None, wait_ms: 0, skip: 0 },
        },
        Step::GiveUp { failure: Failure::Parse(ParseError::MalformedBounds) },
    ];
    let (outcome, log) = drive(jumped, always("yes".to_string()));
    assert_eq!(outcome, Outcome::Completed);
    assert_eq!(log, vec!["dump"]);
}

#[test]
fn an_empty_script_is_completed_at_once() {
    let mut flow = Flow::new(Vec::new());
    assert!(!flow.is_finished());
    assert_eq!(flow.outcome(), None);
    assert!(matches!(flow.advance(&client(), Event::Begin), Action::Finish(Outcome::Completed)));
    assert!(Outcome::Completed.is_success());
    assert!(!Outcome::Stopped.is_success());
}

#[test]
fn jumps_pass_over_steps_and_stop_at_the_end() {
    let script = vec![
        Step::Probe {
            keywords: words(&["yes"]),
            scope: Scope::RawText,
            hit: Reaction::Go { tap: None, wait_ms: 7, skip: 1 },
            miss: Reaction::Go { tap: Some((1, 2)), wait_ms: 0, skip: usize::MAX },
        },
        Step::Wait { ms: 1 },
        Step::Wait { ms: 2 },
    ];
    let (outcome, log) = drive(script, always("yes".to_string()));
    assert_eq!(outcome, Outcome::Completed);
    assert_eq!(log, vec!["dump", "wait 7", "wait 2"]);
    let script = vec![
        Step::Probe {
            keywords: words(&["yes"]),
            scope: Scope::RawText,
            hit: Reaction::Go { tap: None, wait_ms: 7, skip: 1 },
            miss: Reaction::Go { tap: Some((1, 2)), wait_ms: 0, skip: usize::MAX },
        },
        Step::Wait { ms: 1 },
    ];
    let (outcome, log) = drive(script, always("no".to_string()));
    assert_eq!(outcome, Outcome::Completed);
    assert_eq!(log, vec!["dump", "tap 1 2"]);
}

#[test]
fn the_output_of_a_command_can_decide_what_follows() {
    let script = || {
        vec![
            Step::Run {
                command: Command::Shell(words(&["a"])),
                accept: Accept::Output { keywords: words(&["Starting"]), or_empty: true },
                skip: 1,
                reject: None,
                required: false,
                failed_skip: 0,
            },
            Step::Run {
                command: Command::Shell(words(&["b"])),
                accept: Accept::Without { keywords: words(&["No such file"]) },
                skip: 0,
                reject: Some(Failure::VerificationInconclusive),
                required: true,
                failed_skip: 0,
            },
            Step::Run {
                command: Command::Key(KeyCode::Enter),
                accept: Accept::Always,
                skip: 0,
                reject: None,
                required: true,
                failed_skip: 0,
            },
        ]
    };
    let (outcome, log) = drive(script(), |_| Ok("Starting: Intent".to_string()));
    assert_eq!(outcome, Outcome::Completed);
    assert_eq!(log, vec!["shell a", "key KEYCODE_ENTER"]);
    let (outcome, log) = drive(script(), |_| Ok(String::new()));
    assert_eq!(outcome, Outcome::Completed);
    assert_eq!(log, vec!["shell a", "key KEYCODE_ENTER"]);
    let (outcome, log) = drive(script(), |_| Ok("Error".to_string()));
    assert_eq!(outcome, Outcome::Completed);
    assert_eq!(log, vec!["shell a", "shell b", "key KEYCODE_ENTER"]);
    let (outcome, log) = drive(script(), |c| match c {
        Command::Shell(args) if args[0] == "a" => Err("x".to_string()),
        _ => Ok("ls: No such file or directory".to_string()),
    });
    assert_eq!(outcome, Outcome::VerificationInconclusive);
    assert_eq!(log, vec!["shell a", "shell b"]);
    let (outcome, _) = drive(script(), |c| match c {
        Command::Shell(args) if args[0] == "a" => Ok("?".to_string()),
        _ => Ok("  \n".to_string()),
    });
    assert_eq!(outcome, Outcome::VerificationInconclusive);
}

#[test]
fn decisions_can_be_asked_for_directly() {
    let dump = screen(&[node("确定", "", true, "[100,200][300,400]")]);
    let parsed = client().parse_ui_xml(&dump);
    let step = Step::Click {
        keywords: words(&["保存", "确定"]),
        field: Field::TextOrDescription,
        pick: Pick::Clickable,
        drop: 30,
        settle_ms: 500,
        skip: 2,
        missing: Reaction::Fail(Failure::ElementNotFound),
    };
    assert_eq!(decide_on(&step, &dump, &parsed), Reaction::Go { tap: Some((200, 330)), wait_ms: 500, skip: 2 });
    let missing = client().parse_ui_xml(&screen(&[]));
    assert_eq!(decide_on(&step, "", &missing), Reaction::Fail(Failure::ElementNotFound));
    assert_eq!(
        decide_on(&step, "", &Err(ParseError::NoHierarchyFound)),
        Reaction::Fail(Failure::Parse(ParseError::NoHierarchyFound))
    );
    let low = Step::Click {
        keywords: words(&["确定"]),
        field: Field::TextOrDescription,
        pick: Pick::Clickable,
        drop: i32::MAX,
        settle_ms: 0,
        skip: 0,
        missing: Reaction::Fail(Failure::ElementNotFound),
    };
    assert_eq!(decide_on(&low, &dump, &parsed), Reaction::Go { tap: Some((200, i32::MAX)), wait_ms: 0, skip: 0 });
    assert_eq!(find_keyword("xx 设置 yy", &words(&["Settings", "设置", "x"])), Some(1));
    assert_eq!(find_keyword("xx", &words(&["Settings", "设置"])), None);
    assert_eq!(find_keyword("", &words(&[""])), Some(0));
}

fn contact(name: &str, phone: &str) -> Contact {
    Contact { name: name.to_string(), phone: phone.to_string(), address: None, profession: None, email: None }
}

/// Runs a batch of contacts through the flow that adds a contact, on a device
/// on which the editor cannot be opened for the names in `broken`.
fn import_all(contacts: &[Contact], broken: &[&str]) -> (Report, Vec<String>) {
    let dump = screen(&[node("保存", "", true, "[900,50][1000,150]")]);
    let mut batch = Batch::new(contacts.len(), 3000);
    let mut trail = Vec::new();
    let mut action = batch.resume();
    loop {
        match action {
            BatchAction::Process { index } => {
                let c = &contacts[index];
                let (outcome, _) = drive(add_contact_to_device_steps(c), |command| match command {
                    Command::Dump => Ok(dump.clone()),
                    Command::Shell(args) if broken.iter().any(|b| args.iter().any(|a| a.contains(&format!("name '{}'", b)))) => {
                        Err("Error: Activity not started".to_string())
                    }
                    _ => Ok(String::new()),
                });
                trail.push(format!("{} {}", c.name, outcome.is_success()));
                action = batch.record(outcome.is_success());
            }
            BatchAction::Pause { ms } => {
                trail.push(format!("pause {}", ms));
                action = batch.resume();
            }
            BatchAction::Done(report) => return (report, trail),
        }
    }
}

#[test]
fn a_batch_goes_on_after_a_contact_that_fails() {
    let contacts = [contact("one", "111"), contact("two", "222"), contact("three", "333")];
    let (report, trail) = import_all(&contacts, &["two"]);
    assert_eq!(report, Report { success: 2, failed: 1, total: 3 });
    assert_eq!(trail, vec!["one true", "pause 3000", "two false", "pause 3000", "three true"]);
}

#[test]
fn a_batch_in_which_everything_fails_still_ends() {
    let contacts = [contact("one", "111"), contact("two", "222")];
    let (report, trail) = import_all(&contacts, &["one", "two"]);
    assert_eq!(report, Report { success: 0, failed: 2, total: 2 });
    assert_eq!(trail, vec!["one false", "pause 3000", "two false"]);
    assert!(!report.any_success());
    let (report, trail) = import_all(&[], &[]);
    assert_eq!(report, Report { success: 0, failed: 0, total: 0 });
    assert!(trail.is_empty());
}

#[test]
fn adding_a_contact_opens_the_editor_and_saves() {
    let mut c = contact("Li Lei", "138 0013 8000");
    c.email = Some("li@example.com".to_string());
    let dump = screen(&[node("Save", "", true, "[900,50][1000,150]")]);
    let (outcome, log) = drive(add_contact_to_device_steps(&c), always(dump));
    assert_eq!(outcome, Outcome::Completed);
    assert_eq!(
        log,
        vec![
            "shell shell content insert --uri content://com.android.contacts/raw_contacts --bind account_type:s:null --bind account_name:s:null",
            "shell shell am start -a android.intent.action.INSERT -t vnd.android.cursor.dir/contact -e name 'Li Lei' -e phone '138 0013 8000' -e email 'li@example.com'",
            "wait 2000",
            "wait 1000",
            "dump",
            "tap 950 100",
            "wait 1000",
        ]
    );
}
