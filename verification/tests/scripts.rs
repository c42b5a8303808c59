use flow_farm::actions::Command;
use flow_farm::client::AdbClient;
use flow_farm::contact::Contact;
use flow_farm::import_flows::{
    check_and_handle_account_dialog_steps, click_add_contact_button_steps, entry_check_steps,
    fill_name_field_steps, fill_phone_field_steps, import_first_locally_steps,
    import_next_locally_steps, import_one_by_one_steps, import_single_contact_steps,
    navigate_back_to_contacts_steps, navigate_to_add_contact_steps, save_contact_steps,
};
use flow_farm::batch::Report;
use flow_farm::error::ImportError;
use flow_farm::flows::import_contacts_to_device_steps;
use flow_farm::import_flows::{
    import_locally_steps, import_result, import_start_steps, looks_saved, method_after, Method,
};
use flow_farm::plan::{Phase, Plan, PlanAction};
use flow_farm::script::paced;
use flow_farm::vcf_flows::{
    import_by_intent_phases, import_by_intent_script, import_contacts_from_file_phases,
    import_contacts_from_file_script, import_vcf_via_intent_steps,
    import_via_contacts_settings_steps, import_via_contacts_sidebar_menu_steps,
    transfer_vcf_steps, verify_contacts_import_steps,
};
use flow_farm::workflow::{Action, Event, Flow, Outcome, Reaction, Step};

fn client() -> AdbClient {
    AdbClient::new(None)
}

fn show(command: &Command) -> String {
    match command {
        Command::Dump => "dump".to_string(),
        Command::Tap { x, y } => format!("tap {} {}", x, y),
        Command::Key(k) => format!("key {}", k.name()),
        Command::Text(t) => format!("text {}", t),
        Command::Shell(args) => format!("shell {}", args.join(" ")),
    }
}

fn drive(script: Vec<Step>, mut device: impl FnMut(&Command) -> Result<String, String>) -> (Outcome, Vec<String>) {
    let bound = 4 * script.len() + 4;
    let mut flow = Flow::new(script);
    let mut log = Vec::new();
    let mut event = Event::Begin;
    for _ in 0..=bound {
        match flow.advance(&client(), event) {
            Action::Run(command) => {
                log.push(show(&command));
                event = match device(&command) {
                    Ok(output) => Event::Output(output),
                    Err(message) => Event::Failed(message),
                };
            }
            Action::Wait { ms } => {
                log.push(format!("wait {}", ms));
                event = Event::Waited;
            }
            Action::Finish(outcome) => return (outcome, log),
        }
    }
    panic!("the flow asked for more actions than its length allows");
}

fn always(dump: &str) -> impl FnMut(&Command) -> Result<String, String> {
    let dump = dump.to_string();
    move |command| match command {
        Command::Dump => Ok(dump.clone()),
        _ => Ok(String::new()),
    }
}

fn page(nodes: &str) -> String {
    format!("<hierarchy><node>{}</node></hierarchy>", nodes)
}

fn reach(step: &Step) -> usize {
    let of = |r: &Reaction| match r {
        Reaction::Go { skip, .. } => *skip,
        Reaction::Fail(_) => 0,
    };
    match step {
        Step::Wait { .. } => 0,
        Step::GiveUp { .. } => 0,
        Step::Run { skip, failed_skip, .. } => (*skip).max(*failed_skip),
        Step::Probe { hit, miss, .. } => of(hit).max(of(miss)),
        Step::Recognise { hit, miss, .. } => of(hit).max(of(miss)),
        Step::Click { skip, missing, .. } => (*skip).max(of(missing)),
    }
}

fn contact() -> Contact {
    Contact { name: "Li Lei".to_string(), phone: "138 0013".to_string(), address: None, profession: None, email: None }
}

#[test]
fn no_script_jumps_past_its_end() {
    let c = contact();
    let scripts: Vec<(&str, Vec<Step>)> = vec![
        ("add button", click_add_contact_button_steps()),
        ("account dialog", check_and_handle_account_dialog_steps()),
        ("back", navigate_back_to_contacts_steps(true)),
        ("back, lenient", navigate_back_to_contacts_steps(false)),
        ("to add", navigate_to_add_contact_steps()),
        ("name", fill_name_field_steps("n")),
        ("phone", fill_phone_field_steps("p")),
        ("save", save_contact_steps()),
        ("single", import_single_contact_steps(&c)),
        ("one by one", import_one_by_one_steps(&c)),
        ("first", import_first_locally_steps(&c)),
        ("next", import_next_locally_steps(&c)),
        ("entry", entry_check_steps()),
        ("sidebar", import_via_contacts_sidebar_menu_steps()),
        ("settings", import_via_contacts_settings_steps()),
        ("intent", import_vcf_via_intent_steps("/sdcard/a.vcf")),
        ("transfer", transfer_vcf_steps("a.vcf", "/sdcard/a.vcf")),
        ("verify", verify_contacts_import_steps()),
        ("way", flow_farm::flows::execute_contact_flow_steps()),
        ("save now", flow_farm::flows::try_save_contact_steps()),
        ("open", flow_farm::flows::open_contacts_app_steps()),
        ("add", flow_farm::flows::add_contact_to_device_steps(&c)),
    ];
    for (name, script) in &scripts {
        for (i, step) in script.iter().enumerate() {
            assert!(i + 1 + reach(step) <= script.len(), "{} step {}", name, i);
        }
    }
    let lengths: Vec<usize> = scripts.iter().map(|(_, s)| s.len()).collect();
    assert_eq!(lengths, vec![13, 7, 10, 9, 14, 7, 7, 8, 23, 65, 24, 38, 1, 10, 8, 2, 2, 4, 14, 2, 3, 5]);
}

#[test]
fn the_add_button_is_tried_at_each_point_in_turn() {
    let (outcome, log) = drive(click_add_contact_button_steps(), always("<a text='添加联系人'/>"));
    assert_eq!(outcome, Outcome::Completed);
    assert_eq!(log, vec!["tap 194 249", "wait 2000", "dump"]);

    let mut dumps = 0;
    let (outcome, log) = drive(click_add_contact_button_steps(), |c| match c {
        Command::Dump => {
            dumps += 1;
            Ok(if dumps == 3 { "姓名".to_string() } else { "nothing".to_string() })
        }
        _ => Ok(String::new()),
    });
    assert_eq!(outcome, Outcome::Completed);
    assert_eq!(
        log,
        vec!["tap 194 249", "wait 2000", "dump", "tap 360 249", "wait 2000", "dump", "tap 180 260", "wait 2000", "dump"]
    );

    let last = page("<node text='点此添加' bounds='[0,0][20,40]'/>").replace("添加", "添 加");
    let (outcome, log) = drive(click_add_contact_button_steps(), always(&last));
    assert_eq!(outcome, Outcome::ElementNotFound);
    assert_eq!(log.len(), 13);
    assert_eq!(log[9], "tap 200 240");
    assert_eq!(log[12], "dump");
}

#[test]
fn the_add_button_is_looked_for_by_its_text_at_last() {
    let shown = page("<node content-desc='添加' bounds='[0,0][20,40]'/>");
    let mut dumps = 0;
    let (outcome, log) = drive(click_add_contact_button_steps(), |c| match c {
        Command::Dump => {
            dumps += 1;
            Ok(if dumps <= 4 { "nothing".to_string() } else { shown.clone() })
        }
        _ => Ok(String::new()),
    });
    assert_eq!(outcome, Outcome::Completed);
    assert_eq!(&log[12..], &["dump", "tap 10 20", "wait 2000"]);
}

#[test]
fn an_account_dialog_is_declined_or_closed() {
    let (outcome, log) = drive(check_and_handle_account_dialog_steps(), always(&page("<node text='通讯录'/>")));
    assert_eq!(outcome, Outcome::Completed);
    assert_eq!(log, vec!["wait 500", "dump"]);

    let dialog = page("<node text='选择账户'/><node text='Cancel' bounds='[0,0][10,10]'/><node text='跳过' bounds='[100,100][200,300]'/>");
    let (outcome, log) = drive(check_and_handle_account_dialog_steps(), always(&dialog));
    assert_eq!(outcome, Outcome::Completed);
    assert_eq!(log, vec!["wait 500", "dump", "dump", "tap 150 200", "wait 1000"]);

    let stuck = page("<node text='Google 登录'/>");
    let (outcome, log) = drive(check_and_handle_account_dialog_steps(), always(&stuck));
    assert_eq!(outcome, Outcome::Completed);
    assert_eq!(log, vec!["wait 500", "dump", "dump", "tap 50 50", "wait 500", "key KEYCODE_BACK", "wait 500"]);
}

/// A device on which every command succeeds and whose dumps show the
/// contacts page from the dump numbered `from` on, counted from one.
fn page_from(from: usize) -> impl FnMut(&Command) -> Result<String, String> {
    let mut dumps = 0;
    move |c| match c {
        Command::Dump => {
            dumps += 1;
            Ok(if dumps >= from { "通讯录".to_string() } else { "elsewhere".to_string() })
        }
        _ => Ok(String::new()),
    }
}

#[test]
fn the_way_back_presses_the_back_key_up_to_three_times() {
    let round = ["dump", "key KEYCODE_BACK", "wait 800"];
    for required in [true, false] {
        for found_at in 1..=3usize {
            let (outcome, log) = drive(navigate_back_to_contacts_steps(required), page_from(found_at));
            assert_eq!(outcome, Outcome::Completed);
            let mut expected: Vec<&str> = Vec::new();
            for _ in 1..found_at {
                expected.extend(round);
            }
            expected.push("dump");
            assert_eq!(log, expected, "found at dump {}", found_at);
        }
    }
}

#[test]
fn the_way_back_does_not_look_after_the_third_press() {
    let nine = vec![
        "dump", "key KEYCODE_BACK", "wait 800", "dump", "key KEYCODE_BACK", "wait 800", "dump",
        "key KEYCODE_BACK", "wait 800",
    ];
    let (outcome, log) = drive(navigate_back_to_contacts_steps(true), page_from(4));
    assert_eq!(outcome, Outcome::VerificationInconclusive);
    assert_eq!(log, nine);
    let (outcome, log) = drive(navigate_back_to_contacts_steps(false), page_from(4));
    assert_eq!(outcome, Outcome::Completed);
    assert_eq!(log, nine);
    let (outcome, log) = drive(navigate_back_to_contacts_steps(true), always("elsewhere"));
    assert_eq!(outcome, Outcome::VerificationInconclusive);
    assert_eq!(log, nine);
}

#[test]
fn entering_a_contact_looks_twice_at_the_first_screen_before_it_walks_back() {
    let (outcome, log) = drive(import_one_by_one_steps(&contact()), always("somewhere else"));
    assert_eq!(outcome, Outcome::VerificationInconclusive);
    assert_eq!(
        log,
        vec![
            "dump", "dump", "key KEYCODE_BACK", "wait 800", "dump", "key KEYCODE_BACK", "wait 800",
            "dump", "key KEYCODE_BACK", "wait 800",
        ]
    );
    let mut dumps = 0;
    let (_, log) = drive(import_one_by_one_steps(&contact()), |c| match c {
        Command::Dump => {
            dumps += 1;
            Ok(if dumps == 3 { "通讯录".to_string() } else { String::new() })
        }
        _ => Ok(String::new()),
    });
    assert_eq!(&log[..6], &["dump", "dump", "key KEYCODE_BACK", "wait 800", "dump", "tap 194 249"]);
}

#[test]
fn a_field_is_tapped_below_its_label_and_filled() {
    let form = page("<node text='电话' bounds='[0,300][100,340]'/><node text='名字' bounds='[0,100][100,140]'/>");
    let (outcome, log) = drive(fill_name_field_steps("Li Lei"), always(&form));
    assert_eq!(outcome, Outcome::Completed);
    assert_eq!(
        log,
        vec!["dump", "tap 50 150", "wait 500", "key KEYCODE_CTRL_A", "wait 200", "key KEYCODE_DEL", "wait 200", "text Li%sLei", "wait 300"]
    );
    let (outcome, log) = drive(fill_phone_field_steps("138 0013"), always(&form));
    assert_eq!(outcome, Outcome::Completed);
    assert_eq!(log[1], "tap 50 350");
    assert_eq!(log[7], "text 138%s0013");
    let (outcome, log) = drive(fill_name_field_steps("x"), always(&page("<node text='other'/>")));
    assert_eq!(outcome, Outcome::Completed);
    assert_eq!(log, vec!["dump"]);
    let (outcome, log) = drive(fill_name_field_steps("x"), |c| match c {
        Command::Dump => Ok(form.clone()),
        Command::Text(_) => Err("cannot type".to_string()),
        _ => Ok(String::new()),
    });
    assert_eq!(outcome, Outcome::Completed);
    assert_eq!(
        log,
        vec!["dump", "tap 50 150", "wait 500", "key KEYCODE_CTRL_A", "wait 200", "key KEYCODE_DEL", "wait 200", "text x"]
    );
    let (outcome, _) = drive(fill_name_field_steps("x"), |c| match c {
        Command::Dump => Ok(form.clone()),
        Command::Key(_) => Err("no keys".to_string()),
        _ => Ok(String::new()),
    });
    assert_eq!(outcome, Outcome::DeviceFailed("no keys".to_string()));
}

#[test]
fn saving_taps_the_button_or_presses_enter() {
    let form = page("<node text='完成' bounds='[0,0][100,100]'/><node text='保存' clickable='false' bounds='[200,0][300,100]'/>");
    let (outcome, log) = drive(save_contact_steps(), always(&form));
    assert_eq!(outcome, Outcome::Completed);
    assert_eq!(log, vec!["dump", "tap 250 50", "wait 2000", "wait 500", "dump", "dump", "dump", "dump"]);
    let (outcome, log) = drive(save_contact_steps(), always(&page("")));
    assert_eq!(outcome, Outcome::Completed);
    assert_eq!(log, vec!["dump", "key KEYCODE_ENTER", "wait 1000"]);
}

#[test]
fn after_saving_the_screen_is_read_until_it_tells_what_became_of_the_page() {
    let form = page("<node text='OK' bounds='[0,0][100,100]'/>");
    let after = |shown: &'static [&'static str]| {
        let form = form.clone();
        let mut dumps = 0;
        move |c: &Command| -> Result<String, String> {
            match c {
                Command::Dump => {
                    dumps += 1;
                    Ok(if dumps == 1 { form.clone() } else { shown.get(dumps - 2).copied().unwrap_or("nothing").to_string() })
                }
                _ => Ok(String::new()),
            }
        }
    };
    let head = ["dump", "tap 50 50", "wait 2000", "wait 500"];
    for (shown, looks) in [
        (&["通讯录"][..], 1),
        (&["联系人"][..], 4),
        (&["联系人", "联系人"][..], 2),
        (&["elsewhere", "联系人"][..], 2),
        (&["添加", "添加", "添加"][..], 3),
        (&["新建", "新建", "新建", "新建"][..], 4),
        (&["新建", "新建", "通讯录", "通讯录"][..], 4),
        (&[][..], 4),
    ] {
        let shown: &'static [&'static str] = shown;
        let (outcome, log) = drive(save_contact_steps(), after(shown));
        assert_eq!(outcome, Outcome::Completed);
        assert_eq!(&log[..4], &head);
        assert_eq!(log.len(), 4 + looks, "{:?}", shown);
        assert!(log[4..].iter().all(|l| l == "dump"));
    }
}

#[test]
fn one_contact_is_entered_from_the_contacts_page_and_back() {
    let contacts_page = page("<node text='通讯录'/>");
    let add_page = page("<node text='姓名' bounds='[0,100][100,140]'/><node text='电话' bounds='[0,300][100,340]'/><node text='保存' bounds='[900,0][1000,100]'/>");
    let mut on_add_page = false;
    let (outcome, log) = drive(import_one_by_one_steps(&contact()), |c| match c {
        Command::Dump => Ok(if on_add_page { add_page.clone() } else { contacts_page.clone() }),
        Command::Tap { x: 194, y: 249 } => {
            on_add_page = true;
            Ok(String::new())
        }
        Command::Tap { x: 950, y: 50 } => {
            on_add_page = false;
            Ok(String::new())
        }
        _ => Ok(String::new()),
    });
    assert_eq!(outcome, Outcome::Completed);
    assert_eq!(
        log,
        vec![
            "dump",
            "tap 194 249", "wait 2000", "dump",
            "wait 1000",
            "wait 500", "dump",
            "wait 1000",
            "dump", "tap 50 150", "wait 500", "key KEYCODE_CTRL_A", "wait 200", "key KEYCODE_DEL", "wait 200", "text Li%sLei", "wait 300",
            "dump", "tap 50 350", "wait 500", "key KEYCODE_CTRL_A", "wait 200", "key KEYCODE_DEL", "wait 200", "text 138%s0013", "wait 300",
            "dump", "tap 950 50", "wait 2000",
            "wait 500", "dump",
            "dump",
            "wait 500",
        ]
    );
}

#[test]
fn a_contact_fails_where_the_contacts_page_cannot_be_reached() {
    let (outcome, log) = drive(import_one_by_one_steps(&contact()), always("somewhere else"));
    assert_eq!(outcome, Outcome::VerificationInconclusive);
    assert_eq!(log.len(), 10);
    let (outcome, _) = drive(entry_check_steps(), always("somewhere else"));
    assert_eq!(outcome, Outcome::VerificationInconclusive);
    let (outcome, log) = drive(entry_check_steps(), always("<node text='通讯录'/>"));
    assert_eq!(outcome, Outcome::Completed);
    assert_eq!(log, vec!["dump"]);
}

#[test]
fn the_add_page_is_recognised_by_its_title_or_by_both_fields() {
    let (outcome, log) = drive(navigate_to_add_contact_steps(), always("新建联系人"));
    assert_eq!(outcome, Outcome::Completed);
    assert_eq!(log, vec!["dump"]);
    let (outcome, log) = drive(navigate_to_add_contact_steps(), always("添加联系人"));
    assert_eq!(outcome, Outcome::Completed);
    assert_eq!(log, vec!["dump"]);
    let (outcome, log) = drive(navigate_to_add_contact_steps(), always("电话 and 姓名"));
    assert_eq!(outcome, Outcome::Completed);
    assert_eq!(log, vec!["dump"]);
    let mut dumps = 0;
    let (_, log) = drive(navigate_to_add_contact_steps(), |c| match c {
        Command::Dump => {
            dumps += 1;
            Ok(if dumps == 1 { "姓名 only".to_string() } else { "添加".to_string() })
        }
        _ => Ok(String::new()),
    });
    assert_eq!(log, vec!["dump", "tap 194 249", "wait 2000", "dump"]);
    let mut dumps = 0;
    let (_, log) = drive(navigate_to_add_contact_steps(), |c| match c {
        Command::Dump => {
            dumps += 1;
            Ok(if dumps == 1 { "电话 only".to_string() } else { "添加".to_string() })
        }
        _ => Ok(String::new()),
    });
    assert_eq!(log, vec!["dump", "tap 194 249", "wait 2000", "dump"]);
}

#[test]
fn the_two_fields_of_the_add_page_must_show_on_one_screen() {
    let mut dumps = 0;
    let (outcome, log) = drive(navigate_to_add_contact_steps(), |c| match c {
        Command::Dump => {
            dumps += 1;
            Ok(match dumps {
                1 => "姓名",
                2 => "电话",
                _ => "elsewhere",
            }
            .to_string())
        }
        _ => Ok(String::new()),
    });
    assert_eq!(outcome, Outcome::Completed);
    assert_eq!(log, vec!["dump", "tap 194 249", "wait 2000", "dump"]);
}

#[test]
fn a_tap_that_fails_leads_straight_to_the_next_point() {
    let (outcome, log) = drive(click_add_contact_button_steps(), |c| match c {
        Command::Tap { x: 194, .. } | Command::Tap { x: 180, .. } => Err("no device".to_string()),
        Command::Dump => Ok(page("<node text='elsewhere'/>")),
        _ => Ok(String::new()),
    });
    assert_eq!(outcome, Outcome::ElementNotFound);
    assert_eq!(
        log,
        vec!["tap 194 249", "tap 360 249", "wait 2000", "dump", "tap 180 260", "tap 200 240", "wait 2000", "dump", "dump"]
    );
    let (outcome, log) = drive(click_add_contact_button_steps(), |c| match c {
        Command::Tap { .. } => Err("no device".to_string()),
        _ => Ok(page("<node text='添加' bounds='[0,0][20,40]'/>")),
    });
    assert_eq!(outcome, Outcome::DeviceFailed("no device".to_string()));
    assert_eq!(log, vec!["tap 194 249", "tap 360 249", "tap 180 260", "tap 200 240", "dump", "tap 10 20"]);
}

#[test]
fn a_row_of_contacts_starts_by_opening_the_page() {
    assert_eq!(import_start_steps().len(), 20);
    let (outcome, log) = drive(import_start_steps(), always("添加联系人"));
    assert_eq!(outcome, Outcome::Completed);
    assert_eq!(log, vec!["tap 194 249", "wait 2000", "dump", "wait 500", "dump"]);
    assert_eq!(method_after(&outcome), Method::InARow);
    let (outcome, log) = drive(import_start_steps(), always(&page("<node text='elsewhere'/>")));
    assert_eq!(outcome, Outcome::ElementNotFound);
    assert_eq!(log.len(), 13);
    assert_eq!(method_after(&outcome), Method::OneByOne);

    let c = contact();
    assert_eq!(import_locally_steps(&c, 0).len(), import_first_locally_steps(&c).len());
    assert_eq!(import_locally_steps(&c, 0).len(), 24);
    assert_eq!(import_locally_steps(&c, 1).len(), import_next_locally_steps(&c).len());
    assert_eq!(import_locally_steps(&c, 1).len(), 38);
    assert_eq!(import_locally_steps(&c, usize::MAX).len(), 38);
}

#[test]
fn a_first_contact_that_fails_does_not_change_the_method() {
    let form = page("<node text='姓名' bounds='[0,100][100,140]'/>");
    let (outcome, log) = drive(import_locally_steps(&contact(), 0), |c| match c {
        Command::Dump => Ok(form.clone()),
        Command::Key(_) => Err("no keys".to_string()),
        _ => Ok(String::new()),
    });
    assert_eq!(outcome, Outcome::DeviceFailed("no keys".to_string()));
    assert_eq!(log, vec!["wait 1000", "dump", "tap 50 150", "wait 500", "key KEYCODE_CTRL_A"]);
    let titled = page("<node text='添加联系人'/><node text='OK' bounds='[0,0][10,10]'/>");
    let (outcome, log) = drive(import_locally_steps(&contact(), 1), always(&titled));
    assert_eq!(outcome, Outcome::Completed);
    assert_eq!(&log[..2], &["dump", "wait 1000"]);
    assert_eq!(log.last().map(|s| s.as_str()), Some("wait 800"));
}

#[test]
fn an_import_fails_only_where_nothing_could_be_entered_one_by_one() {
    let nothing = Report { success: 0, failed: 2, total: 2 };
    let some = Report { success: 1, failed: 1, total: 2 };
    let empty = Report { success: 0, failed: 0, total: 0 };
    assert_eq!(import_result(&Outcome::Completed, nothing), Ok(nothing));
    assert_eq!(import_result(&Outcome::Completed, empty), Ok(empty));
    assert_eq!(import_result(&Outcome::ElementNotFound, some), Ok(some));
    assert_eq!(import_result(&Outcome::ElementNotFound, nothing), Err(ImportError::NothingEntered));
    assert_eq!(import_result(&Outcome::DeviceFailed("x".to_string()), empty), Err(ImportError::NothingEntered));
    assert_eq!(import_result(&Outcome::Stopped, nothing), Err(ImportError::NothingEntered));
    assert_eq!(ImportError::NothingEntered.describe(), "no contact could be entered");
}

#[test]
fn the_contacts_application_is_opened_only_for_contacts() {
    let none: Vec<Contact> = Vec::new();
    assert!(import_contacts_to_device_steps(&none).is_none());
    let some = vec![contact()];
    assert_eq!(import_contacts_to_device_steps(&some).map(|s| s.len()), Some(3));
}

#[test]
fn contacts_are_entered_in_a_row() {
    let add_page = page("<node text='Name' bounds='[0,100][100,140]'/><node text='OK' bounds='[0,0][10,10]'/>");
    let (outcome, log) = drive(import_start_steps(), always(&add_page));
    assert_eq!(outcome, Outcome::ElementNotFound);
    assert_eq!(log.len(), 13);
    let titled = page("<node text='添加联系人'/><node text='Name' bounds='[0,100][100,140]'/><node text='OK' bounds='[0,0][10,10]'/>");
    let (outcome, log) = drive(import_first_locally_steps(&contact()), always(&titled));
    assert_eq!(outcome, Outcome::Completed);
    assert_eq!(log.first().map(|s| s.as_str()), Some("wait 1000"));
    assert_eq!(log.last().map(|s| s.as_str()), Some("wait 800"));
    assert!(log.contains(&"text Li%sLei".to_string()));
    assert!(!log.contains(&"text 138%s0013".to_string()));
    assert!(log.contains(&"tap 5 5".to_string()));
    let (outcome, log) = drive(import_next_locally_steps(&contact()), always(&titled));
    assert_eq!(outcome, Outcome::Completed);
    assert_eq!(&log[..2], &["dump", "wait 1000"]);
    assert_eq!(log.iter().filter(|l| l.starts_with("tap 194")).count(), 0);
    let (outcome, log) = drive(import_single_contact_steps(&contact()), always(&page("")));
    assert_eq!(outcome, Outcome::Completed);
    assert_eq!(log, vec!["wait 1000", "dump", "dump", "dump", "key KEYCODE_ENTER", "wait 1000"]);
}

#[test]
fn the_side_bar_leads_to_the_import() {
    let launch = "shell shell am start -n com.android.contacts/.activities.PeopleActivity";
    let (outcome, log) = drive(import_via_contacts_sidebar_menu_steps(), always("Open drawer 设置 Import contacts 从存储"));
    assert_eq!(outcome, Outcome::Completed);
    assert_eq!(
        log,
        vec![
            launch, "wait 3000", "dump", "tap 75 150", "wait 2000", "dump", "tap 200 400", "wait 3000",
            "dump", "tap 400 300", "wait 3000", "dump", "tap 400 350", "wait 3000",
        ]
    );
    let (outcome, log) = drive(import_via_contacts_sidebar_menu_steps(), always("nothing known"));
    assert_eq!(outcome, Outcome::Completed);
    assert_eq!(
        log,
        vec![
            launch, "wait 3000", "dump", "tap 50 120", "wait 2000", "dump", "wait 10000", "wait 3000",
            "dump", "wait 10000", "wait 3000", "dump", "wait 3000",
        ]
    );
    let (outcome, log) = drive(import_via_contacts_sidebar_menu_steps(), |_| Err("no device".to_string()));
    assert_eq!(outcome, Outcome::DeviceFailed("no device".to_string()));
    assert_eq!(log, vec![launch]);
}

#[test]
fn the_settings_lead_to_the_import() {
    let (outcome, log) = drive(import_via_contacts_settings_steps(), always("配置 匯入"));
    assert_eq!(outcome, Outcome::Completed);
    assert_eq!(
        &log[2..],
        &["tap 50 100", "wait 2000", "dump", "tap 200 300", "wait 3000", "dump", "tap 400 500", "wait 2000", "wait 60000"]
    );
    let (outcome, log) = drive(import_via_contacts_settings_steps(), always(""));
    assert_eq!(outcome, Outcome::Completed);
    assert_eq!(
        &log[2..],
        &["tap 50 100", "wait 2000", "dump", "tap 200 400", "wait 3000", "dump", "wait 10000", "wait 60000"]
    );
}

#[test]
fn a_file_is_opened_as_a_card_in_one_of_two_ways() {
    let first = "shell shell am start -a android.intent.action.VIEW -d file:///sdcard/Download/c.vcf -t text/vcard";
    let second = "shell shell am start -a android.intent.action.VIEW -d file:///sdcard/Download/c.vcf -t text/x-vcard";
    let (outcome, log) = drive(import_vcf_via_intent_steps("/sdcard/Download/c.vcf"), |_| Ok("Starting: Intent { }".to_string()));
    assert_eq!(outcome, Outcome::Completed);
    assert_eq!(log, vec![first]);
    let (_, log) = drive(import_vcf_via_intent_steps("/sdcard/Download/c.vcf"), |_| Ok(String::new()));
    assert_eq!(log, vec![first]);
    let (outcome, log) = drive(import_vcf_via_intent_steps("/sdcard/Download/c.vcf"), |_| Ok("Error: no handler".to_string()));
    assert_eq!(outcome, Outcome::Completed);
    assert_eq!(log, vec![first, second]);
    let (outcome, log) = drive(import_vcf_via_intent_steps("/sdcard/Download/c.vcf"), |_| Err("failed".to_string()));
    assert_eq!(outcome, Outcome::Completed);
    assert_eq!(log, vec![first, second]);
}

#[test]
fn a_file_is_brought_to_the_device_and_checked() {
    let (outcome, log) = drive(transfer_vcf_steps("c.vcf", "/sdcard/Download/c.vcf"), |_| Ok("-rw-rw---- 1 root 512 c.vcf\n".to_string()));
    assert_eq!(outcome, Outcome::Completed);
    assert_eq!(log, vec!["shell push c.vcf /sdcard/Download/c.vcf", "shell shell ls -l /sdcard/Download/c.vcf"]);
    let (outcome, _) = drive(transfer_vcf_steps("c.vcf", "/x"), |c| match c {
        Command::Shell(args) if args[0] == "push" => Ok("1 file pushed".to_string()),
        _ => Ok("ls: /x: No such file or directory".to_string()),
    });
    assert_eq!(outcome, Outcome::VerificationInconclusive);
    let (outcome, _) = drive(transfer_vcf_steps("c.vcf", "/x"), |_| Ok(" \n".to_string()));
    assert_eq!(outcome, Outcome::VerificationInconclusive);
    let (outcome, log) = drive(transfer_vcf_steps("c.vcf", "/x"), |_| Err("adb: error".to_string()));
    assert_eq!(outcome, Outcome::DeviceFailed("adb: error".to_string()));
    assert_eq!(log.len(), 1);
}

#[test]
fn the_screen_for_verification_is_fetched_last() {
    let (outcome, log) = drive(verify_contacts_import_steps(), always("the dump"));
    assert_eq!(outcome, Outcome::Completed);
    assert_eq!(
        log,
        vec!["wait 3000", "shell shell am start -n com.android.contacts/.activities.PeopleActivity", "wait 2000", "dump"]
    );
}

/// Runs a plan on a device that answers each command with `device`.
fn run_plan(
    phases: Vec<Phase>,
    script_of: impl Fn(usize) -> Vec<Step>,
    mut device: impl FnMut(&Command) -> Result<String, String>,
) -> (PlanAction, Vec<String>) {
    let mut plan = Plan::new(phases);
    let mut trail = Vec::new();
    let mut action = plan.resume();
    for _ in 0..100 {
        match action {
            PlanAction::Run { phase } => {
                let (outcome, _) = drive(script_of(phase), &mut device);
                trail.push(format!("phase {} {}", phase, outcome.is_success()));
                action = plan.record(outcome);
            }
            PlanAction::Wait { ms } => {
                trail.push(format!("wait {}", ms));
                action = plan.resume();
            }
            end => {
                assert!(plan.is_over());
                return (end, trail);
            }
        }
    }
    panic!("the plan did not end");
}

#[test]
fn an_import_goes_on_after_a_lead_that_fails() {
    let script = |phase| import_contacts_from_file_script(phase, "c.vcf", "/sdcard/Download/c.vcf");
    let (end, trail) = run_plan(import_contacts_from_file_phases(), script, |_| Ok("-rw- c.vcf".to_string()));
    assert_eq!(end, PlanAction::Completed);
    assert_eq!(trail, vec!["phase 0 true", "phase 1 true", "wait 30000", "phase 2 true"]);

    let (end, trail) = run_plan(import_contacts_from_file_phases(), script, |c| match c {
        Command::Shell(args) if args.contains(&"am".to_string()) => Err("no activity".to_string()),
        _ => Ok("-rw- c.vcf".to_string()),
    });
    assert_eq!(end, PlanAction::Completed);
    assert_eq!(trail, vec!["phase 0 true", "phase 1 false", "wait 20000", "phase 2 false"]);

    let (end, trail) = run_plan(import_contacts_from_file_phases(), script, |_| Err("offline".to_string()));
    assert_eq!(end, PlanAction::Failed { phase: 0, outcome: Outcome::DeviceFailed("offline".to_string()) });
    assert_eq!(trail, vec!["phase 0 false"]);

    let (end, _) = run_plan(import_contacts_from_file_phases(), script, |_| Ok("No such file".to_string()));
    assert_eq!(end, PlanAction::Failed { phase: 0, outcome: Outcome::VerificationInconclusive });
}

#[test]
fn an_import_by_intent_waits_ten_seconds() {
    let script = |phase| import_by_intent_script(phase, "c.vcf", "/sdcard/Download/c.vcf");
    let (end, trail) = run_plan(import_by_intent_phases(), script, |_| Ok("Starting".to_string()));
    assert_eq!(end, PlanAction::Completed);
    assert_eq!(trail, vec!["phase 0 true", "phase 1 true", "wait 10000", "phase 2 true"]);
    assert!(import_by_intent_script(3, "a", "b").is_empty());
    assert!(import_contacts_from_file_script(7, "a", "b").is_empty());
    assert_eq!(import_by_intent_script(1, "a", "b").len(), 2);
    assert_eq!(import_contacts_from_file_script(1, "a", "b").len(), 10);
}

#[test]
fn a_plan_without_phases_is_completed_at_once() {
    let mut plan = Plan::new(Vec::new());
    assert!(!plan.is_over());
    assert_eq!(plan.resume(), PlanAction::Completed);
    assert!(plan.is_over());
    assert_eq!(plan.record(Outcome::Stopped), PlanAction::Completed);
    let strict = Phase { required: true, wait_after_success_ms: 5, wait_after_failure_ms: 9 };
    let mut plan = Plan::new(vec![strict, strict]);
    assert_eq!(plan.resume(), PlanAction::Run { phase: 0 });
    assert_eq!(plan.record(Outcome::Completed), PlanAction::Wait { ms: 5 });
    assert_eq!(plan.resume(), PlanAction::Run { phase: 1 });
    assert_eq!(plan.record(Outcome::Stopped), PlanAction::Failed { phase: 1, outcome: Outcome::Stopped });
    assert_eq!(plan.record(Outcome::Completed), PlanAction::Completed);
}

#[test]
fn the_method_follows_the_first_contact() {
    assert_eq!(method_after(&Outcome::Completed), Method::InARow);
    assert_eq!(method_after(&Outcome::ElementNotFound), Method::OneByOne);
    assert_eq!(method_after(&Outcome::DeviceFailed("x".to_string())), Method::OneByOne);
}

#[test]
fn a_page_looks_saved_unless_it_still_shows_the_editor() {
    assert!(looks_saved("通讯录"));
    assert!(looks_saved("联系人 添加"));
    assert!(!looks_saved("添加联系人".replace("联系人", "").as_str()));
    assert!(!looks_saved("新建"));
    assert!(looks_saved("something else"));
    assert!(looks_saved(""));
}

#[test]
fn waits_can_be_scaled() {
    let slow = paced(flow_farm::flows::try_save_contact_steps(), 250);
    let (outcome, log) = drive(slow, always(&page("<node text='OK' clickable='true' bounds='[0,0][2,2]'/>")));
    assert_eq!(outcome, Outcome::Completed);
    assert_eq!(log, vec!["wait 2500", "dump", "tap 1 1", "wait 2500"]);
    let none = paced(import_via_contacts_settings_steps(), 0);
    let (outcome, log) = drive(none, always(""));
    assert_eq!(outcome, Outcome::Completed);
    assert!(log.iter().all(|l| !l.starts_with("wait") || l == "wait 0"));
    assert_eq!(log.iter().filter(|l| l.as_str() == "dump").count(), 2);
    let same = paced(save_contact_steps(), 100);
    let (_, log) = drive(same, always(&page("")));
    assert_eq!(log, vec!["dump", "key KEYCODE_ENTER", "wait 1000"]);
    let huge = paced(vec![Step::Wait { ms: u64::MAX }, Step::Wait { ms: 7 }], u32::MAX);
    let (_, log) = drive(huge, always(""));
    assert_eq!(log, vec![format!("wait {}", u64::MAX), format!("wait {}", 7u64 * (u32::MAX as u64) / 100)]);
}
