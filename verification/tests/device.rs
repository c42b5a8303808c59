use flow_farm::actions::{command_outcome, escape_input, Command, KeyCode};
use flow_farm::backend::{ApiResponse, UserRole};
use flow_farm::batch::Report;
use flow_farm::bounds::Bounds;
use flow_farm::client::AdbClient;
use flow_farm::device::{find_value, DeviceManager};
use flow_farm::error::{CommandError, ParseError};
use flow_farm::models::AppConfig;
use flow_farm::utils::{format_seconds, parse_csv_contacts, parse_txt_contacts, validate_device_id};

#[test]
fn reads_the_short_device_list() {
    let output = "List of devices attached\nemulator-5554\tdevice\n192.168.1.5:5555   device\noffline-1\toffline\nlonely\n\n  \nunauth\tunauthorized\n";
    assert_eq!(AdbClient::parse_devices(output), vec!["emulator-5554", "192.168.1.5:5555"]);
    assert!(AdbClient::parse_devices("").is_empty());
    assert!(AdbClient::parse_devices("List of devices attached\n").is_empty());
    assert!(AdbClient::parse_devices("emulator-5554\tdevice").is_empty());
    assert_eq!(AdbClient::parse_devices("x\r\na device extra\r\n"), vec!["a"]);
}

#[test]
fn reads_the_long_device_list() {
    let output = "List of devices attached\nemulator-5554 device product:sdk model:Pixel\nabc offline usb:1\n\n   \nlonely\n";
    assert_eq!(DeviceManager::reachable_devices(output), vec!["emulator-5554", "lonely"]);
    assert!(DeviceManager::reachable_devices("").is_empty());
}

#[test]
fn reads_battery_level_and_screen_size() {
    let battery = "Current Battery Service state:\n  AC powered: false\n  level: 87\n  scale: 100\n  level: 1\n";
    assert_eq!(DeviceManager::battery_level(battery), Some(87));
    assert_eq!(DeviceManager::battery_level("  level: -3 "), Some(-3));
    assert_eq!(DeviceManager::battery_level("level: high"), None);
    assert_eq!(DeviceManager::battery_level("level:"), None);
    assert_eq!(DeviceManager::battery_level("nothing here"), None);
    assert_eq!(DeviceManager::battery_level("a: b level: 3"), None);
    assert_eq!(DeviceManager::screen_resolution("Physical size: 1080x1920\nOverride size: 720x1280").as_deref(), Some("1080x1920"));
    assert_eq!(DeviceManager::screen_resolution("Override size: 720x1280"), None);
    assert_eq!(find_value("k: v : w", "k").map(|v| v.into_iter().collect::<String>()).as_deref(), Some("v"));
}

#[test]
fn the_manager_knows_where_the_bridge_tool_is() {
    let mut m = DeviceManager::new();
    assert_eq!(m.adb_path(), "adb");
    m.set_adb_path("/opt/platform-tools/adb".to_string());
    assert_eq!(m.adb_path(), "/opt/platform-tools/adb");
}

#[test]
fn checks_device_identifiers() {
    assert_eq!(validate_device_id("emulator-5554"), Ok(()));
    assert_eq!(validate_device_id("192.168.1.5:5555"), Ok(()));
    assert_eq!(validate_device_id(":0"), Ok(()));
    assert_eq!(validate_device_id("host:+80"), Ok(()));
    assert_eq!(validate_device_id("host:65535"), Ok(()));
    assert_eq!(validate_device_id(""), Err("设备ID不能为空".to_string()));
    assert_eq!(validate_device_id("a:b:c"), Err("IP:Port 格式错误".to_string()));
    assert_eq!(validate_device_id("host:"), Err("端口号格式错误".to_string()));
    assert_eq!(validate_device_id("host:65536"), Err("端口号格式错误".to_string()));
    assert_eq!(validate_device_id("host:-1"), Err("端口号格式错误".to_string()));
    assert_eq!(validate_device_id("host: 80"), Err("端口号格式错误".to_string()));
}

#[test]
fn reads_a_table_of_contacts() {
    let contacts = parse_csv_contacts("name,phone,id\n 张三 , 138 , zs \nLi,139\nbroken\n,,\n").unwrap();
    assert_eq!(contacts.len(), 3);
    assert_eq!((contacts[0].name.as_str(), contacts[0].phone.as_str()), ("张三", "138"));
    assert_eq!(contacts[0].platform_id.as_deref(), Some("zs"));
    assert_eq!(contacts[1].platform_id, None);
    assert_eq!(contacts[2].platform_id.as_deref(), Some(""));
    assert!(parse_csv_contacts("").unwrap().is_empty());
    assert!(parse_csv_contacts("a,b").unwrap().is_empty());
}

#[test]
fn reads_a_plain_list_of_contacts() {
    let contacts = parse_txt_contacts("张三,138\n\n 13900139000 \nLi , 139 , extra\n150\n").unwrap();
    assert_eq!(contacts.len(), 4);
    assert_eq!((contacts[0].name.as_str(), contacts[0].phone.as_str()), ("张三", "138"));
    assert_eq!((contacts[1].name.as_str(), contacts[1].phone.as_str()), ("联系人2", "13900139000"));
    assert_eq!((contacts[2].name.as_str(), contacts[2].phone.as_str()), ("Li", "139"));
    assert_eq!((contacts[3].name.as_str(), contacts[3].phone.as_str()), ("联系人4", "150"));
    assert!(contacts.iter().all(|c| c.platform_id.is_none()));
    assert!(parse_txt_contacts(" \n").unwrap().is_empty());
}

#[test]
fn writes_lengths_of_time() {
    assert_eq!(format_seconds(0), "0秒");
    assert_eq!(format_seconds(59), "59秒");
    assert_eq!(format_seconds(60), "1分0秒");
    assert_eq!(format_seconds(3599), "59分59秒");
    assert_eq!(format_seconds(3600), "1小时0分");
    assert_eq!(format_seconds(7325), "2小时2分");
    assert_eq!(format_seconds(-5), "-5秒");
    assert_eq!(format_seconds(i64::MIN), format!("{}秒", i64::MIN));
    assert_eq!(format_seconds(i64::MAX), format!("{}小时{}分", i64::MAX / 3600, (i64::MAX % 3600) / 60));
}

fn strs(args: &[&str]) -> Vec<String> {
    args.iter().map(|s| s.to_string()).collect()
}

#[test]
fn builds_the_arguments_of_commands() {
    let any = AdbClient::new(None);
    let one = AdbClient::new(Some("emulator-5554".to_string()));
    assert_eq!(any.device_id(), &None);
    assert_eq!(one.device_id().as_deref(), Some("emulator-5554"));
    assert!(any.device_args().is_empty());
    assert_eq!(one.device_args(), strs(&["-s", "emulator-5554"]));
    assert_eq!(any.command_args(&Command::Tap { x: 540, y: -3 }), strs(&["shell", "input", "tap", "540", "-3"]));
    assert_eq!(
        one.command_args(&Command::Tap { x: 1, y: 2 }),
        strs(&["-s", "emulator-5554", "shell", "input", "tap", "1", "2"])
    );
    assert_eq!(one.command_args(&Command::Dump), strs(&["-s", "emulator-5554", "shell", "uiautomator", "dump", "/sdcard/ui_dump.xml"]));
    assert_eq!(one.read_dump_args(), strs(&["-s", "emulator-5554", "shell", "cat", "/sdcard/ui_dump.xml"]));
    assert_eq!(any.command_args(&Command::Key(KeyCode::Back)), strs(&["shell", "input", "keyevent", "KEYCODE_BACK"]));
    assert_eq!(any.command_args(&Command::Key(KeyCode::CtrlA)), strs(&["shell", "input", "keyevent", "KEYCODE_CTRL_A"]));
    assert_eq!(any.command_args(&Command::Text("a%sb".to_string())), strs(&["shell", "input", "text", "a%sb"]));
    assert_eq!(one.command_args(&Command::Shell(strs(&["push", "a", "b"]))), strs(&["-s", "emulator-5554", "push", "a", "b"]));
    assert_eq!(any.command_args(&Command::Shell(Vec::new())), Vec::<String>::new());
    assert_eq!(KeyCode::Enter.name(), "KEYCODE_ENTER");
    assert_eq!(KeyCode::Del.name(), "KEYCODE_DEL");
}

#[test]
fn taps_are_commands() {
    let c = AdbClient::new(None);
    assert!(matches!(c.click_coordinates(3, 4), Command::Tap { x: 3, y: 4 }));
    let b = Bounds { left: 0, top: 0, right: 99, bottom: 199 };
    assert!(matches!(c.click_element_bounds(&b), Command::Tap { x: 49, y: 99 }));
    assert!(matches!(c.click_element_bounds_str("[100,200][300,400]"), Ok(Command::Tap { x: 200, y: 300 })));
    assert!(matches!(c.click_element_bounds_str("garbage"), Err(ParseError::MalformedBounds)));
}

#[test]
fn a_report_is_written_out() {
    let r = Report { success: 2, failed: 1, total: 3 };
    assert_eq!(
        r.text("2024-01-02 03:04:05"),
        "Contact Import Report\nTime: 2024-01-02 03:04:05\nSuccess: 2\nFailed: 1\nTotal: 3"
    );
    let big = Report { success: usize::MAX, failed: 0, total: usize::MAX };
    assert_eq!(
        big.text(""),
        format!("Contact Import Report\nTime: \nSuccess: {}\nFailed: 0\nTotal: {}", usize::MAX, usize::MAX)
    );
}

#[test]
fn escapes_blanks_in_typed_text() {
    assert_eq!(escape_input("Li Lei"), "Li%sLei");
    assert_eq!(escape_input(" a  b "), "%sa%s%sb%s");
    assert_eq!(escape_input("张三"), "张三");
    assert_eq!(escape_input(""), "");
    assert_eq!(escape_input("50%"), "50%");
}

#[test]
fn judges_what_a_command_reports() {
    assert_eq!(command_outcome(true, "warning"), Ok(()));
    assert_eq!(
        command_outcome(false, "error: device offline"),
        Err(CommandError::DeviceCommandFailed { message: "error: device offline".to_string() })
    );
    let e = CommandError::DeviceCommandFailed { message: "m".to_string() };
    assert_eq!(e.clone(), e);
    assert_eq!(ParseError::MalformedBounds.describe(), "malformed bounds");
    assert_eq!(ParseError::NoHierarchyFound.describe(), "no hierarchy found");
    assert_eq!(ParseError::MalformedMarkup.describe(), "malformed markup");
    assert_eq!(ParseError::MalformedContact.describe(), "malformed contact");
}

#[test]
fn answers_of_the_server() {
    let ok = ApiResponse::success(7);
    assert!(ok.success);
    assert_eq!(ok.message, "操作成功");
    assert_eq!(ok.data, Some(7));
    let bad: ApiResponse<i32> = ApiResponse::error("用户不存在".to_string());
    assert!(!bad.success);
    assert_eq!(bad.message, "用户不存在");
    assert_eq!(bad.data, None);
    assert_eq!(UserRole::SystemAdmin.to_string(), "system_admin");
    assert_eq!(UserRole::UserAdmin.as_str(), "user_admin");
    assert_eq!(UserRole::Employee.as_str(), "employee");
    let config = AppConfig::default();
    assert_eq!(config.server_url, "");
    assert!(!config.auto_connect_devices);
    assert_eq!(config.max_concurrent_tasks, 0);
}
