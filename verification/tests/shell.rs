use monotools::error::AppError;
use monotools::platform::registry::try_unused;
use monotools::platform::shell::{command_exe_candidate, launch_lnk, launch_str, show_file_properties, LaunchPlan};
use monotools::platform::startup_folder::{disable_item, enable_item};
use monotools::search_engine::models::SearchAction;

#[test]
fn launch_plan_per_action() {
    match launch_str(&SearchAction::Launch("C:\\x\\App.LNK".into())) {
        LaunchPlan::OpenShortcut(p) => assert_eq!(p, "C:\\x\\App.LNK"),
        other => panic!("unexpected {:?}", other),
    }
    match launch_str(&SearchAction::Launch("C:\\x\\app.exe".into())) {
        LaunchPlan::Run { program, args } => {
            assert_eq!(program, "C:\\x\\app.exe");
            assert!(args.is_empty());
        }
        other => panic!("unexpected {:?}", other),
    }
    match launch_str(&SearchAction::Run { command: "cmd".into(), args: vec!["/c".into(), "dir".into()] }) {
        LaunchPlan::Run { program, args } => {
            assert_eq!(program, "cmd");
            assert_eq!(args, vec!["/c", "dir"]);
        }
        other => panic!("unexpected {:?}", other),
    }
    match launch_str(&SearchAction::Navigate("D:\\".into())) {
        LaunchPlan::OpenPath(p) => assert_eq!(p, "D:\\"),
        other => panic!("unexpected {:?}", other),
    }
    match launch_str(&SearchAction::Open("D:\\a.txt".into())) {
        LaunchPlan::OpenPath(p) => assert_eq!(p, "D:\\a.txt"),
        other => panic!("unexpected {:?}", other),
    }
}

#[test]
fn command_exe_candidates() {
    assert_eq!(
        command_exe_candidate("\"C:\\Program Files\\Chrome\\chrome.exe\" --%1").as_deref(),
        Some("C:\\Program Files\\Chrome\\chrome.exe")
    );
    assert_eq!(command_exe_candidate("  C:\\Windows\\notepad.exe %1").as_deref(), Some("C:\\Windows\\notepad.exe"));
    assert_eq!(command_exe_candidate("\"C:\\Apps\\My App\\app.exe\"").as_deref(), Some("C:\\Apps\\My App\\app.exe"));
    assert_eq!(command_exe_candidate("\"unterminated"), None);
    assert_eq!(command_exe_candidate("   "), None);
    assert_eq!(command_exe_candidate("\"\" x").as_deref(), Some(""));
}

#[test]
fn platform_stubs() {
    assert_eq!(launch_lnk("a.lnk"), Err(AppError::Other("非 Windows 平台不支持 .lnk 快捷方式".to_string())));
    assert!(show_file_properties("a.txt").is_ok());
    assert_eq!(disable_item("x.lnk"), Err(AppError::Other("需要将快捷方式重命名为 .disabled".to_string())));
    assert_eq!(enable_item("x.disabled"), Err(AppError::Other("需要将 .disabled 重命名回 .lnk".to_string())));
    try_unused(&"x".to_string());
}
