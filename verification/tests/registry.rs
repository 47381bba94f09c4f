use monotools::platform::registry::{parse_run_key_output, try_unused, RunValue};

#[test]
fn run_key_listing_parsed() {
    let text = "\r\nHKEY_CURRENT_USER\\Software\\Microsoft\\Windows\\CurrentVersion\\Run\r\n    OneDrive    REG_SZ    \"C:\\Users\\x\\OneDrive.exe\" /background\r\n    (Default)    REG_SZ    x\r\n    .Disabled    REG_SZ    \"C:\\a b.exe\"\r\n    Empty    REG_SZ    \"\"\r\n\r\n";
    let values = parse_run_key_output(text);
    assert_eq!(
        values,
        vec![
            RunValue {
                name: "OneDrive".into(),
                command: "C:\\Users\\x\\OneDrive.exe\" /background".into(),
                enabled: true
            },
            RunValue { name: ".Disabled".into(), command: "C:\\a b.exe".into(), enabled: false },
        ]
    );
    assert!(parse_run_key_output("").is_empty());
    try_unused(&String::new());
}
