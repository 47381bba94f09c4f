use monotools::platform::version::get_pe_version;

#[test]
fn version_stub_returns_none() {
    assert!(get_pe_version("C:\\Windows\\System32\\notepad.exe").is_none());
}
