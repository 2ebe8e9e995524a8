use mozwer::config::{crash_reports_dir, install_time_path, ApplicationData, ConfigError};
use mozwer::paths::FilePath;

fn full_ini() -> String {
    let mut s = String::new();
    s.push_str("[App]\n");
    s.push_str("Vendor=Acme\n");
    s.push_str("Name=Widget\n");
    s.push_str("Version=1.0\n");
    s.push_str("BuildID=20240101\n");
    s.push_str("ID=abc\n");
    s.push_str("\n[Crash Reporter]\n");
    s.push_str("ServerURL=https://x\n");
    s
}

fn parts(p: &FilePath) -> Vec<String> {
    p.parts.clone()
}

#[test]
fn loads_every_field() {
    let d = ApplicationData::load_from_str(&full_ini()).unwrap();
    assert_eq!(d.vendor.as_deref(), Some("Acme"));
    assert_eq!(d.name, "Widget");
    assert_eq!(d.version, "1.0");
    assert_eq!(d.build_id, "20240101");
    assert_eq!(d.product_id, "abc");
    assert_eq!(d.server_url, "https://x");
}

#[test]
fn vendor_is_optional() {
    let text = full_ini().replace("Vendor=Acme\n", "");
    let d = ApplicationData::load_from_str(&text).unwrap();
    assert_eq!(d.vendor, None);
    assert_eq!(d.name, "Widget");
}

#[test]
fn each_missing_required_key_fails() {
    for line in [
        "Name=Widget\n",
        "Version=1.0\n",
        "BuildID=20240101\n",
        "ID=abc\n",
        "ServerURL=https://x\n",
    ] {
        let text = full_ini().replace(line, "");
        assert_eq!(
            ApplicationData::load_from_str(&text).unwrap_err(),
            ConfigError::MissingEntry,
            "without {}",
            line
        );
    }
}

#[test]
fn missing_section_fails() {
    let text = full_ini().replace("[Crash Reporter]", "[Other]");
    assert_eq!(
        ApplicationData::load_from_str(&text).unwrap_err(),
        ConfigError::MissingEntry
    );
    let text = full_ini().replace("[App]", "[Application]");
    assert_eq!(
        ApplicationData::load_from_str(&text).unwrap_err(),
        ConfigError::MissingEntry
    );
}

#[test]
fn key_in_wrong_section_fails() {
    let text = full_ini().replace("ServerURL=https://x\n", "") + "[App]\nServerURL=https://x\n";
    assert_eq!(
        ApplicationData::load_from_str(&text).unwrap_err(),
        ConfigError::MissingEntry
    );
}

#[test]
fn malformed_text_fails() {
    assert_eq!(
        ApplicationData::load_from_str("[App").unwrap_err(),
        ConfigError::Malformed
    );
}

#[test]
fn empty_text_misses_entries() {
    assert_eq!(
        ApplicationData::load_from_str("").unwrap_err(),
        ConfigError::MissingEntry
    );
}

#[test]
fn application_ini_path() {
    let install = FilePath::from_root("C:\\Program Files\\Widget");
    let p = ApplicationData::get_path(&install);
    assert_eq!(parts(&p), vec!["C:\\Program Files\\Widget", "application.ini"]);
}

#[test]
fn reports_dir_with_vendor() {
    let d = ApplicationData::load_from_str(&full_ini()).unwrap();
    let p = crash_reports_dir("C:\\Users\\u\\AppData\\Roaming", &d);
    assert_eq!(
        parts(&p),
        vec!["C:\\Users\\u\\AppData\\Roaming", "Acme", "Widget", "Crash Reports"]
    );
}

#[test]
fn reports_dir_without_vendor() {
    let text = full_ini().replace("Vendor=Acme\n", "");
    let d = ApplicationData::load_from_str(&text).unwrap();
    let p = crash_reports_dir("R", &d);
    assert_eq!(parts(&p), vec!["R", "Widget", "Crash Reports"]);
}

#[test]
fn install_time_marker_path() {
    let dir = FilePath::from_root("R").join("Crash Reports");
    let p = install_time_path(&dir, "20240101");
    assert_eq!(parts(&p), vec!["R", "Crash Reports", "InstallTime20240101"]);
}

#[test]
fn code_point_escape_is_refused() {
    assert_eq!(
        ApplicationData::load_from_str("[App]\nName=\\xD800\n").unwrap_err(),
        ConfigError::Malformed
    );
    let text = full_ini().replace("Name=Widget", "Name=Wid\\x0041");
    assert_eq!(
        ApplicationData::load_from_str(&text).unwrap_err(),
        ConfigError::Malformed
    );
}

#[test]
fn other_escapes_are_read() {
    let text = full_ini().replace("Name=Widget", "Name=Wid\\tget");
    let d = ApplicationData::load_from_str(&text).unwrap();
    assert_eq!(d.name, "Wid\tget");
}
