use mozwer::config::ApplicationData;
use mozwer::decimal::decimal_text;
use mozwer::paths::FilePath;
use mozwer::prefs::release_channel_from_lines;
use mozwer::report::{
    Annotations, CrashReport, MiniDumpWithFullMemoryInfo, MiniDumpWithIndirectlyReferencedMemory,
    MiniDumpWithProcessThreadData, MiniDumpWithUnloadedModules,
};

fn app_data(vendor: Option<&str>) -> ApplicationData {
    ApplicationData {
        vendor: vendor.map(|v| v.to_string()),
        name: "Widget".to_string(),
        version: "1.0".to_string(),
        build_id: "20240101".to_string(),
        product_id: "abc".to_string(),
        server_url: "https://x".to_string(),
    }
}

fn dir() -> FilePath {
    FilePath::from_root("R").join("Acme").join("Widget").join("Crash Reports")
}

const UUID: &str = "936da01f-9abd-4d9d-80c7-02af85c822a8";

fn report(channel: &str, vendor: Option<&str>) -> CrashReport {
    CrashReport::from_parts(
        &dir(),
        channel,
        &app_data(vendor),
        "1700000000",
        UUID.to_string(),
        1700000123,
    )
}

const BASE: u32 = 0x800 | 0x20;

#[test]
fn flag_values() {
    assert_eq!(MiniDumpWithFullMemoryInfo, 0x800);
    assert_eq!(MiniDumpWithUnloadedModules, 0x20);
    assert_eq!(MiniDumpWithProcessThreadData, 0x100);
    assert_eq!(MiniDumpWithIndirectlyReferencedMemory, 0x40);
}

#[test]
fn breadth_by_channel_and_system() {
    for channel in ["nightly", "default"] {
        let r = report(channel, None);
        assert!(r.is_nightly());
        assert_eq!(r.get_minidump_type(false), BASE | 0x100);
        assert_eq!(r.get_minidump_type(true), BASE | 0x100 | 0x40);
    }
    for channel in ["release", "beta", "nightly-try", "Nightly", ""] {
        let r = report(channel, None);
        assert!(!r.is_nightly());
        assert_eq!(r.get_minidump_type(false), BASE);
        assert_eq!(r.get_minidump_type(true), BASE);
    }
}

#[test]
fn breadth_grows_with_channel_and_system() {
    let base = report("release", None).get_minidump_type(true);
    let enhanced = report("nightly", None).get_minidump_type(false);
    let advanced = report("nightly", None).get_minidump_type(true);
    assert_eq!(enhanced & base, base);
    assert_eq!(advanced & enhanced, enhanced);
    assert_eq!(base & (0x100 | 0x40), 0);
}

#[test]
fn report_fields() {
    let r = report("nightly", Some("Acme"));
    assert_eq!(r.uuid, UUID);
    assert_eq!(r.release_channel, "nightly");
    assert_eq!(r.crash_time, 1700000123);
    assert_eq!(r.crash_reports_path.parts, dir().parts);
    let a = &r.annotations;
    assert_eq!(a.crash_time, "1700000123");
    assert_eq!(a.vendor.as_deref(), Some("Acme"));
    assert_eq!(a.product_name, "Widget");
    assert_eq!(a.version, "1.0");
    assert_eq!(a.build_id, "20240101");
    assert_eq!(a.product_id, "abc");
    assert_eq!(a.server_url, "https://x");
    assert_eq!(a.release_channel, "nightly");
    assert_eq!(a.install_time, "1700000000");
}

#[test]
fn file_locations() {
    let r = report("beta", None);
    let root = vec!["R", "Acme", "Widget", "Crash Reports"];
    let with = |extra: &[&str]| {
        let mut v: Vec<String> = root.iter().map(|s| s.to_string()).collect();
        v.extend(extra.iter().map(|s| s.to_string()));
        v
    };
    assert_eq!(r.get_pending_path().parts, with(&["pending"]));
    assert_eq!(r.get_events_path().parts, with(&["events"]));
    assert_eq!(
        r.get_minidump_path().parts,
        with(&["pending", &format!("{}.dmp", UUID)])
    );
    assert_eq!(
        r.get_extra_file_path().parts,
        with(&["pending", &format!("{}.extra", UUID)])
    );
    assert_eq!(r.get_event_file_path().parts, with(&["events", UUID]));
}

#[test]
fn extra_file_exact_text() {
    let r = report("nightly", Some("Acme"));
    assert_eq!(
        r.extra_file_contents(),
        "{\"CrashTime\":\"1700000123\",\"Vendor\":\"Acme\",\"ProductName\":\"Widget\",\
         \"Version\":\"1.0\",\"BuildID\":\"20240101\",\"ProductID\":\"abc\",\
         \"ServerURL\":\"https://x\",\"ReleaseChannel\":\"nightly\",\"InstallTime\":\"1700000000\"}"
    );
}

#[test]
fn extra_file_without_vendor_omits_key() {
    let r = report("nightly", None);
    let text = r.extra_file_contents();
    assert!(!text.contains("Vendor"));
    assert!(text.starts_with("{\"CrashTime\":\"1700000123\",\"ProductName\":\"Widget\","));
}

#[test]
fn values_are_escaped() {
    let mut d = app_data(None);
    d.name = "Wid\"get\\\n".to_string();
    let r = CrashReport::from_parts(&dir(), "beta", &d, "1", UUID.to_string(), 0);
    let text = r.extra_file_contents();
    assert!(text.contains("\"ProductName\":\"Wid\\\"get\\\\\\n\""));
}

fn parse_object(text: &str) -> serde_json::Map<String, serde_json::Value> {
    match serde_json::from_str::<serde_json::Value>(text).unwrap() {
        serde_json::Value::Object(m) => m,
        other => panic!("not an object: {}", other),
    }
}

fn field(m: &serde_json::Map<String, serde_json::Value>, k: &str) -> Option<String> {
    m.get(k).map(|v| v.as_str().unwrap().to_string())
}

fn check_round_trip(a: &Annotations, text: &str) {
    let m = parse_object(text);
    assert_eq!(field(&m, "CrashTime").unwrap(), a.crash_time);
    assert_eq!(field(&m, "Vendor"), a.vendor);
    assert_eq!(field(&m, "ProductName").unwrap(), a.product_name);
    assert_eq!(field(&m, "Version").unwrap(), a.version);
    assert_eq!(field(&m, "BuildID").unwrap(), a.build_id);
    assert_eq!(field(&m, "ProductID").unwrap(), a.product_id);
    assert_eq!(field(&m, "ServerURL").unwrap(), a.server_url);
    assert_eq!(field(&m, "ReleaseChannel").unwrap(), a.release_channel);
    assert_eq!(field(&m, "InstallTime").unwrap(), a.install_time);
    let expected = if a.vendor.is_some() { 9 } else { 8 };
    assert_eq!(m.len(), expected);
}

#[test]
fn extra_round_trips() {
    for vendor in [Some("Acme"), None, Some("A \"quoted\" \u{e9} vendor")] {
        let r = report("nightly", vendor);
        check_round_trip(&r.annotations, &r.extra_file_contents());
    }
}

#[test]
fn event_file_text() {
    let r = report("nightly", Some("Acme"));
    let text = r.event_file_contents();
    let mut lines = text.splitn(4, '\n');
    assert_eq!(lines.next(), Some("crash.main.3"));
    assert_eq!(lines.next(), Some("1700000123"));
    assert_eq!(lines.next(), Some(UUID));
    assert_eq!(lines.next().unwrap(), r.extra_file_contents());
}

#[test]
fn files_share_stem_and_time() {
    let r = report("nightly", Some("Acme"));
    let dmp = r.get_minidump_path().parts.last().unwrap().clone();
    let extra = r.get_extra_file_path().parts.last().unwrap().clone();
    let event = r.get_event_file_path().parts.last().unwrap().clone();
    assert_eq!(dmp.strip_suffix(".dmp"), Some(event.as_str()));
    assert_eq!(extra.strip_suffix(".extra"), Some(event.as_str()));
    let event_text = r.event_file_contents();
    let time_line = event_text.lines().nth(1).unwrap().to_string();
    let m = parse_object(&r.extra_file_contents());
    assert_eq!(field(&m, "CrashTime").unwrap(), time_line);
}

#[test]
fn fresh_reports_have_distinct_hyphenated_ids() {
    let d = app_data(Some("Acme"));
    let a = CrashReport::new(&dir(), "nightly", &d, "1700000000", 5);
    let b = CrashReport::new(&dir(), "nightly", &d, "1700000000", 5);
    for r in [&a, &b] {
        assert_eq!(r.uuid.len(), 36);
        for (i, c) in r.uuid.chars().enumerate() {
            if i == 8 || i == 13 || i == 18 || i == 23 {
                assert_eq!(c, '-');
            } else {
                assert!(c.is_ascii_hexdigit() && !c.is_ascii_uppercase());
            }
        }
        assert_eq!(r.annotations.crash_time, "5");
    }
    assert_ne!(a.uuid, b.uuid);
    assert_ne!(a.get_minidump_path().parts, b.get_minidump_path().parts);
}

#[test]
fn decimal_texts() {
    assert_eq!(decimal_text(0), "0");
    assert_eq!(decimal_text(7), "7");
    assert_eq!(decimal_text(10), "10");
    assert_eq!(decimal_text(1700000000), "1700000000");
    assert_eq!(decimal_text(-42), "-42");
    assert_eq!(decimal_text(i64::MAX), "9223372036854775807");
    assert_eq!(decimal_text(i64::MIN), "-9223372036854775808");
}

#[test]
fn negative_crash_time() {
    let r = CrashReport::from_parts(&dir(), "beta", &app_data(None), "1", UUID.to_string(), -3);
    assert_eq!(r.annotations.crash_time, "-3");
    assert_eq!(r.event_file_contents().lines().nth(1), Some("-3"));
}

#[test]
fn acme_widget_nightly_scenario() {
    let ini = "[App]\nVendor=Acme\nName=Widget\nVersion=1.0\nBuildID=20240101\nID=abc\n\
               [Crash Reporter]\nServerURL=https://x\n";
    let d = ApplicationData::load_from_str(ini).unwrap();
    let channel =
        release_channel_from_lines(&vec!["pref(\"app.update.channel\", \"nightly\");".to_string()])
            .unwrap();
    let dir = mozwer::config::crash_reports_dir("Roaming", &d);
    let marker = mozwer::config::install_time_path(&dir, &d.build_id);
    assert_eq!(marker.parts.last().unwrap(), "InstallTime20240101");
    let r = CrashReport::new(&dir, &channel, &d, "1700000000", 1700000500);
    assert_eq!(r.get_minidump_type(false), BASE | 0x100);
    let m = parse_object(&r.extra_file_contents());
    assert_eq!(field(&m, "ReleaseChannel").unwrap(), "nightly");
    assert_eq!(field(&m, "InstallTime").unwrap(), "1700000000");
    let event = r.event_file_contents();
    let lines: Vec<&str> = event.lines().collect();
    assert_eq!(lines[0], "crash.main.3");
    assert_eq!(lines[1], "1700000500");
    assert_eq!(lines[2].len(), 36);
    assert_eq!(lines[2], r.uuid);
}

#[test]
fn control_characters_are_escaped() {
    let mut d = app_data(None);
    d.version = "a\u{1}\u{8}\t\u{c}\r\u{1f}\u{7f}".to_string();
    let r = CrashReport::from_parts(&dir(), "beta", &d, "1", UUID.to_string(), 0);
    let text = r.extra_file_contents();
    assert!(text.contains("\"Version\":\"a\\u0001\\b\\t\\f\\r\\u001f\u{7f}\""));
    check_round_trip(&r.annotations, &text);
}
