use webview_shell::destroy_webview_command;
use webview_shell::fresh_webview_id;
use webview_shell::fullscreen_target;
use webview_shell::greet;
use webview_shell::history_back_script;
use webview_shell::history_forward_script;
use webview_shell::i64_to_string;
use webview_shell::lookup_webview;
use webview_shell::prepare_webview;
use webview_shell::register_webview;
use webview_shell::u64_to_string;
use webview_shell::webview_id_for;
use webview_shell::webview_navigate_command;
use webview_shell::Registry;

#[test]
fn greet_normal_name() {
    assert_eq!(
        greet("Bob"),
        Ok(String::from("Hello, Bob! Greetings from Rust"))
    );
}

#[test]
fn greet_empty_name_rejected() {
    assert_eq!(greet(""), Err(String::from("Name cannot be empty")));
}

#[test]
fn decimal_rendering() {
    assert_eq!(u64_to_string(0), "0");
    assert_eq!(u64_to_string(7), "7");
    assert_eq!(u64_to_string(120), "120");
    assert_eq!(u64_to_string(987654321), "987654321");
    assert_eq!(u64_to_string(u64::MAX), "18446744073709551615");
    assert_eq!(i64_to_string(0), "0");
    assert_eq!(i64_to_string(-1), "-1");
    assert_eq!(i64_to_string(-120), "-120");
    assert_eq!(i64_to_string(i64::MAX), "9223372036854775807");
    assert_eq!(i64_to_string(i64::MIN), "-9223372036854775808");
}

#[test]
fn webview_id_from_clock_reading() {
    assert_eq!(webview_id_for(1234), "crunchyroll_1234");
    assert_eq!(webview_id_for(0), "crunchyroll_0");
    assert_eq!(webview_id_for(-5), "crunchyroll_-5");
}

#[test]
fn fresh_id_has_prefix_and_numeric_suffix() {
    let id = fresh_webview_id();
    assert!(id.starts_with("crunchyroll_"));
    let suffix = &id["crunchyroll_".len()..];
    assert!(suffix.parse::<i64>().is_ok());
}

#[test]
fn registry_round_trip() {
    let mut reg = Registry::new();
    let id = webview_id_for(42);
    register_webview(&mut reg, id.clone(), 3);
    assert_eq!(lookup_webview(&reg, &id), Ok(3));
    assert_eq!(destroy_webview_command(&mut reg, &id), Ok(3));
    assert_eq!(
        lookup_webview(&reg, &id),
        Err(String::from("Webview crunchyroll_42 not found"))
    );
}

#[test]
fn registry_insert_overwrites() {
    let mut reg = Registry::new();
    let id = String::from("crunchyroll_1");
    register_webview(&mut reg, id.clone(), 0);
    register_webview(&mut reg, id.clone(), 9);
    assert_eq!(lookup_webview(&reg, &id), Ok(9));
}

#[test]
fn registry_keeps_other_entries() {
    let mut reg = Registry::new();
    let a = String::from("crunchyroll_1");
    let b = String::from("crunchyroll_2");
    register_webview(&mut reg, a.clone(), 0);
    register_webview(&mut reg, b.clone(), 1);
    assert_eq!(destroy_webview_command(&mut reg, &a), Ok(0));
    assert_eq!(lookup_webview(&reg, &b), Ok(1));
    assert_eq!(
        lookup_webview(&reg, &a),
        Err(String::from("Webview crunchyroll_1 not found"))
    );
}

#[test]
fn destroy_missing_webview_reports_not_found() {
    let mut reg = Registry::new();
    let id = String::from("crunchyroll_7");
    assert_eq!(
        destroy_webview_command(&mut reg, &id),
        Err(String::from("Webview crunchyroll_7 not found"))
    );
}

#[test]
fn navigate_needs_registered_webview() {
    let reg = Registry::new();
    let id = String::from("crunchyroll_3");
    let url = String::from("https://example.com/");
    assert_eq!(
        webview_navigate_command(&reg, &id, &url),
        Err(String::from("Webview crunchyroll_3 not found"))
    );
}

#[test]
fn navigate_checks_the_url() {
    let mut reg = Registry::new();
    let id = String::from("crunchyroll_3");
    register_webview(&mut reg, id.clone(), 5);
    let good = String::from("https://www.crunchyroll.com/");
    assert_eq!(webview_navigate_command(&reg, &id, &good), Ok(5));
    let bad = String::from("not a url");
    assert_eq!(
        webview_navigate_command(&reg, &id, &bad),
        Err(String::from("Invalid URL: relative URL without a base"))
    );
}

#[test]
fn prepare_webview_validates_url_and_generates_id() {
    let good = String::from("https://www.crunchyroll.com/");
    let id = prepare_webview(&good).unwrap();
    assert!(id.starts_with("crunchyroll_"));
    let bad = String::from("::::");
    assert_eq!(
        prepare_webview(&bad),
        Err(String::from("Invalid URL: relative URL without a base"))
    );
}

#[test]
fn fullscreen_toggles() {
    assert_eq!(fullscreen_target(false), true);
    assert_eq!(fullscreen_target(true), false);
}

#[test]
fn history_scripts() {
    assert_eq!(history_back_script(), "window.history.back()");
    assert_eq!(history_forward_script(), "window.history.forward()");
}
