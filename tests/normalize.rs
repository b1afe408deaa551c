use openqr::config::{PrefixConfig, SuffixConfig};
use openqr::normalize::{clean_scan, strip_prefix, strip_suffix};

fn prefix(mode: &str, value: Option<&str>) -> PrefixConfig {
    PrefixConfig {
        mode: mode.to_string(),
        value: value.map(|s| s.to_string()),
    }
}

fn suffix(mode: &str, value: Option<&str>) -> SuffixConfig {
    SuffixConfig {
        mode: mode.to_string(),
        value: value.map(|s| s.to_string()),
    }
}

#[test]
fn strip_prefix_none() {
    assert_eq!(
        strip_prefix("https://example.com", &prefix("none", None)),
        "https://example.com"
    );
}

#[test]
fn strip_prefix_default() {
    assert_eq!(
        strip_prefix("QR:https://example.com", &prefix("default", None)),
        "https://example.com"
    );
}

#[test]
fn strip_prefix_default_not_present() {
    assert_eq!(
        strip_prefix("https://example.com", &prefix("default", None)),
        "https://example.com"
    );
}

#[test]
fn strip_prefix_custom() {
    assert_eq!(
        strip_prefix("SCAN:https://example.com", &prefix("custom", Some("SCAN:"))),
        "https://example.com"
    );
}

#[test]
fn strip_prefix_custom_not_present() {
    assert_eq!(
        strip_prefix("https://example.com", &prefix("custom", Some("SCAN:"))),
        "https://example.com"
    );
}

#[test]
fn strip_prefix_custom_no_value() {
    assert_eq!(
        strip_prefix("https://example.com", &prefix("custom", None)),
        "https://example.com"
    );
}

#[test]
fn strip_suffix_none() {
    assert_eq!(
        strip_suffix("https://example.com", &suffix("none", None)),
        "https://example.com"
    );
}

#[test]
fn strip_suffix_enter() {
    assert_eq!(
        strip_suffix("https://example.com\r\n", &suffix("enter", None)),
        "https://example.com"
    );
}

#[test]
fn strip_suffix_newline() {
    assert_eq!(
        strip_suffix("https://example.com\n", &suffix("newline", None)),
        "https://example.com"
    );
}

#[test]
fn strip_suffix_tab() {
    assert_eq!(
        strip_suffix("https://example.com\t", &suffix("tab", None)),
        "https://example.com"
    );
}

#[test]
fn strip_suffix_custom() {
    assert_eq!(
        strip_suffix("https://example.comEND", &suffix("custom", Some("END"))),
        "https://example.com"
    );
}

#[test]
fn strip_suffix_custom_not_present() {
    assert_eq!(
        strip_suffix("https://example.com", &suffix("custom", Some("END"))),
        "https://example.com"
    );
}

#[test]
fn prefix_literal_removed_only_once() {
    assert_eq!(strip_prefix("QR:QR:a.com", &prefix("default", None)), "QR:a.com");
    assert_eq!(strip_prefix("ABAB:x", &prefix("custom", Some("AB"))), "AB:x");
    assert_eq!(strip_prefix("xQR:", &prefix("default", None)), "xQR:");
}

#[test]
fn suffix_literal_removed_only_once_from_the_end() {
    assert_eq!(strip_suffix("a.comENDEND", &suffix("custom", Some("END"))), "a.comEND");
    assert_eq!(strip_suffix("ENDa.com", &suffix("custom", Some("END"))), "ENDa.com");
    assert_eq!(strip_suffix("a.com\t\t", &suffix("tab", None)), "a.com");
    assert_eq!(strip_suffix("a.com\n\r", &suffix("enter", None)), "a.com\n");
}

#[test]
fn clean_scan_strips_framing_then_white_space() {
    assert_eq!(
        clean_scan("QR: https://a.com \n", &prefix("default", None), &suffix("enter", None)),
        "https://a.com"
    );
    assert_eq!(
        clean_scan("\u{3000}x\u{a0}", &prefix("none", None), &suffix("none", None)),
        "x"
    );
}
