//! Configuration text interpolation and the command-line rules.

use pesticide::config::{interpolate, resolve_session, Cli};

fn env(pairs: &[(&str, &str)]) -> Vec<(Vec<u8>, Vec<u8>)> {
    pairs
        .iter()
        .map(|(k, v)| (k.as_bytes().to_vec(), v.as_bytes().to_vec()))
        .collect()
}

fn interp(src: &str, pairs: &[(&str, &str)]) -> String {
    String::from_utf8(interpolate(src.as_bytes(), &env(pairs))).unwrap()
}

#[test]
fn variable_replaced_with_value() {
    assert_eq!(interp("adapter = \"${HOME}/bin/d\"", &[("HOME", "/home/u")]),
        "adapter = \"/home/u/bin/d\"");
}

#[test]
fn unset_variable_becomes_empty() {
    assert_eq!(interp("x${NOPE}y", &[]), "xy");
}

#[test]
fn double_dollar_becomes_single() {
    assert_eq!(interp("cost: $$5", &[]), "cost: $5");
    assert_eq!(interp("$$$$", &[]), "$$");
}

#[test]
fn reference_closes_at_first_brace() {
    assert_eq!(interp("${A}B}", &[("A", "a"), ("A}B", "no")]), "aB}");
}

#[test]
fn unclosed_reference_left_alone() {
    assert_eq!(interp("tail ${OPEN", &[("OPEN", "x")]), "tail ${OPEN");
}

#[test]
fn reference_must_close_on_one_line() {
    assert_eq!(interp("${A\n}", &[("A", "x"), ("A\n", "y")]), "${A\n}");
}

#[test]
fn several_references_in_order() {
    assert_eq!(interp("${A}-${B}-${A}", &[("A", "1"), ("B", "2")]), "1-2-1");
}

#[test]
fn first_pair_wins() {
    assert_eq!(interp("${K}", &[("K", "first"), ("K", "second")]), "first");
}

#[test]
fn session_resolution_order() {
    assert_eq!(
        resolve_session(Some("cli".to_string()), Some("conf".to_string()), "99".to_string()),
        "cli"
    );
    assert_eq!(resolve_session(None, Some("conf".to_string()), "99".to_string()), "conf");
    assert_eq!(resolve_session(None, None, "99".to_string()), "99");
}

#[test]
fn request_flag_requires_session() {
    let bare = Cli { config: "pesticide.toml".to_string(), request: None, session: None };
    assert!(bare.is_valid());
    let with_both = Cli {
        config: "pesticide.toml".to_string(),
        request: Some("{}".to_string()),
        session: Some("s".to_string()),
    };
    assert!(with_both.is_valid());
    let orphan_request = Cli {
        config: "pesticide.toml".to_string(),
        request: Some("{}".to_string()),
        session: None,
    };
    assert!(!orphan_request.is_valid());
}
