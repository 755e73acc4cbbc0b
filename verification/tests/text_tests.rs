//! Decimal rendering and parsing, and the serde default helpers.

use pesticide::msg::{
    default_as_true, is_false, stepping_granularity_default, stopped_reason_label, AdapterMessage,
    Event, EventPayload, Request, RequestPayload, SteppingGranularity, StoppedReason,
};
use pesticide::text::{i64_to_string, parse_dec_bytes};

#[test]
fn i64_rendering_matches_display() {
    for n in [0i64, 1, 7, 9, 10, 42, 100, 12345, -1, -13, -100000, i64::MAX, i64::MIN] {
        assert_eq!(i64_to_string(n), n.to_string(), "rendering {n}");
    }
}

#[test]
fn decimal_parsing() {
    assert_eq!(parse_dec_bytes(b"0"), Some(0));
    assert_eq!(parse_dec_bytes(b"153"), Some(153));
    assert_eq!(parse_dec_bytes(b"007"), Some(7));
    assert_eq!(parse_dec_bytes(b""), None);
    assert_eq!(parse_dec_bytes(b"12a"), None);
    assert_eq!(parse_dec_bytes(b"-3"), None);
    assert_eq!(parse_dec_bytes(b"18446744073709551615"), Some(usize::MAX));
    assert_eq!(parse_dec_bytes(b"18446744073709551616"), None, "one past usize::MAX");
}

#[test]
fn serde_default_helpers() {
    assert!(default_as_true());
    assert!(is_false(&false));
    assert!(!is_false(&true));
    assert!(matches!(stepping_granularity_default(), SteppingGranularity::Statement));
}

#[test]
fn stopped_reason_labels() {
    assert_eq!(stopped_reason_label(&StoppedReason::Breakpoint), "breakpoint");
    assert_eq!(stopped_reason_label(&StoppedReason::Step), "step");
    assert_eq!(
        stopped_reason_label(&StoppedReason::FunctionBreakpoint),
        "function breakpoint"
    );
}

#[test]
fn message_seq_by_direction() {
    let ev = AdapterMessage::Event(EventPayload { seq: 5, event: Event::Initialized });
    assert_eq!(ev.seq(), 5);
    let rq = AdapterMessage::Request(RequestPayload { seq: 9, request: Request::Threads });
    assert_eq!(rq.seq(), 9);
}
