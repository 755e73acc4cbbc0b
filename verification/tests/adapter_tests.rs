//! The transport state: sequence numbers and the request registry.

use pesticide::adapter::Adapter;
use pesticide::config::Config;
use pesticide::msg::{Request, Response, RunInTerminalResponse};

fn test_config() -> Config {
    Config {
        adapter: "pydbg".to_string(),
        adapter_args: vec![],
        adapter_id: Some("pydbg".to_string()),
        term_cmd: None,
        session_name: None,
        launch_args: "{}".to_string(),
    }
}

#[test]
fn outbound_seqs_strictly_increase() {
    let mut adapter = Adapter::new(test_config());
    let s0 = adapter.send_request(Request::Threads);
    let s1 = adapter.send_request(Request::ConfigurationDone);
    let msg = adapter.send_response(
        s0,
        true,
        None,
        Response::RunInTerminal(RunInTerminalResponse { process_id: None, shell_process_id: None }),
    );
    let s3 = adapter.send_request(Request::Threads);
    assert!(s0 < s1);
    assert!(s1 < msg.seq);
    assert!(msg.seq < s3);
    assert_eq!((s0, s1, msg.seq, s3), (0, 1, 2, 3));
}

#[test]
fn next_seq_outruns_inbound() {
    let mut adapter = Adapter::new(test_config());
    adapter.update_seq(41);
    let s = adapter.send_request(Request::Threads);
    assert_eq!(s, 42);
    // A lower inbound number does not move the counter back.
    adapter.update_seq(5);
    let s2 = adapter.send_request(Request::Threads);
    assert_eq!(s2, 43);
}

#[test]
fn registry_entry_removed_at_most_once() {
    let mut adapter = Adapter::new(test_config());
    let seq = adapter.send_request(Request::ConfigurationDone);
    assert_eq!(adapter.num_requests(), 1);
    let first = adapter.get_request(seq);
    assert_eq!(first, Some(Request::ConfigurationDone));
    assert_eq!(adapter.num_requests(), 0);
    let second = adapter.get_request(seq);
    assert_eq!(second, None);
}

#[test]
fn registry_keyed_by_matching_seq() {
    let mut adapter = Adapter::new(test_config());
    let s0 = adapter.send_request(Request::Threads);
    let s1 = adapter.send_request(Request::ConfigurationDone);
    assert_eq!(adapter.get_request(s1), Some(Request::ConfigurationDone));
    assert_eq!(adapter.get_request(s0), Some(Request::Threads));
    assert_eq!(adapter.get_request(s0), None);
    assert_eq!(adapter.num_requests(), 0);
}

#[test]
fn send_response_echoes_request_seq() {
    let mut adapter = Adapter::new(test_config());
    let msg = adapter.send_response(
        7,
        false,
        Some("no terminal".to_string()),
        Response::RunInTerminal(RunInTerminalResponse { process_id: None, shell_process_id: None }),
    );
    assert_eq!(msg.request_seq, 7);
    assert!(!msg.success);
    assert_eq!(msg.message.as_deref(), Some("no terminal"));
}
