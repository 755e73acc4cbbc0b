//! The controller: the initialize handshake, the stop-and-refresh
//! chain, event semantics, breakpoint toggling, and the debuggee
//! supervisor's decisions.

use pesticide::adapter::Adapter;
use pesticide::config::Config;
use pesticide::controller::{
    handle_event, handle_response, initialize_request, run_in_terminal_plan, run_in_terminal_reply,
    toggle_breakpoint, unsupported_request_reply, Action, SpawnMode, State,
};
use pesticide::msg::{
    stopped_reason_label, ContinuedBody, Event, Request, Response, ResponsePayload, Scope,
    ScopesResponse, StackFrame, StackTraceResponse, StoppedBody, StoppedReason, Thread, ThreadBody,
    ThreadReason, ThreadsResponse, Variable, VariablesResponse, OutputBody, OutputCategory,
    RunInTerminalArgs, RunInTerminalKind, Source,
};

fn test_config() -> Config {
    Config {
        adapter: "pydbg".to_string(),
        adapter_args: vec![],
        adapter_id: Some("pydbg".to_string()),
        term_cmd: Some(vec!["alacritty".to_string(), "-e".to_string()]),
        session_name: None,
        launch_args: "{\"program\":\"prog.py\"}".to_string(),
    }
}

/// The command name of an outbound request, as the wire shows it.
fn command_name(r: &Request) -> &'static str {
    match r {
        Request::ConfigurationDone => "configurationDone",
        Request::Continue(_) => "continue",
        Request::Initialize(_) => "initialize",
        Request::Launch(_) => "launch",
        Request::RunInTerminal(_) => "runInTerminal",
        Request::Scopes(_) => "scopes",
        Request::SetBreakpoints(_) => "setBreakpoints",
        Request::StackTrace(_) => "stackTrace",
        Request::StepIn(_) => "stepIn",
        Request::Threads => "threads",
        Request::Variables(_) => "variables",
    }
}

/// Dispatches a handler's actions: registers every emitted request
/// with the transport and records its command name.
fn dispatch(adapter: &mut Adapter, actions: Vec<Action>, sent: &mut Vec<&'static str>) -> (usize, usize) {
    let mut redraws = 0;
    let mut jumps = 0;
    for action in actions {
        match action {
            Action::Request(req) => {
                sent.push(command_name(&req));
                adapter.send_request(req);
            }
            Action::Redraw => redraws += 1,
            Action::Jump => jumps += 1,
            _ => {}
        }
    }
    (redraws, jumps)
}

fn response(seq: u32, request_seq: u32, body: Response) -> ResponsePayload {
    ResponsePayload { seq, request_seq, success: true, message: None, response: body }
}

#[test]
fn happy_path_initialize() {
    let mut state = State::new();
    let mut adapter = Adapter::new(test_config());
    let mut sent: Vec<&'static str> = Vec::new();

    // Startup: the controller sends one initialize request.
    let init = initialize_request(adapter.config.adapter_id.clone());
    sent.push(command_name(&init));
    let init_seq = adapter.send_request(init);

    // The adapter answers initialize: launch goes out at once.
    let caps = serde_defaults_capabilities();
    let actions = handle_response(
        &mut state,
        &mut adapter,
        response(1, init_seq, Response::Initialize(caps)),
    );
    dispatch(&mut adapter, actions, &mut sent);

    // The adapter later emits initialized: configurationDone goes out.
    let actions = handle_event(&mut state, Event::Initialized);
    dispatch(&mut adapter, actions, &mut sent);

    assert_eq!(sent, vec!["initialize", "launch", "configurationDone"]);
}

#[test]
fn stop_and_refresh_chain() {
    let mut state = State::new();
    let mut adapter = Adapter::new(test_config());
    let mut sent: Vec<&'static str> = Vec::new();
    let mut redraws = 0;
    let mut jumps = 0;

    // stopped{threadId: 1, reason: breakpoint}
    let actions = handle_event(
        &mut state,
        Event::Stopped(StoppedBody {
            reason: StoppedReason::Breakpoint,
            description: None,
            thread_id: Some(1),
            preserve_focus_hint: false,
            text: None,
            all_threads_stopped: false,
            hit_breakpoint_ids: None,
        }),
    );
    let (r, j) = dispatch(&mut adapter, actions, &mut sent);
    redraws += r;
    jumps += j;
    assert_eq!(sent, vec!["threads"]);
    assert_eq!(state.current_thread, 1);
    assert_eq!(state.stopped_threads.get(&1).map(|s| s.as_str()), Some("breakpoint"));

    // threads response with one thread id 1
    let threads_seq = 0;
    let actions = handle_response(
        &mut state,
        &mut adapter,
        response(10, threads_seq, Response::Threads(ThreadsResponse {
            threads: vec![Thread { id: 1, name: "main".to_string() }],
        })),
    );
    let (r, j) = dispatch(&mut adapter, actions, &mut sent);
    redraws += r;
    jumps += j;
    assert_eq!(sent, vec!["threads", "stackTrace"]);

    // stackTrace response with one frame id 42
    let actions = handle_response(
        &mut state,
        &mut adapter,
        response(11, 1, Response::StackTrace(StackTraceResponse {
            stack_frames: vec![StackFrame {
                id: 42,
                name: "main".to_string(),
                source: Some(Source { name: None, path: Some("/prog.py".to_string()) }),
                line: 3,
                column: 1,
                presentation_hint: None,
            }],
            total_frames: None,
        })),
    );
    let (r, j) = dispatch(&mut adapter, actions, &mut sent);
    redraws += r;
    jumps += j;
    assert_eq!(sent, vec!["threads", "stackTrace", "scopes"]);
    assert_eq!(state.current_stack_frame, 42);

    // scopes response with one scope ref 100
    let actions = handle_response(
        &mut state,
        &mut adapter,
        response(12, 2, Response::Scopes(ScopesResponse {
            scopes: vec![Scope {
                name: "Locals".to_string(),
                presentation_hint: None,
                variables_reference: 100,
                expensive: false,
            }],
        })),
    );
    let (r, j) = dispatch(&mut adapter, actions, &mut sent);
    redraws += r;
    jumps += j;
    assert_eq!(sent, vec!["threads", "stackTrace", "scopes", "variables"]);

    // variables response: the chain ends, one redraw coalesces it.
    let actions = handle_response(
        &mut state,
        &mut adapter,
        response(13, 3, Response::Variables(VariablesResponse {
            variables: vec![Variable {
                name: "x".to_string(),
                value: "7".to_string(),
                variables_reference: 0,
            }],
        })),
    );
    let (r, j) = dispatch(&mut adapter, actions, &mut sent);
    redraws += r;
    jumps += j;

    assert_eq!(sent, vec!["threads", "stackTrace", "scopes", "variables"]);
    assert_eq!(redraws, 1, "exactly one redraw after the final response");
    assert_eq!(jumps, 1, "exactly one jump");
    assert_eq!(adapter.num_requests(), 0);
}

#[test]
fn breakpoint_toggle() {
    let mut state = State::new();
    // First toggle: one breakpoint at line 7 goes out.
    let actions = toggle_breakpoint(&mut state, "/a.py".to_string(), 7);
    assert_eq!(actions.len(), 2);
    match &actions[0] {
        Action::Request(Request::SetBreakpoints(args)) => {
            assert_eq!(args.source.path.as_deref(), Some("/a.py"));
            assert_eq!(args.breakpoints.len(), 1);
            assert_eq!(args.breakpoints[0].line, 7);
        }
        other => panic!("expected a setBreakpoints request, got {:?}", other),
    }
    assert!(matches!(actions[1], Action::UpdateBreakpoints));

    // Second identical toggle: the list empties.
    let actions = toggle_breakpoint(&mut state, "/a.py".to_string(), 7);
    match &actions[0] {
        Action::Request(Request::SetBreakpoints(args)) => {
            assert_eq!(args.breakpoints.len(), 0);
        }
        other => panic!("expected a setBreakpoints request, got {:?}", other),
    }
}

#[test]
fn external_terminal_run() {
    let term_cmd = vec!["alacritty".to_string(), "-e".to_string()];
    let args = RunInTerminalArgs {
        kind: Some(RunInTerminalKind::External),
        title: None,
        cwd: None,
        args: vec!["python".to_string(), "prog.py".to_string()],
        env: None,
    };
    let plan = run_in_terminal_plan(&term_cmd, &args);
    assert!(matches!(plan.mode, SpawnMode::External));
    assert_eq!(plan.argv, vec!["alacritty", "-e", "python", "prog.py"]);

    let (success, message, body) = run_in_terminal_reply(Ok(Some(4242)));
    assert!(success);
    assert_eq!(message, None);
    assert_eq!(body.process_id, Some(4242));
}

#[test]
fn integrated_terminal_run_with_output() {
    let term_cmd: Vec<String> = vec![];
    let args = RunInTerminalArgs {
        kind: Some(RunInTerminalKind::Integrated),
        title: None,
        cwd: None,
        args: vec!["echo".to_string(), "hello".to_string()],
        env: None,
    };
    let plan = run_in_terminal_plan(&term_cmd, &args);
    assert!(matches!(plan.mode, SpawnMode::Integrated));
    assert_eq!(plan.argv, vec!["echo", "hello"]);

    // The default when the kind is absent is integrated too.
    let absent = RunInTerminalArgs { kind: None, ..args };
    let plan = run_in_terminal_plan(&term_cmd, &absent);
    assert!(matches!(plan.mode, SpawnMode::Integrated));

    let (success, _, _) = run_in_terminal_reply(Ok(None));
    assert!(success);

    // The captured line lands in the console exactly once.
    let mut state = State::new();
    state.push_console("hello".to_string());
    assert_eq!(state.console, vec!["hello".to_string()]);
}

#[test]
fn spawn_failure_reported_not_fatal() {
    let (success, message, body) = run_in_terminal_reply(Err("No such file".to_string()));
    assert!(!success);
    assert_eq!(message.as_deref(), Some("No such file"));
    assert_eq!(body.process_id, None);
}

#[test]
fn continued_event_clears_stopped_entry() {
    let mut state = State::new();
    state.stopped_threads.insert(1, "breakpoint".to_string());
    state.stopped_threads.insert(2, "pause".to_string());
    handle_event(
        &mut state,
        Event::Continued(ContinuedBody { thread_id: 1, all_threads_continued: false }),
    );
    assert!(state.stopped_threads.get(&1).is_none());
    assert!(state.stopped_threads.get(&2).is_some());
    handle_event(
        &mut state,
        Event::Continued(ContinuedBody { thread_id: 2, all_threads_continued: true }),
    );
    assert_eq!(state.stopped_threads.len(), 0);
}

#[test]
fn exited_and_terminated_quit() {
    let mut state = State::new();
    let actions = handle_event(&mut state, Event::Terminated);
    assert!(matches!(actions[..], [Action::Quit]));
    let actions = handle_event(
        &mut state,
        Event::Exited(pesticide::msg::ExitedBody { exit_code: 0 }),
    );
    assert!(matches!(actions[..], [Action::Quit]));
}

#[test]
fn telemetry_output_discarded() {
    let mut state = State::new();
    let output = |category, text: &str| OutputBody {
        category,
        output: text.to_string(),
        group: None,
        variables_reference: None,
        source: None,
        line: None,
        column: None,
    };
    handle_event(&mut state, Event::Output(output(Some(OutputCategory::Telemetry), "spy")));
    assert!(state.console.is_empty());
    handle_event(&mut state, Event::Output(output(Some(OutputCategory::Stdout), "out")));
    handle_event(&mut state, Event::Output(output(None, "plain")));
    assert_eq!(state.console, vec!["out".to_string(), "plain".to_string()]);
}

#[test]
fn thread_started_and_exited() {
    let mut state = State::new();
    handle_event(
        &mut state,
        Event::Thread(ThreadBody { reason: ThreadReason::Started, thread_id: 5 }),
    );
    assert_eq!(state.threads.len(), 1);
    assert_eq!(state.threads[0].id, 5);
    // The placeholder thread is named after its id.
    assert_eq!(state.threads[0].name, "5");
    state.stopped_threads.insert(5, "pause".to_string());
    handle_event(
        &mut state,
        Event::Thread(ThreadBody { reason: ThreadReason::Exited, thread_id: 5 }),
    );
    assert!(state.threads.is_empty());
    assert!(state.stopped_threads.get(&5).is_none());
}

#[test]
fn error_response_leaves_model_alone() {
    let mut state = State::new();
    let mut adapter = Adapter::new(test_config());
    let seq = adapter.send_request(Request::Threads);
    let actions = handle_response(
        &mut state,
        &mut adapter,
        ResponsePayload {
            seq: 9,
            request_seq: seq,
            success: false,
            message: Some("not stopped".to_string()),
            response: Response::Threads(ThreadsResponse {
                threads: vec![Thread { id: 3, name: "x".to_string() }],
            }),
        },
    );
    assert!(state.threads.is_empty());
    // The registry entry is still popped and the queue has drained.
    assert_eq!(adapter.num_requests(), 0);
    assert!(matches!(actions[..], [Action::Redraw]));
}

/// A capabilities record with everything off, as serde would default it.
fn serde_defaults_capabilities() -> pesticide::msg::Capabilities {
    pesticide::msg::Capabilities {
        supports_configuration_done_request: true,
        supports_function_breakpoints: false,
        supports_conditional_breakpoints: false,
        supports_hit_conditional_breakpoints: false,
        supports_evaluate_for_hovers: false,
        exception_breakpoint_filters: None,
        supports_step_back: false,
        supports_set_variable: false,
        supports_restart_frame: false,
        supports_goto_targets_request: false,
        supports_step_in_targets_request: false,
        supports_completions_request: false,
        completion_trigger_characters: false,
        supports_modules_request: false,
        additional_module_columns: false,
        supported_checksum_algorithms: false,
        supports_restart_request: false,
        supports_exception_options: false,
        supports_value_formatting_options: false,
        supports_exception_info_request: false,
        support_terminate_debuggee: false,
        support_suspend_debuggee: false,
        supports_delayed_stack_trace_loading: false,
        supports_loaded_sources_request: false,
        supports_log_points: false,
        supports_terminate_threads_request: false,
        supports_set_expression: false,
        supports_terminate_request: false,
        supports_data_breakpoints: false,
        supports_read_memory_request: false,
        supports_write_memory_request: false,
        supports_disassemble_request: false,
        supports_cancel_request: false,
        supports_breakpoint_locations_request: false,
        supports_clipboard_context: false,
        supports_stepping_granularity: false,
        supports_instruction_breakpoints: false,
        supports_exception_filter_options: false,
        supports_single_thread_execution_requests: false,
    }
}

#[test]
fn initialize_response_stores_capabilities() {
    let mut state = State::new();
    let mut adapter = Adapter::new(test_config());
    let seq = adapter.send_request(initialize_request(None));
    assert!(adapter.capabilities.is_none());
    handle_response(
        &mut state,
        &mut adapter,
        response(1, seq, Response::Initialize(serde_defaults_capabilities())),
    );
    let caps = adapter.capabilities.as_ref().expect("capabilities stored");
    assert!(caps.supports_configuration_done_request);
}

#[test]
fn unmatched_response_is_ignored() {
    let mut state = State::new();
    let mut adapter = Adapter::new(test_config());
    // No request was registered under seq 5: the response is dropped.
    let actions = handle_response(
        &mut state,
        &mut adapter,
        response(9, 5, Response::Threads(ThreadsResponse {
            threads: vec![Thread { id: 3, name: "x".to_string() }],
        })),
    );
    assert!(state.threads.is_empty(), "no registry entry: the model must not move");
    assert!(matches!(actions[..], [Action::Redraw]));

    // A registered request of another command does not match either.
    let seq = adapter.send_request(Request::Threads);
    let actions = handle_response(&mut state, &mut adapter, response(10, seq, Response::Continue));
    assert!(actions.iter().all(|a| !matches!(a, Action::ClearJump)));
    assert_eq!(adapter.num_requests(), 0, "the mismatched entry is still popped");
}

#[test]
fn capabilities_populated_exactly_once() {
    let mut state = State::new();
    let mut adapter = Adapter::new(test_config());
    let seq = adapter.send_request(initialize_request(None));
    handle_response(
        &mut state,
        &mut adapter,
        response(1, seq, Response::Initialize(serde_defaults_capabilities())),
    );
    assert!(adapter.capabilities.is_some());

    // A duplicate (or spoofed) initialize response finds no registry
    // entry: capabilities stay as stored and no second launch goes out.
    let mut second = serde_defaults_capabilities();
    second.supports_configuration_done_request = false;
    let actions = handle_response(&mut state, &mut adapter, response(2, seq, Response::Initialize(second)));
    let caps = adapter.capabilities.as_ref().unwrap();
    assert!(caps.supports_configuration_done_request);
    assert!(actions.iter().all(|a| !matches!(a, Action::Request(_))));
}

#[test]
fn threads_response_prunes_stale_stopped_entries() {
    let mut state = State::new();
    let mut adapter = Adapter::new(test_config());
    state.stopped_threads.insert(1, "breakpoint".to_string());
    state.stopped_threads.insert(7, "pause".to_string());
    let seq = adapter.send_request(Request::Threads);
    handle_response(
        &mut state,
        &mut adapter,
        response(3, seq, Response::Threads(ThreadsResponse {
            threads: vec![Thread { id: 1, name: "main".to_string() }],
        })),
    );
    // Thread 7 is gone from the adapter's report: its entry goes too.
    assert_eq!(state.stopped_threads.get(&1).map(|s| s.as_str()), Some("breakpoint"));
    assert!(state.stopped_threads.get(&7).is_none());
    assert_eq!(state.stopped_threads.len(), 1);
}

#[test]
fn unsupported_reverse_request_fails_softly() {
    let (success, message) = unsupported_request_reply("startDebugging");
    assert!(!success);
    assert_eq!(message.as_deref(), Some("Unsupported request: startDebugging"));
}

#[test]
fn open_stop_reason_kept_verbatim() {
    let reason = StoppedReason::Other("watchpoint".to_string());
    assert_eq!(stopped_reason_label(&reason), "watchpoint");
    let mut state = State::new();
    handle_event(
        &mut state,
        Event::Stopped(StoppedBody {
            reason,
            description: None,
            thread_id: Some(4),
            preserve_focus_hint: false,
            text: None,
            all_threads_stopped: false,
            hit_breakpoint_ids: None,
        }),
    );
    assert_eq!(state.stopped_threads.get(&4).map(|s| s.as_str()), Some("watchpoint"));
}
