//! The UI adapter: focus, selection, folding, and derived requests.

use pesticide::controller::{Action, State};
use pesticide::msg::{Request, Scope, StackFrame, Thread, Variable};
use pesticide::ui::{
    CallStackItemKind, FocusedWidget, ListStateWithData, Ui, UiInput, VariablesItemKind,
};

#[test]
fn focus_cycles_both_ways() {
    let mut ui = Ui::new();
    let mut state = State::new();
    assert!(matches!(ui.focused, FocusedWidget::Variables));
    ui.handle_input(&mut state, UiInput::FocusNext);
    assert!(matches!(ui.focused, FocusedWidget::CallStack));
    ui.handle_input(&mut state, UiInput::FocusNext);
    assert!(matches!(ui.focused, FocusedWidget::DebugConsole));
    ui.handle_input(&mut state, UiInput::FocusNext);
    assert!(matches!(ui.focused, FocusedWidget::Variables));
    ui.handle_input(&mut state, UiInput::FocusPrev);
    assert!(matches!(ui.focused, FocusedWidget::DebugConsole));
    ui.handle_input(&mut state, UiInput::FocusPrev);
    assert!(matches!(ui.focused, FocusedWidget::CallStack));
    ui.handle_input(&mut state, UiInput::FocusPrev);
    assert!(matches!(ui.focused, FocusedWidget::Variables));
}

#[test]
fn list_selection_stays_in_bounds() {
    let mut l: ListStateWithData<i32> = ListStateWithData::new();
    assert_eq!(l.selected(), None);
    l.update_items(vec![10, 20, 30]);
    assert_eq!(l.selected(), Some(0));
    l.select(2);
    assert_eq!(l.selected(), Some(2));
    l.select(9);
    assert_eq!(l.selected(), Some(2), "out-of-range select is ignored");
    l.update_items(vec![10]);
    assert_eq!(l.selected(), Some(0), "selection clamps to the new length");
    l.update_items(vec![]);
    assert_eq!(l.selected(), None, "empty list selects nothing");
    assert_eq!(l.selected_item(), None);
}

#[test]
fn movement_keys_follow_selection_rules() {
    let mut ui = Ui::new();
    let mut state = State::new();
    ui.variables_list.update_items(vec![
        VariablesItemKind::Scope(0, 100),
        VariablesItemKind::Variable(100, 0),
        VariablesItemKind::Variable(100, 1),
    ]);
    assert_eq!(ui.variables_list.selected(), Some(0));
    ui.handle_input(&mut state, UiInput::Down);
    assert_eq!(ui.variables_list.selected(), Some(1));
    ui.handle_input(&mut state, UiInput::Bottom);
    assert_eq!(ui.variables_list.selected(), Some(2));
    ui.handle_input(&mut state, UiInput::Down);
    assert_eq!(ui.variables_list.selected(), Some(2), "no move past the last row");
    ui.handle_input(&mut state, UiInput::Top);
    assert_eq!(ui.variables_list.selected(), Some(0));
    ui.handle_input(&mut state, UiInput::Up);
    assert_eq!(ui.variables_list.selected(), Some(0), "no move before the first row");
}

#[test]
fn expanding_scope_fetches_missing_variables() {
    let mut ui = Ui::new();
    let mut state = State::new();
    ui.variables_list.update_items(vec![VariablesItemKind::Scope(0, 100)]);
    let actions = ui.handle_input(&mut state, UiInput::Expand);
    assert_eq!(actions.len(), 2);
    match &actions[0] {
        Action::Request(Request::Variables(args)) => {
            assert_eq!(args.variables_reference, 100);
        }
        other => panic!("expected a variables request, got {:?}", other),
    }
    assert!(matches!(actions[1], Action::Redraw));

    // Collapsing asks for nothing.
    let actions = ui.handle_input(&mut state, UiInput::Expand);
    assert!(matches!(actions[..], [Action::Redraw]));

    // Expanding again with the data already held asks for nothing.
    state.variables.insert(100, vec![]);
    let actions = ui.handle_input(&mut state, UiInput::Expand);
    assert!(matches!(actions[..], [Action::Redraw]));
}

#[test]
fn expanding_variable_fetches_its_children() {
    let mut ui = Ui::new();
    let mut state = State::new();
    state.variables.insert(
        100,
        vec![Variable { name: "xs".to_string(), value: "[1]".to_string(), variables_reference: 200 }],
    );
    ui.variables_list.update_items(vec![VariablesItemKind::Variable(100, 0)]);
    let actions = ui.handle_input(&mut state, UiInput::Expand);
    match &actions[0] {
        Action::Request(Request::Variables(args)) => {
            assert_eq!(args.variables_reference, 200);
        }
        other => panic!("expected a variables request, got {:?}", other),
    }

    // A leaf variable (reference 0) asks for nothing.
    let mut ui = Ui::new();
    state.variables.insert(
        300,
        vec![Variable { name: "n".to_string(), value: "1".to_string(), variables_reference: 0 }],
    );
    ui.variables_list.update_items(vec![VariablesItemKind::Variable(300, 0)]);
    let actions = ui.handle_input(&mut state, UiInput::Expand);
    assert!(matches!(actions[..], [Action::Redraw]));
}

#[test]
fn expanding_thread_fetches_missing_frames() {
    let mut ui = Ui::new();
    let mut state = State::new();
    ui.handle_input(&mut state, UiInput::FocusNext);
    assert!(matches!(ui.focused, FocusedWidget::CallStack));
    ui.call_stack_list.update_items(vec![CallStackItemKind::Thread(1)]);
    let actions = ui.handle_input(&mut state, UiInput::Expand);
    match &actions[0] {
        Action::Request(Request::StackTrace(args)) => {
            assert_eq!(args.thread_id, 1);
        }
        other => panic!("expected a stackTrace request, got {:?}", other),
    }
    // Collapsing folds the thread back without a request.
    let actions = ui.handle_input(&mut state, UiInput::Expand);
    assert!(matches!(actions[..], [Action::Redraw]));
}

#[test]
fn selecting_frame_jumps_there() {
    let mut ui = Ui::new();
    let mut state = State::new();
    ui.handle_input(&mut state, UiInput::FocusNext);
    ui.call_stack_list.update_items(vec![CallStackItemKind::StackFrame(1, 42)]);
    let actions = ui.handle_input(&mut state, UiInput::Expand);
    assert_eq!(state.current_thread, 1);
    assert_eq!(state.current_stack_frame, 42);
    assert!(matches!(actions[..], [Action::Jump, Action::Redraw]));
}

#[test]
fn session_keys_emit_requests() {
    let mut ui = Ui::new();
    let mut state = State::new();
    state.current_thread = 3;
    let actions = ui.handle_input(&mut state, UiInput::Continue);
    match &actions[0] {
        Action::Request(Request::Continue(args)) => {
            assert_eq!(args.thread_id, 3);
            assert!(args.single_thread);
        }
        other => panic!("expected a continue request, got {:?}", other),
    }
    let actions = ui.handle_input(&mut state, UiInput::StepIn);
    match &actions[0] {
        Action::Request(Request::StepIn(args)) => {
            assert_eq!(args.thread_id, 3);
        }
        other => panic!("expected a stepIn request, got {:?}", other),
    }
    let actions = ui.handle_input(&mut state, UiInput::Quit);
    assert!(matches!(actions[..], [Action::Quit]));
    let actions = ui.handle_input(&mut state, UiInput::Resize);
    assert!(matches!(actions[..], [Action::Redraw]));
}

#[test]
fn variables_rows_flatten_expanded_scopes() {
    let mut ui = Ui::new();
    let mut state = State::new();
    state.current_stack_frame = 42;
    state.scopes.insert(
        42,
        vec![Scope {
            name: "Locals".to_string(),
            presentation_hint: None,
            variables_reference: 100,
            expensive: false,
        }],
    );
    state.variables.insert(
        100,
        vec![
            Variable { name: "xs".to_string(), value: "[1]".to_string(), variables_reference: 200 },
            Variable { name: "n".to_string(), value: "1".to_string(), variables_reference: 0 },
        ],
    );
    state.variables.insert(
        200,
        vec![Variable { name: "0".to_string(), value: "1".to_string(), variables_reference: 0 }],
    );

    // Nothing unfolded: one row per scope.
    assert_eq!(ui.variables_rows(&state, 8), vec![VariablesItemKind::Scope(0, 100)]);

    // Unfolding the scope lists its variables.
    ui.expanded_variables.push(VariablesItemKind::Scope(0, 100));
    assert_eq!(
        ui.variables_rows(&state, 8),
        vec![
            VariablesItemKind::Scope(0, 100),
            VariablesItemKind::Variable(100, 0),
            VariablesItemKind::Variable(100, 1),
        ]
    );

    // Unfolding the expandable variable nests its children in place.
    ui.expanded_variables.push(VariablesItemKind::Variable(100, 0));
    assert_eq!(
        ui.variables_rows(&state, 8),
        vec![
            VariablesItemKind::Scope(0, 100),
            VariablesItemKind::Variable(100, 0),
            VariablesItemKind::Variable(200, 0),
            VariablesItemKind::Variable(100, 1),
        ]
    );
}

#[test]
fn call_stack_rows_flatten_expanded_threads() {
    let mut ui = Ui::new();
    let mut state = State::new();
    state.threads = vec![
        Thread { id: 1, name: "main".to_string() },
        Thread { id: 2, name: "worker".to_string() },
    ];
    state.stack_frames.insert(
        1,
        vec![
            StackFrame {
                id: 41,
                name: "f".to_string(),
                source: None,
                line: 1,
                column: 1,
                presentation_hint: None,
            },
            StackFrame {
                id: 42,
                name: "g".to_string(),
                source: None,
                line: 2,
                column: 1,
                presentation_hint: None,
            },
        ],
    );

    assert_eq!(
        ui.call_stack_rows(&state),
        vec![CallStackItemKind::Thread(1), CallStackItemKind::Thread(2)]
    );

    ui.expanded_threads.push(1);
    ui.expanded_threads.push(2);
    assert_eq!(
        ui.call_stack_rows(&state),
        vec![
            CallStackItemKind::Thread(1),
            CallStackItemKind::StackFrame(1, 41),
            CallStackItemKind::StackFrame(1, 42),
            // Thread 2 has no fetched frames yet.
            CallStackItemKind::Thread(2),
        ]
    );
}
