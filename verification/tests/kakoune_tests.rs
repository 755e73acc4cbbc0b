//! The editor endpoint: jump marker bookkeeping and shutdown.

use pesticide::controller::State;
use pesticide::kakoune::Kakoune;
use pesticide::msg::{Source, StackFrame};

fn frame(id: i64, path: &str, line: i64) -> StackFrame {
    StackFrame {
        id,
        name: "f".to_string(),
        source: Some(Source { name: None, path: Some(path.to_string()) }),
        line,
        column: 1,
        presentation_hint: None,
    }
}

#[test]
fn jump_marks_current_frame() {
    let mut kak = Kakoune::new("s1".to_string());
    let mut state = State::new();
    state.current_thread = 1;
    state.current_stack_frame = 42;
    state.stack_frames.insert(1, vec![frame(41, "/other.py", 9), frame(42, "/a.py", 7)]);
    let plan = kak.jump(&state);
    assert_eq!(plan.clear_first, None);
    assert_eq!(plan.path, "/a.py");
    assert_eq!(plan.line, 7);
    assert_eq!(kak.current_jump, Some(("/a.py".to_string(), 7)));
}

#[test]
fn jump_into_other_file_clears_previous_marker() {
    let mut kak = Kakoune::new("s1".to_string());
    let mut state = State::new();
    state.current_thread = 1;
    state.current_stack_frame = 1;
    state.stack_frames.insert(1, vec![frame(1, "/a.py", 3)]);
    kak.jump(&state);

    // Same file again: nothing to clear.
    state.stack_frames.insert(1, vec![frame(1, "/a.py", 5)]);
    let plan = kak.jump(&state);
    assert_eq!(plan.clear_first, None);
    assert_eq!(plan.line, 5);

    // A different file: the old marker is cleared first.
    state.stack_frames.insert(1, vec![frame(1, "/b.py", 2)]);
    let plan = kak.jump(&state);
    assert_eq!(plan.clear_first, Some("/a.py".to_string()));
    assert_eq!(plan.path, "/b.py");
}

#[test]
fn clear_jump_takes_the_marker_out() {
    let mut kak = Kakoune::new("s1".to_string());
    assert_eq!(kak.clear_jump(), None);
    kak.current_jump = Some(("/a.py".to_string(), 3));
    assert_eq!(kak.clear_jump(), Some("/a.py".to_string()));
    assert_eq!(kak.current_jump, None);
    assert_eq!(kak.clear_jump(), None);
}

#[test]
fn quit_clears_marker_and_breakpoints() {
    let mut kak = Kakoune::new("s1".to_string());
    let mut state = State::new();
    kak.current_jump = Some(("/a.py".to_string(), 3));
    state.breakpoints.insert("/a.py".to_string(), vec![]);
    let cleared = kak.quit(&mut state);
    assert_eq!(cleared, Some("/a.py".to_string()));
    assert_eq!(kak.current_jump, None);
    assert_eq!(state.breakpoints.len(), 0);
}
