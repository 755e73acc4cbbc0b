//! The UI adapter's state and decisions: which widget is focused,
//! which list rows are selected or expanded, and the action list each
//! input produces.
//!
//! Rendering and terminal input decoding live outside the library; the
//! renderer hands the flattened row lists in via `update_items`, and
//! the input decoder hands one `UiInput` per key. Every decision in
//! between — focus cycling, selection bounds, expand/collapse, and
//! which requests a fetch needs — is made and proved here.

use vstd::prelude::*;

use crate::controller::{has_frame, Action, SessionModel, State};
use crate::msg::{ContinueArgs, Request, Scope, StackFrame, StackTraceArgs, StepInArgs,
    SteppingGranularity, Thread, Variable, VariablesArgs};

verus! {

/// The widget keyboard input goes to.
#[derive(Clone, Copy, Debug, PartialEq, Eq)]
pub enum FocusedWidget {
    CallStack,
    DebugConsole,
    Variables,
}

/// What a row of the variables widget stands for.
#[derive(Clone, Copy, Debug, PartialEq, Eq, Structural, Hash)]
pub enum VariablesItemKind {
    /// A scope: its index and its variables reference.
    Scope(i64, i64),
    /// A variable: its parent's variables reference and its index.
    Variable(i64, i64),
}

/// What a row of the call-stack widget stands for.
#[derive(Clone, Copy, Debug, PartialEq, Eq, Structural, Hash)]
pub enum CallStackItemKind {
    /// A thread header: the thread id.
    Thread(i64),
    /// A stack frame: its thread id and its frame id.
    StackFrame(i64, i64),
}

/// One decoded key of the UI, by what it asks for.
#[derive(Clone, Copy, Debug, PartialEq, Eq)]
pub enum UiInput {
    /// Expand or collapse the selected row.
    Expand,
    /// Focus the next widget.
    FocusNext,
    /// Focus the previous widget.
    FocusPrev,
    /// Select the first row.
    Top,
    /// Select the last row.
    Bottom,
    /// Move the selection down one row.
    Down,
    /// Move the selection up one row.
    Up,
    /// Resume the current thread.
    Continue,
    /// Step the current thread into the next call.
    StepIn,
    /// End the session.
    Quit,
    /// The terminal was resized.
    Resize,
}

/// A selection over a list of rows; the selection, when set, names a
/// row that exists.
pub struct ListStateWithData<T> {
    /// What each row stands for, top first.
    pub items: Vec<T>,
    /// The selected row.
    pub selected: Option<usize>,
}

/// The selected row's datum, when a valid row is selected.
pub open spec fn spec_selected_item<T>(l: ListStateWithData<T>) -> Option<T> {
    match l.selected {
        Some(i) => if i < l.items@.len() {
            Some(l.items@[i as int])
        } else {
            None
        },
        None => None,
    }
}

impl<T> ListStateWithData<T> {
    /// The selection never points past the rows.
    pub open spec fn wf(&self) -> bool {
        self.selected matches Some(i) ==> i < self.items@.len()
    }

    /// An empty list with nothing selected.
    pub fn new() -> (l: Self)
        ensures
            l.wf(),
            l.items@ == Seq::<T>::empty(),
            l.selected is None,
    {
        ListStateWithData { items: Vec::new(), selected: None }
    }

    /// The number of rows.
    pub fn len(&self) -> (n: usize)
        ensures
            n == self.items@.len(),
    {
        self.items.len()
    }

    /// Selects the given row, when it exists; otherwise the selection
    /// stays.
    pub fn select(&mut self, i: usize)
        requires
            old(self).wf(),
        ensures
            final(self).wf(),
            final(self).items == old(self).items,
            final(self).selected == if i < old(self).items@.len() {
                Some(i)
            } else {
                old(self).selected
            },
    {
        if i < self.items.len() {
            self.selected = Some(i);
        }
    }

    /// The selected row's index.
    pub fn selected(&self) -> (r: Option<usize>)
        ensures
            r == self.selected,
    {
        self.selected
    }

    /// The selected row's datum, when one is selected.
    pub fn selected_item(&self) -> (r: Option<&T>)
        ensures
            match r {
                Some(item) => spec_selected_item(*self) == Some(*item),
                None => spec_selected_item(*self) is None,
            },
    {
        match self.selected {
            Some(i) => {
                if i < self.items.len() {
                    Some(&self.items[i])
                } else {
                    None
                }
            },
            None => None,
        }
    }

    /// Replaces the rows and clamps the selection: nothing on an
    /// empty list, the first row when nothing was selected, else the
    /// old selection bounded by the new length.
    pub fn update_items(&mut self, items: Vec<T>)
        ensures
            final(self).wf(),
            final(self).items == items,
            final(self).selected == (if items@.len() == 0 {
                None::<usize>
            } else {
                match old(self).selected {
                    None => Some(0usize),
                    Some(i) => if i < items@.len() {
                        Some(i)
                    } else {
                        Some((items@.len() - 1) as usize)
                    },
                }
            }),
    {
        self.items = items;
        let n = self.items.len();
        if n == 0 {
            self.selected = None;
        } else {
            match self.selected {
                None => {
                    self.selected = Some(0);
                },
                Some(i) => {
                    if i >= n {
                        self.selected = Some(n - 1);
                    }
                },
            }
        }
    }
}

/// No element occurs twice.
pub open spec fn nodup<T>(s: Seq<T>) -> bool {
    forall|i: int, j: int| 0 <= i < j < s.len() ==> s[i] != s[j]
}

/// Whether the set holds the id.
fn contains_i64(v: &Vec<i64>, x: i64) -> (r: bool)
    ensures
        r == v@.contains(x),
{
    let mut i: usize = 0;
    while i < v.len()
        invariant
            0 <= i <= v@.len(),
            forall|j: int| 0 <= j < i ==> v@[j] != x,
        decreases v@.len() - i,
    {
        if v[i] == x {
            return true;
        }
        i = i + 1;
    }
    false
}

/// Removes the first occurrence of the id.
fn remove_first_i64(v: &mut Vec<i64>, x: i64)
    requires
        nodup(old(v)@),
    ensures
        nodup(final(v)@),
        !final(v)@.contains(x),
        forall|y: i64| y != x ==> final(v)@.contains(y) == old(v)@.contains(y),
{
    let mut i: usize = 0;
    while i < v.len()
        invariant
            0 <= i <= v@.len(),
            v@ == old(v)@,
            nodup(v@),
            forall|j: int| 0 <= j < i ==> v@[j] != x,
        decreases v@.len() - i,
    {
        if v[i] == x {
            let _ = v.remove(i);
            proof {
                lemma_remove_keeps(old(v)@, i as int, x);
            }
            return;
        }
        i = i + 1;
    }
}

/// Whether the set holds the row datum.
fn contains_var_item(v: &Vec<VariablesItemKind>, x: VariablesItemKind) -> (r: bool)
    ensures
        r == v@.contains(x),
{
    let mut i: usize = 0;
    while i < v.len()
        invariant
            0 <= i <= v@.len(),
            forall|j: int| 0 <= j < i ==> v@[j] != x,
        decreases v@.len() - i,
    {
        if v[i] == x {
            return true;
        }
        i = i + 1;
    }
    false
}

/// Removes the first occurrence of the row datum.
fn remove_first_var_item(v: &mut Vec<VariablesItemKind>, x: VariablesItemKind)
    requires
        nodup(old(v)@),
    ensures
        nodup(final(v)@),
        !final(v)@.contains(x),
        forall|y: VariablesItemKind| y != x ==> final(v)@.contains(y) == old(v)@.contains(y),
{
    let mut i: usize = 0;
    while i < v.len()
        invariant
            0 <= i <= v@.len(),
            v@ == old(v)@,
            nodup(v@),
            forall|j: int| 0 <= j < i ==> v@[j] != x,
        decreases v@.len() - i,
    {
        if v[i] == x {
            let _ = v.remove(i);
            proof {
                lemma_remove_keeps(old(v)@, i as int, x);
            }
            return;
        }
        i = i + 1;
    }
}

/// Removing position `i`, the only place `x` could stand, removes `x`
/// and nothing else from a duplicate-free sequence.
proof fn lemma_remove_keeps<T>(s: Seq<T>, i: int, x: T)
    requires
        nodup(s),
        0 <= i < s.len(),
        s[i] == x,
        forall|j: int| 0 <= j < i ==> s[j] != x,
    ensures
        nodup(s.remove(i)),
        !s.remove(i).contains(x),
        forall|y: T| y != x ==> s.remove(i).contains(y) == s.contains(y),
{
    let t = s.remove(i);
    assert forall|p: int, q: int| 0 <= p < q < t.len() implies t[p] != t[q] by {
        if q < i {
            assert(t[p] == s[p] && t[q] == s[q]);
        } else if p < i {
            assert(t[p] == s[p] && t[q] == s[q + 1]);
        } else {
            assert(t[p] == s[p + 1] && t[q] == s[q + 1]);
        }
    }
    assert forall|k: int| 0 <= k < t.len() implies t[k] != x by {
        if k < i {
            assert(t[k] == s[k]);
        } else {
            assert(t[k] == s[k + 1]);
        }
    }
    assert forall|y: T| y != x implies t.contains(y) == s.contains(y) by {
        if t.contains(y) {
            let k = choose|k: int| 0 <= k < t.len() && t[k] == y;
            if k < i {
                assert(s[k] == y);
            } else {
                assert(s[k + 1] == y);
            }
            assert(s.contains(y));
        }
        if s.contains(y) {
            let k = choose|k: int| 0 <= k < s.len() && s[k] == y;
            if k < i {
                assert(t[k] == y);
            } else {
                assert(k != i);
                assert(t[k - 1] == y);
            }
            assert(t.contains(y));
        }
    }
}

/// The widget after the focus moves forward.
pub open spec fn spec_next_widget(f: FocusedWidget) -> FocusedWidget {
    match f {
        FocusedWidget::CallStack => FocusedWidget::DebugConsole,
        FocusedWidget::DebugConsole => FocusedWidget::Variables,
        FocusedWidget::Variables => FocusedWidget::CallStack,
    }
}

/// The widget after the focus moves backward.
pub open spec fn spec_prev_widget(f: FocusedWidget) -> FocusedWidget {
    match f {
        FocusedWidget::CallStack => FocusedWidget::Variables,
        FocusedWidget::DebugConsole => FocusedWidget::CallStack,
        FocusedWidget::Variables => FocusedWidget::DebugConsole,
    }
}

/// The reference whose children a variable row's expansion must
/// fetch: set when the row names a stored variable whose children are
/// expandable and not yet fetched.
pub open spec fn spec_child_ref(vars: Map<i64, Vec<Variable>>, parent: i64, index: i64) -> Option<
    i64,
> {
    if vars.contains_key(parent) && 0 <= index < vars[parent]@.len() {
        let r = vars[parent]@[index as int].variables_reference;
        if r > 0 && !vars.contains_key(r) {
            Some(r)
        } else {
            None
        }
    } else {
        None
    }
}

/// A `variables` request for one reference.
pub open spec fn spec_variables_request(reference: i64) -> Action {
    Action::Request(
        Request::Variables(
            VariablesArgs { variables_reference: reference, filter: None, start: None, count: None },
        ),
    )
}

/// A `stackTrace` request for one thread.
pub open spec fn spec_stack_trace_request(thread_id: i64) -> Action {
    Action::Request(
        Request::StackTrace(
            StackTraceArgs { thread_id, start_frame: None, levels: None, format: None },
        ),
    )
}

/// The UI adapter's state.
pub struct Ui {
    /// The widget keyboard input goes to.
    pub focused: FocusedWidget,
    /// The call-stack rows and their selection.
    pub call_stack_list: ListStateWithData<CallStackItemKind>,
    /// The threads whose frames are unfolded.
    pub expanded_threads: Vec<i64>,
    /// The variables rows and their selection.
    pub variables_list: ListStateWithData<VariablesItemKind>,
    /// The scopes and variables whose children are unfolded.
    pub expanded_variables: Vec<VariablesItemKind>,
}

impl Ui {
    /// Selections stay in bounds and nothing is unfolded twice.
    pub open spec fn wf(&self) -> bool {
        &&& self.call_stack_list.wf()
        &&& self.variables_list.wf()
        &&& nodup(self.expanded_threads@)
        &&& nodup(self.expanded_variables@)
    }

    /// A fresh UI: variables focused, nothing listed or unfolded.
    pub fn new() -> (u: Ui)
        ensures
            u.wf(),
            u.focused is Variables,
            u.call_stack_list.items@ == Seq::<CallStackItemKind>::empty(),
            u.variables_list.items@ == Seq::<VariablesItemKind>::empty(),
            u.expanded_threads@ == Seq::<i64>::empty(),
            u.expanded_variables@ == Seq::<VariablesItemKind>::empty(),
    {
        Ui {
            focused: FocusedWidget::Variables,
            call_stack_list: ListStateWithData::new(),
            expanded_threads: Vec::new(),
            variables_list: ListStateWithData::new(),
            expanded_variables: Vec::new(),
        }
    }

    /// Applies one input: moves focus or selection, folds or unfolds
    /// the selected row, and produces the actions the input asks for —
    /// fetch requests only for data the model does not hold yet.
    pub fn handle_input(&mut self, state: &mut State, input: UiInput) -> (actions: Vec<Action>)
        requires
            old(self).wf(),
        ensures
            final(self).wf(),
            old(state).console@.is_prefix_of(final(state).console@),
            (old(state).stopped_known() ==> final(state).stopped_known()),
            (input is Quit ==> *final(self) == *old(self) && final(state).model() == old(state).model() && actions@ == seq![Action::Quit]),
            (input is Resize ==> *final(self) == *old(self) && final(state).model() == old(state).model() && actions@ == seq![Action::Redraw]),
            (input is Continue ==> *final(self) == *old(self) && final(state).model() == old(state).model() && actions@ == seq![
                Action::Request(
                    Request::Continue(
                        ContinueArgs {
                            thread_id: old(state).current_thread,
                            single_thread: true,
                        },
                    ),
                ),
            ]),
            (input is StepIn ==> *final(self) == *old(self) && final(state).model() == old(state).model() && actions@ == seq![
                Action::Request(
                    Request::StepIn(
                        StepInArgs {
                            thread_id: old(state).current_thread,
                            single_thread: true,
                            target_id: None,
                            granularity: Some(SteppingGranularity::Line),
                        },
                    ),
                ),
            ]),
            (input is FocusNext ==> final(self).focused == spec_next_widget(old(self).focused)
                && final(self).call_stack_list == old(self).call_stack_list && final(self).variables_list == old(self).variables_list && final(state).model() == old(state).model() && actions@ == seq![Action::Redraw]),
            (input is FocusPrev ==> final(self).focused == spec_prev_widget(old(self).focused)
                && final(self).call_stack_list == old(self).call_stack_list && final(self).variables_list == old(self).variables_list && final(state).model() == old(state).model() && actions@ == seq![Action::Redraw]),
            ((input is Top || input is Bottom || input is Down || input is Up) ==> {
                &&& final(state).model() == old(state).model()
                &&& final(self).focused == old(self).focused
                &&& final(self).expanded_threads == old(self).expanded_threads
                &&& final(self).expanded_variables == old(self).expanded_variables
                &&& final(self).call_stack_list.items == old(self).call_stack_list.items
                &&& final(self).variables_list.items == old(self).variables_list.items
                &&& (old(self).focused is DebugConsole ==> *final(self) == *old(self) && actions@
                    == Seq::<Action>::empty())
                &&& (!(old(self).focused is DebugConsole) ==> {
                    let n = if old(self).focused is Variables {
                        old(self).variables_list.items@.len()
                    } else {
                        old(self).call_stack_list.items@.len()
                    };
                    let sel0 = if old(self).focused is Variables {
                        old(self).variables_list.selected
                    } else {
                        old(self).call_stack_list.selected
                    };
                    let sel = if old(self).focused is Variables {
                        final(self).variables_list.selected
                    } else {
                        final(self).call_stack_list.selected
                    };
                    &&& (old(self).focused is Variables ==> final(self).call_stack_list == old(self).call_stack_list)
                    &&& (old(self).focused is CallStack ==> final(self).variables_list == old(self).variables_list)
                    &&& (input is Top ==> sel == (if n > 0 {
                        Some(0usize)
                    } else {
                        sel0
                    }) && actions@ == seq![Action::Redraw])
                    &&& (input is Bottom ==> sel == (if n > 0 {
                        Some((n - 1) as usize)
                    } else {
                        sel0
                    }) && actions@ == seq![Action::Redraw])
                    &&& (input is Down ==> match sel0 {
                        Some(i) => sel == (if i + 1 < n {
                            Some((i + 1) as usize)
                        } else {
                            sel0
                        }) && actions@ == seq![Action::Redraw],
                        None => sel == sel0 && actions@ == Seq::<Action>::empty(),
                    })
                    &&& (input is Up ==> match sel0 {
                        Some(i) => if i > 0 {
                            sel == Some((i - 1) as usize) && actions@ == seq![Action::Redraw]
                        } else {
                            sel == sel0 && actions@ == Seq::<Action>::empty()
                        },
                        None => sel == sel0 && actions@ == Seq::<Action>::empty(),
                    })
                })
            }),
            (input is Expand ==> {
                &&& (old(self).focused is DebugConsole ==> *final(self) == *old(self) && final(state).model() == old(state).model() && actions@ == Seq::<Action>::empty())
                &&& (old(self).focused is Variables ==> {
                    &&& final(state).model() == old(state).model()
                    &&& final(self).focused == old(self).focused
                    &&& final(self).call_stack_list == old(self).call_stack_list
                    &&& final(self).expanded_threads == old(self).expanded_threads
                    &&& final(self).variables_list == old(self).variables_list
                    &&& match spec_selected_item(old(self).variables_list) {
                        None => final(self).expanded_variables == old(self).expanded_variables
                            && actions@ == Seq::<Action>::empty(),
                        Some(item) => {
                            &&& (old(self).expanded_variables@.contains(item) ==> !final(self).expanded_variables@.contains(item) && actions@ == seq![
                                Action::Redraw,
                            ])
                            &&& (!old(self).expanded_variables@.contains(item) ==> {
                                &&& final(self).expanded_variables@ == old(self).expanded_variables@.push(item)
                                &&& (item matches VariablesItemKind::Scope(_, reference) ==>
                                    actions@ == if !old(state).variables@.contains_key(reference) {
                                        seq![spec_variables_request(reference), Action::Redraw]
                                    } else {
                                        seq![Action::Redraw]
                                    })
                                &&& (item matches VariablesItemKind::Variable(parent, index) ==>
                                    actions@ == match spec_child_ref(
                                        old(state).variables@,
                                        parent,
                                        index,
                                    ) {
                                        Some(r) => seq![
                                            spec_variables_request(r),
                                            Action::Redraw,
                                        ],
                                        None => seq![Action::Redraw],
                                    })
                            })
                        },
                    }
                })
                &&& (old(self).focused is CallStack ==> {
                    &&& final(self).focused == old(self).focused
                    &&& final(self).variables_list == old(self).variables_list
                    &&& final(self).expanded_variables == old(self).expanded_variables
                    &&& final(self).call_stack_list == old(self).call_stack_list
                    &&& match spec_selected_item(old(self).call_stack_list) {
                        None => final(self).expanded_threads == old(self).expanded_threads
                            && final(state).model() == old(state).model() && actions@ == Seq::<
                            Action,
                        >::empty(),
                        Some(item) => {
                            &&& (item matches CallStackItemKind::Thread(tid) ==> {
                                &&& final(state).model() == old(state).model()
                                &&& (old(self).expanded_threads@.contains(tid) ==> !final(self).expanded_threads@.contains(tid) && actions@ == seq![
                                    Action::Redraw,
                                ])
                                &&& (!old(self).expanded_threads@.contains(tid) ==> {
                                    &&& final(self).expanded_threads@ == old(self).expanded_threads@.push(tid)
                                    &&& actions@ == if !old(state).stack_frames@.contains_key(
                                        tid,
                                    ) {
                                        seq![spec_stack_trace_request(tid), Action::Redraw]
                                    } else {
                                        seq![Action::Redraw]
                                    }
                                })
                            })
                            &&& (item matches CallStackItemKind::StackFrame(tid, fid) ==> {
                                &&& final(state).model() == (SessionModel {
                                    current_thread: tid,
                                    current_stack_frame: fid,
                                    ..old(state).model()
                                })
                                &&& final(self).expanded_threads == old(self).expanded_threads
                                &&& actions@ == seq![Action::Jump, Action::Redraw]
                                &&& (old(state).stack_frames@.contains_key(tid) && has_frame(
                                    old(state).stack_frames@[tid]@,
                                    fid,
                                ) ==> final(state).frame_ok())
                            })
                        },
                    }
                })
            }),
    {
        let mut actions: Vec<Action> = Vec::new();
        match input {
            UiInput::Quit => {
                actions.push(Action::Quit);
                proof {
                    assert(actions@ =~= seq![Action::Quit]);
                }
            },
            UiInput::Resize => {
                actions.push(Action::Redraw);
                proof {
                    assert(actions@ =~= seq![Action::Redraw]);
                }
            },
            UiInput::Continue => {
                actions.push(
                    Action::Request(
                        Request::Continue(
                            ContinueArgs { thread_id: state.current_thread, single_thread: true },
                        ),
                    ),
                );
                proof {
                    assert(actions@ =~= seq![
                        Action::Request(
                            Request::Continue(
                                ContinueArgs {
                                    thread_id: old(state).current_thread,
                                    single_thread: true,
                                },
                            ),
                        ),
                    ]);
                }
            },
            UiInput::StepIn => {
                actions.push(
                    Action::Request(
                        Request::StepIn(
                            StepInArgs {
                                thread_id: state.current_thread,
                                single_thread: true,
                                target_id: None,
                                granularity: Some(SteppingGranularity::Line),
                            },
                        ),
                    ),
                );
                proof {
                    assert(actions@ =~= seq![
                        Action::Request(
                            Request::StepIn(
                                StepInArgs {
                                    thread_id: old(state).current_thread,
                                    single_thread: true,
                                    target_id: None,
                                    granularity: Some(SteppingGranularity::Line),
                                },
                            ),
                        ),
                    ]);
                }
            },
            UiInput::FocusNext => {
                self.focused = match self.focused {
                    FocusedWidget::CallStack => FocusedWidget::DebugConsole,
                    FocusedWidget::DebugConsole => FocusedWidget::Variables,
                    FocusedWidget::Variables => FocusedWidget::CallStack,
                };
                actions.push(Action::Redraw);
                proof {
                    assert(actions@ =~= seq![Action::Redraw]);
                }
            },
            UiInput::FocusPrev => {
                self.focused = match self.focused {
                    FocusedWidget::CallStack => FocusedWidget::Variables,
                    FocusedWidget::DebugConsole => FocusedWidget::CallStack,
                    FocusedWidget::Variables => FocusedWidget::DebugConsole,
                };
                actions.push(Action::Redraw);
                proof {
                    assert(actions@ =~= seq![Action::Redraw]);
                }
            },
            UiInput::Top => {
                match self.focused {
                    FocusedWidget::Variables => {
                        self.variables_list.select(0);
                        actions.push(Action::Redraw);
                    },
                    FocusedWidget::CallStack => {
                        self.call_stack_list.select(0);
                        actions.push(Action::Redraw);
                    },
                    FocusedWidget::DebugConsole => {},
                }
            },
            UiInput::Bottom => {
                match self.focused {
                    FocusedWidget::Variables => {
                        let n = self.variables_list.len();
                        if n > 0 {
                            self.variables_list.select(n - 1);
                        }
                        actions.push(Action::Redraw);
                    },
                    FocusedWidget::CallStack => {
                        let n = self.call_stack_list.len();
                        if n > 0 {
                            self.call_stack_list.select(n - 1);
                        }
                        actions.push(Action::Redraw);
                    },
                    FocusedWidget::DebugConsole => {},
                }
            },
            UiInput::Down => {
                match self.focused {
                    FocusedWidget::Variables => {
                        if let Some(i) = self.variables_list.selected() {
                            let n = self.variables_list.len();
                            proof {
                                assert(i < n);
                            }
                            self.variables_list.select(i + 1);
                            actions.push(Action::Redraw);
                        }
                    },
                    FocusedWidget::CallStack => {
                        if let Some(i) = self.call_stack_list.selected() {
                            let n = self.call_stack_list.len();
                            proof {
                                assert(i < n);
                            }
                            self.call_stack_list.select(i + 1);
                            actions.push(Action::Redraw);
                        }
                    },
                    FocusedWidget::DebugConsole => {},
                }
            },
            UiInput::Up => {
                match self.focused {
                    FocusedWidget::Variables => {
                        if let Some(i) = self.variables_list.selected() {
                            if i > 0 {
                                self.variables_list.select(i - 1);
                                actions.push(Action::Redraw);
                            }
                        }
                    },
                    FocusedWidget::CallStack => {
                        if let Some(i) = self.call_stack_list.selected() {
                            if i > 0 {
                                self.call_stack_list.select(i - 1);
                                actions.push(Action::Redraw);
                            }
                        }
                    },
                    FocusedWidget::DebugConsole => {},
                }
            },
            UiInput::Expand => {
                match self.focused {
                    FocusedWidget::DebugConsole => {},
                    FocusedWidget::Variables => {
                        let item = match self.variables_list.selected_item() {
                            Some(it) => Some(*it),
                            None => None,
                        };
                        if let Some(item) = item {
                            if contains_var_item(&self.expanded_variables, item) {
                                remove_first_var_item(&mut self.expanded_variables, item);
                            } else {
                                self.expanded_variables.push(item);
                                match item {
                                    VariablesItemKind::Scope(_, reference) => {
                                        if state.variables.get(&reference).is_none() {
                                            actions.push(
                                                Action::Request(
                                                    Request::Variables(
                                                        VariablesArgs {
                                                            variables_reference: reference,
                                                            filter: None,
                                                            start: None,
                                                            count: None,
                                                        },
                                                    ),
                                                ),
                                            );
                                        }
                                    },
                                    VariablesItemKind::Variable(parent, index) => {
                                        let child = child_fetch_ref(state, parent, index);
                                        if let Some(r) = child {
                                            actions.push(
                                                Action::Request(
                                                    Request::Variables(
                                                        VariablesArgs {
                                                            variables_reference: r,
                                                            filter: None,
                                                            start: None,
                                                            count: None,
                                                        },
                                                    ),
                                                ),
                                            );
                                        }
                                    },
                                }
                            }
                            actions.push(Action::Redraw);
                        }
                    },
                    FocusedWidget::CallStack => {
                        let item = match self.call_stack_list.selected_item() {
                            Some(it) => Some(*it),
                            None => None,
                        };
                        if let Some(item) = item {
                            match item {
                                CallStackItemKind::Thread(tid) => {
                                    if contains_i64(&self.expanded_threads, tid) {
                                        remove_first_i64(&mut self.expanded_threads, tid);
                                    } else {
                                        self.expanded_threads.push(tid);
                                        if !state.stack_frames.contains_key(&tid) {
                                            actions.push(
                                                Action::Request(
                                                    Request::StackTrace(
                                                        StackTraceArgs {
                                                            thread_id: tid,
                                                            start_frame: None,
                                                            levels: None,
                                                            format: None,
                                                        },
                                                    ),
                                                ),
                                            );
                                        }
                                    }
                                },
                                CallStackItemKind::StackFrame(tid, fid) => {
                                    state.current_thread = tid;
                                    state.current_stack_frame = fid;
                                    actions.push(Action::Jump);
                                },
                            }
                            actions.push(Action::Redraw);
                        }
                    },
                }
            },
        }
        actions
    }
}

/// The rows of the variables widget under one reference, starting at
/// variable `j`: one row per variable, each expanded expandable row
/// followed by its children, nesting cut off after `fuel` levels.
pub open spec fn spec_variable_rows(
    vars: Map<i64, Vec<Variable>>,
    reference: i64,
    j: int,
    expanded: Seq<VariablesItemKind>,
    fuel: nat,
) -> Seq<VariablesItemKind>
    decreases fuel, (if vars.contains_key(reference) && 0 <= j < vars[reference]@.len() {
        vars[reference]@.len() - j
    } else {
        0
    }),
{
    if !vars.contains_key(reference) || !(0 <= j < vars[reference]@.len()) {
        Seq::empty()
    } else {
        let row = VariablesItemKind::Variable(reference, j as i64);
        let v = vars[reference]@[j];
        let children = if v.variables_reference > 0 && expanded.contains(row) && fuel > 0 {
            spec_variable_rows(vars, v.variables_reference, 0, expanded, (fuel - 1) as nat)
        } else {
            Seq::empty()
        };
        seq![row] + children + spec_variable_rows(vars, reference, j + 1, expanded, fuel)
    }
}

/// The rows of the variables widget, starting at scope `k`: one row
/// per scope of the frame, each expanded scope followed by its
/// variables.
pub open spec fn spec_scope_rows(
    scopes: Seq<Scope>,
    k: int,
    vars: Map<i64, Vec<Variable>>,
    expanded: Seq<VariablesItemKind>,
    fuel: nat,
) -> Seq<VariablesItemKind>
    decreases (if 0 <= k < scopes.len() {
        scopes.len() - k
    } else {
        0
    }),
{
    if !(0 <= k < scopes.len()) {
        Seq::empty()
    } else {
        let row = VariablesItemKind::Scope(k as i64, scopes[k].variables_reference);
        let children = if expanded.contains(row) {
            spec_variable_rows(vars, scopes[k].variables_reference, 0, expanded, fuel)
        } else {
            Seq::empty()
        };
        seq![row] + children + spec_scope_rows(scopes, k + 1, vars, expanded, fuel)
    }
}

/// The rows of the call-stack widget, starting at thread `k`: one row
/// per thread, each expanded thread followed by its stack frames.
pub open spec fn spec_call_stack_rows(
    threads: Seq<Thread>,
    k: int,
    frames: Map<i64, Vec<StackFrame>>,
    expanded: Seq<i64>,
) -> Seq<CallStackItemKind>
    decreases (if 0 <= k < threads.len() {
        threads.len() - k
    } else {
        0
    }),
{
    if !(0 <= k < threads.len()) {
        Seq::empty()
    } else {
        let id = threads[k].id;
        let frame_rows = if expanded.contains(id) && frames.contains_key(id) {
            frames[id]@.map_values(|f: StackFrame| CallStackItemKind::StackFrame(id, f.id))
        } else {
            Seq::<CallStackItemKind>::empty()
        };
        seq![CallStackItemKind::Thread(id)] + frame_rows + spec_call_stack_rows(
            threads,
            k + 1,
            frames,
            expanded,
        )
    }
}

/// Appends the rows under one variables reference, per
/// `spec_variable_rows`.
fn push_variable_rows(
    state: &State,
    reference: i64,
    expanded: &Vec<VariablesItemKind>,
    fuel: usize,
    out: &mut Vec<VariablesItemKind>,
)
    ensures
        final(out)@ == old(out)@ + spec_variable_rows(
            state.variables@,
            reference,
            0,
            expanded@,
            fuel as nat,
        ),
    decreases fuel,
{
    let ghost vm = state.variables@;
    let ghost e = expanded@;
    let vars = match state.variables.get(&reference) {
        Some(v) => v,
        None => {
            proof {
                assert(old(out)@ + spec_variable_rows(vm, reference, 0, e, fuel as nat) =~= old(
                    out,
                )@);
            }
            return;
        },
    };
    let mut j: usize = 0;
    while j < vars.len()
        invariant
            0 <= j <= vars@.len(),
            vm == state.variables@,
            e == expanded@,
            vm.contains_key(reference),
            vars@ == vm[reference]@,
            out@ + spec_variable_rows(vm, reference, j as int, e, fuel as nat) == old(out)@
                + spec_variable_rows(vm, reference, 0, e, fuel as nat),
        decreases vars@.len() - j,
    {
        let row = VariablesItemKind::Variable(reference, j as i64);
        let ghost out0 = out@;
        out.push(row);
        let child_ref = vars[j].variables_reference;
        if child_ref > 0 && fuel > 0 && contains_var_item(expanded, row) {
            push_variable_rows(state, child_ref, expanded, fuel - 1, out);
        }
        proof {
            let children = if vm[reference]@[j as int].variables_reference > 0 && e.contains(row)
                && fuel > 0 {
                spec_variable_rows(
                    vm,
                    vm[reference]@[j as int].variables_reference,
                    0,
                    e,
                    (fuel - 1) as nat,
                )
            } else {
                Seq::<VariablesItemKind>::empty()
            };
            assert(spec_variable_rows(vm, reference, j as int, e, fuel as nat) == seq![row]
                + children + spec_variable_rows(vm, reference, j as int + 1, e, fuel as nat));
            assert(out@ =~= out0 + seq![row] + children);
            assert(out@ + spec_variable_rows(vm, reference, j as int + 1, e, fuel as nat) =~= old(
                out,
            )@ + spec_variable_rows(vm, reference, 0, e, fuel as nat));
        }
        j = j + 1;
    }
    proof {
        assert(spec_variable_rows(vm, reference, j as int, e, fuel as nat) =~= Seq::<
            VariablesItemKind,
        >::empty());
        assert(out@ + Seq::<VariablesItemKind>::empty() =~= out@);
    }
}

impl Ui {
    /// The rows of the variables widget for the current stack frame,
    /// top first, as the renderer must list them: one row per scope,
    /// each unfolded row followed by its children. Nesting is cut off
    /// after `fuel` levels; on acyclic data a `fuel` of at least the
    /// number of unfolded rows unfolds everything.
    pub fn variables_rows(&self, state: &State, fuel: usize) -> (rows: Vec<VariablesItemKind>)
        ensures
            rows@ == (if state.scopes@.contains_key(state.current_stack_frame) {
                spec_scope_rows(
                    state.scopes@[state.current_stack_frame]@,
                    0,
                    state.variables@,
                    self.expanded_variables@,
                    fuel as nat,
                )
            } else {
                Seq::<VariablesItemKind>::empty()
            }),
    {
        let mut rows: Vec<VariablesItemKind> = Vec::new();
        let scopes = match state.scopes.get(&state.current_stack_frame) {
            Some(s) => s,
            None => {
                return rows;
            },
        };
        let ghost sseq = scopes@;
        let ghost vm = state.variables@;
        let ghost e = self.expanded_variables@;
        let ghost base = spec_scope_rows(sseq, 0, vm, e, fuel as nat);
        let mut k: usize = 0;
        while k < scopes.len()
            invariant
                0 <= k <= sseq.len(),
                sseq == scopes@,
                vm == state.variables@,
                e == self.expanded_variables@,
                base == spec_scope_rows(sseq, 0, vm, e, fuel as nat),
                rows@ + spec_scope_rows(sseq, k as int, vm, e, fuel as nat) == base,
            decreases sseq.len() - k,
        {
            let row = VariablesItemKind::Scope(k as i64, scopes[k].variables_reference);
            let ghost rows0 = rows@;
            rows.push(row);
            if contains_var_item(&self.expanded_variables, row) {
                push_variable_rows(
                    state,
                    scopes[k].variables_reference,
                    &self.expanded_variables,
                    fuel,
                    &mut rows,
                );
            }
            proof {
                let children = if e.contains(row) {
                    spec_variable_rows(vm, sseq[k as int].variables_reference, 0, e, fuel as nat)
                } else {
                    Seq::<VariablesItemKind>::empty()
                };
                assert(spec_scope_rows(sseq, k as int, vm, e, fuel as nat) == seq![row] + children
                    + spec_scope_rows(sseq, k as int + 1, vm, e, fuel as nat));
                assert(rows@ =~= rows0 + seq![row] + children);
                assert(rows@ + spec_scope_rows(sseq, k as int + 1, vm, e, fuel as nat) =~= base);
            }
            k = k + 1;
        }
        proof {
            assert(spec_scope_rows(sseq, k as int, vm, e, fuel as nat) =~= Seq::<
                VariablesItemKind,
            >::empty());
            assert(rows@ + Seq::<VariablesItemKind>::empty() =~= rows@);
        }
        rows
    }

    /// The rows of the call-stack widget, top first, as the renderer
    /// must list them: one row per thread, each unfolded thread
    /// followed by its stack frames.
    pub fn call_stack_rows(&self, state: &State) -> (rows: Vec<CallStackItemKind>)
        ensures
            rows@ == spec_call_stack_rows(
                state.threads@,
                0,
                state.stack_frames@,
                self.expanded_threads@,
            ),
    {
        let mut rows: Vec<CallStackItemKind> = Vec::new();
        let ghost tseq = state.threads@;
        let ghost fm = state.stack_frames@;
        let ghost e = self.expanded_threads@;
        let mut k: usize = 0;
        while k < state.threads.len()
            invariant
                0 <= k <= tseq.len(),
                tseq == state.threads@,
                fm == state.stack_frames@,
                e == self.expanded_threads@,
                rows@ + spec_call_stack_rows(tseq, k as int, fm, e) == spec_call_stack_rows(
                    tseq,
                    0,
                    fm,
                    e,
                ),
            decreases tseq.len() - k,
        {
            let id = state.threads[k].id;
            let ghost rows0 = rows@;
            rows.push(CallStackItemKind::Thread(id));
            let ghost frame_rows = if e.contains(id) && fm.contains_key(id) {
                fm[id]@.map_values(|f: StackFrame| CallStackItemKind::StackFrame(id, f.id))
            } else {
                Seq::<CallStackItemKind>::empty()
            };
            if contains_i64(&self.expanded_threads, id) {
                if let Some(frames) = state.stack_frames.get(&id) {
                    let mut f: usize = 0;
                    proof {
                        assert(frame_rows.take(0) =~= Seq::<CallStackItemKind>::empty());
                        assert(rows@ =~= rows0 + seq![CallStackItemKind::Thread(id)]
                            + frame_rows.take(0));
                    }
                    while f < frames.len()
                        invariant
                            0 <= f <= frames@.len(),
                            fm.contains_key(id),
                            frames@ == fm[id]@,
                            e.contains(id),
                            frame_rows == fm[id]@.map_values(
                                |fr: StackFrame| CallStackItemKind::StackFrame(id, fr.id),
                            ),
                            rows@ == rows0 + seq![CallStackItemKind::Thread(id)]
                                + frame_rows.take(f as int),
                        decreases frames@.len() - f,
                    {
                        rows.push(CallStackItemKind::StackFrame(id, frames[f].id));
                        proof {
                            assert(frame_rows[f as int] == CallStackItemKind::StackFrame(
                                id,
                                fm[id]@[f as int].id,
                            ));
                            assert(frame_rows.take(f as int + 1) =~= frame_rows.take(
                                f as int,
                            ).push(frame_rows[f as int]));
                            assert(rows@ =~= rows0 + seq![CallStackItemKind::Thread(id)]
                                + frame_rows.take(f as int + 1));
                        }
                        f = f + 1;
                    }
                    proof {
                        assert(frame_rows.take(frames@.len() as int) =~= frame_rows);
                    }
                }
            }
            proof {
                assert(spec_call_stack_rows(tseq, k as int, fm, e) == seq![
                    CallStackItemKind::Thread(id),
                ] + frame_rows + spec_call_stack_rows(tseq, k as int + 1, fm, e));
                assert(rows@ =~= rows0 + seq![CallStackItemKind::Thread(id)] + frame_rows);
                assert(rows@ + spec_call_stack_rows(tseq, k as int + 1, fm, e)
                    =~= spec_call_stack_rows(tseq, 0, fm, e));
            }
            k = k + 1;
        }
        proof {
            assert(spec_call_stack_rows(tseq, k as int, fm, e) =~= Seq::<
                CallStackItemKind,
            >::empty());
            assert(rows@ + Seq::<CallStackItemKind>::empty() =~= rows@);
        }
        rows
    }
}

/// The reference to fetch for an expanded variable row, when its
/// children are expandable and not yet held.
fn child_fetch_ref(state: &State, parent: i64, index: i64) -> (r: Option<i64>)
    ensures
        r == spec_child_ref(state.variables@, parent, index),
{
    if index < 0 {
        return None;
    }
    match state.variables.get(&parent) {
        Some(vars) => {
            if (index as u128) < (vars.len() as u128) {
                let idx = index as usize;
                let reference = vars[idx].variables_reference;
                if reference > 0 && !state.variables.contains_key(&reference) {
                    Some(reference)
                } else {
                    None
                }
            } else {
                None
            }
        },
        None => None,
    }
}

} // verus!
