//! The session controller: the authoritative session model and the
//! transition rules that apply DAP semantics to inbound events,
//! requests and responses.
//!
//! Each handler mutates the model and returns the list of actions to
//! dispatch, in emission order; dispatching them is the only way the
//! controller touches the world. `SessionModel` is the mathematical
//! view of the state, and every handler's contract says exactly how
//! the model moves.

use vstd::prelude::*;

use crate::adapter::Adapter;
use crate::msg::{Event, Request, Response, ResponsePayload, Scope, ScopesArgs,
    Source, SourceBreakpoint, StackFrame, StackTraceArgs, Thread, Variable, VariablesArgs,
    SetBreakpointsArgs, LaunchArgs, spec_stopped_reason_label, stopped_reason_label};
use crate::text::{int_dec_chars, i64_to_string};

verus! {

use vstd::hash_map::HashMapWithView;
use vstd::hash_map::StringHashMap;
use vstd::string::StringExecFns;

broadcast use vstd::std_specs::hash::group_hash_axioms;

/// A side effect the controller asks its caller to perform, in order.
#[derive(Debug)]
pub enum Action {
    /// Clear the editor's step marker.
    ClearJump,
    /// Move the editor to the current stack frame's source line.
    Jump,
    /// End the session.
    Quit,
    /// Repaint the UI from the session model.
    Redraw,
    /// Send this request to the adapter.
    Request(Request),
    /// Refresh the editor's breakpoint markers.
    UpdateBreakpoints,
}

/// The in-memory session state.
pub struct State {
    /// The thread the session is currently stopped on.
    pub current_thread: i64,
    /// The stack frame the session is currently stopped on; 0 when no
    /// frame is known.
    pub current_stack_frame: i64,
    /// Stopped threads, each with the reason it stopped.
    pub stopped_threads: HashMapWithView<i64, String>,
    /// Whether the adapter announced that all threads stopped.
    pub all_threads_stopped: bool,
    /// The rolling console buffer; append-only within a session.
    pub console: Vec<String>,
    /// Known threads, as of the last `threads` response.
    pub threads: Vec<Thread>,
    /// Stack frames, per thread id.
    pub stack_frames: HashMapWithView<i64, Vec<StackFrame>>,
    /// Scopes, per stack frame id.
    pub scopes: HashMapWithView<i64, Vec<Scope>>,
    /// Variables, per variables reference.
    pub variables: HashMapWithView<i64, Vec<Variable>>,
    /// Source breakpoints, per source path.
    pub breakpoints: StringHashMap<Vec<SourceBreakpoint>>,
    /// The source paths that have an entry in `breakpoints`, in the
    /// order they first appeared; the map alone cannot be walked.
    pub breakpoint_paths: Vec<String>,
}

/// The mathematical view of the session state.
#[verifier::ext_equal]
pub ghost struct SessionModel {
    pub current_thread: i64,
    pub current_stack_frame: i64,
    pub stopped_threads: Map<i64, String>,
    pub all_threads_stopped: bool,
    pub console: Seq<String>,
    pub threads: Seq<Thread>,
    pub stack_frames: Map<i64, Vec<StackFrame>>,
    pub scopes: Map<i64, Vec<Scope>>,
    pub variables: Map<i64, Vec<Variable>>,
    pub breakpoints: Map<Seq<char>, Vec<SourceBreakpoint>>,
    pub breakpoint_paths: Seq<String>,
}

/// Whether some thread in the list carries the id.
pub open spec fn has_thread(threads: Seq<Thread>, id: i64) -> bool {
    exists|i: int| 0 <= i < threads.len() && #[trigger] threads[i].id == id
}

/// Whether some frame in the list carries the id.
pub open spec fn has_frame(frames: Seq<StackFrame>, id: i64) -> bool {
    exists|i: int| 0 <= i < frames.len() && #[trigger] frames[i].id == id
}

/// The index of the first thread with the id.
pub open spec fn spec_find_thread(threads: Seq<Thread>, id: i64) -> Option<int>
    decreases threads.len(),
{
    if threads.len() == 0 {
        None
    } else if threads[0].id == id {
        Some(0int)
    } else {
        match spec_find_thread(threads.skip(1), id) {
            Some(i) => Some(i + 1),
            None => None,
        }
    }
}

impl State {
    /// The mathematical view of this state.
    pub open spec fn model(&self) -> SessionModel {
        SessionModel {
            current_thread: self.current_thread,
            current_stack_frame: self.current_stack_frame,
            stopped_threads: self.stopped_threads@,
            all_threads_stopped: self.all_threads_stopped,
            console: self.console@,
            threads: self.threads@,
            stack_frames: self.stack_frames@,
            scopes: self.scopes@,
            variables: self.variables@,
            breakpoints: self.breakpoints@,
            breakpoint_paths: self.breakpoint_paths@,
        }
    }

    /// The path list names exactly the map's keys, each once.
    pub open spec fn paths_match(&self) -> bool {
        &&& (forall|i: int, j: int|
            0 <= i < j < self.breakpoint_paths@.len() ==> self.breakpoint_paths@[i]@
                != self.breakpoint_paths@[j]@)
        &&& (forall|i: int|
            0 <= i < self.breakpoint_paths@.len() ==> self.breakpoints@.contains_key(
                #[trigger] self.breakpoint_paths@[i]@,
            ))
        &&& (forall|k: Seq<char>| #[trigger] self.breakpoints@.contains_key(k) ==> exists|i: int|
            0 <= i < self.breakpoint_paths@.len() && #[trigger] self.breakpoint_paths@[i]@ == k)
    }

    /// The current stack frame is 0, or an id present in the stack
    /// frames of the current thread.
    pub open spec fn frame_ok(&self) -> bool {
        self.current_stack_frame == 0 || (self.stack_frames@.contains_key(self.current_thread)
            && has_frame(self.stack_frames@[self.current_thread]@, self.current_stack_frame))
    }

    /// Every stopped thread is among the known threads.
    pub open spec fn stopped_known(&self) -> bool {
        forall|t: i64| #[trigger] self.stopped_threads@.contains_key(t) ==> has_thread(
            self.threads@,
            t,
        )
    }

    /// All state is created empty when the controller starts.
    pub fn new() -> (s: State)
        ensures
            s.model() == (SessionModel {
                current_thread: 0,
                current_stack_frame: 0,
                stopped_threads: Map::<i64, String>::empty(),
                all_threads_stopped: false,
                console: Seq::<String>::empty(),
                threads: Seq::<Thread>::empty(),
                stack_frames: Map::<i64, Vec<StackFrame>>::empty(),
                scopes: Map::<i64, Vec<Scope>>::empty(),
                variables: Map::<i64, Vec<Variable>>::empty(),
                breakpoints: Map::<Seq<char>, Vec<SourceBreakpoint>>::empty(),
                breakpoint_paths: Seq::<String>::empty(),
            }),
            s.frame_ok(),
            s.stopped_known(),
            s.paths_match(),
    {
        State {
            current_thread: 0,
            current_stack_frame: 0,
            stopped_threads: HashMapWithView::new(),
            all_threads_stopped: false,
            console: Vec::new(),
            threads: Vec::new(),
            stack_frames: HashMapWithView::new(),
            scopes: HashMapWithView::new(),
            variables: HashMapWithView::new(),
            breakpoints: StringHashMap::new(),
            breakpoint_paths: Vec::new(),
        }
    }

    /// Appends one line of debuggee output to the console buffer.
    pub fn push_console(&mut self, line: String)
        ensures
            final(self).model() == (SessionModel {
                console: old(self).model().console.push(line),
                ..old(self).model()
            }),
            old(self).console@.is_prefix_of(final(self).console@),
    {
        self.console.push(line);
        proof {
            assert(old(self).console@.is_prefix_of(self.console@));
        }
    }
}

/// Applies one adapter event to the session model, per DAP semantics,
/// and returns the actions to dispatch.
///
/// The contract carries the session invariants along: the console
/// buffer never shrinks and never receives telemetry output, and each
/// case that touches the stopped set or the thread list keeps every
/// stopped thread known (for a `stopped` event, provided its thread
/// is known).
pub fn handle_event(state: &mut State, event: Event) -> (actions: Vec<Action>)
    requires
        (event matches Event::Stopped(b) ==> b.thread_id is Some),
    ensures
        old(state).console@.is_prefix_of(final(state).console@),
        (event matches Event::Continued(c) ==> {
            &&& final(state).model() == (SessionModel {
                stopped_threads: if c.all_threads_continued {
                    Map::<i64, String>::empty()
                } else {
                    old(state).model().stopped_threads.remove(c.thread_id)
                },
                ..old(state).model()
            })
            &&& actions@ == Seq::<Action>::empty()
            &&& old(state).stopped_known() ==> final(state).stopped_known()
        }),
        ((event is Exited || event is Terminated) ==> {
            &&& final(state).model() == old(state).model()
            &&& actions@ == seq![Action::Quit]
        }),
        ((event is Module || event is Process || event is Breakpoint || event is Capabilities
            || event is Invalidated) ==> {
            &&& final(state).model() == old(state).model()
            &&& actions@ == Seq::<Action>::empty()
        }),
        (event matches Event::Output(o) ==> {
            &&& final(state).model() == (SessionModel {
                console: if o.category matches Some(crate::msg::OutputCategory::Telemetry) {
                    old(state).model().console
                } else {
                    old(state).model().console.push(o.output)
                },
                ..old(state).model()
            })
            &&& actions@ == Seq::<Action>::empty()
        }),
        (event is Initialized ==> {
            &&& final(state).model() == old(state).model()
            &&& actions@ == seq![Action::Request(Request::ConfigurationDone)]
        }),
        (event matches Event::Stopped(b) ==> {
            &&& final(state).model() == (SessionModel {
                current_thread: b.thread_id.unwrap(),
                stopped_threads: final(state).model().stopped_threads,
                all_threads_stopped: b.all_threads_stopped,
                ..old(state).model()
            })
            &&& final(state).model().stopped_threads.contains_key(b.thread_id.unwrap())
            &&& final(state).model().stopped_threads[b.thread_id.unwrap()]@
                == spec_stopped_reason_label(b.reason)
            &&& final(state).model().stopped_threads.remove(b.thread_id.unwrap()) == old(state).model().stopped_threads.remove(b.thread_id.unwrap())
            &&& actions@ == seq![Action::Request(Request::Threads)]
            &&& (old(state).stopped_known() && has_thread(old(state).threads@, b.thread_id.unwrap())
                ==> final(state).stopped_known())
        }),
        (event matches Event::Thread(t) ==> {
            &&& (t.reason is Started ==> {
                &&& final(state).model() == (SessionModel {
                    threads: final(state).model().threads,
                    ..old(state).model()
                })
                &&& final(state).model().threads.len() == old(state).model().threads.len() + 1
                &&& final(state).model().threads.drop_last() == old(state).model().threads
                &&& final(state).model().threads.last().id == t.thread_id
                &&& final(state).model().threads.last().name@ == int_dec_chars(t.thread_id as int)
            })
            &&& (t.reason is Exited ==> {
                &&& final(state).model() == (SessionModel {
                    threads: match spec_find_thread(old(state).threads@, t.thread_id) {
                        Some(i) => old(state).model().threads.remove(i),
                        None => old(state).model().threads,
                    },
                    stopped_threads: old(state).model().stopped_threads.remove(t.thread_id),
                    ..old(state).model()
                })
            })
            &&& actions@ == seq![Action::Redraw]
            &&& (old(state).stopped_known() && t.reason is Started ==> final(state).stopped_known())
        }),
{
    let mut actions: Vec<Action> = Vec::new();
    match event {
        Event::Continued(c) => {
            if c.all_threads_continued {
                clear_stopped(state);
            } else {
                let _ = state.stopped_threads.remove(&c.thread_id);
            }
            proof {
                if old(state).stopped_known() {
                    assert(state.stopped_known());
                }
            }
        },
        Event::Exited(_) | Event::Terminated => {
            actions.push(Action::Quit);
            proof {
                assert(actions@ =~= seq![Action::Quit]);
            }
        },
        Event::Module(_) | Event::Process(_) | Event::Breakpoint | Event::Capabilities
            | Event::Invalidated => {
        },
        Event::Output(o) => {
            let telemetry = match &o.category {
                Some(crate::msg::OutputCategory::Telemetry) => true,
                _ => false,
            };
            if !telemetry {
                state.console.push(o.output);
            }
        },
        Event::Initialized => {
            actions.push(Action::Request(Request::ConfigurationDone));
            proof {
                assert(actions@ =~= seq![Action::Request(Request::ConfigurationDone)]);
            }
        },
        Event::Stopped(b) => {
            let thread_id = match b.thread_id {
                Some(t) => t,
                None => 0,  // unreachable: the precondition names a thread
            };
            let reason = stopped_reason_label(&b.reason);
            state.current_thread = thread_id;
            state.stopped_threads.insert(thread_id, reason);
            state.all_threads_stopped = b.all_threads_stopped;
            actions.push(Action::Request(Request::Threads));
            proof {
                assert(actions@ =~= seq![Action::Request(Request::Threads)]);
                if old(state).stopped_known() && has_thread(old(state).threads@, thread_id) {
                    assert forall|t: i64| #[trigger] state.stopped_threads@.contains_key(
                        t,
                    ) implies has_thread(state.threads@, t) by {
                        if t != thread_id {
                            assert(old(state).stopped_threads@.contains_key(t));
                        }
                    }
                }
            }
        },
        Event::Thread(t) => {
            match t.reason {
                crate::msg::ThreadReason::Started => {
                    let name = i64_to_string(t.thread_id);
                    state.threads.push(Thread { id: t.thread_id, name });
                    proof {
                        assert(state.threads@.drop_last() =~= old(state).threads@);
                        if old(state).stopped_known() {
                            assert forall|s: i64| #[trigger] state.stopped_threads@.contains_key(
                                s,
                            ) implies has_thread(state.threads@, s) by {
                                let i = choose|i: int|
                                    0 <= i < old(state).threads@.len() && #[trigger] old(state).threads@[i].id == s;
                                assert(state.threads@[i].id == s);
                            }
                        }
                    }
                },
                crate::msg::ThreadReason::Exited => {
                    remove_thread(state, t.thread_id);
                    let _ = state.stopped_threads.remove(&t.thread_id);
                },
            }
            actions.push(Action::Redraw);
            proof {
                assert(actions@ =~= seq![Action::Redraw]);
            }
        },
    }
    actions
}

/// Whether the popped registry entry answers the response's command:
/// a response without one, or with one of another command, is ignored.
pub open spec fn spec_matches_command(p: Option<Request>, r: Response) -> bool {
    match (p, r) {
        (Some(Request::ConfigurationDone), Response::ConfigurationDone) => true,
        (Some(Request::Continue(_)), Response::Continue) => true,
        (Some(Request::Initialize(_)), Response::Initialize(_)) => true,
        (Some(Request::Launch(_)), Response::Launch) => true,
        (Some(Request::RunInTerminal(_)), Response::RunInTerminal(_)) => true,
        (Some(Request::Scopes(_)), Response::Scopes(_)) => true,
        (Some(Request::SetBreakpoints(_)), Response::SetBreakpoints) => true,
        (Some(Request::StackTrace(_)), Response::StackTrace(_)) => true,
        (Some(Request::StepIn(_)), Response::StepIn) => true,
        (Some(Request::Threads), Response::Threads(_)) => true,
        (Some(Request::Variables(_)), Response::Variables(_)) => true,
        _ => false,
    }
}

/// The request that a response with this sequence number answers.
pub open spec fn spec_popped(a: Adapter, seq: u32) -> Option<Request> {
    if a.requests@.contains_key(seq) {
        Some(a.requests@[seq])
    } else {
        None
    }
}

/// The handler's actions, with one `Redraw` appended when the
/// outstanding request count has reached zero: multi-step refreshes
/// coalesce into a single repaint.
pub open spec fn finish_actions(base: Seq<Action>, pending: nat, emitted: bool) -> Seq<Action> {
    if pending == 0 && !emitted {
        base.push(Action::Redraw)
    } else {
        base
    }
}

/// One `variables` request per scope, in scope order.
pub open spec fn variables_requests(scopes: Seq<Scope>) -> Seq<Action> {
    Seq::new(
        scopes.len(),
        |i: int|
            Action::Request(
                Request::Variables(
                    VariablesArgs {
                        variables_reference: scopes[i].variables_reference,
                        filter: None,
                        start: None,
                        count: None,
                    },
                ),
            ),
    )
}

/// Whether some thread in the list carries the id.
fn contains_thread(threads: &Vec<Thread>, id: i64) -> (r: bool)
    ensures
        r == has_thread(threads@, id),
{
    let mut i: usize = 0;
    while i < threads.len()
        invariant
            0 <= i <= threads@.len(),
            forall|j: int| 0 <= j < i ==> #[trigger] threads@[j].id != id,
        decreases threads@.len() - i,
    {
        if threads[i].id == id {
            return true;
        }
        i = i + 1;
    }
    false
}

/// Applies one adapter response: pops the triggering request from the
/// registry, applies the response's data to the session model, issues
/// the derived requests of the refresh chain, and appends one `Redraw`
/// when no request remains outstanding.
///
/// An error result (`success == false`) never mutates the session
/// model. A response whose registry entry is missing, or whose entry
/// answers another command, is ignored: the model stays as it was and
/// at most the coalesced `Redraw` comes back. A matched `threads`
/// response resynchronizes the thread list and prunes every stopped
/// entry the adapter no longer reports, so afterwards every stopped
/// thread is known. The console never shrinks; the current stack
/// frame stays valid, and a `stackTrace` response for the current
/// thread makes it valid outright.
pub fn handle_response(
    state: &mut State,
    adapter: &mut Adapter,
    response: ResponsePayload,
) -> (actions: Vec<Action>)
    requires
        old(adapter).wf(),
    ensures
        final(adapter).wf(),
        final(adapter).requests@ == old(adapter).requests@.remove(response.request_seq),
        final(adapter).next_seq == old(adapter).next_seq,
        final(adapter).issued@ == old(adapter).issued@,
        final(adapter).config == old(adapter).config,
        (response.response matches Response::Initialize(c) ==> ((response.success
            && spec_matches_command(
            spec_popped(*old(adapter), response.request_seq),
            response.response,
        )) ==> final(adapter).capabilities == Some(c))),
        (!(response.success && response.response is Initialize && spec_matches_command(
            spec_popped(*old(adapter), response.request_seq),
            response.response,
        )) ==> final(adapter).capabilities == old(adapter).capabilities),
        old(state).console@.is_prefix_of(final(state).console@),
        (old(state).frame_ok() ==> final(state).frame_ok()),
        (!response.success ==> final(state).model() == old(state).model() && actions@
            == finish_actions(Seq::<Action>::empty(), final(adapter).requests@.len(), false)),
        (response.success ==> {
            let pending = final(adapter).requests@.len();
            let p = spec_popped(*old(adapter), response.request_seq);
            &&& (!spec_matches_command(p, response.response) ==> final(state).model() == old(state).model() && actions@ == finish_actions(Seq::<Action>::empty(), pending, false))
            &&& ((response.response is ConfigurationDone || response.response is Launch
                || response.response is RunInTerminal || response.response is StepIn) ==> final(state).model() == old(state).model() && actions@ == finish_actions(
                Seq::<Action>::empty(),
                pending,
                false,
            ))
            &&& (response.response is Continue && spec_matches_command(p, response.response)
                ==> final(state).model() == old(state).model() && actions@ == finish_actions(
                seq![Action::ClearJump],
                pending,
                false,
            ))
            &&& (response.response is SetBreakpoints && spec_matches_command(p, response.response)
                ==> final(state).model() == old(state).model() && actions@ == finish_actions(
                seq![Action::UpdateBreakpoints],
                pending,
                false,
            ))
            &&& (response.response is Initialize && spec_matches_command(p, response.response)
                ==> final(state).model() == old(state).model() && actions@ == finish_actions(
                seq![
                    Action::Request(
                        Request::Launch(
                            LaunchArgs {
                                no_debug: false,
                                restart: None,
                                args: Some(old(adapter).config.launch_args),
                            },
                        ),
                    ),
                ],
                pending,
                true,
            ))
            &&& (response.response matches Response::Scopes(res) ==> match p {
                Some(Request::Scopes(sa)) => {
                    &&& final(state).model() == (SessionModel {
                        scopes: old(state).model().scopes.insert(sa.frame_id, res.scopes),
                        ..old(state).model()
                    })
                    &&& actions@ == finish_actions(
                        variables_requests(res.scopes@),
                        pending,
                        res.scopes@.len() > 0,
                    )
                },
                _ => final(state).model() == old(state).model() && actions@ == finish_actions(
                    Seq::<Action>::empty(),
                    pending,
                    false,
                ),
            })
            &&& (response.response matches Response::StackTrace(res) ==> match p {
                Some(Request::StackTrace(ta)) => {
                    let first = if res.stack_frames@.len() > 0 {
                        res.stack_frames@[0].id
                    } else {
                        0i64
                    };
                    &&& (ta.thread_id == old(state).current_thread ==> {
                        &&& final(state).model() == (SessionModel {
                            current_stack_frame: first,
                            stack_frames: old(state).model().stack_frames.insert(
                                ta.thread_id,
                                res.stack_frames,
                            ),
                            ..old(state).model()
                        })
                        &&& actions@ == finish_actions(
                            seq![
                                Action::Request(
                                    Request::Scopes(ScopesArgs { frame_id: first }),
                                ),
                                Action::Jump,
                            ],
                            pending,
                            true,
                        )
                        &&& final(state).frame_ok()
                    })
                    &&& (ta.thread_id != old(state).current_thread ==> {
                        &&& final(state).model() == (SessionModel {
                            stack_frames: old(state).model().stack_frames.insert(
                                ta.thread_id,
                                res.stack_frames,
                            ),
                            ..old(state).model()
                        })
                        &&& actions@ == finish_actions(seq![Action::Jump], pending, false)
                    })
                },
                _ => final(state).model() == old(state).model() && actions@ == finish_actions(
                    Seq::<Action>::empty(),
                    pending,
                    false,
                ),
            })
            &&& (response.response matches Response::Threads(res) ==> (spec_matches_command(
                p,
                response.response,
            ) ==> {
                &&& final(state).model() == (SessionModel {
                    threads: res.threads@,
                    stopped_threads: final(state).model().stopped_threads,
                    ..old(state).model()
                })
                &&& (forall|t: i64|
                    #![trigger final(state).stopped_threads@.contains_key(t)]
                    #![trigger old(state).stopped_threads@.contains_key(t)]
                    final(state).stopped_threads@.contains_key(t) <==> (old(state).stopped_threads@.contains_key(t) && has_thread(res.threads@, t)))
                &&& (forall|t: i64| #[trigger] final(state).stopped_threads@.contains_key(t)
                    ==> final(state).stopped_threads@[t] == old(state).stopped_threads@[t])
                &&& final(state).stopped_known()
                &&& (has_thread(res.threads@, old(state).current_thread) ==> actions@
                    == finish_actions(
                    seq![
                        Action::Request(
                            Request::StackTrace(
                                StackTraceArgs {
                                    thread_id: old(state).current_thread,
                                    start_frame: None,
                                    levels: None,
                                    format: None,
                                },
                            ),
                        ),
                    ],
                    pending,
                    true,
                ))
                &&& (!has_thread(res.threads@, old(state).current_thread) ==> actions@
                    == finish_actions(Seq::<Action>::empty(), pending, false))
            }))
            &&& (response.response matches Response::Variables(res) ==> match p {
                Some(Request::Variables(va)) => {
                    &&& final(state).model() == (SessionModel {
                        variables: old(state).model().variables.insert(
                            va.variables_reference,
                            res.variables,
                        ),
                        ..old(state).model()
                    })
                    &&& actions@ == finish_actions(Seq::<Action>::empty(), pending, false)
                },
                _ => final(state).model() == old(state).model() && actions@ == finish_actions(
                    Seq::<Action>::empty(),
                    pending,
                    false,
                ),
            })
        }),
{
    let req = adapter.get_request(response.request_seq);
    proof {
        if !old(adapter).requests@.contains_key(response.request_seq) {
            assert(old(adapter).requests@.remove(response.request_seq) =~= old(adapter).requests@);
        }
    }
    let mut actions: Vec<Action> = Vec::new();
    let mut emitted_request = false;
    if response.success {
        match response.response {
            Response::ConfigurationDone | Response::Launch | Response::RunInTerminal(_)
                | Response::StepIn => {},
            Response::Continue => {
                if let Some(Request::Continue(_)) = req {
                    actions.push(Action::ClearJump);
                    proof {
                        assert(actions@ =~= seq![Action::ClearJump]);
                    }
                }
            },
            Response::SetBreakpoints => {
                if let Some(Request::SetBreakpoints(_)) = req {
                    actions.push(Action::UpdateBreakpoints);
                    proof {
                        assert(actions@ =~= seq![Action::UpdateBreakpoints]);
                    }
                }
            },
            Response::Initialize(caps) => {
                if let Some(Request::Initialize(_)) = req {
                    // Store capabilities, then send `launch` at once: some
                    // adapters expect it before `configurationDone`.
                    adapter.capabilities = Some(caps);
                    let launch_args = adapter.config.launch_args.clone();
                    actions.push(
                        Action::Request(
                            Request::Launch(
                                LaunchArgs {
                                    no_debug: false,
                                    restart: None,
                                    args: Some(launch_args),
                                },
                            ),
                        ),
                    );
                    emitted_request = true;
                    proof {
                        assert(actions@ =~= seq![
                            Action::Request(
                                Request::Launch(
                                    LaunchArgs {
                                        no_debug: false,
                                        restart: None,
                                        args: Some(old(adapter).config.launch_args),
                                    },
                                ),
                            ),
                        ]);
                    }
                }
            },
            Response::Scopes(res) => {
                if let Some(Request::Scopes(sa)) = req {
                    let mut i: usize = 0;
                    proof {
                        assert(actions@ =~= variables_requests(res.scopes@).take(0));
                    }
                    while i < res.scopes.len()
                        invariant
                            0 <= i <= res.scopes@.len(),
                            actions@ == variables_requests(res.scopes@).take(i as int),
                        decreases res.scopes@.len() - i,
                    {
                        actions.push(
                            Action::Request(
                                Request::Variables(
                                    VariablesArgs {
                                        variables_reference: res.scopes[i].variables_reference,
                                        filter: None,
                                        start: None,
                                        count: None,
                                    },
                                ),
                            ),
                        );
                        proof {
                            assert(actions@ =~= variables_requests(res.scopes@).take(i as int + 1));
                        }
                        i = i + 1;
                    }
                    proof {
                        assert(actions@ =~= variables_requests(res.scopes@));
                    }
                    if actions.len() > 0 {
                        emitted_request = true;
                    }
                    state.scopes.insert(sa.frame_id, res.scopes);
                }
            },
            Response::StackTrace(res) => {
                if let Some(Request::StackTrace(ta)) = req {
                    let first: i64 = if res.stack_frames.len() > 0 {
                        res.stack_frames[0].id
                    } else {
                        0
                    };
                    if ta.thread_id == state.current_thread {
                        state.current_stack_frame = first;
                        actions.push(
                            Action::Request(Request::Scopes(ScopesArgs { frame_id: first })),
                        );
                        emitted_request = true;
                    }
                    state.stack_frames.insert(ta.thread_id, res.stack_frames);
                    actions.push(Action::Jump);
                    proof {
                        if ta.thread_id == old(state).current_thread {
                            assert(actions@ =~= seq![
                                Action::Request(Request::Scopes(ScopesArgs { frame_id: first })),
                                Action::Jump,
                            ]);
                            if state.current_stack_frame != 0 {
                                assert(state.stack_frames@[state.current_thread]@[0].id
                                    == state.current_stack_frame);
                            }
                        } else {
                            assert(actions@ =~= seq![Action::Jump]);
                        }
                    }
                }
            },
            Response::Threads(res) => {
                if let Some(Request::Threads) = req {
                    let here = contains_thread(&res.threads, state.current_thread);
                    // Resynchronize: stopped entries whose thread the
                    // adapter no longer reports are pruned.
                    let mut kept: HashMapWithView<i64, String> = HashMapWithView::new();
                    let mut i: usize = 0;
                    while i < res.threads.len()
                        invariant
                            0 <= i <= res.threads@.len(),
                            forall|t: i64|
                                #![trigger kept@.contains_key(t)]
                                kept@.contains_key(t) <==> (state.stopped_threads@.contains_key(t)
                                    && exists|j: int|
                                    0 <= j < i && #[trigger] res.threads@[j].id == t),
                            forall|t: i64| #[trigger] kept@.contains_key(t) ==> kept@[t]
                                == state.stopped_threads@[t],
                        decreases res.threads@.len() - i,
                    {
                        let tid = res.threads[i].id;
                        if let Some(reason) = state.stopped_threads.get(&tid) {
                            let reason = reason.clone();
                            kept.insert(tid, reason);
                        }
                        proof {
                            assert forall|t: i64| kept@.contains_key(t) implies (
                                state.stopped_threads@.contains_key(t) && exists|j: int|
                                    0 <= j < i + 1 && #[trigger] res.threads@[j].id == t) by {
                                if t == tid {
                                    assert(res.threads@[i as int].id == t);
                                }
                            }
                            assert forall|t: i64| (state.stopped_threads@.contains_key(t)
                                && exists|j: int|
                                0 <= j < i + 1 && #[trigger] res.threads@[j].id
                                    == t) implies kept@.contains_key(t) by {
                                if t != tid {
                                    let j = choose|j: int|
                                        0 <= j < i + 1 && #[trigger] res.threads@[j].id == t;
                                    assert(j < i);
                                }
                            }
                        }
                        i = i + 1;
                    }
                    state.threads = res.threads;
                    state.stopped_threads = kept;
                    if here {
                        actions.push(
                            Action::Request(
                                Request::StackTrace(
                                    StackTraceArgs {
                                        thread_id: state.current_thread,
                                        start_frame: None,
                                        levels: None,
                                        format: None,
                                    },
                                ),
                            ),
                        );
                        emitted_request = true;
                        proof {
                            assert(actions@ =~= seq![
                                Action::Request(
                                    Request::StackTrace(
                                        StackTraceArgs {
                                            thread_id: old(state).current_thread,
                                            start_frame: None,
                                            levels: None,
                                            format: None,
                                        },
                                    ),
                                ),
                            ]);
                        }
                    }
                }
            },
            Response::Variables(res) => {
                if let Some(Request::Variables(va)) = req {
                    state.variables.insert(va.variables_reference, res.variables);
                }
            },
        }
    }
    if adapter.num_requests() == 0 && !emitted_request {
        actions.push(Action::Redraw);
    }
    actions
}

/// A breakpoint as the toggle creates it: bare, at one line.
pub open spec fn spec_new_breakpoint(line: i64) -> SourceBreakpoint {
    SourceBreakpoint { line, column: None, condition: None, hit_condition: None, log_message: None }
}

/// The index of the first breakpoint at the line.
pub open spec fn spec_find_bp(bps: Seq<SourceBreakpoint>, line: i64) -> Option<int>
    decreases bps.len(),
{
    if bps.len() == 0 {
        None
    } else if bps[0].line == line {
        Some(0int)
    } else {
        match spec_find_bp(bps.skip(1), line) {
            Some(i) => Some(i + 1),
            None => None,
        }
    }
}

/// One breakpoint list after a toggle at the line: the first
/// breakpoint at that line is removed, or a new one appended when
/// none was there.
pub open spec fn spec_toggle(bps: Seq<SourceBreakpoint>, line: i64) -> Seq<SourceBreakpoint> {
    match spec_find_bp(bps, line) {
        Some(i) => bps.remove(i),
        None => bps.push(spec_new_breakpoint(line)),
    }
}

/// Whether some breakpoint sits at the line.
pub open spec fn has_bp_at(bps: Seq<SourceBreakpoint>, line: i64) -> bool {
    exists|i: int| 0 <= i < bps.len() && #[trigger] bps[i].line == line
}

/// Where `spec_find_bp` finds a breakpoint, one sits there and none
/// earlier; where it finds none, no line matches.
proof fn lemma_find_bp_char(bps: Seq<SourceBreakpoint>, line: i64)
    ensures
        match spec_find_bp(bps, line) {
            Some(i) => 0 <= i < bps.len() && bps[i].line == line && forall|j: int|
                0 <= j < i ==> #[trigger] bps[j].line != line,
            None => forall|j: int| 0 <= j < bps.len() ==> #[trigger] bps[j].line != line,
        },
    decreases bps.len(),
{
    if bps.len() > 0 && bps[0].line != line {
        lemma_find_bp_char(bps.skip(1), line);
        match spec_find_bp(bps.skip(1), line) {
            Some(i) => {
                assert(bps.skip(1)[i] == bps[i + 1]);
                assert forall|j: int| 0 <= j < i + 1 implies #[trigger] bps[j].line != line by {
                    if j > 0 {
                        assert(bps.skip(1)[j - 1] == bps[j]);
                    }
                }
            },
            None => {
                assert forall|j: int| 0 <= j < bps.len() implies #[trigger] bps[j].line
                    != line by {
                    if j > 0 {
                        assert(bps.skip(1)[j - 1] == bps[j]);
                    }
                }
            },
        }
    }
}

/// A breakpoint at `k`, with no earlier one at the line, is the one
/// `spec_find_bp` finds.
proof fn lemma_find_bp_at(bps: Seq<SourceBreakpoint>, line: i64, k: int)
    requires
        0 <= k < bps.len(),
        bps[k].line == line,
        forall|j: int| 0 <= j < k ==> bps[j].line != line,
    ensures
        spec_find_bp(bps, line) == Some(k),
    decreases k,
{
    if k > 0 {
        lemma_find_bp_at(bps.skip(1), line, k - 1);
        assert(bps.skip(1)[k - 1] == bps[k]);
        assert forall|j: int| 0 <= j < k - 1 implies bps.skip(1)[j].line != line by {
            assert(bps.skip(1)[j] == bps[j + 1]);
        }
    }
}

/// Toggling a line twice restores the breakpoint list, for a line that
/// had no breakpoint: the toggle appends one, and the next toggle
/// removes exactly it.
pub proof fn lemma_toggle_twice(bps: Seq<SourceBreakpoint>, line: i64)
    requires
        !has_bp_at(bps, line),
    ensures
        spec_toggle(spec_toggle(bps, line), line) == bps,
{
    lemma_find_bp_char(bps, line);
    if spec_find_bp(bps, line) is Some {
        let i = spec_find_bp(bps, line).unwrap();
        assert(has_bp_at(bps, line));
    }
    let once = bps.push(spec_new_breakpoint(line));
    assert(spec_toggle(bps, line) == once);
    assert(once[bps.len() as int].line == line);
    assert forall|j: int| 0 <= j < bps.len() implies once[j].line != line by {
        assert(once[j] == bps[j]);
        if once[j].line == line {
            assert(has_bp_at(bps, line));
        }
    }
    lemma_find_bp_at(once, line, bps.len() as int);
    assert(once.remove(bps.len() as int) =~= bps);
}

/// The breakpoints stored for one source path, empty when none are.
pub open spec fn spec_bps_of(m: SessionModel, path: Seq<char>) -> Seq<SourceBreakpoint> {
    if m.breakpoints.contains_key(path) {
        m.breakpoints[path]@
    } else {
        Seq::empty()
    }
}

/// The index of the first breakpoint at the line.
fn find_bp_index(bps: &Vec<SourceBreakpoint>, line: i64) -> (r: Option<usize>)
    ensures
        match r {
            Some(i) => i < bps@.len() && spec_find_bp(bps@, line) == Some(i as int),
            None => spec_find_bp(bps@, line) is None,
        },
{
    let mut i: usize = 0;
    proof {
        assert(bps@.skip(0) =~= bps@);
    }
    while i < bps.len()
        invariant
            0 <= i <= bps@.len(),
            spec_find_bp(bps@, line) == match spec_find_bp(bps@.skip(i as int), line) {
                Some(k) => Some(k + i),
                None => None::<int>,
            },
        decreases bps@.len() - i,
    {
        proof {
            assert(bps@.skip(i as int)[0] == bps@[i as int]);
        }
        if bps[i].line == line {
            return Some(i);
        }
        proof {
            assert(bps@.skip(i as int).skip(1) =~= bps@.skip(i as int + 1));
        }
        i = i + 1;
    }
    None
}

/// Copies a breakpoint list, leaving out the entry at `skip_at` when
/// one is named.
fn copy_bps_without(bps: &Vec<SourceBreakpoint>, skip_at: Option<usize>) -> (r: Vec<
    SourceBreakpoint,
>)
    requires
        skip_at matches Some(k) ==> k < bps@.len(),
    ensures
        match skip_at {
            Some(k) => r@ == bps@.remove(k as int),
            None => r@ == bps@,
        },
{
    let mut out: Vec<SourceBreakpoint> = Vec::new();
    let mut i: usize = 0;
    while i < bps.len()
        invariant
            0 <= i <= bps@.len(),
            (skip_at matches Some(k) ==> k < bps@.len()),
            match skip_at {
                Some(k) => if i <= k {
                    out@ == bps@.subrange(0, i as int)
                } else {
                    out@ == bps@.subrange(0, k as int) + bps@.subrange(k as int + 1, i as int)
                },
                None => out@ == bps@.subrange(0, i as int),
            },
        decreases bps@.len() - i,
    {
        let skip_here = match skip_at {
            Some(k) => i == k,
            None => false,
        };
        if !skip_here {
            out.push(bps[i].clone());
            proof {
                match skip_at {
                    Some(k) => {
                        if i < k {
                            assert(out@ =~= bps@.subrange(0, i as int + 1));
                        } else {
                            assert(out@ =~= bps@.subrange(0, k as int) + bps@.subrange(
                                k as int + 1,
                                i as int + 1,
                            ));
                        }
                    },
                    None => {
                        assert(out@ =~= bps@.subrange(0, i as int + 1));
                    },
                }
            }
        } else {
            proof {
                assert(bps@.subrange(0, i as int) =~= bps@.subrange(0, i as int) + bps@.subrange(
                    i as int + 1,
                    i as int + 1,
                ));
            }
        }
        i = i + 1;
    }
    proof {
        match skip_at {
            Some(k) => {
                assert(out@ =~= bps@.remove(k as int));
            },
            None => {
                assert(out@ =~= bps@);
            },
        }
    }
    out
}

/// Toggles the breakpoint at `line` in `file`: removes the first one
/// there, or appends a new one; then asks for a `setBreakpoints`
/// request for the source with the updated list, followed by an
/// `UpdateBreakpoints` so the editor repaints its markers whether or
/// not the adapter accepts the change.
pub fn toggle_breakpoint(state: &mut State, file: String, line: i64) -> (actions: Vec<Action>)
    ensures
        final(state).model() == (SessionModel {
            breakpoints: final(state).model().breakpoints,
            breakpoint_paths: final(state).model().breakpoint_paths,
            ..old(state).model()
        }),
        final(state).breakpoint_paths@ == if old(state).breakpoints@.contains_key(file@) {
            old(state).breakpoint_paths@
        } else {
            old(state).breakpoint_paths@.push(file)
        },
        (old(state).paths_match() ==> final(state).paths_match()),
        final(state).breakpoints@.contains_key(file@),
        final(state).breakpoints@[file@]@ == spec_toggle(spec_bps_of(old(state).model(), file@), line),
        final(state).breakpoints@.remove(file@) == old(state).breakpoints@.remove(file@),
        old(state).console@.is_prefix_of(final(state).console@),
        (old(state).frame_ok() ==> final(state).frame_ok()),
        (old(state).stopped_known() ==> final(state).stopped_known()),
        actions@.len() == 2,
        ({
            &&& actions@[0] matches Action::Request(Request::SetBreakpoints(args))
            &&& (actions@[0] matches Action::Request(Request::SetBreakpoints(args)) ==> {
                &&& args.source == (Source { name: None, path: Some(file) })
                &&& args.breakpoints@ == spec_toggle(spec_bps_of(old(state).model(), file@), line)
                &&& args.lines is None
                &&& args.source_modified == false
            })
        }),
        actions@[1] == Action::UpdateBreakpoints,
{
    let empty: Vec<SourceBreakpoint> = Vec::new();
    let new_list: Vec<SourceBreakpoint> = {
        let list: &Vec<SourceBreakpoint> = match state.breakpoints.get(file.as_str()) {
            Some(l) => l,
            None => &empty,
        };
        match find_bp_index(list, line) {
            Some(k) => copy_bps_without(list, Some(k)),
            None => {
                let mut copy = copy_bps_without(list, None);
                copy.push(
                    SourceBreakpoint {
                        line,
                        column: None,
                        condition: None,
                        hit_condition: None,
                        log_message: None,
                    },
                );
                copy
            },
        }
    };
    let req_list = copy_bps_without(&new_list, None);
    if !state.breakpoints.contains_key(file.as_str()) {
        state.breakpoint_paths.push(file.clone());
    }
    state.breakpoints.insert(file.clone(), new_list);
    proof {
        if old(state).paths_match() {
            lemma_paths_still_match(*old(state), *state, file);
        }
    }
    let mut actions: Vec<Action> = Vec::new();
    actions.push(
        Action::Request(
            Request::SetBreakpoints(
                SetBreakpointsArgs {
                    source: Source { name: None, path: Some(file) },
                    breakpoints: req_list,
                    lines: None,
                    source_modified: false,
                },
            ),
        ),
    );
    actions.push(Action::UpdateBreakpoints);
    actions
}

/// After a toggle, the path list still names exactly the map's keys.
proof fn lemma_paths_still_match(pre: State, post: State, file: String)
    requires
        pre.paths_match(),
        post.breakpoints@.dom() =~= pre.breakpoints@.dom().insert(file@),
        post.breakpoint_paths@ == if pre.breakpoints@.contains_key(file@) {
            pre.breakpoint_paths@
        } else {
            pre.breakpoint_paths@.push(file)
        },
    ensures
        post.paths_match(),
{
    let paths = post.breakpoint_paths@;
    if pre.breakpoints@.contains_key(file@) {
        assert forall|k: Seq<char>| #[trigger] post.breakpoints@.contains_key(k) implies exists|
            i: int,
        | 0 <= i < paths.len() && #[trigger] paths[i]@ == k by {
            assert(pre.breakpoints@.contains_key(k));
        }
    } else {
        assert forall|i: int, j: int| 0 <= i < j < paths.len() implies paths[i]@ != paths[j]@ by {
            if j == paths.len() - 1 {
                assert(pre.breakpoints@.contains_key(pre.breakpoint_paths@[i]@));
            }
        }
        assert forall|i: int| 0 <= i < paths.len() implies post.breakpoints@.contains_key(
            #[trigger] paths[i]@,
        ) by {
            if i < paths.len() - 1 {
                assert(pre.breakpoints@.contains_key(pre.breakpoint_paths@[i]@));
            }
        }
        assert forall|k: Seq<char>| #[trigger] post.breakpoints@.contains_key(k) implies exists|
            i: int,
        | 0 <= i < paths.len() && #[trigger] paths[i]@ == k by {
            if k == file@ {
                assert(paths[paths.len() - 1]@ == k);
            } else {
                assert(pre.breakpoints@.contains_key(k));
                let i = choose|i: int|
                    0 <= i < pre.breakpoint_paths@.len() && #[trigger] pre.breakpoint_paths@[i]@
                        == k;
                assert(paths[i]@ == k);
            }
        }
    }
}

/// How the debuggee is to be run for a `runInTerminal` reverse
/// request.
pub enum SpawnMode {
    /// Wrapped by the configured terminal command, inheriting the
    /// controller's standard streams.
    External,
    /// Spawned directly, detached into a new session, stdout piped
    /// into the console.
    Integrated,
}

/// The spawn the supervisor is to perform: an argv and a mode.
pub struct SpawnPlan {
    /// The command to spawn, first argument first.
    pub argv: Vec<String>,
    /// How to wire the child's terminal and streams.
    pub mode: SpawnMode,
}

/// Copies a list of argument strings.
fn copy_strings(src: &Vec<String>, out: &mut Vec<String>)
    ensures
        final(out)@ == old(out)@ + src@,
{
    let mut i: usize = 0;
    proof {
        assert(old(out)@ + src@.take(0) =~= old(out)@);
    }
    while i < src.len()
        invariant
            0 <= i <= src@.len(),
            out@ == old(out)@ + src@.take(i as int),
        decreases src@.len() - i,
    {
        out.push(src[i].clone());
        proof {
            assert(out@ =~= old(out)@ + src@.take(i as int + 1));
        }
        i = i + 1;
    }
    proof {
        assert(old(out)@ + src@.take(src@.len() as int) =~= old(out)@ + src@);
    }
}

/// Decides how to spawn the debuggee for a `runInTerminal` reverse
/// request: `external` prepends the configured terminal command to the
/// request's argv; `integrated` (the default when the kind is absent)
/// runs the argv directly, detached.
pub fn run_in_terminal_plan(term_cmd: &Vec<String>, args: &crate::msg::RunInTerminalArgs) -> (plan:
    SpawnPlan)
    requires
        args.args@.len() > 0,
    ensures
        (args.kind matches Some(crate::msg::RunInTerminalKind::External) ==> plan.mode is External
            && plan.argv@ == term_cmd@ + args.args@),
        (!(args.kind matches Some(crate::msg::RunInTerminalKind::External)) ==> plan.mode
            is Integrated && plan.argv@ == args.args@),
        plan.argv@.len() > 0,
{
    let external = match args.kind {
        Some(crate::msg::RunInTerminalKind::External) => true,
        _ => false,
    };
    let mut argv: Vec<String> = Vec::new();
    if external {
        copy_strings(term_cmd, &mut argv);
    }
    copy_strings(&args.args, &mut argv);
    proof {
        if external {
            assert(argv@ =~= term_cmd@ + args.args@);
        } else {
            assert(argv@ =~= args.args@);
        }
    }
    SpawnPlan { argv, mode: if external { SpawnMode::External } else { SpawnMode::Integrated } }
}

/// The reply owed for a `runInTerminal` reverse request, from the
/// spawn's outcome: success with the child's process id when it
/// started, else failure carrying the operating system's message.
pub fn run_in_terminal_reply(spawn: Result<Option<i64>, String>) -> (r: (
    bool,
    Option<String>,
    crate::msg::RunInTerminalResponse,
))
    ensures
        (spawn matches Ok(pid) ==> r == (
            true,
            None::<String>,
            crate::msg::RunInTerminalResponse { process_id: pid, shell_process_id: None },
        )),
        (spawn matches Err(m) ==> r == (
            false,
            Some(m),
            crate::msg::RunInTerminalResponse { process_id: None, shell_process_id: None },
        )),
{
    match spawn {
        Ok(pid) => (
            true,
            None,
            crate::msg::RunInTerminalResponse { process_id: pid, shell_process_id: None },
        ),
        Err(m) => (
            false,
            Some(m),
            crate::msg::RunInTerminalResponse { process_id: None, shell_process_id: None },
        ),
    }
}

/// The reply owed for any reverse request the controller does not
/// support (every one but `runInTerminal`): a failure naming the
/// command, with the session kept alive.
pub fn unsupported_request_reply(command: &str) -> (r: (bool, Option<String>))
    ensures
        !r.0,
        r.1 is Some,
        r.1.unwrap()@ == "Unsupported request: "@ + command@,
{
    let message = String::from_str("Unsupported request: ").concat(command);
    (false, Some(message))
}

/// The one `initialize` request the controller sends on startup:
/// client identity, 1-based lines and columns, native paths, and
/// support for the `runInTerminal` reverse request.
pub fn initialize_request(adapter_id: Option<String>) -> (r: Request)
    ensures
        r matches Request::Initialize(a) ==> {
            &&& a.client_id is Some && a.client_id.unwrap()@ == "pesticide"@
            &&& a.client_name is Some && a.client_name.unwrap()@ == "Pesticide"@
            &&& a.adapter_id == adapter_id
            &&& a.locale is Some && a.locale.unwrap()@ == "en-US"@
            &&& a.lines_start_at_1 && a.columns_start_at_1
            &&& a.path_format == Some(crate::msg::InitializePathFormat::Path)
            &&& a.supports_run_in_terminal_request
            &&& !a.supports_variable_type && !a.supports_variable_paging
            &&& !a.supports_memory_references && !a.supports_progress_reporting
            &&& !a.supports_invalidated_event && !a.supports_memory_event
        },
        r is Initialize,
{
    Request::Initialize(
        crate::msg::InitializeArgs {
            client_id: Some(String::from_str("pesticide")),
            client_name: Some(String::from_str("Pesticide")),
            adapter_id,
            locale: Some(String::from_str("en-US")),
            lines_start_at_1: true,
            columns_start_at_1: true,
            path_format: Some(crate::msg::InitializePathFormat::Path),
            supports_variable_type: false,
            supports_variable_paging: false,
            supports_run_in_terminal_request: true,
            supports_memory_references: false,
            supports_progress_reporting: false,
            supports_invalidated_event: false,
            supports_memory_event: false,
        },
    )
}

/// Clears the stopped set.
fn clear_stopped(state: &mut State)
    ensures
        final(state).model() == (SessionModel {
            stopped_threads: Map::<i64, String>::empty(),
            ..old(state).model()
        }),
{
    state.stopped_threads.clear();
}

/// Removes the first thread with the id, when one is present.
fn remove_thread(state: &mut State, id: i64)
    ensures
        final(state).model() == (SessionModel {
            threads: match spec_find_thread(old(state).threads@, id) {
                Some(i) => old(state).model().threads.remove(i),
                None => old(state).model().threads,
            },
            ..old(state).model()
        }),
{
    let ghost full = state.threads@;
    let mut i: usize = 0;
    proof {
        assert(full.skip(0) =~= full);
    }
    while i < state.threads.len()
        invariant
            0 <= i <= state.threads@.len(),
            *state == *old(state),
            full == state.threads@,
            spec_find_thread(full, id) == match spec_find_thread(full.skip(i as int), id) {
                Some(k) => Some(k + i),
                None => None::<int>,
            },
            forall|j: int| 0 <= j < i ==> #[trigger] full[j].id != id,
        decreases state.threads@.len() - i,
    {
        proof {
            assert(full.skip(i as int)[0] == full[i as int]);
        }
        if state.threads[i].id == id {
            let _ = state.threads.remove(i);
            proof {
                assert(spec_find_thread(full, id) == Some(i as int));
            }
            return;
        }
        proof {
            assert(full.skip(i as int).skip(1) =~= full.skip(i as int + 1));
        }
        i = i + 1;
    }
    proof {
        assert(full.skip(i as int).len() == 0);
        assert(spec_find_thread(full, id) is None);
    }
}

} // verus!
