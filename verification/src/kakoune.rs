//! The editor endpoint's state: the session name, the currently
//! marked source path, and the decisions behind the jump and clear
//! helpers.
//!
//! The socket, the scripts sent to the editor, and their transport
//! live outside the library; what is decided here is which file's
//! marker to clear and where the next one goes. A jump into a
//! different file clears the previous marker first.

use vstd::prelude::*;

use crate::controller::{SessionModel, State};
use crate::msg::StackFrame;

verus! {

/// A request sent from the editor, decoded from one JSON object per
/// connection.
#[derive(Clone, Debug, PartialEq, Eq)]
pub enum KakRequest {
    /// Toggle the breakpoint at a source position.
    ToggleBreakpoint { file: String, line: i64, column: i64 },
}

/// What the editor must be told for one jump: clear the old marker
/// first when it sits in another file, then mark `path` at `line`.
pub struct JumpPlan {
    /// The file whose marker to clear first, when any.
    pub clear_first: Option<String>,
    /// The file to mark.
    pub path: String,
    /// The line to mark.
    pub line: i64,
}

/// The index of the first frame with the id.
pub open spec fn spec_find_frame(frames: Seq<StackFrame>, id: i64) -> Option<int>
    decreases frames.len(),
{
    if frames.len() == 0 {
        None
    } else if frames[0].id == id {
        Some(0int)
    } else {
        match spec_find_frame(frames.skip(1), id) {
            Some(i) => Some(i + 1),
            None => None,
        }
    }
}

/// The editor endpoint's state.
pub struct Kakoune {
    /// The editor session the scripts are sent to.
    pub session: String,
    /// The source path and line currently marked, when any.
    pub current_jump: Option<(String, i64)>,
}

impl Kakoune {
    /// A fresh endpoint with nothing marked.
    pub fn new(session: String) -> (k: Kakoune)
        ensures
            k.session == session,
            k.current_jump is None,
    {
        Kakoune { session, current_jump: None }
    }

    /// Takes the marked path out, so the caller can clear its marker;
    /// nothing to clear when nothing was marked.
    pub fn clear_jump(&mut self) -> (r: Option<String>)
        ensures
            final(self).current_jump is None,
            final(self).session == old(self).session,
            match old(self).current_jump {
                Some(pl) => r == Some(pl.0),
                None => r is None,
            },
    {
        let r = match &self.current_jump {
            Some((p, _)) => Some(p.clone()),
            None => None,
        };
        self.current_jump = None;
        r
    }

    /// Resolves the current stack frame to its source position and
    /// marks it: the returned plan names the file and line to mark,
    /// and the file whose marker to clear first when the previous
    /// marker sits in a different file.
    #[verifier::loop_isolation(false)]
    pub fn jump(&mut self, state: &State) -> (plan: JumpPlan)
        requires
            state.stack_frames@.contains_key(state.current_thread),
            ({
                let frames = state.stack_frames@[state.current_thread]@;
                match spec_find_frame(frames, state.current_stack_frame) {
                    Some(i) => frames[i].source is Some && frames[i].source.unwrap().path is Some,
                    None => false,
                }
            }),
        ensures
            final(self).session == old(self).session,
            ({
                let frames = state.stack_frames@[state.current_thread]@;
                let frame = frames[spec_find_frame(frames, state.current_stack_frame).unwrap()];
                let path = frame.source.unwrap().path.unwrap();
                &&& plan.path == path
                &&& plan.line == frame.line
                &&& final(self).current_jump == Some((path, frame.line))
                &&& plan.clear_first == (match old(self).current_jump {
                    Some(pl) => if pl.0@ != path@ {
                        Some(pl.0)
                    } else {
                        None::<String>
                    },
                    None => None::<String>,
                })
            }),
    {
        let frames = match state.stack_frames.get(&state.current_thread) {
            Some(f) => f,
            None => {
                // unreachable: the precondition names the thread
                return vstd::pervasive::unreached();
            },
        };
        let ghost fseq = frames@;
        let mut i: usize = 0;
        proof {
            assert(fseq.skip(0) =~= fseq);
        }
        while i < frames.len()
            invariant
                0 <= i <= fseq.len(),
                *self == *old(self),
                fseq == frames@,
                spec_find_frame(fseq, state.current_stack_frame) == match spec_find_frame(
                    fseq.skip(i as int),
                    state.current_stack_frame,
                ) {
                    Some(k) => Some(k + i),
                    None => None::<int>,
                },
                spec_find_frame(fseq, state.current_stack_frame) is Some,
            decreases fseq.len() - i,
        {
            proof {
                assert(fseq.skip(i as int)[0] == fseq[i as int]);
            }
            if frames[i].id == state.current_stack_frame {
                let frame = &frames[i];
                let path: String = match &frame.source {
                    Some(src) => match &src.path {
                        Some(p) => p.clone(),
                        None => String::new(),  // unreachable: the precondition names a path
                    },
                    None => String::new(),  // unreachable: the precondition names a source
                };
                let clear_first = match &self.current_jump {
                    Some((old_path, _)) => {
                        if !old_path.eq(&path) {
                            Some(old_path.clone())
                        } else {
                            None
                        }
                    },
                    None => None,
                };
                let line = frame.line;
                self.current_jump = Some((path.clone(), line));
                proof {
                    assert(spec_find_frame(fseq, state.current_stack_frame) == Some(i as int));
                }
                return JumpPlan { clear_first, path, line };
            }
            proof {
                assert(fseq.skip(i as int).skip(1) =~= fseq.skip(i as int + 1));
            }
            i = i + 1;
        }
        proof {
            assert(fseq.skip(i as int).len() == 0);
            assert(false);
        }
        vstd::pervasive::unreached()
    }

    /// Ends the session's editor bookkeeping: takes the marked path
    /// out for a final clear, and empties the breakpoint model so the
    /// next marker refresh wipes the editor's gutters.
    pub fn quit(&mut self, state: &mut State) -> (r: Option<String>)
        ensures
            final(self).current_jump is None,
            final(self).session == old(self).session,
            match old(self).current_jump {
                Some(pl) => r == Some(pl.0),
                None => r is None,
            },
            final(state).model() == (SessionModel {
                breakpoints: Map::<Seq<char>, Vec<crate::msg::SourceBreakpoint>>::empty(),
                breakpoint_paths: Seq::<String>::empty(),
                ..old(state).model()
            }),
            final(state).paths_match(),
            old(state).console@.is_prefix_of(final(state).console@),
    {
        let r = self.clear_jump();
        state.breakpoints.clear();
        state.breakpoint_paths.clear();
        r
    }
}

} // verus!
