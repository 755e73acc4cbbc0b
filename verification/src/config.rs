//! Configuration: the options record, environment-variable
//! interpolation in the raw configuration text, and the small rules of
//! the command line.
//!
//! Interpolation rewrites `${NAME}` to the value of the variable
//! `NAME` (empty when unset), scanning left to right and closing each
//! reference at the first `}` on the same line; afterwards every
//! literal `$$` becomes one `$`. `spec_interpolate` states both passes
//! exactly.

use vstd::prelude::*;

use crate::codec::{spec_find_byte, lemma_find_byte_char};

verus! {

/// The options record read from the configuration file.
#[derive(Clone, Debug, PartialEq, Eq)]
pub struct Config {
    /// The debug adapter executable.
    pub adapter: String,
    /// Arguments handed to the adapter.
    pub adapter_args: Vec<String>,
    /// The DAP identifier of the adapter.
    pub adapter_id: Option<String>,
    /// Argv prefix wrapping an external-terminal debuggee.
    pub term_cmd: Option<Vec<String>>,
    /// Default session name.
    pub session_name: Option<String>,
    /// Adapter-specific launch payload, as raw JSON text.
    pub launch_args: String,
}

/// The value of `name` among the environment pairs; empty when absent.
pub open spec fn spec_lookup(env: Seq<(Seq<u8>, Seq<u8>)>, name: Seq<u8>) -> Seq<u8>
    decreases env.len(),
{
    if env.len() == 0 {
        Seq::empty()
    } else if env[0].0 == name {
        env[0].1
    } else {
        spec_lookup(env.skip(1), name)
    }
}

/// No line break: a variable reference must close on the line it opens.
pub open spec fn no_newline(s: Seq<u8>) -> bool {
    forall|i: int| 0 <= i < s.len() ==> s[i] != 10
}

/// The first pass: each `${NAME}` becomes the value of `NAME`.
pub open spec fn subst_vars(s: Seq<u8>, env: Seq<(Seq<u8>, Seq<u8>)>) -> Seq<u8>
    decreases s.len(),
    via subst_vars_decreases
{
    if s.len() == 0 {
        Seq::empty()
    } else if s[0] == 36 && s.len() >= 2 && s[1] == 123 {
        let rest = s.skip(2);
        if spec_find_byte(rest, 125) is Some && no_newline(
            rest.take(spec_find_byte(rest, 125).unwrap()),
        ) {
            let k = spec_find_byte(rest, 125).unwrap();
            spec_lookup(env, rest.take(k)) + subst_vars(s.skip(k + 3), env)
        } else {
            seq![36u8] + subst_vars(s.skip(1), env)
        }
    } else {
        seq![s[0]] + subst_vars(s.skip(1), env)
    }
}

#[via_fn]
proof fn subst_vars_decreases(s: Seq<u8>, env: Seq<(Seq<u8>, Seq<u8>)>) {
    if s.len() >= 2 {
        lemma_find_byte_char(s.skip(2), 125);
    }
}

/// The second pass: each literal `$$` becomes one `$`.
pub open spec fn collapse_dollars(s: Seq<u8>) -> Seq<u8>
    decreases s.len(),
{
    if s.len() == 0 {
        Seq::empty()
    } else if s[0] == 36 && s.len() >= 2 && s[1] == 36 {
        seq![36u8] + collapse_dollars(s.skip(2))
    } else {
        seq![s[0]] + collapse_dollars(s.skip(1))
    }
}

/// Both passes: variables first, then `$$`.
pub open spec fn spec_interpolate(s: Seq<u8>, env: Seq<(Seq<u8>, Seq<u8>)>) -> Seq<u8> {
    collapse_dollars(subst_vars(s, env))
}

/// The environment pairs as mathematical byte sequences.
pub open spec fn env_view(env: Seq<(Vec<u8>, Vec<u8>)>) -> Seq<(Seq<u8>, Seq<u8>)> {
    env.map_values(|p: (Vec<u8>, Vec<u8>)| (p.0@, p.1@))
}

/// Whether `a` and `b` hold the same bytes.
fn eq_bytes(a: &[u8], b: &[u8]) -> (r: bool)
    ensures
        r == (a@ == b@),
{
    if a.len() != b.len() {
        return false;
    }
    let mut i: usize = 0;
    while i < a.len()
        invariant
            a@.len() == b@.len(),
            0 <= i <= a@.len(),
            forall|j: int| 0 <= j < i ==> a@[j] == b@[j],
        decreases a@.len() - i,
    {
        if a[i] != b[i] {
            return false;
        }
        i = i + 1;
    }
    proof {
        assert(a@ =~= b@);
    }
    true
}

/// Looks `name` up among the environment pairs; empty when absent.
fn lookup_var(env: &Vec<(Vec<u8>, Vec<u8>)>, name: &[u8]) -> (r: Vec<u8>)
    ensures
        r@ == spec_lookup(env_view(env@), name@),
{
    let mut i: usize = 0;
    proof {
        assert(env_view(env@).skip(0) =~= env_view(env@));
    }
    while i < env.len()
        invariant
            0 <= i <= env@.len(),
            spec_lookup(env_view(env@), name@) == spec_lookup(
                env_view(env@).skip(i as int),
                name@,
            ),
        decreases env@.len() - i,
    {
        proof {
            assert(env_view(env@)[i as int] == (env@[i as int].0@, env@[i as int].1@));
            assert(env_view(env@).skip(i as int)[0] == env_view(env@)[i as int]);
        }
        if eq_bytes(env[i].0.as_slice(), name) {
            let mut out: Vec<u8> = Vec::new();
            let src = &env[i].1;
            let mut k: usize = 0;
            while k < src.len()
                invariant
                    0 <= k <= src@.len(),
                    out@ == src@.take(k as int),
                decreases src@.len() - k,
            {
                out.push(src[k]);
                proof {
                    assert(src@.take(k as int + 1) =~= src@.take(k as int).push(src@[k as int]));
                }
                k = k + 1;
            }
            proof {
                assert(out@ =~= src@);
            }
            return out;
        }
        proof {
            assert(env_view(env@).skip(i as int).skip(1) =~= env_view(env@).skip(i as int + 1));
        }
        i = i + 1;
    }
    proof {
        assert(env_view(env@).skip(i as int).len() == 0);
    }
    Vec::new()
}

/// The first pass over `src`: rewrites each `${NAME}` to its value.
fn substitute_vars(src: &[u8], env: &Vec<(Vec<u8>, Vec<u8>)>) -> (r: Vec<u8>)
    ensures
        r@ == subst_vars(src@, env_view(env@)),
{
    let e = Ghost(env_view(env@));
    let mut out: Vec<u8> = Vec::new();
    let mut i: usize = 0;
    proof {
        assert(src@.skip(0) =~= src@);
        assert(out@ + subst_vars(src@, e@) =~= subst_vars(src@, e@));
    }
    while i < src.len()
        invariant
            0 <= i <= src@.len(),
            e@ == env_view(env@),
            out@ + subst_vars(src@.skip(i as int), e@) == subst_vars(src@, e@),
        decreases src@.len() - i,
    {
        let ghost cur = src@.skip(i as int);
        proof {
            assert(cur[0] == src@[i as int]);
            if i + 1 < src@.len() {
                assert(cur[1] == src@[i as int + 1]);
            }
        }
        if src[i] == 36 && i + 1 < src.len() && src[i + 1] == 123 {
            let tail = vstd::slice::slice_subrange(src, i + 2, src.len());
            proof {
                assert(tail@ =~= cur.skip(2));
            }
            match crate::codec::find_byte(tail, 125) {
                Some(k) => {
                    proof {
                        lemma_find_byte_char(tail@, 125);
                    }
                    // The reference must close on the same line.
                    let name = vstd::slice::slice_subrange(tail, 0, k);
                    proof {
                        assert(name@ =~= cur.skip(2).take(k as int));
                    }
                    match crate::codec::find_byte(name, 10) {
                        Some(_) => {
                            let ghost out0 = out@;
                            proof {
                                lemma_find_byte_char(name@, 10);
                                assert(!no_newline(cur.skip(2).take(k as int)));
                                assert(subst_vars(cur, e@) == seq![36u8] + subst_vars(
                                    cur.skip(1),
                                    e@,
                                ));
                            }
                            out.push(36);
                            proof {
                                assert(cur.skip(1) =~= src@.skip(i as int + 1));
                                assert(out@ + subst_vars(src@.skip(i as int + 1), e@) =~= out0
                                    + subst_vars(cur, e@));
                            }
                            i = i + 1;
                        },
                        None => {
                            let ghost out0 = out@;
                            proof {
                                lemma_find_byte_char(name@, 10);
                                assert(no_newline(cur.skip(2).take(k as int)));
                                assert(subst_vars(cur, e@) == spec_lookup(e@, name@) + subst_vars(
                                    cur.skip(k as int + 3),
                                    e@,
                                ));
                            }
                            let mut value = lookup_var(env, name);
                            out.append(&mut value);
                            proof {
                                assert(cur.skip(k as int + 3) =~= src@.skip(
                                    i as int + k as int + 3,
                                ));
                                assert(out@ + subst_vars(src@.skip(i as int + k as int + 3), e@)
                                    =~= out0 + subst_vars(cur, e@));
                            }
                            i = i + k + 3;
                        },
                    }
                },
                None => {
                    let ghost out0 = out@;
                    proof {
                        assert(subst_vars(cur, e@) == seq![36u8] + subst_vars(cur.skip(1), e@));
                    }
                    out.push(36);
                    proof {
                        assert(cur.skip(1) =~= src@.skip(i as int + 1));
                        assert(out@ + subst_vars(src@.skip(i as int + 1), e@) =~= out0
                            + subst_vars(cur, e@));
                    }
                    i = i + 1;
                },
            }
        } else {
            let ghost out0 = out@;
            proof {
                assert(subst_vars(cur, e@) == seq![cur[0]] + subst_vars(cur.skip(1), e@));
            }
            let b = src[i];
            out.push(b);
            proof {
                assert(cur.skip(1) =~= src@.skip(i as int + 1));
                assert(out@ + subst_vars(src@.skip(i as int + 1), e@) =~= out0 + subst_vars(
                    cur,
                    e@,
                ));
            }
            i = i + 1;
        }
    }
    proof {
        assert(src@.skip(src@.len() as int).len() == 0);
        assert(out@ + Seq::<u8>::empty() =~= out@);
    }
    out
}

/// The second pass over `src`: collapses each `$$` to one `$`.
fn collapse_dollar_signs(src: &[u8]) -> (r: Vec<u8>)
    ensures
        r@ == collapse_dollars(src@),
{
    let mut out: Vec<u8> = Vec::new();
    let mut i: usize = 0;
    proof {
        assert(src@.skip(0) =~= src@);
        assert(out@ + collapse_dollars(src@) =~= collapse_dollars(src@));
    }
    while i < src.len()
        invariant
            0 <= i <= src@.len(),
            out@ + collapse_dollars(src@.skip(i as int)) == collapse_dollars(src@),
        decreases src@.len() - i,
    {
        let ghost cur = src@.skip(i as int);
        proof {
            assert(cur[0] == src@[i as int]);
            if i + 1 < src@.len() {
                assert(cur[1] == src@[i as int + 1]);
            }
        }
        if src[i] == 36 && i + 1 < src.len() && src[i + 1] == 36 {
            let ghost out0 = out@;
            proof {
                assert(collapse_dollars(cur) == seq![36u8] + collapse_dollars(cur.skip(2)));
            }
            out.push(36);
            proof {
                assert(cur.skip(2) =~= src@.skip(i as int + 2));
                assert(out@ + collapse_dollars(src@.skip(i as int + 2)) =~= out0
                    + collapse_dollars(cur));
            }
            i = i + 2;
        } else {
            let ghost out0 = out@;
            proof {
                assert(collapse_dollars(cur) == seq![cur[0]] + collapse_dollars(cur.skip(1)));
            }
            let b = src[i];
            out.push(b);
            proof {
                assert(cur.skip(1) =~= src@.skip(i as int + 1));
                assert(out@ + collapse_dollars(src@.skip(i as int + 1)) =~= out0
                    + collapse_dollars(cur));
            }
            i = i + 1;
        }
    }
    proof {
        assert(src@.skip(src@.len() as int).len() == 0);
        assert(out@ + Seq::<u8>::empty() =~= out@);
    }
    out
}

/// Expands the raw configuration text: `${NAME}` becomes the value of
/// the pair named `NAME` (empty when absent), then `$$` becomes `$`.
pub fn interpolate(src: &[u8], env: &Vec<(Vec<u8>, Vec<u8>)>) -> (r: Vec<u8>)
    ensures
        r@ == spec_interpolate(src@, env_view(env@)),
{
    let pass1 = substitute_vars(src, env);
    collapse_dollar_signs(pass1.as_slice())
}

/// The command line surface.
#[derive(Clone, Debug, PartialEq, Eq)]
pub struct Cli {
    /// Configuration file location.
    pub config: String,
    /// A payload to send to an existing session's socket.
    pub request: Option<String>,
    /// Session identifier; chooses the IPC socket path.
    pub session: Option<String>,
}

impl Cli {
    /// A `--request` is only usable with a `--session` naming whom to
    /// send it to.
    pub fn is_valid(&self) -> (r: bool)
        ensures
            r == !(self.request is Some && self.session is None),
    {
        !(self.request.is_some() && self.session.is_none())
    }
}

/// The session name: the command line's, else the configuration's,
/// else the process id.
pub fn resolve_session(cli_session: Option<String>, config_session: Option<String>, pid: String)
    -> (r: String)
    ensures
        cli_session is Some ==> r == cli_session.unwrap(),
        cli_session is None && config_session is Some ==> r == config_session.unwrap(),
        cli_session is None && config_session is None ==> r == pid,
{
    match cli_session {
        Some(s) => s,
        None => match config_session {
            Some(s) => s,
            None => pid,
        },
    }
}

} // verus!
