//! Diagnostic lines: every one goes to stderr, so stdout carries only
//! program output. Errors, warnings and progress notices always print;
//! informational notes only with `--verbose`.
use vstd::prelude::*;
use crate::text::{push_str, string_from};

verus! {

/// The effective `-v`/`--verbose` count.
#[derive(Clone, Copy, Debug, PartialEq, Eq, Structural)]
pub struct Verbosity {
    pub level: u8,
}

impl Verbosity {
    /// Quiet: no `--verbose`.
    pub fn new() -> (r: Verbosity)
        ensures
            r.level == 0,
    {
        Verbosity { level: 0 }
    }
}

/// Records the effective `-v`/`--verbose` count.
pub fn set_verbosity(v: &mut Verbosity, level: u8)
    ensures
        final(v).level == level,
{
    v.level = level;
}

/// The stderr line of an error.
pub open spec fn error_text(msg: Seq<char>) -> Seq<char> {
    "conway: error: "@ + msg + "\n"@
}

/// The stderr line of a warning.
pub open spec fn warn_text(msg: Seq<char>) -> Seq<char> {
    "conway: warning: "@ + msg + "\n"@
}

/// The stderr line of a note or progress notice.
pub open spec fn note_text(msg: Seq<char>) -> Seq<char> {
    "conway: "@ + msg + "\n"@
}

/// The stderr line of an error (see [`error_text`]).
pub fn error_line(msg: &str) -> (r: String)
    ensures
        r@ == error_text(msg@),
{
    let mut s = string_from("conway: error: ");
    push_str(&mut s, msg);
    push_str(&mut s, "\n");
    s
}

/// The stderr line of a warning (see [`warn_text`]).
pub fn warn_line(msg: &str) -> (r: String)
    ensures
        r@ == warn_text(msg@),
{
    let mut s = string_from("conway: warning: ");
    push_str(&mut s, msg);
    push_str(&mut s, "\n");
    s
}

/// The stderr line of an informational note: only at verbosity 1 or
/// more.
pub fn info_line(v: Verbosity, msg: &str) -> (r: Option<String>)
    ensures
        v.level >= 1 ==> (r matches Some(s) && s@ == note_text(msg@)),
        v.level < 1 ==> r is None,
{
    if v.level >= 1 {
        let mut s = string_from("conway: ");
        push_str(&mut s, msg);
        push_str(&mut s, "\n");
        Some(s)
    } else {
        None
    }
}

/// The stderr line of a progress notice, printed at every verbosity.
pub fn progress_line(msg: &str) -> (r: String)
    ensures
        r@ == note_text(msg@),
{
    let mut s = string_from("conway: ");
    push_str(&mut s, msg);
    push_str(&mut s, "\n");
    s
}

/// A line for stdout, or an error for stderr (printed as by
/// [`error_line`]).
pub enum Reply {
    Stdout(String),
    Stderr(String),
}

/// A reply as plain values: `true` for stderr.
pub open spec fn reply_view(r: Reply) -> (bool, Seq<char>) {
    match r {
        Reply::Stdout(s) => (false, s@),
        Reply::Stderr(s) => (true, s@),
    }
}

/// Replies as plain values, in order.
pub open spec fn replies_view(v: Seq<Reply>) -> Seq<(bool, Seq<char>)> {
    v.map_values(|r: Reply| reply_view(r))
}

/// No replies.
pub(crate) fn no_replies() -> (v: Vec<Reply>)
    ensures
        replies_view(v@) == Seq::<(bool, Seq<char>)>::empty(),
{
    let v: Vec<Reply> = Vec::new();
    assert(replies_view(v@) =~= Seq::<(bool, Seq<char>)>::empty());
    v
}

/// The single reply `r`.
pub(crate) fn one(r: Reply) -> (v: Vec<Reply>)
    ensures
        replies_view(v@) == seq![reply_view(r)],
{
    let mut v: Vec<Reply> = Vec::new();
    v.push(r);
    assert(replies_view(v@) =~= seq![reply_view(r)]);
    v
}

/// The crates of this workspace whose tracing `-v` surfaces.
pub open spec fn traced_crates() -> Seq<Seq<char>> {
    seq!["conway"@, "conway_core"@, "conway_plugin_backends"@, "conway_plugin_routing"@, "conway_tools"@,
        "conway_session"@, "conway_runtime"@, "conway_cli"@]
}

/// The `target=level` clauses for `crates`, each after a comma.
pub open spec fn level_clauses(crates: Seq<Seq<char>>, level: Seq<char>) -> Seq<char>
    decreases crates.len(),
{
    if crates.len() == 0 {
        Seq::empty()
    } else {
        level_clauses(crates.drop_last(), level) + ","@ + crates.last() + "="@ + level
    }
}

/// The tracing filter `-v` asks for: nothing without it; otherwise
/// warnings from everything and, from this workspace's own crates, `info`
/// (`trace` from `-vv` on).
pub open spec fn tracing_directive_of(verbose: u8) -> Option<Seq<char>> {
    if verbose == 0 {
        None
    } else {
        Some("warn"@ + level_clauses(traced_crates(), if verbose >= 2 { "trace"@ } else { "info"@ }))
    }
}

/// The tracing filter `-v` asks for (see [`tracing_directive_of`]).
pub fn tracing_directive(verbose: u8) -> (r: Option<String>)
    ensures
        match tracing_directive_of(verbose) {
            Some(d) => r matches Some(s) && s@ == d,
            None => r is None,
        },
{
    if verbose == 0 {
        return None;
    }
    let level = if verbose >= 2 { "trace" } else { "info" };
    let crates: Vec<&str> = vec!["conway", "conway_core", "conway_plugin_backends", "conway_plugin_routing",
        "conway_tools", "conway_session", "conway_runtime", "conway_cli"];
    let ghost cs = traced_crates();
    assert(crates@.map_values(|c: &str| c@) =~= cs);
    let mut s = string_from("warn");
    let mut i: usize = 0;
    while i < crates.len()
        invariant
            i <= crates@.len(),
            crates@.map_values(|c: &str| c@) == cs,
            s@ == "warn"@ + level_clauses(cs.take(i as int), level@),
        decreases crates@.len() - i,
    {
        push_str(&mut s, ",");
        push_str(&mut s, crates[i]);
        push_str(&mut s, "=");
        push_str(&mut s, level);
        proof {
            assert(cs.take(i + 1).drop_last() =~= cs.take(i as int));
            assert(cs[i as int] == crates@[i as int]@);
        }
        i = i + 1;
    }
    assert(cs.take(crates@.len() as int) =~= cs);
    Some(s)
}

} // verus!
