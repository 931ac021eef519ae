//! The CLI's exit-code vocabulary and how a finished run maps onto it.
//!
//! Code 3 is deliberately unassigned: a permission denial is a tool result
//! fed back to the agent, never a terminal condition.
use vstd::prelude::*;
use crate::text::{chars_of, find_chars, occurs_at};

verus! {

/// The process exit status of one invocation.
#[derive(Clone, Copy, Debug, PartialEq, Eq, Structural)]
pub enum ExitCode {
    Completed,
    AgentFailed,
    Usage,
    NoHealthyBackend,
    BudgetExceeded,
    Interrupted,
}

/// The numeric status each exit code stands for.
pub open spec fn code_of(c: ExitCode) -> int {
    match c {
        ExitCode::Completed => 0,
        ExitCode::AgentFailed => 1,
        ExitCode::Usage => 2,
        ExitCode::NoHealthyBackend => 4,
        ExitCode::BudgetExceeded => 5,
        ExitCode::Interrupted => 130,
    }
}

impl ExitCode {
    /// The process exit status this variant represents.
    pub fn code(self) -> (r: i32)
        ensures
            r == code_of(self),
    {
        match self {
            ExitCode::Completed => 0,
            ExitCode::AgentFailed => 1,
            ExitCode::Usage => 2,
            ExitCode::NoHealthyBackend => 4,
            ExitCode::BudgetExceeded => 5,
            ExitCode::Interrupted => 130,
        }
    }

    /// Maps a finished agent's terminal status to an exit code. A bare
    /// `Cancelled` is an agent failure here: only the caller knows whether
    /// a SIGINT caused it (see [`ExitCode::from_result_with_sigint`]).
    pub fn from_result(r: &AgentResult) -> (c: ExitCode)
        ensures
            c == result_code(r.status),
    {
        match &r.status {
            ResultStatus::Completed => ExitCode::Completed,
            ResultStatus::BudgetExceeded { .. } => ExitCode::BudgetExceeded,
            ResultStatus::Failed { error } => classify_runtime_or_routing(error.as_str()),
            ResultStatus::Rejected { .. } | ResultStatus::Cancelled { .. } => ExitCode::AgentFailed,
            ResultStatus::Other => ExitCode::AgentFailed,
        }
    }

    /// [`ExitCode::from_result`], except that a `Cancelled` status seen
    /// together with a SIGINT reports `Interrupted`.
    pub fn from_result_with_sigint(r: &AgentResult, sigint_seen: bool) -> (c: ExitCode)
        ensures
            c == (if sigint_seen && r.status is Cancelled {
                ExitCode::Interrupted
            } else {
                result_code(r.status)
            }),
    {
        if sigint_seen && matches!(r.status, ResultStatus::Cancelled { .. }) {
            ExitCode::Interrupted
        } else {
            Self::from_result(r)
        }
    }

    /// Maps a terminal error to an exit code: configuration-shaped errors
    /// are usage errors, routing/runtime errors are classified by their
    /// message, everything else is an agent failure.
    pub fn from_error(e: &ConwayError) -> (c: ExitCode)
        ensures
            c == error_code(*e),
    {
        match e {
            ConwayError::Config | ConwayError::AgentDef | ConwayError::Build
            | ConwayError::UnsupportedFeature => ExitCode::Usage,
            ConwayError::Routing { display } | ConwayError::Runtime { display } => {
                classify_runtime_or_routing(display.as_str())
            }
            ConwayError::Io | ConwayError::Backend | ConwayError::Store => ExitCode::AgentFailed,
            ConwayError::Other => ExitCode::AgentFailed,
        }
    }
}

/// A finished agent's terminal status, as far as the exit code reads it.
pub enum ResultStatus {
    Completed,
    BudgetExceeded { limit: String },
    /// The error's display text.
    Failed { error: String },
    Rejected { missing: Vec<String> },
    Cancelled { reason: String },
    /// Any status this version does not know.
    Other,
}

/// A finished agent's result.
pub struct AgentResult {
    pub status: ResultStatus,
}

/// A terminal error, as far as the exit code reads it: its kind, and for
/// routing and runtime errors the display text.
pub enum ConwayError {
    Config,
    AgentDef,
    Build,
    UnsupportedFeature,
    Routing { display: String },
    Runtime { display: String },
    Io,
    Backend,
    Store,
    /// Any error kind this version does not know.
    Other,
}

/// Whether `p` occurs anywhere in `s`.
pub open spec fn contains_seq(s: Seq<char>, p: Seq<char>) -> bool {
    exists|i: int| occurs_at(s, p, i)
}

/// Whether a message names a routing rejection: no candidate for a role,
/// an unknown role alias, or a context too large for every candidate.
pub open spec fn is_routing_rejection(display: Seq<char>) -> bool {
    ||| contains_seq(display, "no candidate for role"@)
    ||| contains_seq(display, "unknown role alias"@)
    ||| contains_seq(display, "context rejected:"@)
}

/// The exit code a routing/runtime failure message maps to.
pub open spec fn message_code(display: Seq<char>) -> ExitCode {
    if is_routing_rejection(display) {
        ExitCode::NoHealthyBackend
    } else {
        ExitCode::AgentFailed
    }
}

/// The exit code of a terminal status.
pub open spec fn result_code(s: ResultStatus) -> ExitCode {
    match s {
        ResultStatus::Completed => ExitCode::Completed,
        ResultStatus::BudgetExceeded { .. } => ExitCode::BudgetExceeded,
        ResultStatus::Failed { error } => message_code(error@),
        _ => ExitCode::AgentFailed,
    }
}

/// The exit code of a terminal error.
pub open spec fn error_code(e: ConwayError) -> ExitCode {
    match e {
        ConwayError::Config | ConwayError::AgentDef | ConwayError::Build
        | ConwayError::UnsupportedFeature => ExitCode::Usage,
        ConwayError::Routing { display } => message_code(display@),
        ConwayError::Runtime { display } => message_code(display@),
        _ => ExitCode::AgentFailed,
    }
}

fn contains_str(haystack: &[char], needle: &str) -> (b: bool)
    ensures
        b == contains_seq(haystack@, needle@),
{
    let n = chars_of(needle);
    match find_chars(haystack, &n) {
        Some(i) => {
            assert(occurs_at(haystack@, needle@, i as int));
            true
        }
        None => false,
    }
}

/// Classifies a routing/runtime failure by its message: a routing
/// rejection is `NoHealthyBackend`, anything else an agent failure.
pub fn classify_runtime_or_routing(display: &str) -> (c: ExitCode)
    ensures
        c == message_code(display@),
{
    let d = chars_of(display);
    if contains_str(&d, "no candidate for role") || contains_str(&d, "unknown role alias")
        || contains_str(&d, "context rejected:") {
        ExitCode::NoHealthyBackend
    } else {
        ExitCode::AgentFailed
    }
}

/// Status 3 is never used: a permission denial is a tool result, never
/// how a run ends.
pub proof fn law_no_exit_code_is_three(c: ExitCode)
    ensures
        code_of(c) != 3,
{
}


/// A configuration-shaped error -- bad configuration, a bad agent
/// definition, a failed build, an unsupported feature -- is the caller's
/// to fix before any agent runs: it always exits with the usage code 2.
pub proof fn law_configuration_errors_exit_two(e: ConwayError)
    requires
        e is Config || e is AgentDef || e is Build || e is UnsupportedFeature,
    ensures
        code_of(error_code(e)) == 2,
{
}

} // verus!
