//! The `conway` command line, as the library reads it: every flag of the
//! top-level command and its subcommands. Parsing argv into it is the
//! binary's job.
use vstd::prelude::*;
use crate::routes::RoutesArgs;
use crate::sessions::SessionsArgs;

verus! {

/// The top-level command line. Paths are carried as given.
pub struct Cli {
    /// One-shot mode: `Some` runs a prompt and exits (empty text when the
    /// flag had no value); `None` is the interactive TUI.
    pub print: Option<String>,
    pub output_format: OutputFormat,
    /// Tools the agent may call, by exact name.
    pub allowed_tools: Vec<String>,
    /// Tools refused regardless of `allowed_tools`.
    pub deny_tools: Vec<String>,
    pub permission_mode: PermissionMode,
    pub role_override: Option<String>,
    /// Pins every turn to one model, `<backend-id>/<model>`.
    pub model: Option<String>,
    /// Runs as this named agent definition.
    pub agent: Option<String>,
    pub system_prompt: Option<String>,
    pub append_system_prompt: Option<String>,
    pub max_turns: Option<u32>,
    pub max_tokens: Option<u32>,
    pub max_seconds: Option<u64>,
    /// A JSON Schema file the run's final result must satisfy.
    pub output_schema: Option<String>,
    /// Use (creating if new) a specific session id.
    pub session: Option<String>,
    /// Reattach to a persisted session.
    pub resume: Option<String>,
    /// Branch a new session from `<session-id>[@<seq>]`.
    pub fork_from: Option<String>,
    /// Settings file to use as the project layer.
    pub config: Option<String>,
    /// Where the agent works.
    pub cwd: Option<String>,
    /// Where the agent is confined to.
    pub root: Option<String>,
    /// The `-v` count.
    pub verbose: u8,
    pub command: Option<Command>,
}

/// The subcommands.
pub enum Command {
    Sessions(SessionsArgs),
    Routes(RoutesArgs),
    /// Anything else: resolved against the installed plugins' commands.
    External(Vec<String>),
}

/// `--output-format`: how one-shot mode renders the event stream.
#[derive(Clone, Copy, Debug, PartialEq, Eq, Structural)]
pub enum OutputFormat {
    Text,
    Json,
    Jsonl,
}

/// `--permission-mode`: how one-shot mode's tool gate is built.
#[derive(Clone, Copy, Debug, PartialEq, Eq, Structural)]
pub enum PermissionMode {
    Allowlist,
    Deny,
}

} // verus!
