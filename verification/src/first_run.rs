//! Guided first-run setup: the hosted providers offered, how a typed
//! credential or context window is checked, the messages the flow prints,
//! and the decisions of the interactive flow itself.
use vstd::prelude::*;
use crate::text::{chars_of, decimal, find_value, lookup, pad_right, parse_unsigned, parse_unsigned_chars, push_decimal, push_padded, push_str, string_from, string_of, trim, trim_chars};

verus! {

/// The line that opens the guided flow; everything else keys off it.
pub const GUIDED_SETUP_MARKER: &'static str = "conway can't reach a working model provider yet";

/// Ollama's own default endpoint, the one local server the flow probes.
pub const LOCAL_OLLAMA_BASE_URL: &'static str = "http://127.0.0.1:11434/v1";

/// The `backends.<id>` key written for a detected local server.
pub const LOCAL_OLLAMA_ID: &'static str = "local";

/// The role whose chain the flow writes, and that `default_role` names.
pub const GUIDED_SETUP_ROLE: &'static str = "default";

/// The largest context window a typed answer may name.
pub const MAX_PLAUSIBLE_CONTEXT_WINDOW: u32 = 4000000;

/// The longest credential, in characters, a typed answer may be.
pub const MAX_CREDENTIAL_CHARS: usize = 4096;

/// One hosted provider shape offered when no local server answered.
pub struct ProviderChoice {
    pub id: &'static str,
    pub label: &'static str,
    pub kind: &'static str,
    pub dialect: Option<&'static str>,
    pub base_url: Option<&'static str>,
    pub default_model: &'static str,
    pub credential_env: &'static str,
}

/// Whether an optional static string is `Some` of exactly `t`.
pub open spec fn opt_is(o: Option<&'static str>, t: Seq<char>) -> bool {
    o matches Some(x) && x@ == t
}

/// The hosted providers, in menu order: Anthropic, OpenAI, Ollama Cloud.
pub open spec fn is_hosted_menu(v: Seq<ProviderChoice>) -> bool {
    &&& v.len() == 3
    &&& v[0].id@ == "anthropic"@
    &&& v[0].label@ == "Anthropic"@
    &&& v[0].kind@ == "anthropic"@
    &&& v[0].dialect is None
    &&& v[0].base_url is None
    &&& v[0].default_model@ == "sonnet-4-6"@
    &&& v[0].credential_env@ == "ANTHROPIC_API_KEY"@
    &&& v[1].id@ == "openai"@
    &&& v[1].label@ == "OpenAI"@
    &&& v[1].kind@ == "openai-compat"@
    &&& opt_is(v[1].dialect, "openai"@)
    &&& opt_is(v[1].base_url, "https://api.openai.com/v1"@)
    &&& v[1].default_model@ == "gpt-4o-mini"@
    &&& v[1].credential_env@ == "OPENAI_API_KEY"@
    &&& v[2].id@ == "ollama_cloud"@
    &&& v[2].label@ == "Ollama Cloud"@
    &&& v[2].kind@ == "openai-compat"@
    &&& opt_is(v[2].dialect, "ollama"@)
    &&& opt_is(v[2].base_url, "https://ollama.com/v1"@)
    &&& v[2].default_model@ == "glm-5.2"@
    &&& v[2].credential_env@ == "OLLAMA_API_KEY"@
}

/// The hosted providers offered, in menu order (see [`is_hosted_menu`]).
pub fn hosted_choices() -> (r: Vec<ProviderChoice>)
    ensures
        is_hosted_menu(r@),
{
    let mut v: Vec<ProviderChoice> = Vec::new();
    v.push(ProviderChoice {
        id: "anthropic",
        label: "Anthropic",
        kind: "anthropic",
        dialect: None,
        base_url: None,
        default_model: "sonnet-4-6",
        credential_env: "ANTHROPIC_API_KEY",
    });
    v.push(ProviderChoice {
        id: "openai",
        label: "OpenAI",
        kind: "openai-compat",
        dialect: Some("openai"),
        base_url: Some("https://api.openai.com/v1"),
        default_model: "gpt-4o-mini",
        credential_env: "OPENAI_API_KEY",
    });
    v.push(ProviderChoice {
        id: "ollama_cloud",
        label: "Ollama Cloud",
        kind: "openai-compat",
        dialect: Some("ollama"),
        base_url: Some("https://ollama.com/v1"),
        default_model: "glm-5.2",
        credential_env: "OLLAMA_API_KEY",
    });
    v
}

/// A local model server that answered, and the model it has loaded.
pub struct LocalOffer {
    pub base_url: String,
    pub model: String,
}

/// Which credential a chosen provider is saved with.
#[derive(Clone, Copy, Debug, PartialEq, Eq, Structural)]
pub enum CredentialPlan {
    /// The provider's credential variable is already set (not blank):
    /// reuse it by name, never asking for the value.
    ReuseEnvVar,
    /// Nothing usable is set: ask for a literal value.
    PromptForLiteral,
}

/// Where a saved entry's credential came from.
pub enum CredentialSource {
    EnvVar(String),
    Literal(String),
}

/// What the interactive flow ended with.
#[derive(Clone, Copy, Debug, PartialEq, Eq, Structural)]
pub enum GuidedSetupOutcome {
    /// A backend was saved and verified with a real completion.
    Configured,
    /// Nothing new was kept; the caller proceeds as before.
    Declined,
}

/// The plan for `credential_env` given the environment `env`: reuse it
/// when it is set to something other than whitespace.
pub open spec fn credential_plan(credential_env: Seq<char>, env: Seq<(String, String)>) -> CredentialPlan {
    match lookup(env, credential_env) {
        Some(v) if trim(v).len() > 0 => CredentialPlan::ReuseEnvVar,
        _ => CredentialPlan::PromptForLiteral,
    }
}

/// Whether `choice`'s own credential variable is already usable in `env`
/// (see [`credential_plan`]); where a name occurs more than once in `env`,
/// its first entry counts.
pub fn resolve_credential_plan(choice: &ProviderChoice, env: &[(String, String)]) -> (r: CredentialPlan)
    ensures
        r == credential_plan(choice.credential_env@, env@),
{
    match find_value(env, choice.credential_env) {
        Some(v) => {
            let cs = chars_of(v.as_str());
            let t = trim_chars(&cs);
            if t.len() > 0 {
                CredentialPlan::ReuseEnvVar
            } else {
                CredentialPlan::PromptForLiteral
            }
        }
        None => CredentialPlan::PromptForLiteral,
    }
}

/// Refusal of an empty credential.
pub const NO_KEY_ENTERED: &'static str = "no key was entered";

/// Refusal of a credential too long to be a key.
pub const KEY_TOO_LONG: &'static str = "that's too long to be an API key (over 4096 characters) -- refusing to save it";

/// A typed credential: refused when blank or longer than
/// [`MAX_CREDENTIAL_CHARS`] characters once trimmed, else the trimmed text.
pub open spec fn credential_input(raw: Seq<char>) -> Result<Seq<char>, Seq<char>> {
    let t = trim(raw);
    if t.len() == 0 {
        Err(NO_KEY_ENTERED@)
    } else if t.len() > MAX_CREDENTIAL_CHARS {
        Err(KEY_TOO_LONG@)
    } else {
        Ok(t)
    }
}

/// Checks a typed credential (see [`credential_input`]).
pub fn validate_credential_input(raw: &str) -> (r: Result<String, &'static str>)
    ensures
        match credential_input(raw@) {
            Ok(t) => r matches Ok(s) && s@ == t,
            Err(m) => r matches Err(e) && e@ == m,
        },
{
    let cs = chars_of(raw);
    let t = trim_chars(&cs);
    if t.len() == 0 {
        return Err(NO_KEY_ENTERED);
    }
    if t.len() > MAX_CREDENTIAL_CHARS {
        return Err(KEY_TOO_LONG);
    }
    Ok(string_of(&t))
}

/// What `str::parse::<u32>` accepts (see [`parse_unsigned`]).
pub open spec fn parse_u32(s: Seq<char>) -> Option<nat> {
    parse_unsigned(s, u32::MAX as nat)
}

/// Parses a `u32` the way `str::parse` does (see [`parse_u32`]).
pub fn parse_u32_chars(s: &[char]) -> (r: Option<u32>)
    ensures
        match parse_u32(s@) {
            Some(n) => r == Some(n as u32),
            None => r is None,
        },
{
    match parse_unsigned_chars(s, u32::MAX as u64) {
        Some(v) => Some(v as u32),
        None => None,
    }
}

/// Refusal of a zero context window.
pub const WINDOW_ZERO: &'static str = "a context window of 0 tokens is not usable -- press Enter with nothing typed to skip instead";

/// Refusal of an implausibly large context window.
pub const WINDOW_TOO_LARGE: &'static str = "that's larger than any known real model context window -- refusing to save it (press Enter with nothing typed to skip)";

/// Refusal of a context window that is not a number.
pub const WINDOW_NOT_A_NUMBER: &'static str = "not a whole number of tokens";

/// A typed context window: blank means skip (`Ok(None)`); otherwise a
/// `u32` from 1 to [`MAX_PLAUSIBLE_CONTEXT_WINDOW`], else the refusal.
pub open spec fn window_input(raw: Seq<char>) -> Result<Option<nat>, Seq<char>> {
    let t = trim(raw);
    if t.len() == 0 {
        Ok(None)
    } else {
        match parse_u32(t) {
            None => Err(WINDOW_NOT_A_NUMBER@),
            Some(n) => if n == 0 {
                Err(WINDOW_ZERO@)
            } else if n > MAX_PLAUSIBLE_CONTEXT_WINDOW {
                Err(WINDOW_TOO_LARGE@)
            } else {
                Ok(Some(n))
            },
        }
    }
}

/// Checks a typed context window (see [`window_input`]).
pub fn validate_context_window_input(raw: &str) -> (r: Result<Option<u32>, &'static str>)
    ensures
        match window_input(raw@) {
            Ok(None) => r == Ok::<Option<u32>, &'static str>(None),
            Ok(Some(n)) => r == Ok::<Option<u32>, &'static str>(Some(n as u32)),
            Err(m) => r matches Err(e) && e@ == m,
        },
{
    let cs = chars_of(raw);
    let t = trim_chars(&cs);
    if t.len() == 0 {
        return Ok(None);
    }
    match parse_u32_chars(&t) {
        None => Err(WINDOW_NOT_A_NUMBER),
        Some(n) => {
            if n == 0 {
                Err(WINDOW_ZERO)
            } else if n > MAX_PLAUSIBLE_CONTEXT_WINDOW {
                Err(WINDOW_TOO_LARGE)
            } else {
                Ok(Some(n))
            }
        }
    }
}

/// The notice printed once a context window is recorded: the model key,
/// the window, and the file it was written to.
pub open spec fn setup_notice(key: Seq<char>, window: nat, path: Seq<char>) -> Seq<char> {
    "conway recorded a "@ + decimal(window) + "-token context window for "@ + key + " in "@ + path
        + " -- routing and admission now reflect it."@
}

/// The notice printed once a context window is recorded (see
/// [`setup_notice`]); `path` is the file's displayed path.
pub fn context_window_setup_notice(key: &str, window: u32, path: &str) -> (r: String)
    ensures
        r@ == setup_notice(key@, window as nat, path@),
{
    let mut s = string_from("conway recorded a ");
    push_decimal(&mut s, window as u64);
    push_str(&mut s, "-token context window for ");
    push_str(&mut s, key);
    push_str(&mut s, " in ");
    push_str(&mut s, path);
    push_str(&mut s, " -- routing and admission now reflect it.");
    s
}

/// The first half of the non-interactive guidance, up to the settings path.
pub const GUIDANCE_HEAD: &'static str = ", and this isn't an interactive terminal, so conway can't ask you about it here.\n\nAdd a provider by hand: edit (or create) ";

/// The rest of the non-interactive guidance: a pasteable settings snippet
/// and what to do next.
pub const GUIDANCE_TAIL: &'static str = " and add:\n\n{\n  \"backends\": {\n    \"anthropic\": {\n      \"kind\": \"anthropic\",\n      \"api_key_env\": \"ANTHROPIC_API_KEY\"\n    }\n  },\n  \"roles\": {\n    \"coder\": { \"chain\": [\"anthropic/sonnet-4-6\"] }\n  }\n}\n\nthen export ANTHROPIC_API_KEY and run conway again. See docs/getting-started.md for other providers, including a local server.";

/// What is printed instead of the guided flow when no terminal is
/// attached: the marker, the file to edit, and a snippet to paste.
pub open spec fn guidance_text(path: Seq<char>) -> Seq<char> {
    GUIDED_SETUP_MARKER@ + GUIDANCE_HEAD@ + path + GUIDANCE_TAIL@
}

/// The non-interactive guidance (see [`guidance_text`]); `path` is the
/// settings file's displayed path.
pub fn non_interactive_guidance(path: &str) -> (r: String)
    ensures
        r@ == guidance_text(path@),
{
    let mut s = string_from(GUIDED_SETUP_MARKER);
    push_str(&mut s, GUIDANCE_HEAD);
    push_str(&mut s, path);
    push_str(&mut s, GUIDANCE_TAIL);
    s
}

/// A role chain entry: `backend/model`.
pub open spec fn chain_entry_text(id: Seq<char>, model: Seq<char>) -> Seq<char> {
    id + "/"@ + model
}

/// A role chain entry (see [`chain_entry_text`]).
pub fn chain_entry(id: &str, model: &str) -> (r: String)
    ensures
        r@ == chain_entry_text(id@, model@),
{
    let mut s = string_from(id);
    push_str(&mut s, "/");
    push_str(&mut s, model);
    s
}

/// One transcript row: the id padded to 16 characters, then its summary.
pub open spec fn opinion_row(id: Seq<char>, summary: Seq<char>) -> Seq<char> {
    "  "@ + pad_right(id, 16) + " "@ + summary + "\n"@
}

/// The transcript rows, in order.
pub open spec fn opinion_rows(rows: Seq<(String, String)>) -> Seq<char>
    decreases rows.len(),
{
    if rows.len() == 0 {
        Seq::empty()
    } else {
        opinion_rows(rows.drop_last()) + opinion_row(rows.last().0@, rows.last().1@)
    }
}

/// The transcript of an installed opinion set: a heading, one row per
/// `(id, summary)`, and one sentence naming both ways to remove any of
/// them.
pub open spec fn transcript_text(rows: Seq<(String, String)>, path: Seq<char>) -> Seq<char> {
    "Installing conway's own opinion set:\n"@ + opinion_rows(rows)
        + "Remove any of these with `conway plugin remove <id>` or by deleting its line from plugins.install in "@
        + path + ".\n"@
}

/// The transcript of an installed opinion set (see [`transcript_text`]);
/// `path` is the settings file's displayed path.
pub fn opinion_set_transcript(rows: &[(String, String)], path: &str) -> (r: String)
    ensures
        r@ == transcript_text(rows@, path@),
{
    let mut out = string_from("Installing conway's own opinion set:\n");
    let ghost head = out@;
    let mut k: usize = 0;
    while k < rows.len()
        invariant
            k <= rows.len(),
            out@ == head + opinion_rows(rows@.take(k as int)),
        decreases rows.len() - k,
    {
        let ghost next = rows@.take(k as int + 1);
        assert(next.drop_last() =~= rows@.take(k as int));
        let mut line = string_from("  ");
        let id = chars_of(rows[k].0.as_str());
        push_padded(&mut line, &id, 16);
        push_str(&mut line, " ");
        push_str(&mut line, rows[k].1.as_str());
        push_str(&mut line, "\n");
        push_str(&mut out, line.as_str());
        assert(out@ =~= head + opinion_rows(next));
        k = k + 1;
    }
    assert(rows@.take(rows.len() as int) =~= rows@);
    push_str(&mut out, "Remove any of these with `conway plugin remove <id>` or by deleting its line from plugins.install in ");
    push_str(&mut out, path);
    push_str(&mut out, ".\n");
    out
}

/// The message printed when the flow ends without a new provider and none
/// was configured earlier in the run.
pub const DECLINE_MESSAGE: &'static str = "Skipping setup. No model provider is configured, so turns will fail until you add one -- see docs/getting-started.md, or run conway again to retry this.";

/// How the flow ends when declined with `n` providers already configured
/// in this run: `Declined` (and the decline message) when none was, else
/// `Configured`, naming how many. The text is what is printed, a blank
/// line first.
pub open spec fn decline_or_keep_result(n: nat) -> (GuidedSetupOutcome, Seq<char>) {
    if n == 0 {
        (GuidedSetupOutcome::Declined, "\n"@ + DECLINE_MESSAGE@ + "\n"@)
    } else {
        (GuidedSetupOutcome::Configured, "\n"@ + "Continuing with what's already configured ("@ + decimal(n)
            + " provider"@ + (if n == 1 { Seq::empty() } else { "s"@ }) + ")."@ + "\n"@)
    }
}

/// How the flow ends when declined after configuring `chain` (see
/// [`decline_or_keep_result`]).
pub fn decline_or_keep(chain: &[String]) -> (r: (GuidedSetupOutcome, String))
    ensures
        r.0 == decline_or_keep_result(chain@.len()).0,
        r.1@ == decline_or_keep_result(chain@.len()).1,
{
    keep_or_decline(chain.len())
}

pub(crate) fn keep_or_decline(n: usize) -> (r: (GuidedSetupOutcome, String))
    ensures
        r.0 == decline_or_keep_result(n as nat).0,
        r.1@ == decline_or_keep_result(n as nat).1,
{
    if n == 0 {
        let mut s = string_from("\n");
        push_str(&mut s, DECLINE_MESSAGE);
        push_str(&mut s, "\n");
        (GuidedSetupOutcome::Declined, s)
    } else {
        let mut s = string_from("\n");
        push_str(&mut s, "Continuing with what's already configured (");
        push_decimal(&mut s, n as u64);
        push_str(&mut s, " provider");
        let ghost before = s@;
        if n != 1 {
            push_str(&mut s, "s");
        } else {
            assert(s@ =~= before + Seq::<char>::empty());
        }
        push_str(&mut s, ").");
        push_str(&mut s, "\n");
        (GuidedSetupOutcome::Configured, s)
    }
}

// ---------------------------------------------------------------------
// The interactive backend setup, as decisions between terminal reads
// ---------------------------------------------------------------------

/// A key the operator pressed at a prompt.
#[derive(Clone, Copy, Debug, PartialEq, Eq, Structural)]
pub enum SetupKey {
    Enter,
    Esc,
    Char(char),
    /// Any other key.
    Other,
}

/// Where the setup flow stands.
pub enum SetupPhase {
    /// Nothing has happened yet.
    Start,
    /// Waiting for the local-server probe.
    Probing,
    /// A local server was offered; waiting for the key that answers.
    LocalOffered { offer: LocalOffer },
    /// The provider menu is shown; waiting for a key.
    Menu,
    /// Waiting for the pasted credential of hosted choice `choice`.
    AwaitingSecret { choice: usize },
    /// Waiting for a provider to be saved and verified.
    Finishing,
    /// Asked whether to add another provider; waiting for the key.
    AskingAnother,
    /// The flow is over.
    Done,
}

/// The flow's state: its phase and how many providers this run has put in
/// the chain so far.
pub struct SetupState {
    pub phase: SetupPhase,
    pub chain_len: usize,
}

/// What happened since the last step.
pub enum SetupEvent {
    /// The flow is starting.
    Begin,
    /// The local probe's result.
    Probed { offer: Option<LocalOffer> },
    /// A key press; `None` when the terminal could not be read.
    Key { key: Option<SetupKey> },
    /// A pasted line; `None` when the terminal could not be read.
    Secret { line: Option<String> },
    /// Saving a provider ended with `outcome`, the chain now `chain_len`
    /// long.
    Finished { outcome: GuidedSetupOutcome, chain_len: usize },
}

/// What the terminal side does next, after printing the step's text.
pub enum SetupAction {
    /// Probe for a local server.
    ProbeLocal,
    /// Read one key press.
    ReadKey,
    /// Read one pasted line without echo.
    ReadSecret,
    /// Record the local server's context window, then save and verify it.
    FinishLocal { offer: LocalOffer },
    /// Record hosted choice `choice`'s context window, then save and verify
    /// it with `credential`.
    FinishHosted { choice: usize, credential: CredentialSource },
    /// The flow is over with `outcome`.
    End { outcome: GuidedSetupOutcome },
}

/// A setup phase, by the views of what it holds.
pub enum PhaseView {
    Start,
    Probing,
    LocalOffered { base_url: Seq<char>, model: Seq<char> },
    Menu,
    AwaitingSecret { choice: nat },
    Finishing,
    AskingAnother,
    Done,
}

/// A setup action, by the views of what it holds.
pub enum ActionView {
    ProbeLocal,
    ReadKey,
    ReadSecret,
    FinishLocal { base_url: Seq<char>, model: Seq<char> },
    /// `env_var` is `Some(name)` for a credential reused by name, `None`
    /// for the literal `literal`.
    FinishHosted { choice: nat, env_var: Option<Seq<char>>, literal: Seq<char> },
    End { outcome: GuidedSetupOutcome },
}

/// A setup event, by the views of what it holds.
pub enum EventView {
    Begin,
    Probed { offer: Option<(Seq<char>, Seq<char>)> },
    Key { key: Option<SetupKey> },
    Secret { line: Option<Seq<char>> },
    Finished { outcome: GuidedSetupOutcome, chain_len: nat },
}

/// The view of a phase.
pub open spec fn phase_view(p: SetupPhase) -> PhaseView {
    match p {
        SetupPhase::Start => PhaseView::Start,
        SetupPhase::Probing => PhaseView::Probing,
        SetupPhase::LocalOffered { offer } => PhaseView::LocalOffered { base_url: offer.base_url@, model: offer.model@ },
        SetupPhase::Menu => PhaseView::Menu,
        SetupPhase::AwaitingSecret { choice } => PhaseView::AwaitingSecret { choice: choice as nat },
        SetupPhase::Finishing => PhaseView::Finishing,
        SetupPhase::AskingAnother => PhaseView::AskingAnother,
        SetupPhase::Done => PhaseView::Done,
    }
}

/// The view of an action.
pub open spec fn action_view(a: SetupAction) -> ActionView {
    match a {
        SetupAction::ProbeLocal => ActionView::ProbeLocal,
        SetupAction::ReadKey => ActionView::ReadKey,
        SetupAction::ReadSecret => ActionView::ReadSecret,
        SetupAction::FinishLocal { offer } => ActionView::FinishLocal { base_url: offer.base_url@, model: offer.model@ },
        SetupAction::FinishHosted { choice, credential } => match credential {
            CredentialSource::EnvVar(name) => ActionView::FinishHosted { choice: choice as nat, env_var: Some(name@), literal: Seq::empty() },
            CredentialSource::Literal(key) => ActionView::FinishHosted { choice: choice as nat, env_var: None, literal: key@ },
        },
        SetupAction::End { outcome } => ActionView::End { outcome },
    }
}

/// The view of an event.
pub open spec fn event_view(e: SetupEvent) -> EventView {
    match e {
        SetupEvent::Begin => EventView::Begin,
        SetupEvent::Probed { offer } => EventView::Probed {
            offer: match offer {
                Some(o) => Some((o.base_url@, o.model@)),
                None => None,
            },
        },
        SetupEvent::Key { key } => EventView::Key { key },
        SetupEvent::Secret { line } => EventView::Secret {
            line: match line {
                Some(l) => Some(l@),
                None => None,
            },
        },
        SetupEvent::Finished { outcome, chain_len } => EventView::Finished { outcome, chain_len: chain_len as nat },
    }
}

/// The opening lines of the flow, ending in the unterminated probe line.
pub const SETUP_INTRO: &'static str = "\nconway can't reach a working model provider yet.\nLet's fix that. Press Esc at any point to skip and continue without one.\n\nLooking for a local model server (Ollama on 127.0.0.1:11434)... ";

/// The provider menu.
pub const SETUP_MENU: &'static str = "\nPick a provider:\n  [1] Anthropic\n  [2] OpenAI\n  [3] Ollama Cloud\n  [Esc] skip setup for now\n";

/// The question asked after each provider is saved.
pub const ADD_ANOTHER: &'static str = "\nAdd another provider? [y/N]\n";

/// The hosted choice a menu key picks: `1` to `3`.
pub open spec fn menu_pick(c: char) -> Option<nat> {
    if '1' <= c && c <= '3' {
        Some((c as int - '1' as int) as nat)
    } else {
        None
    }
}

/// What the flow prints, and the action it ends with, when it ends as a
/// decline with `n` providers configured.
pub open spec fn end_declined(n: nat) -> (Seq<char>, ActionView) {
    (decline_or_keep_result(n).1, ActionView::End { outcome: decline_or_keep_result(n).0 })
}

/// The credential variable and label of hosted choice `i`.
pub open spec fn hosted_env(i: nat) -> Seq<char> {
    if i == 0 { "ANTHROPIC_API_KEY"@ } else if i == 1 { "OPENAI_API_KEY"@ } else { "OLLAMA_API_KEY"@ }
}

/// The menu label of hosted choice `i`.
pub open spec fn hosted_label(i: nat) -> Seq<char> {
    if i == 0 { "Anthropic"@ } else if i == 1 { "OpenAI"@ } else { "Ollama Cloud"@ }
}

/// The `backends.<id>` key of hosted choice `i`.
pub open spec fn hosted_id(i: nat) -> Seq<char> {
    if i == 0 { "anthropic"@ } else if i == 1 { "openai"@ } else { "ollama_cloud"@ }
}

/// One step of the setup flow: from phase `p` with `n` providers
/// configured, on event `e`, the next phase and count, the text to print,
/// and what to do next. `env` is the process environment and `path` the
/// settings file's displayed path. An event that does not answer what the
/// phase waits for ends the flow as a decline would.
pub open spec fn setup_next(p: PhaseView, n: nat, e: EventView, env: Seq<(String, String)>, path: Seq<char>)
    -> (PhaseView, nat, Seq<char>, ActionView)
{
    match (p, e) {
        (PhaseView::Start, EventView::Begin) => (PhaseView::Probing, n, SETUP_INTRO@, ActionView::ProbeLocal),
        (PhaseView::Probing, EventView::Probed { offer: Some((base_url, model)) }) => (
            PhaseView::LocalOffered { base_url, model },
            n,
            "found one, model \""@ + model + "\".\n"@
                + "Press Enter to use it, any other key to see other providers, or Esc to skip setup.\n"@,
            ActionView::ReadKey,
        ),
        (PhaseView::Probing, EventView::Probed { offer: None }) => (PhaseView::Menu, n, "none found.\n"@ + SETUP_MENU@, ActionView::ReadKey),
        (PhaseView::LocalOffered { base_url, model }, EventView::Key { key: Some(SetupKey::Enter) }) => (
            PhaseView::Finishing, n, Seq::empty(), ActionView::FinishLocal { base_url, model },
        ),
        (PhaseView::LocalOffered { .. }, EventView::Key { key: Some(SetupKey::Esc) }) => (
            PhaseView::Done, n, end_declined(n).0, end_declined(n).1,
        ),
        (PhaseView::LocalOffered { .. }, EventView::Key { .. }) => (PhaseView::Menu, n, SETUP_MENU@, ActionView::ReadKey),
        (PhaseView::Menu, EventView::Key { key: None }) => (PhaseView::Done, n, end_declined(n).0, end_declined(n).1),
        (PhaseView::Menu, EventView::Key { key: Some(SetupKey::Esc) }) => (
            PhaseView::Done, n, end_declined(n).0, end_declined(n).1,
        ),
        (PhaseView::Menu, EventView::Key { key: Some(SetupKey::Char(c)) }) => match menu_pick(c) {
            Some(i) => if credential_plan(hosted_env(i), env) == CredentialPlan::ReuseEnvVar {
                (
                    PhaseView::Finishing,
                    n,
                    "Found "@ + hosted_env(i) + " already set -- using it.\n"@,
                    ActionView::FinishHosted { choice: i, env_var: Some(hosted_env(i)), literal: Seq::empty() },
                )
            } else {
                (
                    PhaseView::AwaitingSecret { choice: i },
                    n,
                    "\nThis will be written in PLAIN TEXT to "@ + path + " (as backends."@ + hosted_id(i)
                        + ".api_key).\n"@ + "Paste your "@ + hosted_label(i) + " key: "@,
                    ActionView::ReadSecret,
                )
            },
            None => (PhaseView::Menu, n, SETUP_MENU@, ActionView::ReadKey),
        },
        (PhaseView::Menu, EventView::Key { .. }) => (PhaseView::Menu, n, SETUP_MENU@, ActionView::ReadKey),
        (PhaseView::AwaitingSecret { .. }, EventView::Secret { line: None }) => (
            PhaseView::Done, n, end_declined(n).0, end_declined(n).1,
        ),
        (PhaseView::AwaitingSecret { choice }, EventView::Secret { line: Some(raw) }) => match credential_input(raw) {
            Ok(key) => (PhaseView::Finishing, n, Seq::empty(), ActionView::FinishHosted { choice, env_var: None, literal: key }),
            Err(msg) => (PhaseView::Menu, n, msg + "\n"@ + SETUP_MENU@, ActionView::ReadKey),
        },
        (PhaseView::Finishing, EventView::Finished { outcome: GuidedSetupOutcome::Configured, chain_len }) => (
            PhaseView::AskingAnother, chain_len, ADD_ANOTHER@, ActionView::ReadKey,
        ),
        (PhaseView::Finishing, EventView::Finished { outcome: GuidedSetupOutcome::Declined, chain_len }) => (
            PhaseView::Done, chain_len, end_declined(chain_len).0, end_declined(chain_len).1,
        ),
        (PhaseView::AskingAnother, EventView::Key { key: Some(SetupKey::Char(c)) }) if c == 'y' || c == 'Y' => (
            PhaseView::Menu, n, SETUP_MENU@, ActionView::ReadKey,
        ),
        (PhaseView::AskingAnother, EventView::Key { .. }) => (
            PhaseView::Done, n, Seq::empty(), ActionView::End { outcome: GuidedSetupOutcome::Configured },
        ),
        _ => (PhaseView::Done, n, end_declined(n).0, end_declined(n).1),
    }
}

fn end_as_declined(n: usize) -> (r: (SetupState, String, SetupAction))
    ensures
        phase_view(r.0.phase) == PhaseView::Done,
        r.0.chain_len == n,
        r.1@ == end_declined(n as nat).0,
        action_view(r.2) == end_declined(n as nat).1,
{
    let (outcome, text) = keep_or_decline(n);
    (SetupState { phase: SetupPhase::Done, chain_len: n }, text, SetupAction::End { outcome })
}

fn clone_offer(o: &LocalOffer) -> (r: LocalOffer)
    ensures
        r.base_url@ == o.base_url@,
        r.model@ == o.model@,
{
    LocalOffer { base_url: crate::text::clone_string(&o.base_url), model: crate::text::clone_string(&o.model) }
}

/// One step of the interactive setup (see [`setup_next`]): the terminal
/// side prints the returned text, performs the returned action, and hands
/// back what it observed as the next event.
pub fn setup_step(state: &SetupState, event: SetupEvent, env: &[(String, String)], path: &str)
    -> (r: (SetupState, String, SetupAction))
    ensures
        ({
            let next = setup_next(phase_view(state.phase), state.chain_len as nat, event_view(event), env@, path@);
            &&& phase_view(r.0.phase) == next.0
            &&& r.0.chain_len as nat == next.1
            &&& r.1@ == next.2
            &&& action_view(r.2) == next.3
        }),
{
    let n = state.chain_len;
    match (&state.phase, event) {
        (SetupPhase::Start, SetupEvent::Begin) => (
            SetupState { phase: SetupPhase::Probing, chain_len: n },
            string_from(SETUP_INTRO),
            SetupAction::ProbeLocal,
        ),
        (SetupPhase::Probing, SetupEvent::Probed { offer: Some(offer) }) => {
            let mut text = string_from("found one, model \"");
            push_str(&mut text, offer.model.as_str());
            push_str(&mut text, "\".\n");
            push_str(&mut text, "Press Enter to use it, any other key to see other providers, or Esc to skip setup.\n");
            (SetupState { phase: SetupPhase::LocalOffered { offer }, chain_len: n }, text, SetupAction::ReadKey)
        }
        (SetupPhase::Probing, SetupEvent::Probed { offer: None }) => {
            let mut text = string_from("none found.\n");
            push_str(&mut text, SETUP_MENU);
            (SetupState { phase: SetupPhase::Menu, chain_len: n }, text, SetupAction::ReadKey)
        }
        (SetupPhase::LocalOffered { offer }, SetupEvent::Key { key }) => {
            match key {
                Some(SetupKey::Enter) => (
                    SetupState { phase: SetupPhase::Finishing, chain_len: n },
                    String::new(),
                    SetupAction::FinishLocal { offer: clone_offer(offer) },
                ),
                Some(SetupKey::Esc) => end_as_declined(n),
                _ => (SetupState { phase: SetupPhase::Menu, chain_len: n }, string_from(SETUP_MENU), SetupAction::ReadKey),
            }
        }
        (SetupPhase::Menu, SetupEvent::Key { key }) => {
            match key {
                None => end_as_declined(n),
                Some(SetupKey::Esc) => end_as_declined(n),
                Some(SetupKey::Char(c)) => {
                    if '1' <= c && c <= '3' {
                        let i: usize = if c == '1' { 0 } else if c == '2' { 1 } else { 2 };
                        assert(menu_pick(c) == Some(i as nat));
                        let choices = hosted_choices();
                        let choice = &choices[i];
                        assert(choice.credential_env@ == hosted_env(i as nat));
                        assert(choice.label@ == hosted_label(i as nat));
                        assert(choice.id@ == hosted_id(i as nat));
                        match resolve_credential_plan(choice, env) {
                            CredentialPlan::ReuseEnvVar => {
                                let mut text = string_from("Found ");
                                push_str(&mut text, choice.credential_env);
                                push_str(&mut text, " already set -- using it.\n");
                                (
                                    SetupState { phase: SetupPhase::Finishing, chain_len: n },
                                    text,
                                    SetupAction::FinishHosted {
                                        choice: i,
                                        credential: CredentialSource::EnvVar(string_from(choice.credential_env)),
                                    },
                                )
                            }
                            CredentialPlan::PromptForLiteral => {
                                let mut text = string_from("\nThis will be written in PLAIN TEXT to ");
                                push_str(&mut text, path);
                                push_str(&mut text, " (as backends.");
                                push_str(&mut text, choice.id);
                                push_str(&mut text, ".api_key).\n");
                                push_str(&mut text, "Paste your ");
                                push_str(&mut text, choice.label);
                                push_str(&mut text, " key: ");
                                (SetupState { phase: SetupPhase::AwaitingSecret { choice: i }, chain_len: n }, text, SetupAction::ReadSecret)
                            }
                        }
                    } else {
                        (SetupState { phase: SetupPhase::Menu, chain_len: n }, string_from(SETUP_MENU), SetupAction::ReadKey)
                    }
                }
                _ => (SetupState { phase: SetupPhase::Menu, chain_len: n }, string_from(SETUP_MENU), SetupAction::ReadKey),
            }
        }
        (SetupPhase::AwaitingSecret { choice }, SetupEvent::Secret { line }) => {
            match line {
                None => end_as_declined(n),
                Some(raw) => match validate_credential_input(raw.as_str()) {
                    Ok(key) => (
                        SetupState { phase: SetupPhase::Finishing, chain_len: n },
                        String::new(),
                        SetupAction::FinishHosted { choice: *choice, credential: CredentialSource::Literal(key) },
                    ),
                    Err(msg) => {
                        let mut text = string_from(msg);
                        push_str(&mut text, "\n");
                        push_str(&mut text, SETUP_MENU);
                        (SetupState { phase: SetupPhase::Menu, chain_len: n }, text, SetupAction::ReadKey)
                    }
                },
            }
        }
        (SetupPhase::Finishing, SetupEvent::Finished { outcome, chain_len }) => {
            match outcome {
                GuidedSetupOutcome::Configured => (
                    SetupState { phase: SetupPhase::AskingAnother, chain_len },
                    string_from(ADD_ANOTHER),
                    SetupAction::ReadKey,
                ),
                GuidedSetupOutcome::Declined => end_as_declined(chain_len),
            }
        }
        (SetupPhase::AskingAnother, SetupEvent::Key { key }) => {
            match key {
                Some(SetupKey::Char(c)) if c == 'y' || c == 'Y' => (
                    SetupState { phase: SetupPhase::Menu, chain_len: n },
                    string_from(SETUP_MENU),
                    SetupAction::ReadKey,
                ),
                _ => (
                    SetupState { phase: SetupPhase::Done, chain_len: n },
                    String::new(),
                    SetupAction::End { outcome: GuidedSetupOutcome::Configured },
                ),
            }
        }
        _ => end_as_declined(n),
    }
}

/// Esc at any key prompt of the provider flow (the local offer or the
/// menu) skips setup: the flow ends as a decline does, keeping whatever
/// this run already configured.
pub proof fn law_esc_skips_setup(p: PhaseView, n: nat, env: Seq<(String, String)>, path: Seq<char>)
    requires
        p is LocalOffered || p is Menu,
    ensures
        ({
            let next = setup_next(p, n, EventView::Key { key: Some(SetupKey::Esc) }, env, path);
            &&& next.0 == PhaseView::Done
            &&& next.1 == n
            &&& next.2 == decline_or_keep_result(n).1
            &&& next.3 == (ActionView::End { outcome: decline_or_keep_result(n).0 })
        }),
{
}

/// The local server is probed at most once per run: only the very first
/// step asks for the probe.
pub proof fn law_probe_only_at_start(p: PhaseView, n: nat, e: EventView, env: Seq<(String, String)>, path: Seq<char>)
    requires
        !(p is Start),
    ensures
        !(setup_next(p, n, e, env, path).3 is ProbeLocal),
{
}

/// Answering anything but `y`/`Y` to "add another provider?" ends the
/// flow configured, never discarding what was set up.
pub proof fn law_declining_another_keeps_the_config(n: nat, key: Option<SetupKey>, env: Seq<(String, String)>, path: Seq<char>)
    requires
        !(key matches Some(SetupKey::Char(c)) && (c == 'y' || c == 'Y')),
    ensures
        setup_next(PhaseView::AskingAnother, n, EventView::Key { key }, env, path).3
            == (ActionView::End { outcome: GuidedSetupOutcome::Configured }),
{
}

/// Once a provider is in this run's chain, no step ends the flow
/// declined: a later decline keeps the working configuration.
pub proof fn law_configured_run_never_ends_declined(p: PhaseView, n: nat, e: EventView, env: Seq<(String, String)>, path: Seq<char>)
    ensures
        setup_next(p, n, e, env, path).1 > 0 ==> setup_next(p, n, e, env, path).3
            != (ActionView::End { outcome: GuidedSetupOutcome::Declined }),
{
}

/// A finished flow stays finished: from `Done`, every event leaves the
/// phase `Done` and only ever ends the flow again.
pub proof fn law_done_is_final(n: nat, e: EventView, env: Seq<(String, String)>, path: Seq<char>)
    ensures
        setup_next(PhaseView::Done, n, e, env, path).0 == PhaseView::Done,
        setup_next(PhaseView::Done, n, e, env, path).3 is End,
{
}

} // verus!
