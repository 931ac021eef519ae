//! `conway routes explain <role>`: the text renderers for a routing
//! explanation -- why each candidate was selected or skipped, its breaker,
//! token fidelity, context window and its provenance, cache reporting, and
//! what the default install's fixed per-turn cost leaves of the window.
use vstd::prelude::*;
use crate::text::{chars_of, decimal, join, pad_right, push_decimal, push_joined, push_padded,
    push_str, string_from};
use crate::fmt::{rfc3339_utc, ts};

verus! {

/// The subcommand's arguments.
pub struct RoutesArgs {
    pub action: RoutesAction,
}

/// `conway routes ...` actions.
pub enum RoutesAction {
    /// Explain how `role` would be routed right now.
    Explain { role: String, json: bool },
}

/// The fixed, per-turn token cost of an install: tool schemas, instruction
/// fragments, and the allowance for command prompts.
#[derive(Clone, Copy, Debug, PartialEq, Eq, Structural)]
pub struct InstallFootprint {
    pub tool_schema_tokens_est: u32,
    pub instruction_fragment_tokens_est: u32,
    pub command_prompt_allowance_tokens_est: u32,
}

/// The three parts of a footprint added up, held at `u32::MAX`.
pub open spec fn footprint_total(f: InstallFootprint) -> nat {
    let t = f.tool_schema_tokens_est + f.instruction_fragment_tokens_est
        + f.command_prompt_allowance_tokens_est;
    if t > u32::MAX { u32::MAX as nat } else { t as nat }
}

impl InstallFootprint {
    /// The whole fixed cost (see [`footprint_total`]).
    pub fn total_tokens_est(&self) -> (r: u32)
        ensures
            r == footprint_total(*self),
    {
        self.tool_schema_tokens_est.saturating_add(self.instruction_fragment_tokens_est)
            .saturating_add(self.command_prompt_allowance_tokens_est)
    }
}

/// A breaker's kind.
#[derive(Clone, Copy, Debug, PartialEq, Eq, Structural)]
pub enum BreakerKind {
    Transport,
    /// A kind this version does not know.
    Other,
}

/// A breaker's state; an open breaker's reopening instant is in seconds
/// since the Unix epoch.
#[derive(Clone, Copy, Debug, PartialEq, Eq, Structural)]
pub enum BreakerState {
    Closed,
    HalfOpen,
    Open { until_unix_secs: i64 },
    /// A state this version does not know.
    Other,
}

/// How exactly a backend counts tokens.
#[derive(Clone, Copy, Debug, PartialEq, Eq, Structural)]
pub enum TokenCountFidelity {
    Exact,
    Calibrated,
    Heuristic,
    /// A fidelity this version does not know.
    Other,
}

/// Where a context-window figure comes from.
#[derive(Clone, Copy, Debug, PartialEq, Eq, Structural)]
pub enum ContextTokensSource {
    Override,
    Metadata,
    Probed,
    DialectDefaultFloor,
    Unverified,
    /// A source this version does not know.
    Other,
}

/// Whether a backend's wire dialect has anywhere to report a cache hit.
#[derive(Clone, Copy, Debug, PartialEq, Eq, Structural)]
pub enum CacheReporting {
    Reported,
    NotReported,
    /// A value this version does not know.
    Other,
}

/// One failed attempt before a fallback: the model tried and its error.
pub struct AttemptFailure {
    pub model: String,
    pub error: String,
}

/// Why a candidate was selected or skipped.
pub enum RoutingReason {
    PinnedByApi,
    PinnedByAgentDef,
    AliasPrimary { alias: String },
    Fallback { position: u64, after: Vec<AttemptFailure> },
    CapabilitySkip { skipped: String, missing: Vec<String> },
    HealthSkip { skipped: String, breaker: BreakerKind },
    /// A reason this version does not know, with its debug rendering.
    Other { debug: String },
}

/// The name of a breaker kind.
pub open spec fn breaker_kind_text(k: BreakerKind) -> Seq<char> {
    match k {
        BreakerKind::Transport => "transport"@,
        BreakerKind::Other => "unknown"@,
    }
}

/// The name of a breaker kind (see [`breaker_kind_text`]).
pub fn breaker_kind_name(kind: BreakerKind) -> (r: &'static str)
    ensures
        r@ == breaker_kind_text(kind),
{
    match kind {
        BreakerKind::Transport => "transport",
        BreakerKind::Other => "unknown",
    }
}

/// `model: error` for each failed attempt.
pub open spec fn failure_texts(after: Seq<AttemptFailure>) -> Seq<Seq<char>> {
    after.map_values(|f: AttemptFailure| f.model@ + ": "@ + f.error@)
}

/// The views of a list of strings.
pub open spec fn string_views(v: Seq<String>) -> Seq<Seq<char>> {
    v.map_values(|x: String| x@)
}

/// How a routing reason reads.
pub open spec fn reason_text(r: RoutingReason) -> Seq<char> {
    match r {
        RoutingReason::PinnedByApi => "pinned by API"@,
        RoutingReason::PinnedByAgentDef => "pinned by agent definition"@,
        RoutingReason::AliasPrimary { alias } => "primary for role `"@ + alias@ + "`"@,
        RoutingReason::Fallback { position, after } => "fallback #"@ + decimal(position as nat)
            + " after: "@ + join(failure_texts(after@), ", "@),
        RoutingReason::CapabilitySkip { skipped, missing } => "skipped `"@ + skipped@ + "`: missing "@
            + join(string_views(missing@), ", "@),
        RoutingReason::HealthSkip { skipped, breaker } => "skipped `"@ + skipped@ + "`: "@
            + breaker_kind_text(breaker) + " breaker open"@,
        RoutingReason::Other { debug } => debug@,
    }
}

/// How a routing reason reads (see [`reason_text`]).
pub fn render_reason(reason: &RoutingReason) -> (r: String)
    ensures
        r@ == reason_text(*reason),
{
    match reason {
        RoutingReason::PinnedByApi => string_from("pinned by API"),
        RoutingReason::PinnedByAgentDef => string_from("pinned by agent definition"),
        RoutingReason::AliasPrimary { alias } => {
            let mut s = string_from("primary for role `");
            push_str(&mut s, alias.as_str());
            push_str(&mut s, "`");
            s
        }
        RoutingReason::Fallback { position, after } => {
            let mut parts: Vec<String> = Vec::new();
            let mut i: usize = 0;
            while i < after.len()
                invariant
                    i <= after.len(),
                    parts@.len() == i,
                    forall|k: int| 0 <= k < i ==> #[trigger] parts@[k]@ == after@[k].model@ + ": "@ + after@[k].error@,
                decreases after.len() - i,
            {
                let mut p = string_from(after[i].model.as_str());
                push_str(&mut p, ": ");
                push_str(&mut p, after[i].error.as_str());
                parts.push(p);
                i = i + 1;
            }
            assert(parts@.map_values(|x: String| x@) =~= failure_texts(after@));
            let mut s = string_from("fallback #");
            push_decimal(&mut s, *position);
            push_str(&mut s, " after: ");
            push_joined(&mut s, &parts, ", ");
            s
        }
        RoutingReason::CapabilitySkip { skipped, missing } => {
            let mut s = string_from("skipped `");
            push_str(&mut s, skipped.as_str());
            push_str(&mut s, "`: missing ");
            push_joined(&mut s, missing, ", ");
            s
        }
        RoutingReason::HealthSkip { skipped, breaker } => {
            let mut s = string_from("skipped `");
            push_str(&mut s, skipped.as_str());
            push_str(&mut s, "`: ");
            push_str(&mut s, breaker_kind_name(*breaker));
            push_str(&mut s, " breaker open");
            s
        }
        RoutingReason::Other { debug } => string_from(debug.as_str()),
    }
}

/// How a breaker's state reads in the text report; an open breaker whose
/// reopening instant `chrono` cannot represent names no instant.
pub open spec fn breaker_state_text(s: BreakerState) -> Seq<char> {
    match s {
        BreakerState::Closed => "closed"@,
        BreakerState::HalfOpen => "half-open"@,
        BreakerState::Open { until_unix_secs } => "open until "@ + match rfc3339_utc(until_unix_secs) {
            Some(t) => t,
            None => Seq::empty(),
        },
        BreakerState::Other => "unknown"@,
    }
}

/// How a breaker's state reads in the text report (see
/// [`breaker_state_text`]).
pub fn render_breaker_state(state: &BreakerState) -> (r: String)
    ensures
        r@ == breaker_state_text(*state),
{
    match state {
        BreakerState::Closed => string_from("closed"),
        BreakerState::HalfOpen => string_from("half-open"),
        BreakerState::Open { until_unix_secs } => {
            let mut s = string_from("open until ");
            let ghost before = s@;
            match ts(*until_unix_secs) {
                Some(t) => push_str(&mut s, t.as_str()),
                None => {
                    assert(s@ =~= before + Seq::<char>::empty());
                }
            }
            s
        }
        BreakerState::Other => string_from("unknown"),
    }
}

/// The tag a breaker's state carries in the JSON report.
pub open spec fn breaker_tag_text(s: BreakerState) -> Seq<char> {
    match s {
        BreakerState::Closed => "closed"@,
        BreakerState::HalfOpen => "half_open"@,
        BreakerState::Open { .. } => "open"@,
        BreakerState::Other => "unknown"@,
    }
}

/// The tag a breaker's state carries in the JSON report (see
/// [`breaker_tag_text`]).
pub fn breaker_state_tag(state: &BreakerState) -> (r: &'static str)
    ensures
        r@ == breaker_tag_text(*state),
{
    match state {
        BreakerState::Closed => "closed",
        BreakerState::HalfOpen => "half_open",
        BreakerState::Open { .. } => "open",
        BreakerState::Other => "unknown",
    }
}

/// How a token fidelity reads; no answer at all reads `unknown`.
pub open spec fn token_fidelity_text(f: Option<TokenCountFidelity>) -> Seq<char> {
    match f {
        Some(TokenCountFidelity::Exact) => "exact"@,
        Some(TokenCountFidelity::Calibrated) => "calibrated"@,
        Some(TokenCountFidelity::Heuristic) => "heuristic"@,
        _ => "unknown"@,
    }
}

/// How a token fidelity reads (see [`token_fidelity_text`]).
pub fn render_token_fidelity(fidelity: Option<TokenCountFidelity>) -> (r: &'static str)
    ensures
        r@ == token_fidelity_text(fidelity),
{
    match fidelity {
        Some(TokenCountFidelity::Exact) => "exact",
        Some(TokenCountFidelity::Calibrated) => "calibrated",
        Some(TokenCountFidelity::Heuristic) => "heuristic",
        _ => "unknown",
    }
}

/// A context window: its size, or `not indexed` when there is none.
pub open spec fn window_text(w: Option<u32>) -> Seq<char> {
    match w {
        Some(t) => decimal(t as nat),
        None => "not indexed"@,
    }
}

/// A context window (see [`window_text`]).
pub fn render_window(max_context_tokens: Option<u32>) -> (r: String)
    ensures
        r@ == window_text(max_context_tokens),
{
    match max_context_tokens {
        Some(t) => {
            let mut s = String::new();
            push_decimal(&mut s, t as u64);
            assert(s@ =~= decimal(t as nat));
            s
        }
        None => string_from("not indexed"),
    }
}

/// The provenance of a context-window figure; no figure reads `unknown`.
pub open spec fn window_source_text(s: Option<ContextTokensSource>) -> Seq<char> {
    match s {
        Some(ContextTokensSource::Override) => "models.json"@,
        Some(ContextTokensSource::Metadata) => "verified"@,
        Some(ContextTokensSource::Probed) => "probed"@,
        Some(ContextTokensSource::DialectDefaultFloor) => "verified"@,
        Some(ContextTokensSource::Unverified) => "floor (assumed)"@,
        _ => "unknown"@,
    }
}

/// The provenance of a context-window figure (see [`window_source_text`]).
pub fn render_context_window_source(source: Option<ContextTokensSource>) -> (r: &'static str)
    ensures
        r@ == window_source_text(source),
{
    match source {
        Some(ContextTokensSource::Override) => "models.json",
        Some(ContextTokensSource::Metadata) => "verified",
        Some(ContextTokensSource::Probed) => "probed",
        Some(ContextTokensSource::DialectDefaultFloor) => "verified",
        Some(ContextTokensSource::Unverified) => "floor (assumed)",
        _ => "unknown",
    }
}

/// Whether a backend reports cache hits; no answer reads `unknown`.
pub open spec fn cache_reporting_text(c: Option<CacheReporting>) -> Seq<char> {
    match c {
        Some(CacheReporting::Reported) => "reported"@,
        Some(CacheReporting::NotReported) => "not reported"@,
        _ => "unknown"@,
    }
}

/// Whether a backend reports cache hits (see [`cache_reporting_text`]).
pub fn render_cache_reporting(cache_reporting: Option<CacheReporting>) -> (r: &'static str)
    ensures
        r@ == cache_reporting_text(cache_reporting),
{
    match cache_reporting {
        Some(CacheReporting::Reported) => "reported",
        Some(CacheReporting::NotReported) => "not reported",
        _ => "unknown",
    }
}

/// A role's sampling parameters, each already rendered as `key=value`:
/// `default` when there are none, else the parts joined with `, `.
pub open spec fn role_params_text(parts: Seq<Seq<char>>) -> Seq<char> {
    if parts.len() == 0 {
        "default"@
    } else {
        join(parts, ", "@)
    }
}

/// A role's sampling parameters (see [`role_params_text`]).
pub fn render_role_params(parts: &Vec<String>) -> (r: String)
    ensures
        r@ == role_params_text(string_views(parts@)),
{
    if parts.len() == 0 {
        string_from("default")
    } else {
        let mut s = String::new();
        push_joined(&mut s, parts, ", ");
        assert(s@ =~= join(string_views(parts@), ", "@));
        s
    }
}

/// Whether a fixed cost of `total` tokens takes more than half of a
/// `window`-token context.
pub open spec fn over_half(total: nat, window: nat) -> bool {
    2 * total > window
}

/// Whether the footprint's fixed cost exceeds half of `window`; `None`
/// when there is no window to compare against (absent or zero).
pub open spec fn over_half_window(f: InstallFootprint, window: Option<u32>) -> Option<bool> {
    match window {
        Some(w) if w > 0 => Some(over_half(footprint_total(f), w as nat)),
        _ => None,
    }
}

/// Whether the footprint's fixed cost exceeds half of `window` (see
/// [`over_half_window`]). `model_key` names the candidate and does not
/// affect the answer.
pub fn fixed_cost_over_half_window(footprint: &InstallFootprint, model_key: &str, window: Option<u32>) -> (r: Option<bool>)
    ensures
        r == over_half_window(*footprint, window),
{
    match window {
        Some(w) if w > 0 => {
            let total = footprint.total_tokens_est() as u64;
            Some(2 * total > w as u64)
        }
        _ => None,
    }
}

/// The whole-number percentage of `window` that `total` takes, rounded
/// down and held at `u32::MAX`.
pub open spec fn percent_of(total: nat, window: nat) -> nat {
    let p = (total * 100) / window;
    if p > u32::MAX { u32::MAX as nat } else { p }
}

/// The fixed cost against `window`: `unknown` without a window, else
/// `total/window tokens (pct%)`, flagged when over half the window.
pub open spec fn fixed_cost_text(f: InstallFootprint, window: Option<u32>) -> Seq<char> {
    match window {
        Some(w) if w > 0 => {
            let total = footprint_total(f);
            decimal(total) + "/"@ + decimal(w as nat) + " tokens ("@ + decimal(percent_of(total, w as nat)) + "%"@
                + (if over_half(total, w as nat) { ", over half the window"@ } else { Seq::empty() }) + ")"@
        }
        _ => "unknown"@,
    }
}

/// The fixed cost against `window` (see [`fixed_cost_text`]).
pub fn render_fixed_cost(footprint: &InstallFootprint, model_key: &str, window: Option<u32>) -> (r: String)
    ensures
        r@ == fixed_cost_text(*footprint, window),
{
    match window {
        Some(w) if w > 0 => {
            let total = footprint.total_tokens_est();
            let t64 = total as u64;
            let w64 = w as u64;
            assert(t64 * 100 <= u64::MAX) by (nonlinear_arith)
                requires t64 <= u32::MAX;
            let q = (t64 * 100) / w64;
            let pct: u64 = if q > u32::MAX as u64 { u32::MAX as u64 } else { q };
            let over = fixed_cost_over_half_window(footprint, model_key, Some(w));
            let mut s = String::new();
            push_decimal(&mut s, t64);
            push_str(&mut s, "/");
            push_decimal(&mut s, w64);
            push_str(&mut s, " tokens (");
            push_decimal(&mut s, pct);
            push_str(&mut s, "%");
            let ghost before = s@;
            if over == Some(true) {
                push_str(&mut s, ", over half the window");
            } else {
                assert(s@ =~= before + Seq::<char>::empty());
            }
            push_str(&mut s, ")");
            assert(s@ =~= fixed_cost_text(*footprint, window));
            s
        }
        _ => string_from("unknown"),
    }
}

/// Whether a candidate was the one selected, and why.
pub enum EntryOutcome {
    Selected { reason: RoutingReason },
    Skipped { reason: RoutingReason },
}

/// One candidate of a routing explanation.
pub struct ExplainEntry {
    /// Its position in the role's chain; `None` for a pinned model.
    pub chain_position: Option<u64>,
    pub model_ref: String,
    pub outcome: EntryOutcome,
    pub breaker: BreakerState,
    pub token_fidelity: Option<TokenCountFidelity>,
    /// Its context window, where the capability index has one.
    pub window: Option<u32>,
    pub context_window_source: Option<ContextTokensSource>,
    pub cache_reporting: Option<CacheReporting>,
}

/// How a role would be routed right now.
pub struct ExplainReport {
    pub role: String,
    pub est_tokens: u64,
    pub headroom_tokens: u64,
    pub entries: Vec<ExplainEntry>,
}

/// The length in bytes of the UTF-8 encoding of `s`, as `str::len`
/// reports it.
pub open spec fn byte_len(s: Seq<char>) -> nat {
    (vstd::utf8::encode_utf8(s).len() as usize) as nat
}

/// The widest model reference of `entries`, in bytes.
pub open spec fn model_width(entries: Seq<ExplainEntry>) -> nat
    decreases entries.len(),
{
    if entries.len() == 0 {
        0
    } else {
        let m = model_width(entries.drop_last());
        let l = byte_len(entries.last().model_ref@);
        if l > m { l } else { m }
    }
}

/// An entry's chain marker: `[position]`, or `[pin]` for a pinned model.
pub open spec fn marker_text(p: Option<u64>) -> Seq<char> {
    match p {
        Some(n) => "["@ + decimal(n as nat) + "]"@,
        None => "[pin]"@,
    }
}

/// The outcome word and the reason of an entry.
pub open spec fn outcome_parts(o: EntryOutcome) -> (Seq<char>, Seq<char>) {
    match o {
        EntryOutcome::Selected { reason } => ("SELECTED"@, reason_text(reason)),
        EntryOutcome::Skipped { reason } => ("SKIPPED"@, reason_text(reason)),
    }
}

/// One entry's line of the text report, its model reference padded to
/// `width` characters.
pub open spec fn entry_line(e: ExplainEntry, width: nat, f: InstallFootprint) -> Seq<char> {
    "  "@ + marker_text(e.chain_position) + " "@ + pad_right(e.model_ref@, width)
        + pad_right(outcome_parts(e.outcome).0, 8) + " "@ + outcome_parts(e.outcome).1
        + "  (breaker: "@ + breaker_state_text(e.breaker) + ", tokens: "@ + token_fidelity_text(e.token_fidelity)
        + ", window: "@ + window_text(e.window) + " ["@ + window_source_text(e.context_window_source)
        + "], cache: "@ + cache_reporting_text(e.cache_reporting) + ", fixed_cost: "@
        + fixed_cost_text(f, e.window) + ")\n"@
}

/// The entry lines, in order.
pub open spec fn entry_lines(entries: Seq<ExplainEntry>, width: nat, f: InstallFootprint) -> Seq<char>
    decreases entries.len(),
{
    if entries.len() == 0 {
        Seq::empty()
    } else {
        entry_lines(entries.drop_last(), width, f) + entry_line(entries.last(), width, f)
    }
}

/// The whole text report: the role and its token estimates, its sampling
/// parameters, then one line per candidate with every model reference
/// padded to two more than the widest.
pub open spec fn explain_text(r: ExplainReport, params: Seq<char>, f: InstallFootprint) -> Seq<char> {
    "role: "@ + r.role@ + "  (est_tokens="@ + decimal(r.est_tokens as nat) + ", headroom_tokens="@
        + decimal(r.headroom_tokens as nat) + ")\n"@ + "params: "@ + params + "\n"@
        + entry_lines(r.entries@, model_width(r.entries@) + 2, f)
}

fn push_entry_line(out: &mut String, e: &ExplainEntry, width: usize, f: &InstallFootprint)
    ensures
        final(out)@ == old(out)@ + entry_line(*e, width as nat, *f),
{
    let mut line = string_from("  ");
    match e.chain_position {
        Some(n) => {
            push_str(&mut line, "[");
            push_decimal(&mut line, n);
            push_str(&mut line, "]");
        }
        None => push_str(&mut line, "[pin]"),
    }
    assert(line@ =~= "  "@ + marker_text(e.chain_position));
    push_str(&mut line, " ");
    let m = chars_of(e.model_ref.as_str());
    push_padded(&mut line, &m, width);
    let (word, reason) = match &e.outcome {
        EntryOutcome::Selected { reason } => ("SELECTED", render_reason(reason)),
        EntryOutcome::Skipped { reason } => ("SKIPPED", render_reason(reason)),
    };
    let w = chars_of(word);
    push_padded(&mut line, &w, 8);
    push_str(&mut line, " ");
    push_str(&mut line, reason.as_str());
    push_str(&mut line, "  (breaker: ");
    let b = render_breaker_state(&e.breaker);
    push_str(&mut line, b.as_str());
    push_str(&mut line, ", tokens: ");
    push_str(&mut line, render_token_fidelity(e.token_fidelity));
    push_str(&mut line, ", window: ");
    let win = render_window(e.window);
    push_str(&mut line, win.as_str());
    push_str(&mut line, " [");
    push_str(&mut line, render_context_window_source(e.context_window_source));
    push_str(&mut line, "], cache: ");
    push_str(&mut line, render_cache_reporting(e.cache_reporting));
    push_str(&mut line, ", fixed_cost: ");
    let fc = render_fixed_cost(f, e.model_ref.as_str(), e.window);
    push_str(&mut line, fc.as_str());
    push_str(&mut line, ")\n");
    push_str(out, line.as_str());
}

/// Renders the text report of `conway routes explain` (see
/// [`explain_text`]); `params` is the role's rendered sampling parameters.
pub fn render_explain(report: &ExplainReport, params: &str, footprint: &InstallFootprint) -> (r: String)
    requires
        forall|i: int| 0 <= i < report.entries@.len() ==>
            byte_len(#[trigger] report.entries@[i].model_ref@) + 2 <= usize::MAX,
    ensures
        r@ == explain_text(*report, params@, *footprint),
{
    let ghost es = report.entries@;
    let mut width: usize = 0;
    let mut k: usize = 0;
    while k < report.entries.len()
        invariant
            k <= report.entries.len(),
            es == report.entries@,
            width == model_width(es.take(k as int)),
            width + 2 <= usize::MAX,
            forall|i: int| 0 <= i < es.len() ==> byte_len(#[trigger] es[i].model_ref@) + 2 <= usize::MAX,
        decreases report.entries.len() - k,
    {
        let ghost next = es.take(k as int + 1);
        assert(next.drop_last() =~= es.take(k as int));
        let l = report.entries[k].model_ref.as_str().len();
        assert(l == byte_len(es[k as int].model_ref@));
        if l > width {
            width = l;
        }
        k = k + 1;
    }
    assert(es.take(report.entries.len() as int) =~= es);
    let width = width + 2;
    let mut out = string_from("role: ");
    push_str(&mut out, report.role.as_str());
    push_str(&mut out, "  (est_tokens=");
    push_decimal(&mut out, report.est_tokens);
    push_str(&mut out, ", headroom_tokens=");
    push_decimal(&mut out, report.headroom_tokens);
    push_str(&mut out, ")\n");
    push_str(&mut out, "params: ");
    push_str(&mut out, params);
    push_str(&mut out, "\n");
    let ghost head = out@;
    let mut k: usize = 0;
    while k < report.entries.len()
        invariant
            k <= report.entries.len(),
            es == report.entries@,
            out@ == head + entry_lines(es.take(k as int), width as nat, *footprint),
        decreases report.entries.len() - k,
    {
        let ghost next = es.take(k as int + 1);
        assert(next.drop_last() =~= es.take(k as int));
        push_entry_line(&mut out, &report.entries[k], width, footprint);
        assert(out@ =~= head + entry_lines(next, width as nat, *footprint));
        k = k + 1;
    }
    assert(es.take(report.entries.len() as int) =~= es);
    out
}


/// The JSON tag of a breaker agrees with its state: it reads "open" exactly
/// when the breaker is open, and the four states (closed, half-open, open,
/// unknown) carry four different tags.
pub proof fn law_breaker_tag_names_its_state(s: BreakerState, t: BreakerState)
    ensures
        breaker_tag_text(s) == "open"@ <==> s is Open,
        breaker_tag_text(s) == "closed"@ <==> s is Closed,
        breaker_tag_text(s) == breaker_tag_text(t) ==> (s is Open <==> t is Open) && (s is Closed <==> t is Closed)
            && (s is HalfOpen <==> t is HalfOpen) && (s is Other <==> t is Other),
{
    reveal_strlit("open");
    reveal_strlit("closed");
    reveal_strlit("half_open");
    reveal_strlit("unknown");
    assert("open"@.len() == 4);
    assert("closed"@.len() == 6);
    assert("half_open"@.len() == 9);
    assert("unknown"@.len() == 7);
}

} // verus!
