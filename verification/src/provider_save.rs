//! Saving and verifying one provider during first-run setup, and the
//! retry with a different key when verification fails: the decisions
//! between the writes, the verification request and the terminal reads.
use vstd::prelude::*;
use crate::first_run::{credential_input, decline_or_keep_result, hosted_label, keep_or_decline,
    validate_credential_input, GuidedSetupOutcome, SetupKey};
use crate::text::{push_str, string_from};

verus! {

/// Where saving a provider stands.
#[derive(Clone, Copy, Debug, PartialEq, Eq, Structural)]
pub enum SavePhase {
    /// The provider's entry is being written to the settings file.
    Saving,
    /// The verification request is under way.
    Verifying,
    /// The routing chain, with this provider appended, is being written.
    Persisting,
    /// Verification failed; waiting for the answer to "try again?".
    AskingRetry,
    /// Waiting for a new pasted key.
    AwaitingKey,
    /// Over.
    Done,
}

/// The save flow's state: its phase, how many providers the chain held
/// before this one, and which hosted choice this is (`None` for the local
/// server, which has no key to retry).
#[derive(Clone, Copy, Debug, PartialEq, Eq, Structural)]
pub struct SaveState {
    pub phase: SavePhase,
    pub chain_len: usize,
    pub choice: Option<usize>,
}

/// What happened since the last step.
pub enum SaveEvent {
    /// Writing the provider's entry ended, with the error if it failed.
    Saved { error: Option<String> },
    /// The verification request ended, with its failure message if it
    /// failed.
    Verified { failure: Option<String> },
    /// Writing the chain ended, with the error if it failed.
    Persisted { error: Option<String> },
    /// A key press; `None` when the terminal could not be read.
    Key { key: Option<SetupKey> },
    /// A pasted line; `None` when the terminal could not be read.
    Pasted { line: Option<String> },
}

/// What the terminal side does next, after printing the step's text.
pub enum SaveAction {
    /// Send the verification request.
    Verify,
    /// Write the chain with this provider appended.
    PersistChain,
    /// Read one key press.
    ReadKey,
    /// Remove the provider's entry again, then read a pasted line without
    /// echo.
    DropAndReadKey,
    /// Remove the provider's entry again; the flow is over with `outcome`.
    DropAndEnd { outcome: GuidedSetupOutcome },
    /// Record the hosted choice's context window, then save its entry
    /// again with the literal `key`.
    SaveWithKey { key: String },
    /// The flow is over with `outcome`; the chain is now `chain_len` long.
    End { outcome: GuidedSetupOutcome, chain_len: usize },
}

/// A save action as plain values.
pub enum SaveActionView {
    Verify,
    PersistChain,
    ReadKey,
    DropAndReadKey,
    DropAndEnd { outcome: GuidedSetupOutcome },
    SaveWithKey { key: Seq<char> },
    End { outcome: GuidedSetupOutcome, chain_len: nat },
}

pub open spec fn save_action_view(a: SaveAction) -> SaveActionView {
    match a {
        SaveAction::Verify => SaveActionView::Verify,
        SaveAction::PersistChain => SaveActionView::PersistChain,
        SaveAction::ReadKey => SaveActionView::ReadKey,
        SaveAction::DropAndReadKey => SaveActionView::DropAndReadKey,
        SaveAction::DropAndEnd { outcome } => SaveActionView::DropAndEnd { outcome },
        SaveAction::SaveWithKey { key } => SaveActionView::SaveWithKey { key: key@ },
        SaveAction::End { outcome, chain_len } => SaveActionView::End { outcome, chain_len: chain_len as nat },
    }
}

/// A save event as plain values.
pub enum SaveEventView {
    Saved { error: Option<Seq<char>> },
    Verified { failure: Option<Seq<char>> },
    Persisted { error: Option<Seq<char>> },
    Key { key: Option<SetupKey> },
    Pasted { line: Option<Seq<char>> },
}

pub open spec fn opt_seq(o: Option<String>) -> Option<Seq<char>> {
    match o {
        Some(s) => Some(s@),
        None => None,
    }
}

pub open spec fn save_event_view(e: SaveEvent) -> SaveEventView {
    match e {
        SaveEvent::Saved { error } => SaveEventView::Saved { error: opt_seq(error) },
        SaveEvent::Verified { failure } => SaveEventView::Verified { failure: opt_seq(failure) },
        SaveEvent::Persisted { error } => SaveEventView::Persisted { error: opt_seq(error) },
        SaveEvent::Key { key } => SaveEventView::Key { key },
        SaveEvent::Pasted { line } => SaveEventView::Pasted { line: opt_seq(line) },
    }
}

/// The flow ending as a decline would, keeping what the chain already
/// holds: its text and action.
pub open spec fn ends_kept(n: nat) -> (Seq<char>, SaveActionView) {
    (decline_or_keep_result(n).1, SaveActionView::End { outcome: decline_or_keep_result(n).0, chain_len: n })
}

/// Whether a key answers "yes".
pub open spec fn is_yes(key: Option<SetupKey>) -> bool {
    key == Some(SetupKey::Char('y')) || key == Some(SetupKey::Char('Y'))
}

/// One step of saving a provider, with the settings file's displayed path
/// `path`: the next state, the text to print, and what to do next. A save
/// or chain write that fails ends the flow keeping what the chain already
/// held; a failed verification offers one retry with a new key (hosted
/// choices only); an event the phase does not wait for ends the flow the
/// same way.
pub open spec fn save_next(st: SaveState, e: SaveEventView, path: Seq<char>) -> (SaveState, Seq<char>, SaveActionView) {
    let n = st.chain_len as nat;
    let done = SaveState { phase: SavePhase::Done, chain_len: st.chain_len, choice: st.choice };
    match (st.phase, e) {
        (SavePhase::Saving, SaveEventView::Saved { error: Some(err) }) => (
            done,
            "Could not save this provider to "@ + path + ": "@ + err + "\n"@ + ends_kept(n).0,
            ends_kept(n).1,
        ),
        (SavePhase::Saving, SaveEventView::Saved { error: None }) => (
            SaveState { phase: SavePhase::Verifying, ..st },
            "Saved to "@ + path + ".\n"@ + "Verifying with a real request... "@,
            SaveActionView::Verify,
        ),
        (SavePhase::Verifying, SaveEventView::Verified { failure: None }) => (
            SaveState { phase: SavePhase::Persisting, ..st },
            Seq::empty(),
            SaveActionView::PersistChain,
        ),
        (SavePhase::Verifying, SaveEventView::Verified { failure: Some(msg) }) => (
            SaveState { phase: SavePhase::AskingRetry, ..st },
            "that didn't work:\n"@ + "  "@ + msg + "\n"@ + "Try again with a different key? [y/N]\n"@,
            SaveActionView::ReadKey,
        ),
        (SavePhase::Persisting, SaveEventView::Persisted { error: None }) => (
            SaveState { phase: SavePhase::Done, chain_len: (st.chain_len + 1) as usize, choice: st.choice },
            "it works.\n"@,
            SaveActionView::End { outcome: GuidedSetupOutcome::Configured, chain_len: n + 1 },
        ),
        (SavePhase::Persisting, SaveEventView::Persisted { error: Some(err) }) => (
            done,
            "it works, but the routing config could not be saved: "@ + err + "\n"@ + ends_kept(n).0,
            ends_kept(n).1,
        ),
        (SavePhase::AskingRetry, SaveEventView::Key { key }) => if is_yes(key) {
            match st.choice {
                Some(i) => (
                    SaveState { phase: SavePhase::AwaitingKey, ..st },
                    "Paste your "@ + hosted_label(i as nat) + " key: "@,
                    SaveActionView::DropAndReadKey,
                ),
                None => (done, ends_kept(n).0, SaveActionView::DropAndEnd { outcome: decline_or_keep_result(n).0 }),
            }
        } else {
            (done, ends_kept(n).0, SaveActionView::DropAndEnd { outcome: decline_or_keep_result(n).0 })
        },
        (SavePhase::AwaitingKey, SaveEventView::Pasted { line: Some(raw) }) => match credential_input(raw) {
            Ok(key) => (SaveState { phase: SavePhase::Saving, ..st }, Seq::empty(), SaveActionView::SaveWithKey { key }),
            Err(msg) => (done, msg + "\n"@ + ends_kept(n).0, ends_kept(n).1),
        },
        _ => (done, ends_kept(n).0, ends_kept(n).1),
    }
}

fn ended_kept(st: SaveState, lead: String) -> (r: (SaveState, String, SaveAction))
    ensures
        r.0 == (SaveState { phase: SavePhase::Done, chain_len: st.chain_len, choice: st.choice }),
        r.1@ == lead@ + ends_kept(st.chain_len as nat).0,
        save_action_view(r.2) == ends_kept(st.chain_len as nat).1,
{
    let (outcome, text) = keep_or_decline(st.chain_len);
    let mut s = lead;
    push_str(&mut s, text.as_str());
    (SaveState { phase: SavePhase::Done, chain_len: st.chain_len, choice: st.choice }, s,
        SaveAction::End { outcome, chain_len: st.chain_len })
}

fn hosted_label_str(i: usize) -> (r: &'static str)
    ensures
        r@ == hosted_label(i as nat),
{
    if i == 0 { "Anthropic" } else if i == 1 { "OpenAI" } else { "Ollama Cloud" }
}

/// One step of saving a provider (see [`save_next`]).
pub fn save_step(st: SaveState, event: SaveEvent, path: &str) -> (r: (SaveState, String, SaveAction))
    requires
        st.chain_len < usize::MAX,
    ensures
        ({
            let next = save_next(st, save_event_view(event), path@);
            &&& r.0 == next.0
            &&& r.1@ == next.1
            &&& save_action_view(r.2) == next.2
        }),
{
    let done = SaveState { phase: SavePhase::Done, chain_len: st.chain_len, choice: st.choice };
    match (st.phase, event) {
        (SavePhase::Saving, SaveEvent::Saved { error: Some(err) }) => {
            let mut s = string_from("Could not save this provider to ");
            push_str(&mut s, path);
            push_str(&mut s, ": ");
            push_str(&mut s, err.as_str());
            push_str(&mut s, "\n");
            ended_kept(st, s)
        },
        (SavePhase::Saving, SaveEvent::Saved { error: None }) => {
            let mut s = string_from("Saved to ");
            push_str(&mut s, path);
            push_str(&mut s, ".\n");
            push_str(&mut s, "Verifying with a real request... ");
            (SaveState { phase: SavePhase::Verifying, ..st }, s, SaveAction::Verify)
        },
        (SavePhase::Verifying, SaveEvent::Verified { failure: None }) => {
            (SaveState { phase: SavePhase::Persisting, ..st }, String::new(), SaveAction::PersistChain)
        },
        (SavePhase::Verifying, SaveEvent::Verified { failure: Some(msg) }) => {
            let mut s = string_from("that didn't work:\n");
            push_str(&mut s, "  ");
            push_str(&mut s, msg.as_str());
            push_str(&mut s, "\n");
            push_str(&mut s, "Try again with a different key? [y/N]\n");
            (SaveState { phase: SavePhase::AskingRetry, ..st }, s, SaveAction::ReadKey)
        },
        (SavePhase::Persisting, SaveEvent::Persisted { error: None }) => {
            let n = st.chain_len + 1;
            (SaveState { phase: SavePhase::Done, chain_len: n, choice: st.choice }, string_from("it works.\n"),
                SaveAction::End { outcome: GuidedSetupOutcome::Configured, chain_len: n })
        },
        (SavePhase::Persisting, SaveEvent::Persisted { error: Some(err) }) => {
            let mut s = string_from("it works, but the routing config could not be saved: ");
            push_str(&mut s, err.as_str());
            push_str(&mut s, "\n");
            ended_kept(st, s)
        },
        (SavePhase::AskingRetry, SaveEvent::Key { key }) => {
            let yes = match key {
                Some(SetupKey::Char(c)) => c == 'y' || c == 'Y',
                _ => false,
            };
            if yes {
                match st.choice {
                    Some(i) => {
                        let mut s = string_from("Paste your ");
                        push_str(&mut s, hosted_label_str(i));
                        push_str(&mut s, " key: ");
                        (SaveState { phase: SavePhase::AwaitingKey, ..st }, s, SaveAction::DropAndReadKey)
                    },
                    None => {
                        let (outcome, text) = keep_or_decline(st.chain_len);
                        (done, text, SaveAction::DropAndEnd { outcome })
                    },
                }
            } else {
                let (outcome, text) = keep_or_decline(st.chain_len);
                (done, text, SaveAction::DropAndEnd { outcome })
            }
        },
        (SavePhase::AwaitingKey, SaveEvent::Pasted { line: Some(raw) }) => {
            match validate_credential_input(raw.as_str()) {
                Ok(key) => (SaveState { phase: SavePhase::Saving, ..st }, String::new(), SaveAction::SaveWithKey { key }),
                Err(msg) => {
                    let mut s = string_from(msg);
                    push_str(&mut s, "\n");
                    ended_kept(st, s)
                },
            }
        },
        _ => ended_kept(st, String::new()),
    }
}

/// A save that verified and recorded its chain always ends configured,
/// one provider longer; and no step ever shortens the chain.
pub proof fn law_a_verified_save_is_configured(st: SaveState, path: Seq<char>)
    requires
        st.phase == SavePhase::Persisting,
    ensures
        save_next(st, SaveEventView::Persisted { error: None }, path).2
            == (SaveActionView::End { outcome: GuidedSetupOutcome::Configured, chain_len: st.chain_len as nat + 1 }),
{
}

/// Whatever happens while saving one provider, the flow never ends
/// declined once an earlier provider is in the chain: a failure keeps what
/// was configured.
pub proof fn law_a_failed_save_keeps_the_chain(st: SaveState, e: SaveEventView, path: Seq<char>)
    requires
        st.chain_len > 0,
    ensures
        save_next(st, e, path).2 matches SaveActionView::End { outcome, .. } ==> outcome == GuidedSetupOutcome::Configured,
        save_next(st, e, path).2 matches SaveActionView::DropAndEnd { outcome } ==> outcome == GuidedSetupOutcome::Configured,
{
}

} // verus!
