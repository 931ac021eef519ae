//! What first-run setup offers once a provider works: conway's own
//! opinion set (installed, then listed), and a shell tool: the confined
//! one first where this machine has a containment primitive, else plain
//! `bash`, which needs an explicit yes.
use vstd::prelude::*;
use crate::first_run::{opinion_set_transcript, transcript_text, SetupKey};
use crate::text::{push_str, string_from};

verus! {

/// What is said of plain `bash` before asking.
pub const SHELL_CAVEAT: &'static str = "  bash is NOT confined by --root -- a shell command reaches anything your user account can.\n  Every bash call still passes the permission prompt, same as every other tool.";

/// Where the offer stands.
#[derive(Clone, Copy, Debug, PartialEq, Eq, Structural)]
pub enum OfferPhase {
    /// The opinion set is being installed.
    Start,
    /// Asked whether to enable the confined shell; waiting for the key.
    ConfineAsked,
    /// The confined shell is being enabled.
    EnablingConfine,
    /// Asked whether to enable plain `bash`; waiting for the key.
    ShellAsked,
    /// `bash` is being enabled.
    EnablingShell,
    /// Over.
    Done,
}

/// What happened since the last step.
pub enum OfferEvent {
    /// Installing the opinion set ended: its `(id, summary)` rows, or the
    /// error; and the containment primitive found on this machine, if any.
    Installed { rows: Result<Vec<(String, String)>, String>, primitive: Option<String> },
    /// A key press; `None` when the terminal could not be read.
    Key { key: Option<SetupKey> },
    /// Enabling the chosen tool ended, with the error if it failed.
    Enabled { error: Option<String> },
}

/// What the terminal side does next, after printing the step's text.
#[derive(Clone, Copy, Debug, PartialEq, Eq, Structural)]
pub enum OfferAction {
    ReadKey,
    /// Add `conway.confine` to `plugins.install`.
    EnableConfine,
    /// Add `conway.shell` to `tools.builtin_plugins`.
    EnableShell,
    End,
}

/// An offer event as plain values.
pub enum OfferEventView {
    Installed { rows: Result<Seq<(String, String)>, Seq<char>>, primitive: Option<Seq<char>> },
    Key { key: Option<SetupKey> },
    Enabled { error: Option<Seq<char>> },
}

pub open spec fn offer_event_view(e: OfferEvent) -> OfferEventView {
    match e {
        OfferEvent::Installed { rows, primitive } => OfferEventView::Installed {
            rows: match rows {
                Ok(v) => Ok(v@),
                Err(m) => Err(m@),
            },
            primitive: match primitive {
                Some(p) => Some(p@),
                None => None,
            },
        },
        OfferEvent::Key { key } => OfferEventView::Key { key },
        OfferEvent::Enabled { error } => OfferEventView::Enabled {
            error: match error {
                Some(m) => Some(m@),
                None => None,
            },
        },
    }
}

/// The question about the confined shell, naming the primitive found.
pub open spec fn confine_question(primitive: Seq<char>) -> Seq<char> {
    "\nThis machine has an OS containment primitive ("@ + primitive
        + "). Enable conway.confine's confined shell tool? Every command it runs is refused if it tries to write outside this session's --root; reads and network are unaffected. [Y/n]\n"@
}

/// The question about plain `bash`, with its caveat.
pub open spec fn shell_question() -> Seq<char> {
    "\nEnable the bash shell tool? [y/N]\n"@ + SHELL_CAVEAT@ + "\n"@
}

/// One step of the offer, with the settings file's displayed path `path`:
/// the next phase, the text to print, and what to do next. The confined
/// shell is on unless declined with `n`; plain `bash` only with `y`; an
/// event the phase does not wait for ends the offer.
pub open spec fn offer_next(p: OfferPhase, e: OfferEventView, path: Seq<char>) -> (OfferPhase, Seq<char>, OfferAction) {
    match (p, e) {
        (OfferPhase::Start, OfferEventView::Installed { rows, primitive }) => {
            let head = match rows {
                Ok(rs) => "\n"@ + transcript_text(rs, path),
                Err(m) => "\nCould not install conway's own opinion set: "@ + m + "\n"@,
            };
            match primitive {
                Some(prim) => (OfferPhase::ConfineAsked, head + confine_question(prim), OfferAction::ReadKey),
                None => (OfferPhase::ShellAsked, head + shell_question(), OfferAction::ReadKey),
            }
        },
        (OfferPhase::ConfineAsked, OfferEventView::Key { key }) =>
            if key == Some(SetupKey::Char('n')) || key == Some(SetupKey::Char('N')) {
                (OfferPhase::ShellAsked, shell_question(), OfferAction::ReadKey)
            } else {
                (OfferPhase::EnablingConfine, Seq::empty(), OfferAction::EnableConfine)
            },
        (OfferPhase::EnablingConfine, OfferEventView::Enabled { error: None }) => (
            OfferPhase::Done,
            "Enabled. Disable it later by removing \"conway.confine\" from plugins.install in "@ + path + ".\n"@,
            OfferAction::End,
        ),
        (OfferPhase::EnablingConfine, OfferEventView::Enabled { error: Some(m) }) => (
            OfferPhase::ShellAsked,
            "Could not enable the confined shell tool: "@ + m + "\n"@ + shell_question(),
            OfferAction::ReadKey,
        ),
        (OfferPhase::ShellAsked, OfferEventView::Key { key }) =>
            if key == Some(SetupKey::Char('y')) || key == Some(SetupKey::Char('Y')) {
                (OfferPhase::EnablingShell, Seq::empty(), OfferAction::EnableShell)
            } else {
                (
                    OfferPhase::Done,
                    "Skipped. Enable it later by adding \"conway.shell\" to tools.builtin_plugins in "@ + path
                        + " -- see docs/getting-started.md#enabling-bash-shell-commands.\n"@,
                    OfferAction::End,
                )
            },
        (OfferPhase::EnablingShell, OfferEventView::Enabled { error: None }) => (
            OfferPhase::Done,
            "Enabled. Disable it later by removing \"conway.shell\" from tools.builtin_plugins in "@ + path + ".\n"@,
            OfferAction::End,
        ),
        (OfferPhase::EnablingShell, OfferEventView::Enabled { error: Some(m) }) => (
            OfferPhase::Done,
            "Could not enable the shell tool: "@ + m + "\n"@,
            OfferAction::End,
        ),
        _ => (OfferPhase::Done, Seq::empty(), OfferAction::End),
    }
}

fn shell_question_text() -> (r: String)
    ensures
        r@ == shell_question(),
{
    let mut s = string_from("\nEnable the bash shell tool? [y/N]\n");
    push_str(&mut s, SHELL_CAVEAT);
    push_str(&mut s, "\n");
    s
}

/// One step of the offer (see [`offer_next`]).
pub fn offer_step(p: OfferPhase, event: OfferEvent, path: &str) -> (r: (OfferPhase, String, OfferAction))
    ensures
        ({
            let next = offer_next(p, offer_event_view(event), path@);
            &&& r.0 == next.0
            &&& r.1@ == next.1
            &&& r.2 == next.2
        }),
{
    match (p, event) {
        (OfferPhase::Start, OfferEvent::Installed { rows, primitive }) => {
            let ghost rows_v = match &rows {
                Ok(v) => Ok(v@),
                Err(m) => Err(m@),
            };
            let ghost head = match rows_v {
                Ok(rs) => "\n"@ + transcript_text(rs, path@),
                Err(m) => "\nCould not install conway's own opinion set: "@ + m + "\n"@,
            };
            let mut s = match rows {
                Ok(rs) => {
                    let mut s = string_from("\n");
                    let sl = rs.as_slice();
                    assert(sl@ == rs@);
                    let t = opinion_set_transcript(sl, path);
                    assert(t@ == transcript_text(rs@, path@));
                    push_str(&mut s, t.as_str());
                    assert(rows_v == Ok::<Seq<(String, String)>, Seq<char>>(rs@));
                    assert(s@ =~= head);
                    s
                },
                Err(m) => {
                    let mut s = string_from("\nCould not install conway's own opinion set: ");
                    push_str(&mut s, m.as_str());
                    push_str(&mut s, "\n");
                    assert(rows_v == Err::<Seq<(String, String)>, Seq<char>>(m@));
                    assert(s@ =~= head);
                    s
                },
            };
            match primitive {
                Some(prim) => {
                    push_str(&mut s, "\nThis machine has an OS containment primitive (");
                    push_str(&mut s, prim.as_str());
                    push_str(&mut s, "). Enable conway.confine's confined shell tool? Every command it runs is refused if it tries to write outside this session's --root; reads and network are unaffected. [Y/n]\n");
                    assert(s@ =~= head + confine_question(prim@));
                    (OfferPhase::ConfineAsked, s, OfferAction::ReadKey)
                },
                None => {
                    let q = shell_question_text();
                    push_str(&mut s, q.as_str());
                    assert(s@ =~= head + shell_question());
                    (OfferPhase::ShellAsked, s, OfferAction::ReadKey)
                },
            }
        },
        (OfferPhase::ConfineAsked, OfferEvent::Key { key }) => {
            let no = match key {
                Some(SetupKey::Char(c)) => c == 'n' || c == 'N',
                _ => false,
            };
            if no {
                (OfferPhase::ShellAsked, shell_question_text(), OfferAction::ReadKey)
            } else {
                (OfferPhase::EnablingConfine, String::new(), OfferAction::EnableConfine)
            }
        },
        (OfferPhase::EnablingConfine, OfferEvent::Enabled { error: None }) => {
            let mut s = string_from("Enabled. Disable it later by removing \"conway.confine\" from plugins.install in ");
            push_str(&mut s, path);
            push_str(&mut s, ".\n");
            (OfferPhase::Done, s, OfferAction::End)
        },
        (OfferPhase::EnablingConfine, OfferEvent::Enabled { error: Some(m) }) => {
            let mut s = string_from("Could not enable the confined shell tool: ");
            push_str(&mut s, m.as_str());
            push_str(&mut s, "\n");
            let q = shell_question_text();
            push_str(&mut s, q.as_str());
            assert(s@ =~= "Could not enable the confined shell tool: "@ + m@ + "\n"@ + shell_question());
            (OfferPhase::ShellAsked, s, OfferAction::ReadKey)
        },
        (OfferPhase::ShellAsked, OfferEvent::Key { key }) => {
            let yes = match key {
                Some(SetupKey::Char(c)) => c == 'y' || c == 'Y',
                _ => false,
            };
            if yes {
                (OfferPhase::EnablingShell, String::new(), OfferAction::EnableShell)
            } else {
                let mut s = string_from("Skipped. Enable it later by adding \"conway.shell\" to tools.builtin_plugins in ");
                push_str(&mut s, path);
                push_str(&mut s, " -- see docs/getting-started.md#enabling-bash-shell-commands.\n");
                (OfferPhase::Done, s, OfferAction::End)
            }
        },
        (OfferPhase::EnablingShell, OfferEvent::Enabled { error: None }) => {
            let mut s = string_from("Enabled. Disable it later by removing \"conway.shell\" from tools.builtin_plugins in ");
            push_str(&mut s, path);
            push_str(&mut s, ".\n");
            (OfferPhase::Done, s, OfferAction::End)
        },
        (OfferPhase::EnablingShell, OfferEvent::Enabled { error: Some(m) }) => {
            let mut s = string_from("Could not enable the shell tool: ");
            push_str(&mut s, m.as_str());
            push_str(&mut s, "\n");
            (OfferPhase::Done, s, OfferAction::End)
        },
        _ => (OfferPhase::Done, String::new(), OfferAction::End),
    }
}

/// Plain `bash` is enabled only on an explicit `y`: no other answer to
/// its question, a failed read included, enables it.
pub proof fn law_bash_needs_an_explicit_yes(key: Option<SetupKey>, path: Seq<char>)
    requires
        key != Some(SetupKey::Char('y')),
        key != Some(SetupKey::Char('Y')),
    ensures
        offer_next(OfferPhase::ShellAsked, OfferEventView::Key { key }, path).2 != OfferAction::EnableShell,
{
}

/// Without a containment primitive the confined shell is never offered,
/// and whatever happens the offer enables at most what was answered for.
pub proof fn law_no_primitive_no_confine_offer(rows: Result<Seq<(String, String)>, Seq<char>>, path: Seq<char>)
    ensures
        offer_next(OfferPhase::Start, OfferEventView::Installed { rows, primitive: None }, path).0 == OfferPhase::ShellAsked,
{
}

} // verus!
