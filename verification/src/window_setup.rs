//! Recording a model's context window during first-run setup: discover
//! it, or, where the provider's own figure is not a verified one, ask for
//! it; then save it. The decisions between the discovery request, the
//! terminal read and the write.
use vstd::prelude::*;
use crate::first_run::{context_window_setup_notice, setup_notice, validate_context_window_input, window_input};
use crate::text::{decimal, push_decimal, push_str, string_from};

verus! {

/// Where recording the window stands.
#[derive(Clone, Copy, Debug, PartialEq, Eq, Structural)]
pub enum WindowPhase {
    /// Waiting for discovery's answer.
    Discovering,
    /// Saving a discovered window.
    SavingFound { window: u32 },
    /// Asked for the window; waiting for the typed line.
    Asking,
    /// Saving a typed window.
    SavingTyped { window: u32 },
    /// Over.
    Done,
}

/// What happened since the last step.
pub enum WindowEvent {
    /// Discovery's answer, and whether the provider's own figure is a
    /// verified one.
    Discovered { window: Option<u32>, verified: bool },
    /// The typed line; `None` when the terminal could not be read or the
    /// operator pressed Esc.
    Typed { line: Option<String> },
    /// Saving ended: the file written, or the error.
    Saved { result: Result<String, String> },
}

/// What the terminal side does next, after printing the step's text.
#[derive(Clone, Copy, Debug, PartialEq, Eq, Structural)]
pub enum WindowAction {
    /// Save `window` for the model.
    Save { window: u32 },
    /// Read one typed line.
    ReadLine,
    End,
}

/// A window event as plain values.
pub enum WindowEventView {
    Discovered { window: Option<u32>, verified: bool },
    Typed { line: Option<Seq<char>> },
    Saved { result: Result<Seq<char>, Seq<char>> },
}

pub open spec fn window_event_view(e: WindowEvent) -> WindowEventView {
    match e {
        WindowEvent::Discovered { window, verified } => WindowEventView::Discovered { window, verified },
        WindowEvent::Typed { line } => WindowEventView::Typed {
            line: match line {
                Some(l) => Some(l@),
                None => None,
            },
        },
        WindowEvent::Saved { result } => WindowEventView::Saved {
            result: match result {
                Ok(p) => Ok(p@),
                Err(e) => Err(e@),
            },
        },
    }
}

/// The question asked when the window could not be discovered.
pub open spec fn ask_text(key: Seq<char>) -> Seq<char> {
    "\nconway could not determine "@ + key
        + "'s context window automatically -- this profile has no known discovery endpoint, or the server did not answer.\n"@
        + "Enter it in tokens (e.g. 131072), or press Enter to leave it unverified for now:\n"@ + "> "@
}

/// One step of recording model `key`'s window: the next phase, the text
/// to print, and what to do next. A discovered window is saved; without
/// one, a verified figure needs nothing and any other is asked for; a
/// blank or refused answer leaves the window unverified; an event the
/// phase does not wait for ends it.
pub open spec fn window_next(p: WindowPhase, e: WindowEventView, key: Seq<char>) -> (WindowPhase, Seq<char>, WindowAction) {
    match (p, e) {
        (WindowPhase::Discovering, WindowEventView::Discovered { window: Some(w), .. }) => (
            WindowPhase::SavingFound { window: w }, Seq::empty(), WindowAction::Save { window: w },
        ),
        (WindowPhase::Discovering, WindowEventView::Discovered { window: None, verified }) => if verified {
            (WindowPhase::Done, Seq::empty(), WindowAction::End)
        } else {
            (WindowPhase::Asking, ask_text(key), WindowAction::ReadLine)
        },
        (WindowPhase::Asking, WindowEventView::Typed { line }) => {
            let raw = match line { Some(l) => l, None => Seq::empty() };
            match window_input(raw) {
                Ok(None) => (
                    WindowPhase::Done,
                    "Skipped -- "@ + key
                        + "'s context window remains unverified; conway will not send a num_ctx hint and admission uses the dialect's conservative floor until you set one (docs/providers.md).\n"@,
                    WindowAction::End,
                ),
                Ok(Some(w)) => (WindowPhase::SavingTyped { window: w as u32 }, Seq::empty(), WindowAction::Save { window: w as u32 }),
                Err(msg) => (WindowPhase::Done, msg + " -- "@ + key + "'s context window remains unverified.\n"@, WindowAction::End),
            }
        },
        (WindowPhase::SavingFound { window }, WindowEventView::Saved { result }) => match result {
            Ok(path) => (WindowPhase::Done, "\n"@ + setup_notice(key, window as nat, path) + "\n"@, WindowAction::End),
            Err(err) => (
                WindowPhase::Done,
                "\n"@ + "conway discovered a "@ + decimal(window as nat) + "-token context window for "@ + key
                    + " but could not save it: "@ + err + "\n"@,
                WindowAction::End,
            ),
        },
        (WindowPhase::SavingTyped { window }, WindowEventView::Saved { result }) => match result {
            Ok(path) => (WindowPhase::Done, setup_notice(key, window as nat, path) + "\n"@, WindowAction::End),
            Err(err) => (WindowPhase::Done, "Could not save "@ + key + "'s context window: "@ + err + "\n"@, WindowAction::End),
        },
        _ => (WindowPhase::Done, Seq::empty(), WindowAction::End),
    }
}

/// One step of recording a window (see [`window_next`]).
pub fn window_step(p: WindowPhase, event: WindowEvent, key: &str) -> (r: (WindowPhase, String, WindowAction))
    ensures
        ({
            let next = window_next(p, window_event_view(event), key@);
            &&& r.0 == next.0
            &&& r.1@ == next.1
            &&& r.2 == next.2
        }),
{
    match (p, event) {
        (WindowPhase::Discovering, WindowEvent::Discovered { window: Some(w), .. }) => {
            (WindowPhase::SavingFound { window: w }, String::new(), WindowAction::Save { window: w })
        },
        (WindowPhase::Discovering, WindowEvent::Discovered { window: None, verified }) => {
            if verified {
                (WindowPhase::Done, String::new(), WindowAction::End)
            } else {
                let mut s = string_from("\nconway could not determine ");
                push_str(&mut s, key);
                push_str(&mut s, "'s context window automatically -- this profile has no known discovery endpoint, or the server did not answer.\n");
                push_str(&mut s, "Enter it in tokens (e.g. 131072), or press Enter to leave it unverified for now:\n");
                push_str(&mut s, "> ");
                (WindowPhase::Asking, s, WindowAction::ReadLine)
            }
        },
        (WindowPhase::Asking, WindowEvent::Typed { line }) => {
            let raw = match line { Some(l) => l, None => String::new() };
            match validate_context_window_input(raw.as_str()) {
                Ok(None) => {
                    let mut s = string_from("Skipped -- ");
                    push_str(&mut s, key);
                    push_str(&mut s, "'s context window remains unverified; conway will not send a num_ctx hint and admission uses the dialect's conservative floor until you set one (docs/providers.md).\n");
                    (WindowPhase::Done, s, WindowAction::End)
                },
                Ok(Some(w)) => (WindowPhase::SavingTyped { window: w }, String::new(), WindowAction::Save { window: w }),
                Err(msg) => {
                    let mut s = string_from(msg);
                    push_str(&mut s, " -- ");
                    push_str(&mut s, key);
                    push_str(&mut s, "'s context window remains unverified.\n");
                    (WindowPhase::Done, s, WindowAction::End)
                },
            }
        },
        (WindowPhase::SavingFound { window }, WindowEvent::Saved { result }) => match result {
            Ok(path) => {
                let mut s = string_from("\n");
                let n = context_window_setup_notice(key, window, path.as_str());
                push_str(&mut s, n.as_str());
                push_str(&mut s, "\n");
                (WindowPhase::Done, s, WindowAction::End)
            },
            Err(err) => {
                let mut s = string_from("\n");
                push_str(&mut s, "conway discovered a ");
                push_decimal(&mut s, window as u64);
                push_str(&mut s, "-token context window for ");
                push_str(&mut s, key);
                push_str(&mut s, " but could not save it: ");
                push_str(&mut s, err.as_str());
                push_str(&mut s, "\n");
                (WindowPhase::Done, s, WindowAction::End)
            },
        },
        (WindowPhase::SavingTyped { window }, WindowEvent::Saved { result }) => match result {
            Ok(path) => {
                let mut s = context_window_setup_notice(key, window, path.as_str());
                push_str(&mut s, "\n");
                (WindowPhase::Done, s, WindowAction::End)
            },
            Err(err) => {
                let mut s = string_from("Could not save ");
                push_str(&mut s, key);
                push_str(&mut s, "'s context window: ");
                push_str(&mut s, err.as_str());
                push_str(&mut s, "\n");
                (WindowPhase::Done, s, WindowAction::End)
            },
        },
        _ => (WindowPhase::Done, String::new(), WindowAction::End),
    }
}

/// Only a window that was discovered, or typed and accepted, is ever
/// saved; a verified figure with nothing discovered is never asked about.
pub proof fn law_a_verified_figure_is_not_asked_about(key: Seq<char>)
    ensures
        window_next(WindowPhase::Discovering, WindowEventView::Discovered { window: None, verified: true }, key).2
            == WindowAction::End,
{
}

} // verus!
