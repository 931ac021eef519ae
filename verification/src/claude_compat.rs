//! Compat plugin directories (`[plugins].claude_compat`): which of a directory's translated hook
//! registrations can deny a tool call or a prompt, and what is reported
//! about them.
use vstd::prelude::*;
use crate::text::{decimal, join, push_decimal, push_joined, push_str, str_eq, string_from};

verus! {

/// One translated hook registration: its id and the conway event it
/// listens to.
pub struct HookRegistration {
    pub id: String,
    pub event: String,
}

/// The events whose hooks can deny: a tool call about to run, and a
/// submitted prompt.
pub open spec fn deny_capable_events() -> Seq<Seq<char>> {
    seq!["pre_tool_use"@, "prompt_submitted"@]
}

/// Whether hooks on `event` can deny.
pub open spec fn is_deny_capable(event: Seq<char>) -> bool {
    deny_capable_events().contains(event)
}

/// The ids of the registrations whose events are (`deny`) or are not
/// (`!deny`) deny-capable, in order.
pub open spec fn ids_where(regs: Seq<HookRegistration>, deny: bool) -> Seq<Seq<char>>
    decreases regs.len(),
{
    if regs.len() == 0 {
        Seq::empty()
    } else if is_deny_capable(regs.last().event@) == deny {
        ids_where(regs.drop_last(), deny).push(regs.last().id@)
    } else {
        ids_where(regs.drop_last(), deny)
    }
}

/// The views of a list of string slices.
pub open spec fn slice_views(v: Seq<&str>) -> Seq<Seq<char>> {
    v.map_values(|s: &str| s@)
}

fn deny_capable(event: &str) -> (b: bool)
    ensures
        b == is_deny_capable(event@),
{
    let a = str_eq(event, "pre_tool_use");
    let b = str_eq(event, "prompt_submitted");
    proof {
        let evs = deny_capable_events();
        if is_deny_capable(event@) {
            let i = choose|i: int| 0 <= i < evs.len() && evs[i] == event@;
            assert(i == 0 || i == 1);
        }
        if a {
            assert(evs[0] == event@);
        }
        if b {
            assert(evs[1] == event@);
        }
    }
    a || b
}

/// Splits `registrations` into the ids of those that can deny and those
/// that only observe, each in registration order.
pub fn classify_hook_registrations(registrations: &[HookRegistration]) -> (r: (Vec<&str>, Vec<&str>))
    ensures
        slice_views(r.0@) == ids_where(registrations@, true),
        slice_views(r.1@) == ids_where(registrations@, false),
{
    let mut deny: Vec<&str> = Vec::new();
    let mut observe: Vec<&str> = Vec::new();
    let mut i: usize = 0;
    while i < registrations.len()
        invariant
            i <= registrations.len(),
            slice_views(deny@) == ids_where(registrations@.take(i as int), true),
            slice_views(observe@) == ids_where(registrations@.take(i as int), false),
        decreases registrations.len() - i,
    {
        let ghost next = registrations@.take(i as int + 1);
        assert(next.drop_last() =~= registrations@.take(i as int));
        let r = &registrations[i];
        if deny_capable(r.event.as_str()) {
            let ghost before = slice_views(deny@);
            deny.push(r.id.as_str());
            assert(slice_views(deny@) =~= before.push(r.id@));
        } else {
            let ghost before = slice_views(observe@);
            observe.push(r.id.as_str());
            assert(slice_views(observe@) =~= before.push(r.id@));
        }
        i = i + 1;
    }
    assert(registrations@.take(registrations.len() as int) =~= registrations@);
    (deny, observe)
}

/// Every registration lands in exactly one of the two lists: together
/// they are as long as the registrations.
pub proof fn law_hook_classes_partition(regs: Seq<HookRegistration>)
    ensures
        ids_where(regs, true).len() + ids_where(regs, false).len() == regs.len(),
    decreases regs.len(),
{
    if regs.len() > 0 {
        law_hook_classes_partition(regs.drop_last());
    }
}

/// The warning naming the deny-capable hooks of entry `entry_id`, when it
/// has any.
pub open spec fn deny_report(entry_id: Seq<char>, deny: Seq<Seq<char>>) -> Option<Seq<char>> {
    if deny.len() == 0 {
        None
    } else {
        Some("[plugins].claude_compat entry '"@ + entry_id + "' registered "@ + decimal(deny.len())
            + " hook(s) that CAN DENY a real tool call or a submitted prompt ("@
            + join(deny_capable_events(), ", "@) + "): "@ + join(deny, ", "@))
    }
}

/// The verbose-only note naming the observation-only hooks of entry
/// `entry_id`, when it has any.
pub open spec fn observe_report(entry_id: Seq<char>, observe: Seq<Seq<char>>) -> Option<Seq<char>> {
    if observe.len() == 0 {
        None
    } else {
        Some("[plugins].claude_compat entry '"@ + entry_id + "' registered "@ + decimal(observe.len())
            + " observation-only hook(s): "@ + join(observe, ", "@))
    }
}

fn strs_to_strings(v: &Vec<&str>) -> (r: Vec<String>)
    ensures
        r@.map_values(|x: String| x@) == slice_views(v@),
{
    let mut out: Vec<String> = Vec::new();
    let mut i: usize = 0;
    while i < v.len()
        invariant
            i <= v.len(),
            out@.len() == i,
            forall|k: int| 0 <= k < i ==> #[trigger] out@[k]@ == v@[k]@,
        decreases v.len() - i,
    {
        out.push(string_from(v[i]));
        i = i + 1;
    }
    assert(out@.map_values(|x: String| x@) =~= slice_views(v@));
    out
}

/// What is reported about entry `entry_id`'s hook registrations: the
/// unconditional warning about those that can deny, and the verbose-only
/// note about those that only observe (see [`deny_report`] and
/// [`observe_report`]); nothing at all for no registrations.
pub fn hook_report(entry_id: &str, registrations: &[HookRegistration]) -> (r: (Option<String>, Option<String>))
    ensures
        match deny_report(entry_id@, ids_where(registrations@, true)) {
            Some(t) => r.0 matches Some(s) && s@ == t,
            None => r.0 is None,
        },
        match observe_report(entry_id@, ids_where(registrations@, false)) {
            Some(t) => r.1 matches Some(s) && s@ == t,
            None => r.1 is None,
        },
{
    let (deny, observe) = classify_hook_registrations(registrations);
    let warn = if deny.len() == 0 {
        None
    } else {
        let names = strs_to_strings(&deny);
        let mut events: Vec<String> = Vec::new();
        events.push(string_from("pre_tool_use"));
        events.push(string_from("prompt_submitted"));
        assert(events@.map_values(|x: String| x@) =~= deny_capable_events());
        let mut s = string_from("[plugins].claude_compat entry '");
        push_str(&mut s, entry_id);
        push_str(&mut s, "' registered ");
        push_decimal(&mut s, deny.len() as u64);
        push_str(&mut s, " hook(s) that CAN DENY a real tool call or a submitted prompt (");
        push_joined(&mut s, &events, ", ");
        push_str(&mut s, "): ");
        push_joined(&mut s, &names, ", ");
        Some(s)
    };
    let info = if observe.len() == 0 {
        None
    } else {
        let names = strs_to_strings(&observe);
        let mut s = string_from("[plugins].claude_compat entry '");
        push_str(&mut s, entry_id);
        push_str(&mut s, "' registered ");
        push_decimal(&mut s, observe.len() as u64);
        push_str(&mut s, " observation-only hook(s): ");
        push_joined(&mut s, &names, ", ");
        Some(s)
    };
    (warn, info)
}

} // verus!
