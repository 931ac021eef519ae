//! `conway tools list`: the human-readable listing of every registered
//! tool -- name, category, permission class and the first sentence of its
//! description -- and the footnote naming which tools a `--root` confines.
use vstd::prelude::*;
use crate::text::{chars_of, decimal, find_chars, join, occurs_at, pad_right, push_decimal, push_joined, push_padded, push_str, slice_range, string_of};

verus! {

/// The subcommand's arguments.
pub struct ToolsArgs {
    pub action: ToolsAction,
}

/// `conway tools ...` actions.
pub enum ToolsAction {
    /// Print every registered tool; `json` prints the full specs instead.
    List { json: bool },
}

/// What a tool does, as declared by the plugin that registers it.
#[derive(Clone, Copy, Debug, PartialEq, Eq, Structural)]
pub enum ToolCategory {
    Read,
    Edit,
    Delete,
    Move,
    Search,
    Execute,
    Think,
    Fetch,
    Delegate,
    /// A category this version does not know.
    Other,
}

/// How much approval a tool call needs.
#[derive(Clone, Copy, Debug, PartialEq, Eq, Structural)]
pub enum PermissionClass {
    Safe,
    RequiresApproval,
    Dangerous,
    /// A class this version does not know.
    Other,
}

/// One registered tool, as far as the listing reads it.
pub struct ToolSpec {
    pub name: String,
    pub description: String,
    pub category: ToolCategory,
    pub permission: PermissionClass,
    /// Whether a `--root` confines the paths this tool resolves.
    pub path_confinable: bool,
}

/// The name a category is listed under.
pub open spec fn category_name(c: ToolCategory) -> Seq<char> {
    match c {
        ToolCategory::Read => "read"@,
        ToolCategory::Edit => "edit"@,
        ToolCategory::Delete => "delete"@,
        ToolCategory::Move => "move"@,
        ToolCategory::Search => "search"@,
        ToolCategory::Execute => "execute"@,
        ToolCategory::Think => "think"@,
        ToolCategory::Fetch => "fetch"@,
        ToolCategory::Delegate => "delegate"@,
        ToolCategory::Other => "unknown"@,
    }
}

/// The name a permission class is listed under.
pub open spec fn permission_name(p: PermissionClass) -> Seq<char> {
    match p {
        PermissionClass::Safe => "safe"@,
        PermissionClass::RequiresApproval => "requires_approval"@,
        PermissionClass::Dangerous => "dangerous"@,
        PermissionClass::Other => "unknown"@,
    }
}

/// The name a category is listed under (see [`category_name`]).
pub fn category_str(category: ToolCategory) -> (r: &'static str)
    ensures
        r@ == category_name(category),
{
    match category {
        ToolCategory::Read => "read",
        ToolCategory::Edit => "edit",
        ToolCategory::Delete => "delete",
        ToolCategory::Move => "move",
        ToolCategory::Search => "search",
        ToolCategory::Execute => "execute",
        ToolCategory::Think => "think",
        ToolCategory::Fetch => "fetch",
        ToolCategory::Delegate => "delegate",
        ToolCategory::Other => "unknown",
    }
}

/// The name a permission class is listed under (see [`permission_name`]).
pub fn permission_str(permission: PermissionClass) -> (r: &'static str)
    ensures
        r@ == permission_name(permission),
{
    match permission {
        PermissionClass::Safe => "safe",
        PermissionClass::RequiresApproval => "requires_approval",
        PermissionClass::Dangerous => "dangerous",
        PermissionClass::Other => "unknown",
    }
}

/// The first sentence of `d`: everything up to and including the `.` of
/// the first `". "`, or all of `d` when it holds none.
pub open spec fn first_sentence_of(d: Seq<char>) -> Seq<char> {
    if exists|i: int| occurs_at(d, ". "@, i) {
        let i = choose|i: int| occurs_at(d, ". "@, i) && forall|j: int| 0 <= j < i ==> !occurs_at(d, ". "@, j);
        d.take(i + 1)
    } else {
        d
    }
}

/// The first sentence of `description` (see [`first_sentence_of`]).
pub fn first_sentence(description: &str) -> (r: String)
    ensures
        r@ == first_sentence_of(description@),
{
    proof {
        reveal_strlit(". ");
    }
    let d = chars_of(description);
    let pat = chars_of(". ");
    match find_chars(&d, &pat) {
        Some(i) => {
            proof {
                let j = choose|j: int| occurs_at(d@, ". "@, j) && forall|k: int| 0 <= k < j ==> !occurs_at(d@, ". "@, k);
                if j < i {
                } else if j > i {
                }
                assert(j == i);
                assert(pat@.len() == 2);
                assert(i + 2 <= d@.len());
                assert(d@.len() == d.len());
            }
            assert(i + 1 <= d.len());
            let t = slice_range(&d, 0, i + 1);
            assert(d@.subrange(0, i + 1) =~= d@.take(i + 1));
            string_of(&t)
        }
        None => string_of(&d),
    }
}

/// The widest tool name, in characters.
pub open spec fn name_width(specs: Seq<ToolSpec>) -> nat
    decreases specs.len(),
{
    if specs.len() == 0 {
        0
    } else {
        let m = name_width(specs.drop_last());
        let l = specs.last().name@.len();
        if l > m { l } else { m }
    }
}

/// The widest category name.
pub open spec fn category_width(specs: Seq<ToolSpec>) -> nat
    decreases specs.len(),
{
    if specs.len() == 0 {
        0
    } else {
        let m = category_width(specs.drop_last());
        let l = category_name(specs.last().category).len();
        if l > m { l } else { m }
    }
}

/// The widest permission class name.
pub open spec fn permission_width(specs: Seq<ToolSpec>) -> nat
    decreases specs.len(),
{
    if specs.len() == 0 {
        0
    } else {
        let m = permission_width(specs.drop_last());
        let l = permission_name(specs.last().permission).len();
        if l > m { l } else { m }
    }
}

/// One listing line: name, category and permission class each padded to
/// its column, two spaces apart, then the description's first sentence.
pub open spec fn tool_line(s: ToolSpec, nw: nat, cw: nat, pw: nat) -> Seq<char> {
    pad_right(s.name@, nw) + "  "@ + pad_right(category_name(s.category), cw) + "  "@
        + pad_right(permission_name(s.permission), pw) + "  "@ + first_sentence_of(s.description@) + "\n"@
}

/// The listing lines of `specs`, in order.
pub open spec fn tool_lines(specs: Seq<ToolSpec>, nw: nat, cw: nat, pw: nat) -> Seq<char>
    decreases specs.len(),
{
    if specs.len() == 0 {
        Seq::empty()
    } else {
        tool_lines(specs.drop_last(), nw, cw, pw) + tool_line(specs.last(), nw, cw, pw)
    }
}

/// The names of the tools a `--root` confines, in order.
pub open spec fn confinable_names(specs: Seq<ToolSpec>) -> Seq<Seq<char>>
    decreases specs.len(),
{
    if specs.len() == 0 {
        Seq::empty()
    } else if specs.last().path_confinable {
        confinable_names(specs.drop_last()).push(specs.last().name@)
    } else {
        confinable_names(specs.drop_last())
    }
}

/// The whole human-readable listing: one line per tool, a count line, and
/// (with a `--root`) the line naming what that root confines.
pub open spec fn tool_listing(specs: Seq<ToolSpec>, plugin_count: nat, root: Option<Seq<char>>) -> Seq<char> {
    tool_lines(specs, name_width(specs), category_width(specs), permission_width(specs))
        + decimal(specs.len()) + " tools registered from "@ + decimal(plugin_count) + " plugins\n"@
        + match root {
            None => Seq::empty(),
            Some(r) => "--root "@ + r + " confines: "@ + (if confinable_names(specs).len() == 0 {
                "(none)"@
            } else {
                join(confinable_names(specs), ", "@)
            }) + "\n"@,
        }
}

fn push_tool_line(out: &mut String, spec: &ToolSpec, nw: usize, cw: usize, pw: usize)
    ensures
        final(out)@ == old(out)@ + tool_line(*spec, nw as nat, cw as nat, pw as nat),
{
    let mut line = String::new();
    let name = chars_of(spec.name.as_str());
    push_padded(&mut line, &name, nw);
    assert(line@ =~= pad_right(spec.name@, nw as nat));
    push_str(&mut line, "  ");
    let cat = chars_of(category_str(spec.category));
    push_padded(&mut line, &cat, cw);
    push_str(&mut line, "  ");
    let perm = chars_of(permission_str(spec.permission));
    push_padded(&mut line, &perm, pw);
    push_str(&mut line, "  ");
    let desc = first_sentence(spec.description.as_str());
    push_str(&mut line, desc.as_str());
    push_str(&mut line, "\n");
    push_str(out, line.as_str());
}

/// Renders the `tools list` text for `specs` (already sorted by name), the
/// number of plugins that registered them, and the `--root` given, if any.
pub fn tool_listing_text(specs: &[ToolSpec], plugin_count: u64, root: Option<&str>) -> (r: String)
    ensures
        r@ == tool_listing(specs@, plugin_count as nat, match root {
            Some(x) => Some(x@),
            None => None,
        }),
{
    let ghost sv = specs@;
    let mut nw: usize = 0;
    let mut cw: usize = 0;
    let mut pw: usize = 0;
    let mut k: usize = 0;
    while k < specs.len()
        invariant
            k <= specs.len(),
            sv == specs@,
            nw == name_width(sv.take(k as int)),
            cw == category_width(sv.take(k as int)),
            pw == permission_width(sv.take(k as int)),
        decreases specs.len() - k,
    {
        let ghost next = sv.take(k as int + 1);
        assert(next.drop_last() =~= sv.take(k as int));
        let l = chars_of(specs[k].name.as_str()).len();
        if l > nw {
            nw = l;
        }
        let c = category_str(specs[k].category).unicode_len();
        if c > cw {
            cw = c;
        }
        let p = permission_str(specs[k].permission).unicode_len();
        if p > pw {
            pw = p;
        }
        k = k + 1;
    }
    assert(sv.take(specs.len() as int) =~= sv);
    let mut out = String::new();
    let mut names: Vec<String> = Vec::new();
    let mut k: usize = 0;
    while k < specs.len()
        invariant
            k <= specs.len(),
            sv == specs@,
            nw == name_width(sv),
            cw == category_width(sv),
            pw == permission_width(sv),
            out@ == tool_lines(sv.take(k as int), nw as nat, cw as nat, pw as nat),
            names@.map_values(|x: String| x@) == confinable_names(sv.take(k as int)),
        decreases specs.len() - k,
    {
        let ghost next = sv.take(k as int + 1);
        assert(next.drop_last() =~= sv.take(k as int));
        let spec = &specs[k];
        push_tool_line(&mut out, spec, nw, cw, pw);
        let name = chars_of(spec.name.as_str());
        let ghost old_names = names@.map_values(|x: String| x@);
        if spec.path_confinable {
            names.push(string_of(&name));
            assert(names@.map_values(|x: String| x@) =~= old_names.push(spec.name@));
        }
        k = k + 1;
    }
    assert(sv.take(specs.len() as int) =~= sv);
    push_decimal(&mut out, specs.len() as u64);
    push_str(&mut out, " tools registered from ");
    push_decimal(&mut out, plugin_count);
    push_str(&mut out, " plugins\n");
    let ghost mid = out@;
    match root {
        None => {
            assert(out@ =~= mid + Seq::<char>::empty());
        }
        Some(r) => {
            push_str(&mut out, "--root ");
            push_str(&mut out, r);
            push_str(&mut out, " confines: ");
            if names.len() == 0 {
                push_str(&mut out, "(none)");
            } else {
                push_joined(&mut out, &names, ", ");
            }
            push_str(&mut out, "\n");
        }
    }
    out
}

} // verus!
