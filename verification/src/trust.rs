//! `conway trust settings|list|revoke`: consent for a project's
//! `.conway/settings.json`, given headlessly. What is shown for review,
//! what is reported once a decision is recorded, how the recorded
//! decisions are listed, which recorded paths a revoke removes, and the
//! command's flow between the file reads, the trust store and the settings
//! guard.
use vstd::prelude::*;
use crate::exit::ExitCode;
use crate::diag::{no_replies, one, Reply, replies_view, reply_view};
use crate::provider_save::opt_seq;
use crate::text::{chars_of, clone_string, join, pad_right, push_chars, push_joined, push_padded, push_str, slice_range, string_from};
use crate::diff::{pair_views, views};
use crate::paths::{components, lemma_comps_lt_irreflexive, lemma_comps_lt_total, lemma_comps_lt_transitive, path_eq, path_less, path_lt, same_path};

verus! {

/// The subcommand's arguments.
pub struct TrustArgs {
    pub action: TrustAction,
}

/// `conway trust ...` actions.
pub enum TrustAction {
    /// Review this project's settings file (or `path`) and record consent
    /// for exactly the bytes it holds now.
    Settings { path: Option<String> },
    /// Show every recorded decision.
    List,
    /// Withdraw the decision recorded for a path.
    Revoke { path: String },
}

/// How a file's current bytes compare with the recorded decision.
#[derive(Clone, Copy, Debug, PartialEq, Eq, Structural)]
pub enum TrustStatus {
    /// Never trusted.
    New,
    /// Trusted once, edited since.
    Changed,
    /// Trusted, and still the same bytes.
    Unchanged,
}

/// Where the line starting at `i` of `s` ends: the next `\n`, or the end.
pub open spec fn line_end(s: Seq<char>, i: int) -> int
    decreases s.len() - i,
{
    if i >= s.len() || i < 0 || s[i] == '\n' { i } else { line_end(s, i + 1) }
}

/// A line ends at its first `\n`, or at the end of the text.
pub proof fn lemma_line_end(s: Seq<char>, i: int)
    requires
        0 <= i <= s.len(),
    ensures
        i <= line_end(s, i) <= s.len(),
        forall|k: int| i <= k < line_end(s, i) ==> s[k] != '\n',
        line_end(s, i) < s.len() ==> s[line_end(s, i)] == '\n',
    decreases s.len() - i,
{
    if i < s.len() && s[i] != '\n' {
        lemma_line_end(s, i + 1);
    }
}

/// The line of `s` from `i` to `e`, without the `\r` of a `\r\n` ending.
pub open spec fn line_text(s: Seq<char>, i: int, e: int) -> Seq<char> {
    let raw = s.subrange(i, e);
    if e < s.len() && raw.len() > 0 && raw.last() == '\r' { raw.drop_last() } else { raw }
}

/// The lines of `s` from `i` on, as `str::lines` splits them: at `\n` or
/// `\r\n`, the last line ending optional.
pub open spec fn lines_from(s: Seq<char>, i: int) -> Seq<Seq<char>>
    decreases s.len() - i,
{
    if i < 0 || i >= s.len() {
        Seq::empty()
    } else {
        let e = line_end(s, i);
        if e < i {
            Seq::empty()
        } else if e >= s.len() {
            seq![line_text(s, i, e)]
        } else {
            seq![line_text(s, i, e)] + lines_from(s, e + 1)
        }
    }
}

/// The lines of `s`.
pub open spec fn lines_of(s: Seq<char>) -> Seq<Seq<char>> {
    lines_from(s, 0)
}

/// Each of `ls`, indented by two spaces.
pub open spec fn indented(ls: Seq<Seq<char>>) -> Seq<Seq<char>> {
    ls.map_values(|l: Seq<char>| "  "@ + l)
}

/// The note shown when a file was trusted before and edited since.
pub const EDITED_NOTE: &'static str = "note: this file was trusted before and has been EDITED since -- what you are consenting to above is not what you consented to last time.";

/// What `trust settings` prints before anything is recorded: the file's
/// path and its whole contents between two rules, then, for bytes already
/// trusted, that nothing will be written, and for an edited file, that it
/// was edited.
pub open spec fn review_text(target: Seq<char>, contents: Seq<char>, status: TrustStatus, label: Seq<char>) -> Seq<Seq<char>> {
    seq![target, "----"@] + indented(lines_of(contents)) + seq!["----"@] + match status {
        TrustStatus::Unchanged => seq!["already trusted -- these exact bytes are already a recorded decision in "@ + label + "; nothing written."@],
        TrustStatus::Changed => seq![EDITED_NOTE@],
        TrustStatus::New => Seq::empty(),
    }
}

fn content_lines(contents: &str) -> (r: Vec<String>)
    ensures
        views(r@) == indented(lines_of(contents@)),
{
    let cs = chars_of(contents);
    let ghost s = contents@;
    let mut out: Vec<String> = Vec::new();
    let mut i: usize = 0;
    proof {
        assert(views(out@) + indented(lines_from(s, 0)) =~= indented(lines_from(s, 0)));
    }
    while i < cs.len()
        invariant
            cs@ == s,
            i <= cs@.len(),
            views(out@) + indented(lines_from(s, i as int)) == indented(lines_from(s, 0)),
        decreases cs@.len() - i,
    {
        let mut e: usize = i;
        while e < cs.len() && cs[e] != '\n'
            invariant
                cs@ == s,
                i <= e <= cs@.len(),
                line_end(s, e as int) == line_end(s, i as int),
            decreases cs@.len() - e,
        {
            e = e + 1;
        }
        proof {
            lemma_line_end(s, i as int);
        }
        let stop = if e < cs.len() && e > i && cs[e - 1] == '\r' { e - 1 } else { e };
        let mut line = string_from("  ");
        let body = slice_range(&cs, i, stop);
        push_chars(&mut line, body.as_slice());
        proof {
            assert(line_text(s, i as int, e as int) =~= body@);
        }
        let ghost prev = out@;
        out.push(line);
        proof {
            let rest = lines_from(s, e + 1);
            assert(lines_from(s, i as int) =~= seq![line_text(s, i as int, e as int)] + rest);
            assert(indented(lines_from(s, i as int)) =~= seq!["  "@ + body@] + indented(rest));
            assert(views(out@) =~= views(prev).push("  "@ + body@));
            assert(views(out@) + indented(rest) =~= views(prev) + indented(lines_from(s, i as int)));
        }
        if e >= cs.len() {
            proof {
                assert(lines_from(s, e + 1) =~= Seq::<Seq<char>>::empty());
                assert(lines_from(s, cs@.len() as int) =~= Seq::<Seq<char>>::empty());
            }
            i = cs.len();
        } else {
            i = e + 1;
        }
    }
    proof {
        assert(lines_from(s, i as int) =~= Seq::<Seq<char>>::empty());
        assert(indented(Seq::<Seq<char>>::empty()) =~= Seq::<Seq<char>>::empty());
        assert(views(out@) + Seq::<Seq<char>>::empty() =~= views(out@));
    }
    out
}

/// What `trust settings` prints before anything is recorded (see
/// [`review_text`]), and whether a decision is to be recorded: for every
/// file not already trusted with these bytes.
pub fn settings_review(target: &str, contents: &str, status: TrustStatus, label: &str) -> (r: (Vec<String>, bool))
    ensures
        views(r.0@) == review_text(target@, contents@, status, label@),
        r.1 == (status != TrustStatus::Unchanged),
{
    let mut out: Vec<String> = Vec::new();
    out.push(string_from(target));
    out.push(string_from("----"));
    assert(views(out@) =~= seq![target@, "----"@]);
    let body = content_lines(contents);
    let ghost head = out@;
    let ghost body_view = views(body@);
    let mut k: usize = 0;
    while k < body.len()
        invariant
            k <= body@.len(),
            views(out@) == views(head) + views(body@).take(k as int),
        decreases body@.len() - k,
    {
        let ghost prev = out@;
        out.push(clone_string(&body[k]));
        assert(views(out@) =~= views(prev).push(body@[k as int]@));
        assert(views(body@).take(k + 1) =~= views(body@).take(k as int).push(body@[k as int]@));
        k = k + 1;
    }
    assert(views(body@).take(body@.len() as int) =~= views(body@));
    let ghost mid = out@;
    out.push(string_from("----"));
    assert(views(out@) =~= views(mid).push("----"@));
    assert(views(out@) =~= seq![target@, "----"@] + indented(lines_of(contents@)) + seq!["----"@]);
    let ghost before_status = out@;
    match status {
        TrustStatus::Unchanged => {
            let mut s = string_from("already trusted -- these exact bytes are already a recorded decision in ");
            push_str(&mut s, label);
            push_str(&mut s, "; nothing written.");
            out.push(s);
        },
        TrustStatus::Changed => {
            out.push(string_from(EDITED_NOTE));
        },
        TrustStatus::New => {},
    }
    assert(views(out@) =~= views(before_status) + match status {
        TrustStatus::Unchanged => seq!["already trusted -- these exact bytes are already a recorded decision in "@ + label@ + "; nothing written."@],
        TrustStatus::Changed => seq![EDITED_NOTE@],
        TrustStatus::New => Seq::<Seq<char>>::empty(),
    });
    assert(views(out@) =~= review_text(target@, contents@, status, label@));
    (out, status != TrustStatus::Unchanged)
}

/// What `trust settings` reports once the decision is settled: with a
/// recording error, only that error (and the run fails); otherwise that
/// the file was trusted (where something was recorded) and what the
/// consent covers.
pub open spec fn recorded_text(target: Seq<char>, status: TrustStatus, label: Seq<char>, record_error: Option<Seq<char>>) -> Result<Seq<Seq<char>>, Seq<char>> {
    match record_error {
        Some(e) => Err("could not record a trust decision for "@ + target + ": "@ + e),
        None => Ok(
            (if status == TrustStatus::Unchanged {
                Seq::empty()
            } else {
                seq!["trusted "@ + target + " -- recorded in "@ + label + "."@]
            }) + seq!["This covers exactly the bytes above: any later edit re-arms the refusal. `conway trust revoke "@ + target + "` withdraws it."@],
        ),
    }
}

/// What `trust settings` reports once the decision is settled (see
/// [`recorded_text`]); `record_error` is the recording's error, if it
/// failed.
pub fn settings_recorded(target: &str, status: TrustStatus, label: &str, record_error: Option<&str>) -> (r: Result<Vec<String>, String>)
    ensures
        match recorded_text(target@, status, label@, match record_error { Some(e) => Some(e@), None => None }) {
            Ok(ls) => r matches Ok(v) && views(v@) == ls,
            Err(m) => r matches Err(e) && e@ == m,
        },
{
    if let Some(e) = record_error {
        let mut s = string_from("could not record a trust decision for ");
        push_str(&mut s, target);
        push_str(&mut s, ": ");
        push_str(&mut s, e);
        return Err(s);
    }
    let mut out: Vec<String> = Vec::new();
    if status != TrustStatus::Unchanged {
        let mut s = string_from("trusted ");
        push_str(&mut s, target);
        push_str(&mut s, " -- recorded in ");
        push_str(&mut s, label);
        push_str(&mut s, ".");
        out.push(s);
    }
    let mut c = string_from("This covers exactly the bytes above: any later edit re-arms the refusal. `conway trust revoke ");
    push_str(&mut c, target);
    push_str(&mut c, "` withdraws it.");
    out.push(c);
    assert(views(out@) =~= recorded_text(target@, status, label@, None)->Ok_0);
    Ok(out)
}

/// The last word of `trust settings`: for a file found from the working
/// directory, what the settings guard now says there (`gate_error` where it
/// still refuses); for an explicit path, nothing.
pub open spec fn gate_text(cwd: Seq<char>, explicit: bool, gate_error: Option<Seq<char>>) -> (ExitCode, Option<(bool, Seq<char>)>) {
    if explicit {
        (ExitCode::Completed, None)
    } else {
        match gate_error {
            None => (ExitCode::Completed, Some((false, "conway will now start in "@ + cwd + "."@))),
            Some(e) => (ExitCode::AgentFailed, Some((true, "the decision was recorded, but the settings guard still blocks start-up: "@ + e))),
        }
    }
}

/// The last word of `trust settings` (see [`gate_text`]).
pub fn settings_gate(cwd: &str, explicit: bool, gate_error: Option<&str>) -> (r: (ExitCode, Option<Reply>))
    ensures
        (r.0, match r.1 { Some(x) => Some(reply_view(x)), None => None })
            == gate_text(cwd@, explicit, match gate_error { Some(e) => Some(e@), None => None }),
{
    if explicit {
        return (ExitCode::Completed, None);
    }
    match gate_error {
        None => {
            let mut s = string_from("conway will now start in ");
            push_str(&mut s, cwd);
            push_str(&mut s, ".");
            (ExitCode::Completed, Some(Reply::Stdout(s)))
        },
        Some(e) => {
            let mut s = string_from("the decision was recorded, but the settings guard still blocks start-up: ");
            push_str(&mut s, e);
            (ExitCode::AgentFailed, Some(Reply::Stderr(s)))
        },
    }
}

/// One recorded decision: its kind's name, the path as recorded, how the
/// file compares now (`None` where it cannot be read), and when it was
/// trusted.
pub struct TrustEntry {
    pub kind: String,
    pub path: String,
    pub status: Option<TrustStatus>,
    pub trusted_at: String,
}

/// The state shown for a recorded decision.
pub open spec fn state_text(status: Option<TrustStatus>) -> Seq<char> {
    match status {
        Some(TrustStatus::Unchanged) => "ok"@,
        Some(TrustStatus::Changed) => "EDITED since trusted -- not trusted now"@,
        Some(TrustStatus::New) => "no record"@,
        None => "unreadable or gone"@,
    }
}

/// The `trust list` line of one decision: the kind in a field of 11, the
/// path, the state in brackets, and when it was trusted.
pub open spec fn entry_text(e: TrustEntry) -> Seq<char> {
    pad_right(e.kind@, 11) + "  "@ + e.path@ + "  ["@ + state_text(e.status) + "]  (trusted "@ + e.trusted_at@ + ")"@
}

/// What `trust list` prints: the file's location, then one line per
/// decision; with none recorded, only that.
pub open spec fn list_text(label: Seq<char>, entries: Seq<TrustEntry>) -> Seq<Seq<char>> {
    if entries.len() == 0 {
        seq!["no trust decisions recorded ("@ + label + ")"@]
    } else {
        seq![label] + entries.map_values(|e: TrustEntry| entry_text(e))
    }
}

fn state_str(status: Option<TrustStatus>) -> (r: &'static str)
    ensures
        r@ == state_text(status),
{
    match status {
        Some(TrustStatus::Unchanged) => "ok",
        Some(TrustStatus::Changed) => "EDITED since trusted -- not trusted now",
        Some(TrustStatus::New) => "no record",
        None => "unreadable or gone",
    }
}

fn entry_line(e: &TrustEntry) -> (r: String)
    ensures
        r@ == entry_text(*e),
{
    let mut s = String::new();
    let kind = chars_of(e.kind.as_str());
    push_padded(&mut s, kind.as_slice(), 11);
    push_str(&mut s, "  ");
    push_str(&mut s, e.path.as_str());
    push_str(&mut s, "  [");
    push_str(&mut s, state_str(e.status));
    push_str(&mut s, "]  (trusted ");
    push_str(&mut s, e.trusted_at.as_str());
    push_str(&mut s, ")");
    assert(s@ =~= entry_text(*e));
    s
}

/// What `trust list` prints (see [`list_text`]).
pub fn list_lines(label: &str, entries: &[TrustEntry]) -> (r: Vec<String>)
    ensures
        views(r@) == list_text(label@, entries@),
{
    let mut out: Vec<String> = Vec::new();
    if entries.len() == 0 {
        let mut s = string_from("no trust decisions recorded (");
        push_str(&mut s, label);
        push_str(&mut s, ")");
        out.push(s);
        assert(views(out@) =~= list_text(label@, entries@));
        return out;
    }
    out.push(string_from(label));
    let mut i: usize = 0;
    while i < entries.len()
        invariant
            i <= entries@.len(),
            entries@.len() > 0,
            views(out@) == seq![label@] + entries@.take(i as int).map_values(|e: TrustEntry| entry_text(e)),
        decreases entries@.len() - i,
    {
        let ghost prev = out@;
        let line = entry_line(&entries[i]);
        out.push(line);
        assert(entries@.take(i + 1) =~= entries@.take(i as int).push(entries@[i as int]));
        assert(views(out@) =~= views(prev).push(line@));
        assert(entries@.take(i + 1).map_values(|e: TrustEntry| entry_text(e))
            =~= entries@.take(i as int).map_values(|e: TrustEntry| entry_text(e)).push(entry_text(entries@[i as int])));
        i = i + 1;
    }
    assert(entries@.take(entries@.len() as int) =~= entries@);
    out
}

/// The path a revoke names, made absolute against the working directory:
/// an absolute path as given; a relative one joined onto `cwd` with a `/`
/// where `cwd` does not already end with one.
pub open spec fn absolute_of(cwd: Seq<char>, path: Seq<char>) -> Seq<char> {
    if path.len() > 0 && path[0] == '/' {
        path
    } else if cwd.len() == 0 {
        path
    } else if cwd.last() == '/' {
        cwd + path
    } else {
        cwd + "/"@ + path
    }
}

/// The path a revoke names, made absolute (see [`absolute_of`]).
pub fn absolute_path(cwd: &str, path: &str) -> (r: String)
    ensures
        r@ == absolute_of(cwd@, path@),
{
    let p = chars_of(path);
    let c = chars_of(cwd);
    if p.len() > 0 && p[0] == '/' {
        string_from(path)
    } else if c.len() == 0 {
        string_from(path)
    } else if c[c.len() - 1] == '/' {
        let mut s = string_from(cwd);
        push_str(&mut s, path);
        s
    } else {
        let mut s = string_from(cwd);
        push_str(&mut s, "/");
        push_str(&mut s, path);
        s
    }
}

/// The refusal of a revoke that matches nothing recorded.
pub open spec fn nothing_recorded_text(absolute: Seq<char>) -> Seq<char> {
    "nothing is recorded for "@ + absolute + " -- `conway trust list` shows every decision this trust.json holds"@
}

/// The refusal of a revoke that matches nothing recorded (see
/// [`nothing_recorded_text`]).
pub fn nothing_recorded_message(absolute: &str) -> (r: String)
    ensures
        r@ == nothing_recorded_text(absolute@),
{
    let mut s = string_from("nothing is recorded for ");
    push_str(&mut s, absolute);
    push_str(&mut s, " -- `conway trust list` shows every decision this trust.json holds");
    s
}

/// The report of one revoked path: the path and the kinds of decision
/// that were withdrawn for it.
pub open spec fn revoked_text(key: Seq<char>, kinds: Seq<Seq<char>>) -> Seq<char> {
    "revoked "@ + key + " ("@ + join(kinds, ", "@) + ")"@
}

/// The report of one revoked path (see [`revoked_text`]).
pub fn revoked_line(key: &str, kinds: &Vec<String>) -> (r: String)
    ensures
        r@ == revoked_text(key@, views(kinds@)),
{
    let mut s = string_from("revoked ");
    push_str(&mut s, key);
    push_str(&mut s, " (");
    let mut k = String::new();
    push_joined(&mut k, kinds, ", ");
    push_str(&mut s, k.as_str());
    push_str(&mut s, ")");
    s
}

/// Whether the recorded decision `rec` (its path as recorded, and that
/// path resolved) is one that a revoke of `absolute` (resolving to
/// `wanted`) withdraws: the same path as either.
pub open spec fn revoke_matches(rec: (Seq<char>, Seq<char>), absolute: Seq<char>, wanted: Seq<char>) -> bool {
    same_path(rec.0, absolute) || same_path(rec.1, wanted)
}

/// Whether `key` is the first matching spelling of its path in `rs`.
#[verifier::opaque]
pub open spec fn first_of_its_path(rs: Seq<(Seq<char>, Seq<char>)>, absolute: Seq<char>, wanted: Seq<char>, key: Seq<char>) -> bool {
    exists|m: int| #![trigger rs[m]]
        0 <= m < rs.len() && revoke_matches(rs[m], absolute, wanted) && rs[m].0 == key
            && forall|n: int| #![trigger rs[n]]
                0 <= n < m && revoke_matches(rs[n], absolute, wanted) ==> !same_path(rs[n].0, key)
}

/// The paths a revoke withdraws, out of the recorded `rs`: every matching
/// path once, in path order, each spelled as it was first recorded.
pub open spec fn revoke_keys_ok(rs: Seq<(Seq<char>, Seq<char>)>, absolute: Seq<char>, wanted: Seq<char>, keys: Seq<Seq<char>>) -> bool {
    &&& forall|i: int, j: int| 0 <= i < j < keys.len() ==> path_lt(#[trigger] keys[i], #[trigger] keys[j])
    &&& forall|i: int| 0 <= i < keys.len() ==> first_of_its_path(rs, absolute, wanted, #[trigger] keys[i])
    &&& forall|m: int| #![trigger rs[m]] 0 <= m < rs.len() && revoke_matches(rs[m], absolute, wanted)
        ==> exists|i: int| 0 <= i < keys.len() && same_path(#[trigger] keys[i], rs[m].0)
}

proof fn lemma_first_extends(rs: Seq<(Seq<char>, Seq<char>)>, k: int, absolute: Seq<char>, wanted: Seq<char>, key: Seq<char>)
    requires
        0 <= k < rs.len(),
        first_of_its_path(rs.take(k), absolute, wanted, key),
    ensures
        first_of_its_path(rs.take(k + 1), absolute, wanted, key),
{
    reveal(first_of_its_path);
    let pre = rs.take(k);
    let post = rs.take(k + 1);
    let m = choose|m: int| #![trigger pre[m]]
        0 <= m < pre.len() && revoke_matches(pre[m], absolute, wanted) && pre[m].0 == key
            && forall|n: int| #![trigger pre[n]]
                0 <= n < m && revoke_matches(pre[n], absolute, wanted) ==> !same_path(pre[n].0, key);
    assert(post[m] == pre[m]);
    assert forall|n: int| #![trigger post[n]] 0 <= n < m && revoke_matches(post[n], absolute, wanted)
        implies !same_path(post[n].0, key) by {
        assert(post[n] == pre[n]);
    }
}

/// Whether `ks` is in strictly increasing path order.
pub open spec fn sorted_paths(ks: Seq<Seq<char>>) -> bool {
    forall|i: int, j: int| 0 <= i < j < ks.len() ==> path_lt(#[trigger] ks[i], #[trigger] ks[j])
}

/// Adds `p` to the path-ordered `keys` unless a spelling of the same path
/// is already there; whether it was added.
fn insert_path(keys: &mut Vec<String>, p: &str) -> (added: bool)
    requires
        sorted_paths(views(old(keys)@)),
    ensures
        sorted_paths(views(final(keys)@)),
        !added ==> views(final(keys)@) == views(old(keys)@)
            && exists|i: int| 0 <= i < views(old(keys)@).len() && same_path(#[trigger] views(old(keys)@)[i], p@),
        added ==> (forall|j: int| 0 <= j < views(old(keys)@).len() ==> !same_path(#[trigger] views(old(keys)@)[j], p@))
            && exists|pos: int| 0 <= pos <= views(old(keys)@).len() && views(final(keys)@) == views(old(keys)@).insert(pos, p@),
{
    let ghost old_keys = views(keys@);
    let mut pos: usize = 0;
    let mut stop = false;
    let mut dup = false;
    while !stop && pos < keys.len()
        invariant
            old_keys == views(keys@),
            pos <= keys@.len(),
            dup ==> stop,
            forall|j: int| 0 <= j < pos ==> path_lt(#[trigger] old_keys[j], p@),
            stop ==> pos < keys@.len(),
            stop && dup ==> same_path(old_keys[pos as int], p@),
            stop && !dup ==> path_lt(p@, old_keys[pos as int]),
        decreases keys@.len() - pos + (if stop { 0int } else { 1int }),
    {
        assert(old_keys[pos as int] == keys@[pos as int]@);
        if path_eq(keys[pos].as_str(), p) {
            dup = true;
            stop = true;
        } else if path_less(p, keys[pos].as_str()) {
            stop = true;
        } else {
            proof {
                lemma_comps_lt_total(components(old_keys[pos as int]), components(p@));
            }
            pos = pos + 1;
        }
    }
    if dup {
        return false;
    }
    proof {
        assert forall|j: int| 0 <= j < old_keys.len() implies !same_path(#[trigger] old_keys[j], p@) by {
            lemma_comps_lt_irreflexive(components(p@));
            if j > pos {
                lemma_comps_lt_transitive(components(p@), components(old_keys[pos as int]), components(old_keys[j]));
            }
        }
    }
    keys.insert(pos, string_from(p));
    proof {
        let nk = views(keys@);
        assert(nk =~= old_keys.insert(pos as int, p@));
        assert forall|i: int, j: int| 0 <= i < j < nk.len() implies path_lt(#[trigger] nk[i], #[trigger] nk[j]) by {
            if j < pos {
            } else if j == pos {
            } else if i < pos {
                assert(path_lt(old_keys[i], p@));
                if j - 1 > pos {
                    lemma_comps_lt_transitive(components(p@), components(old_keys[pos as int]), components(old_keys[j - 1]));
                }
                lemma_comps_lt_transitive(components(old_keys[i]), components(p@), components(old_keys[j - 1]));
            } else if i == pos {
                if j - 1 > pos {
                    lemma_comps_lt_transitive(components(p@), components(old_keys[pos as int]), components(old_keys[j - 1]));
                }
            } else {
                assert(nk[i] == old_keys[i - 1] && nk[j] == old_keys[j - 1]);
            }
        }
    }
    true
}

/// The recorded paths a revoke of `absolute` withdraws (see
/// [`revoke_keys_ok`]): `recorded` holds each decision's path as recorded
/// and that path resolved, and `wanted` is `absolute` resolved.
pub fn revoke_keys(absolute: &str, wanted: &str, recorded: &[(String, String)]) -> (r: Vec<String>)
    ensures
        revoke_keys_ok(pair_views(recorded@), absolute@, wanted@, views(r@)),
{
    let ghost rs = pair_views(recorded@);
    let mut keys: Vec<String> = Vec::new();
    let mut k: usize = 0;
    proof {
        assert(rs.take(0) =~= Seq::<(Seq<char>, Seq<char>)>::empty());
    }
    while k < recorded.len()
        invariant
            rs == pair_views(recorded@),
            k <= recorded@.len(),
            revoke_keys_ok(rs.take(k as int), absolute@, wanted@, views(keys@)),
        decreases recorded@.len() - k,
    {
        let ghost pre = rs.take(k as int);
        let ghost post = rs.take(k + 1);
        let ghost old_keys = views(keys@);
        let p = recorded[k].0.as_str();
        let res = recorded[k].1.as_str();
        proof {
            assert(rs[k as int] == (p@, res@));
            assert(post[k as int] == rs[k as int]);
            assert forall|i: int| 0 <= i < old_keys.len() implies first_of_its_path(post, absolute@, wanted@, #[trigger] old_keys[i]) by {
                lemma_first_extends(rs, k as int, absolute@, wanted@, old_keys[i]);
            }
        }
        if path_eq(p, absolute) || path_eq(res, wanted) {
            let added = insert_path(&mut keys, p);
            proof {
                lemma_revoke_step(pre, post, absolute@, wanted@, old_keys, views(keys@), p@, added);
            }
        } else {
            proof {
                assert forall|m: int| #![trigger post[m]] 0 <= m < post.len() && revoke_matches(post[m], absolute@, wanted@)
                    implies exists|i: int| 0 <= i < old_keys.len() && same_path(#[trigger] old_keys[i], post[m].0) by {
                    assert(m < k);
                    assert(post[m] == pre[m]);
                }
            }
        }
        k = k + 1;
    }
    proof {
        assert(rs.take(recorded@.len() as int) =~= rs);
    }
    keys
}

proof fn lemma_revoke_step(
    pre: Seq<(Seq<char>, Seq<char>)>,
    post: Seq<(Seq<char>, Seq<char>)>,
    absolute: Seq<char>,
    wanted: Seq<char>,
    old_keys: Seq<Seq<char>>,
    nk: Seq<Seq<char>>,
    p: Seq<char>,
    added: bool,
)
    requires
        post.len() == pre.len() + 1,
        forall|n: int| 0 <= n < pre.len() ==> post[n] == pre[n],
        post.last().0 == p,
        revoke_matches(post.last(), absolute, wanted),
        revoke_keys_ok(pre, absolute, wanted, old_keys),
        forall|i: int| 0 <= i < old_keys.len() ==> first_of_its_path(post, absolute, wanted, #[trigger] old_keys[i]),
        sorted_paths(nk),
        !added ==> nk == old_keys && exists|i: int| 0 <= i < old_keys.len() && same_path(#[trigger] old_keys[i], p),
        added ==> (forall|j: int| 0 <= j < old_keys.len() ==> !same_path(#[trigger] old_keys[j], p))
            && exists|pos: int| 0 <= pos <= old_keys.len() && nk == old_keys.insert(pos, p),
    ensures
        revoke_keys_ok(post, absolute, wanted, nk),
{
    if !added {
        lemma_covered_kept(pre, post, absolute, wanted, old_keys, p);
    } else {
        let pos = choose|pos: int| 0 <= pos <= old_keys.len() && nk == old_keys.insert(pos, p);
        lemma_new_key_is_first(pre, post, absolute, wanted, old_keys, p);
        lemma_inserted_keys_first(post, absolute, wanted, old_keys, nk, p, pos);
        lemma_covered_inserted(pre, post, absolute, wanted, old_keys, nk, p, pos);
    }
}

proof fn lemma_covered_kept(
    pre: Seq<(Seq<char>, Seq<char>)>,
    post: Seq<(Seq<char>, Seq<char>)>,
    absolute: Seq<char>,
    wanted: Seq<char>,
    old_keys: Seq<Seq<char>>,
    p: Seq<char>,
)
    requires
        post.len() == pre.len() + 1,
        forall|n: int| 0 <= n < pre.len() ==> post[n] == pre[n],
        post.last().0 == p,
        forall|m: int| #![trigger pre[m]] 0 <= m < pre.len() && revoke_matches(pre[m], absolute, wanted)
            ==> exists|i: int| 0 <= i < old_keys.len() && same_path(#[trigger] old_keys[i], pre[m].0),
        exists|i: int| 0 <= i < old_keys.len() && same_path(#[trigger] old_keys[i], p),
    ensures
        forall|m: int| #![trigger post[m]] 0 <= m < post.len() && revoke_matches(post[m], absolute, wanted)
            ==> exists|i: int| 0 <= i < old_keys.len() && same_path(#[trigger] old_keys[i], post[m].0),
{
    let k = pre.len() as int;
    assert(post[k] == post.last());
    assert forall|m: int| #![trigger post[m]] 0 <= m < post.len() && revoke_matches(post[m], absolute, wanted)
        implies exists|i: int| 0 <= i < old_keys.len() && same_path(#[trigger] old_keys[i], post[m].0) by {
        if m < k {
            assert(post[m] == pre[m]);
        }
    }
}

proof fn lemma_new_key_is_first(
    pre: Seq<(Seq<char>, Seq<char>)>,
    post: Seq<(Seq<char>, Seq<char>)>,
    absolute: Seq<char>,
    wanted: Seq<char>,
    old_keys: Seq<Seq<char>>,
    p: Seq<char>,
)
    requires
        post.len() == pre.len() + 1,
        forall|n: int| 0 <= n < pre.len() ==> post[n] == pre[n],
        post.last().0 == p,
        revoke_matches(post.last(), absolute, wanted),
        forall|m: int| #![trigger pre[m]] 0 <= m < pre.len() && revoke_matches(pre[m], absolute, wanted)
            ==> exists|i: int| 0 <= i < old_keys.len() && same_path(#[trigger] old_keys[i], pre[m].0),
        forall|j: int| 0 <= j < old_keys.len() ==> !same_path(#[trigger] old_keys[j], p),
    ensures
        first_of_its_path(post, absolute, wanted, p),
{
    reveal(first_of_its_path);
    let k = pre.len() as int;
    assert(post[k] == post.last());
    assert forall|n: int| #![trigger post[n]] 0 <= n < k && revoke_matches(post[n], absolute, wanted)
        implies !same_path(post[n].0, p) by {
        assert(post[n] == pre[n]);
        let i = choose|i: int| 0 <= i < old_keys.len() && same_path(#[trigger] old_keys[i], pre[n].0);
        assert(!same_path(old_keys[i], p));
    }
}

proof fn lemma_inserted_keys_first(
    post: Seq<(Seq<char>, Seq<char>)>,
    absolute: Seq<char>,
    wanted: Seq<char>,
    old_keys: Seq<Seq<char>>,
    nk: Seq<Seq<char>>,
    p: Seq<char>,
    pos: int,
)
    requires
        0 <= pos <= old_keys.len(),
        nk == old_keys.insert(pos, p),
        first_of_its_path(post, absolute, wanted, p),
        forall|i: int| 0 <= i < old_keys.len() ==> first_of_its_path(post, absolute, wanted, #[trigger] old_keys[i]),
    ensures
        forall|i: int| 0 <= i < nk.len() ==> first_of_its_path(post, absolute, wanted, #[trigger] nk[i]),
{
    assert forall|i: int| 0 <= i < nk.len() implies first_of_its_path(post, absolute, wanted, #[trigger] nk[i]) by {
        if i < pos {
            assert(nk[i] == old_keys[i]);
        } else if i > pos {
            assert(nk[i] == old_keys[i - 1]);
        } else {
            assert(nk[i] == p);
        }
    }
}

proof fn lemma_covered_inserted(
    pre: Seq<(Seq<char>, Seq<char>)>,
    post: Seq<(Seq<char>, Seq<char>)>,
    absolute: Seq<char>,
    wanted: Seq<char>,
    old_keys: Seq<Seq<char>>,
    nk: Seq<Seq<char>>,
    p: Seq<char>,
    pos: int,
)
    requires
        post.len() == pre.len() + 1,
        forall|n: int| 0 <= n < pre.len() ==> post[n] == pre[n],
        post.last().0 == p,
        0 <= pos <= old_keys.len(),
        nk == old_keys.insert(pos, p),
        forall|m: int| #![trigger pre[m]] 0 <= m < pre.len() && revoke_matches(pre[m], absolute, wanted)
            ==> exists|i: int| 0 <= i < old_keys.len() && same_path(#[trigger] old_keys[i], pre[m].0),
    ensures
        forall|m: int| #![trigger post[m]] 0 <= m < post.len() && revoke_matches(post[m], absolute, wanted)
            ==> exists|i: int| 0 <= i < nk.len() && same_path(#[trigger] nk[i], post[m].0),
{
    let k = pre.len() as int;
    assert(post[k] == post.last());
    assert forall|m: int| #![trigger post[m]] 0 <= m < post.len() && revoke_matches(post[m], absolute, wanted)
        implies exists|i: int| 0 <= i < nk.len() && same_path(#[trigger] nk[i], post[m].0) by {
        if m < k {
            assert(post[m] == pre[m]);
            let i = choose|i: int| 0 <= i < old_keys.len() && same_path(#[trigger] old_keys[i], pre[m].0);
            if i < pos {
                assert(nk[i] == old_keys[i]);
            } else {
                assert(nk[i + 1] == old_keys[i]);
            }
        } else {
            assert(nk[pos] == p);
        }
    }
}


// ---------------------------------------------------------------------
// The command's flow: reading files, the trust store and the settings
// guard happen outside; every decision between them is made here.
// ---------------------------------------------------------------------

/// Where `conway trust ...` stands.
pub enum TrustPhase {
    /// `settings`: waiting for the file to review.
    Resolving,
    /// `settings`: waiting for the bytes `target` holds.
    Reading { target: String },
    /// `settings`: waiting for how `contents`, just read from `target`,
    /// compares with the recorded decision.
    Checking { target: String, contents: String },
    /// `settings`: waiting for consent to `target`'s bytes to be recorded.
    Recording { target: String, status: TrustStatus, label: String },
    /// `settings`: waiting for the settings guard's answer on the working
    /// directory.
    Gating,
    /// `list`: waiting for the recorded decisions.
    Listing,
    /// `revoke`: waiting for the recorded paths, to match against
    /// `absolute`.
    Matching { absolute: String },
    /// `revoke`: waiting for the withdrawal of `keys[next]`.
    Revoking { keys: Vec<String>, next: usize },
    /// Over.
    Done,
}

/// The flow's state: its phase, the working directory, and whether the
/// file under review was named explicitly (`--path`).
pub struct TrustState {
    pub phase: TrustPhase,
    pub cwd: String,
    pub explicit: bool,
}

/// What the outside work gave back.
pub enum TrustEvent {
    /// The file to review, or why none resolves.
    Resolved { target: Result<String, String> },
    /// The file's bytes, or the read error.
    Read { contents: Result<String, String> },
    /// How the bytes compare with the recorded decision, and where
    /// `trust.json` lives.
    Checked { status: TrustStatus, label: String },
    /// Recording the decision ended, with the error if it failed.
    Recorded { error: Option<String> },
    /// The settings guard's answer: why it still blocks start-up, if it does.
    Gated { error: Option<String> },
    /// Where `trust.json` lives, and the decisions it records.
    Listed { label: String, entries: Vec<TrustEntry> },
    /// The revoked path resolved (`wanted`), and every recorded path with
    /// its own resolution.
    Matched { wanted: String, recorded: Vec<(String, String)> },
    /// Withdrawing one path ended: the kinds of decision withdrawn, or the
    /// error.
    Revoked { result: Result<Vec<String>, String> },
}

/// What to do next, after printing the step's replies.
pub enum TrustStep {
    /// Find the settings file to review: `explicit`, or the one the settings
    /// guard blocks start-up on from the working directory.
    ResolveTarget { explicit: Option<String> },
    /// Read `target`'s bytes.
    ReadFile { target: String },
    /// Compare `contents` with what `trust.json` records for `target`.
    CheckStatus { target: String, contents: String },
    /// Record consent to exactly `contents` for `target`.
    Record { target: String, contents: String },
    /// Ask the settings guard about the working directory.
    CheckGate,
    /// Load the recorded decisions.
    LoadEntries,
    /// Load every recorded path and resolve it, and resolve `absolute`.
    LoadRecorded { absolute: String },
    /// Withdraw every decision recorded for `key`.
    Revoke { key: String },
    /// Exit with `code`.
    Exit { code: ExitCode },
}

/// A phase as plain values.
pub enum TrustPhaseView {
    Resolving,
    Reading { target: Seq<char> },
    Checking { target: Seq<char>, contents: Seq<char> },
    Recording { target: Seq<char>, status: TrustStatus, label: Seq<char> },
    Gating,
    Listing,
    Matching { absolute: Seq<char> },
    Revoking { keys: Seq<Seq<char>>, next: nat },
    Done,
}

pub open spec fn trust_phase_view(p: TrustPhase) -> TrustPhaseView {
    match p {
        TrustPhase::Resolving => TrustPhaseView::Resolving,
        TrustPhase::Reading { target } => TrustPhaseView::Reading { target: target@ },
        TrustPhase::Checking { target, contents } => TrustPhaseView::Checking { target: target@, contents: contents@ },
        TrustPhase::Recording { target, status, label } => TrustPhaseView::Recording { target: target@, status, label: label@ },
        TrustPhase::Gating => TrustPhaseView::Gating,
        TrustPhase::Listing => TrustPhaseView::Listing,
        TrustPhase::Matching { absolute } => TrustPhaseView::Matching { absolute: absolute@ },
        TrustPhase::Revoking { keys, next } => TrustPhaseView::Revoking { keys: views(keys@), next: next as nat },
        TrustPhase::Done => TrustPhaseView::Done,
    }
}

/// An event as plain values.
pub enum TrustEventView {
    Resolved { target: Result<Seq<char>, Seq<char>> },
    Read { contents: Result<Seq<char>, Seq<char>> },
    Checked { status: TrustStatus, label: Seq<char> },
    Recorded { error: Option<Seq<char>> },
    Gated { error: Option<Seq<char>> },
    Listed { label: Seq<char>, entries: Seq<TrustEntry> },
    Matched { wanted: Seq<char>, recorded: Seq<(Seq<char>, Seq<char>)> },
    Revoked { result: Result<Seq<Seq<char>>, Seq<char>> },
}

pub open spec fn text_result(r: Result<String, String>) -> Result<Seq<char>, Seq<char>> {
    match r {
        Ok(s) => Ok(s@),
        Err(e) => Err(e@),
    }
}

pub open spec fn trust_event_view(e: TrustEvent) -> TrustEventView {
    match e {
        TrustEvent::Resolved { target } => TrustEventView::Resolved { target: text_result(target) },
        TrustEvent::Read { contents } => TrustEventView::Read { contents: text_result(contents) },
        TrustEvent::Checked { status, label } => TrustEventView::Checked { status, label: label@ },
        TrustEvent::Recorded { error } => TrustEventView::Recorded { error: opt_seq(error) },
        TrustEvent::Gated { error } => TrustEventView::Gated { error: opt_seq(error) },
        TrustEvent::Listed { label, entries } => TrustEventView::Listed { label: label@, entries: entries@ },
        TrustEvent::Matched { wanted, recorded } => TrustEventView::Matched { wanted: wanted@, recorded: pair_views(recorded@) },
        TrustEvent::Revoked { result } => TrustEventView::Revoked { result: match result {
            Ok(kinds) => Ok(views(kinds@)),
            Err(e) => Err(e@),
        } },
    }
}

/// A step as plain values.
pub enum TrustStepView {
    ResolveTarget { explicit: Option<Seq<char>> },
    ReadFile { target: Seq<char> },
    CheckStatus { target: Seq<char>, contents: Seq<char> },
    Record { target: Seq<char>, contents: Seq<char> },
    CheckGate,
    LoadEntries,
    LoadRecorded { absolute: Seq<char> },
    Revoke { key: Seq<char> },
    Exit { code: ExitCode },
}

pub open spec fn trust_step_view(s: TrustStep) -> TrustStepView {
    match s {
        TrustStep::ResolveTarget { explicit } => TrustStepView::ResolveTarget { explicit: opt_seq(explicit) },
        TrustStep::ReadFile { target } => TrustStepView::ReadFile { target: target@ },
        TrustStep::CheckStatus { target, contents } => TrustStepView::CheckStatus { target: target@, contents: contents@ },
        TrustStep::Record { target, contents } => TrustStepView::Record { target: target@, contents: contents@ },
        TrustStep::CheckGate => TrustStepView::CheckGate,
        TrustStep::LoadEntries => TrustStepView::LoadEntries,
        TrustStep::LoadRecorded { absolute } => TrustStepView::LoadRecorded { absolute: absolute@ },
        TrustStep::Revoke { key } => TrustStepView::Revoke { key: key@ },
        TrustStep::Exit { code } => TrustStepView::Exit { code },
    }
}

/// Lines for stdout.
pub open spec fn stdout_of(lines: Seq<Seq<char>>) -> Seq<(bool, Seq<char>)> {
    lines.map_values(|l: Seq<char>| (false, l))
}

/// How `trust settings` goes on once the decision is settled with nothing
/// failing: what the consent covers, then the settings guard's answer, except for
/// an explicitly named file.
pub open spec fn settled(target: Seq<char>, status: TrustStatus, label: Seq<char>, explicit: bool) -> (TrustPhaseView, Seq<(bool, Seq<char>)>, TrustStepView) {
    let lines = stdout_of(match recorded_text(target, status, label, None) {
        Ok(ls) => ls,
        Err(_) => Seq::empty(),
    });
    if explicit {
        (TrustPhaseView::Done, lines, TrustStepView::Exit { code: ExitCode::Completed })
    } else {
        (TrustPhaseView::Gating, lines, TrustStepView::CheckGate)
    }
}

/// An event the phase does not wait for ends the flow as a failure.
pub open spec fn trust_unexpected() -> (TrustPhaseView, Seq<(bool, Seq<char>)>, TrustStepView) {
    (TrustPhaseView::Done, Seq::empty(), TrustStepView::Exit { code: ExitCode::AgentFailed })
}

/// The step for every phase and event but a revoke's match (see
/// [`trust_step_ok`]): with the working directory `cwd` and whether the
/// reviewed file was named `explicit`ly, the next phase, the replies, and
/// what to do next.
pub open spec fn trust_next(p: TrustPhaseView, cwd: Seq<char>, explicit: bool, e: TrustEventView) -> (TrustPhaseView, Seq<(bool, Seq<char>)>, TrustStepView) {
    match (p, e) {
        (TrustPhaseView::Resolving, TrustEventView::Resolved { target }) => match target {
            Ok(t) => (TrustPhaseView::Reading { target: t }, Seq::empty(), TrustStepView::ReadFile { target: t }),
            Err(m) => (TrustPhaseView::Done, seq![(true, m)], TrustStepView::Exit { code: ExitCode::Usage }),
        },
        (TrustPhaseView::Reading { target }, TrustEventView::Read { contents }) => match contents {
            Ok(c) => (TrustPhaseView::Checking { target, contents: c }, Seq::empty(), TrustStepView::CheckStatus { target, contents: c }),
            Err(m) => (TrustPhaseView::Done, seq![(true, "cannot read "@ + target + ": "@ + m)], TrustStepView::Exit { code: ExitCode::Usage }),
        },
        (TrustPhaseView::Checking { target, contents }, TrustEventView::Checked { status, label }) => {
            let review = stdout_of(review_text(target, contents, status, label));
            if status == TrustStatus::Unchanged {
                let s = settled(target, status, label, explicit);
                (s.0, review + s.1, s.2)
            } else {
                (TrustPhaseView::Recording { target, status, label }, review, TrustStepView::Record { target, contents })
            }
        },
        (TrustPhaseView::Recording { target, status, label }, TrustEventView::Recorded { error }) => match error {
            Some(m) => (TrustPhaseView::Done, seq![(true, "could not record a trust decision for "@ + target + ": "@ + m)],
                TrustStepView::Exit { code: ExitCode::AgentFailed }),
            None => settled(target, status, label, explicit),
        },
        (TrustPhaseView::Gating, TrustEventView::Gated { error }) => {
            let g = gate_text(cwd, false, error);
            (TrustPhaseView::Done, match g.1 {
                Some(r) => seq![r],
                None => Seq::empty(),
            }, TrustStepView::Exit { code: g.0 })
        },
        (TrustPhaseView::Listing, TrustEventView::Listed { label, entries }) =>
            (TrustPhaseView::Done, stdout_of(list_text(label, entries)), TrustStepView::Exit { code: ExitCode::Completed }),
        (TrustPhaseView::Revoking { keys, next }, TrustEventView::Revoked { result }) => if next < keys.len() {
            match result {
                Ok(kinds) => {
                    let line = seq![(false, revoked_text(keys[next as int], kinds))];
                    if next + 1 < keys.len() {
                        (TrustPhaseView::Revoking { keys, next: next + 1 }, line, TrustStepView::Revoke { key: keys[next + 1 as int] })
                    } else {
                        (TrustPhaseView::Done, line, TrustStepView::Exit { code: ExitCode::Completed })
                    }
                },
                Err(m) => (TrustPhaseView::Done, seq![(true, "could not revoke "@ + keys[next as int] + ": "@ + m)],
                    TrustStepView::Exit { code: ExitCode::AgentFailed }),
            }
        } else {
            trust_unexpected()
        },
        _ => trust_unexpected(),
    }
}

/// Whether `(next, replies, step)` is the step from phase `p` on event
/// `e`. A revoke's match withdraws the recorded paths [`revoke_keys_ok`]
/// describes, one at a time, and is refused as a usage error when none
/// matches; every other step is [`trust_next`].
pub open spec fn trust_step_ok(p: TrustPhaseView, cwd: Seq<char>, explicit: bool, e: TrustEventView,
    next: TrustPhaseView, replies: Seq<(bool, Seq<char>)>, step: TrustStepView) -> bool {
    match (p, e) {
        (TrustPhaseView::Matching { absolute }, TrustEventView::Matched { wanted, recorded }) => match next {
            TrustPhaseView::Revoking { keys, next: k } => revoke_keys_ok(recorded, absolute, wanted, keys) && keys.len() > 0
                && k == 0 && replies.len() == 0 && step == (TrustStepView::Revoke { key: keys[0] }),
            _ => revoke_keys_ok(recorded, absolute, wanted, Seq::empty()) && next == TrustPhaseView::Done
                && replies == seq![(true, nothing_recorded_text(absolute))] && step == (TrustStepView::Exit { code: ExitCode::Usage }),
        },
        _ => (next, replies, step) == trust_next(p, cwd, explicit, e),
    }
}

/// How `conway trust ...` starts in the working directory `cwd`: its
/// first phase, whether the reviewed file is named explicitly, and the
/// first thing to do.
pub open spec fn trust_start(a: TrustAction, cwd: Seq<char>) -> (TrustPhaseView, bool, TrustStepView) {
    match a {
        TrustAction::Settings { path } => (TrustPhaseView::Resolving, path is Some, TrustStepView::ResolveTarget { explicit: opt_seq(path) }),
        TrustAction::List => (TrustPhaseView::Listing, false, TrustStepView::LoadEntries),
        TrustAction::Revoke { path } => (TrustPhaseView::Matching { absolute: absolute_of(cwd, path@) }, false,
            TrustStepView::LoadRecorded { absolute: absolute_of(cwd, path@) }),
    }
}

/// Starts `conway trust ...` in the working directory `cwd` (see
/// [`trust_start`]); [`trust_step`] takes it from there.
pub fn run(args: &TrustArgs, cwd: &str) -> (r: (TrustState, TrustStep))
    ensures
        r.0.cwd@ == cwd@,
        (trust_phase_view(r.0.phase), r.0.explicit, trust_step_view(r.1)) == trust_start(args.action, cwd@),
{
    match &args.action {
        TrustAction::Settings { path } => {
            let explicit = match path {
                Some(p) => Some(string_from(p.as_str())),
                None => None,
            };
            (TrustState { phase: TrustPhase::Resolving, cwd: string_from(cwd), explicit: path.is_some() },
                TrustStep::ResolveTarget { explicit })
        }
        TrustAction::List => (TrustState { phase: TrustPhase::Listing, cwd: string_from(cwd), explicit: false }, TrustStep::LoadEntries),
        TrustAction::Revoke { path } => {
            let absolute = absolute_path(cwd, path.as_str());
            let step = TrustStep::LoadRecorded { absolute: string_from(absolute.as_str()) };
            (TrustState { phase: TrustPhase::Matching { absolute }, cwd: string_from(cwd), explicit: false }, step)
        }
    }
}

fn stdout_all(lines: Vec<String>) -> (r: Vec<Reply>)
    ensures
        replies_view(r@) == stdout_of(views(lines@)),
{
    let mut out: Vec<Reply> = Vec::new();
    let mut i: usize = 0;
    while i < lines.len()
        invariant
            i <= lines@.len(),
            out@.len() == i,
            forall|j: int| 0 <= j < i ==> reply_view(#[trigger] out@[j]) == (false, lines@[j]@),
        decreases lines@.len() - i,
    {
        out.push(Reply::Stdout(clone_string(&lines[i])));
        i = i + 1;
    }
    assert(replies_view(out@) =~= stdout_of(views(lines@)));
    out
}

fn settle(target: &str, status: TrustStatus, label: &str, explicit: bool) -> (r: (TrustPhase, Vec<Reply>, TrustStep))
    ensures
        (trust_phase_view(r.0), replies_view(r.1@), trust_step_view(r.2)) == settled(target@, status, label@, explicit),
{
    let lines = match settings_recorded(target, status, label, None) {
        Ok(ls) => ls,
        Err(_) => Vec::new(),
    };
    let out = stdout_all(lines);
    if explicit {
        (TrustPhase::Done, out, TrustStep::Exit { code: ExitCode::Completed })
    } else {
        (TrustPhase::Gating, out, TrustStep::CheckGate)
    }
}

fn ended(code: ExitCode, replies: Vec<Reply>) -> (r: (TrustPhase, Vec<Reply>, TrustStep))
    ensures
        trust_phase_view(r.0) == TrustPhaseView::Done,
        r.1@ == replies@,
        trust_step_view(r.2) == (TrustStepView::Exit { code }),
{
    (TrustPhase::Done, replies, TrustStep::Exit { code })
}

/// One step of `conway trust ...` (see [`trust_step_ok`]): the outside
/// side prints the replies, does the step, and hands back what came of it.
pub fn trust_step(state: &TrustState, event: TrustEvent) -> (r: (TrustState, Vec<Reply>, TrustStep))
    ensures
        r.0.cwd@ == state.cwd@,
        r.0.explicit == state.explicit,
        trust_step_ok(trust_phase_view(state.phase), state.cwd@, state.explicit, trust_event_view(event),
            trust_phase_view(r.0.phase), replies_view(r.1@), trust_step_view(r.2)),
{
    let (phase, replies, step) = match (&state.phase, event) {
        (TrustPhase::Resolving, TrustEvent::Resolved { target }) => match target {
            Ok(t) => {
                let step = TrustStep::ReadFile { target: string_from(t.as_str()) };
                (TrustPhase::Reading { target: t }, no_replies(), step)
            }
            Err(m) => ended(ExitCode::Usage, one(Reply::Stderr(m))),
        },
        (TrustPhase::Reading { target }, TrustEvent::Read { contents }) => match contents {
            Ok(c) => {
                let step = TrustStep::CheckStatus { target: string_from(target.as_str()), contents: string_from(c.as_str()) };
                (TrustPhase::Checking { target: string_from(target.as_str()), contents: c }, no_replies(), step)
            }
            Err(m) => {
                let mut s = string_from("cannot read ");
                push_str(&mut s, target.as_str());
                push_str(&mut s, ": ");
                push_str(&mut s, m.as_str());
                assert(s@ =~= "cannot read "@ + target@ + ": "@ + m@);
                ended(ExitCode::Usage, one(Reply::Stderr(s)))
            }
        },
        (TrustPhase::Checking { target, contents }, TrustEvent::Checked { status, label }) => {
            let (lines, record) = settings_review(target.as_str(), contents.as_str(), status, label.as_str());
            let mut review = stdout_all(lines);
            if !record {
                let (phase, more, step) = settle(target.as_str(), status, label.as_str(), state.explicit);
                let ghost before = review@;
                let ghost after = more@;
                let mut more = more;
                review.append(&mut more);
                assert(replies_view(review@) =~= replies_view(before) + replies_view(after));
                (phase, review, step)
            } else {
                let step = TrustStep::Record { target: string_from(target.as_str()), contents: string_from(contents.as_str()) };
                (TrustPhase::Recording { target: string_from(target.as_str()), status, label }, review, step)
            }
        }
        (TrustPhase::Recording { target, status, label }, TrustEvent::Recorded { error }) => match error {
            Some(m) => match settings_recorded(target.as_str(), *status, label.as_str(), Some(m.as_str())) {
                Err(msg) => ended(ExitCode::AgentFailed, one(Reply::Stderr(msg))),
                Ok(_) => ended(ExitCode::AgentFailed, no_replies()),
            },
            None => settle(target.as_str(), *status, label.as_str(), state.explicit),
        },
        (TrustPhase::Gating, TrustEvent::Gated { error }) => {
            let (code, reply) = match &error {
                Some(m) => settings_gate(state.cwd.as_str(), false, Some(m.as_str())),
                None => settings_gate(state.cwd.as_str(), false, None),
            };
            let replies = match reply {
                Some(x) => one(x),
                None => no_replies(),
            };
            ended(code, replies)
        }
        (TrustPhase::Listing, TrustEvent::Listed { label, entries }) => {
            let lines = list_lines(label.as_str(), entries.as_slice());
            ended(ExitCode::Completed, stdout_all(lines))
        }
        (TrustPhase::Matching { absolute }, TrustEvent::Matched { wanted, recorded }) => {
            let keys = revoke_keys(absolute.as_str(), wanted.as_str(), recorded.as_slice());
            if keys.len() == 0 {
                ended(ExitCode::Usage, one(Reply::Stderr(nothing_recorded_message(absolute.as_str()))))
            } else {
                let step = TrustStep::Revoke { key: clone_string(&keys[0]) };
                (TrustPhase::Revoking { keys, next: 0 }, no_replies(), step)
            }
        }
        (TrustPhase::Revoking { keys, next }, TrustEvent::Revoked { result }) => {
            let next = *next;
            if next < keys.len() {
                match result {
                    Ok(kinds) => {
                        let line = one(Reply::Stdout(revoked_line(keys[next].as_str(), &kinds)));
                        assert(views(keys@)[next as int] == keys@[next as int]@);
                        if next + 1 < keys.len() {
                            let step = TrustStep::Revoke { key: clone_string(&keys[next + 1]) };
                            let mut copy: Vec<String> = Vec::new();
                            let mut k: usize = 0;
                            while k < keys.len()
                                invariant
                                    k <= keys@.len(),
                                    views(copy@) == views(keys@).take(k as int),
                                decreases keys@.len() - k,
                            {
                                copy.push(clone_string(&keys[k]));
                                assert(views(keys@).take(k + 1) =~= views(keys@).take(k as int).push(keys@[k as int]@));
                                k = k + 1;
                            }
                            assert(views(keys@).take(keys@.len() as int) =~= views(keys@));
                            (TrustPhase::Revoking { keys: copy, next: next + 1 }, line, step)
                        } else {
                            ended(ExitCode::Completed, line)
                        }
                    }
                    Err(m) => {
                        let mut s = string_from("could not revoke ");
                        push_str(&mut s, keys[next].as_str());
                        push_str(&mut s, ": ");
                        push_str(&mut s, m.as_str());
                        assert(s@ =~= "could not revoke "@ + keys@[next as int]@ + ": "@ + m@);
                        assert(views(keys@)[next as int] == keys@[next as int]@);
                        ended(ExitCode::AgentFailed, one(Reply::Stderr(s)))
                    }
                }
            } else {
                ended(ExitCode::AgentFailed, no_replies())
            }
        }
        _ => ended(ExitCode::AgentFailed, no_replies()),
    };
    (TrustState { phase, cwd: string_from(state.cwd.as_str()), explicit: state.explicit }, replies, step)
}


/// Review, then record: a file not already trusted with these bytes is
/// recorded with exactly the bytes that were just read and printed for
/// review -- never a second read.
pub proof fn law_consent_covers_exactly_the_bytes_reviewed(target: Seq<char>, contents: Seq<char>, status: TrustStatus,
    label: Seq<char>, cwd: Seq<char>, explicit: bool)
    requires
        status != TrustStatus::Unchanged,
    ensures
        ({
            let r = trust_next(TrustPhaseView::Checking { target, contents }, cwd, explicit, TrustEventView::Checked { status, label });
            &&& r.1 == stdout_of(review_text(target, contents, status, label))
            &&& r.2 == (TrustStepView::Record { target, contents })
        }),
{
}

/// A file already trusted with these exact bytes is not recorded again:
/// the step after the review never writes.
pub proof fn law_already_trusted_writes_nothing(target: Seq<char>, contents: Seq<char>, label: Seq<char>, cwd: Seq<char>,
    explicit: bool)
    ensures
        ({
            let r = trust_next(TrustPhaseView::Checking { target, contents }, cwd, explicit,
                TrustEventView::Checked { status: TrustStatus::Unchanged, label });
            &&& !(r.2 is Record)
            &&& !(r.0 is Recording)
        }),
{
}

/// An explicitly named file says nothing about the working directory, so
/// the settings guard is never consulted for it.
pub proof fn law_an_explicit_file_is_never_gated(p: TrustPhaseView, cwd: Seq<char>, e: TrustEventView)
    ensures
        !(trust_next(p, cwd, true, e).2 is CheckGate),
{
}

/// Whenever `trust` ends with a failure code, what it says goes to stderr.
pub proof fn law_a_failure_speaks_only_on_stderr(p: TrustPhaseView, cwd: Seq<char>, explicit: bool, e: TrustEventView)
    ensures
        ({
            let r = trust_next(p, cwd, explicit, e);
            r.2 matches TrustStepView::Exit { code } && code != ExitCode::Completed
                ==> forall|k: int| 0 <= k < r.1.len() ==> (#[trigger] r.1[k]).0
        }),
{
}


/// A listed decision reads "ok" only when the file still holds the bytes
/// that were trusted, and the four ways a file can compare (unchanged,
/// edited since, never trusted, unreadable) are each shown by their own
/// text, so no two are confused.
pub proof fn law_only_unchanged_bytes_read_ok(s: Option<TrustStatus>, t: Option<TrustStatus>)
    ensures
        state_text(s) == "ok"@ <==> s == Some(TrustStatus::Unchanged),
        state_text(s) == state_text(t) ==> s == t,
{
    reveal_strlit("ok");
    reveal_strlit("EDITED since trusted -- not trusted now");
    reveal_strlit("no record");
    reveal_strlit("unreadable or gone");
    assert("ok"@.len() == 2);
    assert("EDITED since trusted -- not trusted now"@.len() == 39);
    assert("no record"@.len() == 9);
    assert("unreadable or gone"@.len() == 18);
    assert(state_text(s).len() == state_text(t).len() ==> s == t);
}

} // verus!
