//! Session names: an operator-chosen name bound to a session id.
//!
//! The table is a flat name -> id map kept in name order (the order the
//! sidecar file lists it in). Naming refuses a ULID-shaped name and a name
//! already bound elsewhere, and moves a session's one name when it is
//! renamed, so a name resolves to at most one session and a session
//! carries at most one name. Reading and writing the sidecar file is the
//! caller's: this module holds the table and its rules.
use vstd::prelude::*;
use crate::text::{chars_of, str_eq, string_from, push_str};
use crate::session_ref::{debug_quoted, debug_text, id_text, parse_sid, sid_of, SessionId, LogSeq, is_ulid_text, split_fork_ref, split_of};

verus! {

/// Code-point lexicographic order on texts, the order `String`'s `Ord`
/// gives (UTF-8 byte order agrees with code-point order).
pub open spec fn lex_lt(a: Seq<char>, b: Seq<char>) -> bool
    decreases a.len(),
{
    if a.len() == 0 {
        b.len() > 0
    } else if b.len() == 0 {
        false
    } else if a[0] != b[0] {
        (a[0] as int) < (b[0] as int)
    } else {
        lex_lt(a.drop_first(), b.drop_first())
    }
}

/// No text sorts before itself.
pub proof fn lemma_lex_irreflexive(a: Seq<char>)
    ensures
        !lex_lt(a, a),
    decreases a.len(),
{
    if a.len() > 0 {
        lemma_lex_irreflexive(a.drop_first());
    }
}

/// [`lex_lt`] is transitive.
pub proof fn lemma_lex_transitive(a: Seq<char>, b: Seq<char>, c: Seq<char>)
    requires
        lex_lt(a, b),
        lex_lt(b, c),
    ensures
        lex_lt(a, c),
    decreases a.len(),
{
    if a.len() > 0 && b.len() > 0 && c.len() > 0 && a[0] == b[0] && b[0] == c[0] {
        lemma_lex_transitive(a.drop_first(), b.drop_first(), c.drop_first());
    }
}

/// Of two different texts, one sorts before the other.
pub proof fn lemma_lex_total(a: Seq<char>, b: Seq<char>)
    requires
        a != b,
    ensures
        lex_lt(a, b) || lex_lt(b, a),
    decreases a.len(),
{
    if a.len() > 0 && b.len() > 0 && a[0] == b[0] {
        if a.drop_first() == b.drop_first() {
            assert(a =~= seq![a[0]] + a.drop_first());
            assert(b =~= seq![b[0]] + b.drop_first());
        }
        lemma_lex_total(a.drop_first(), b.drop_first());
    } else if a.len() == 0 && b.len() == 0 {
        assert(a =~= b);
    }
}

/// Whether `a` sorts before `b` (see [`lex_lt`]).
pub fn str_lt(a: &str, b: &str) -> (r: bool)
    ensures
        r == lex_lt(a@, b@),
{
    let x = chars_of(a);
    let y = chars_of(b);
    let mut i: usize = 0;
    assert(x@.skip(0) =~= x@);
    assert(y@.skip(0) =~= y@);
    while i < x.len() && i < y.len() && x[i] == y[i]
        invariant
            i <= x.len(),
            i <= y.len(),
            lex_lt(x@, y@) == lex_lt(x@.skip(i as int), y@.skip(i as int)),
        decreases x.len() - i,
    {
        proof {
            let xs = x@.skip(i as int);
            let ys = y@.skip(i as int);
            assert(xs.drop_first() =~= x@.skip(i + 1));
            assert(ys.drop_first() =~= y@.skip(i + 1));
        }
        i = i + 1;
    }
    proof {
        let xs = x@.skip(i as int);
        let ys = y@.skip(i as int);
        if i < x.len() {
            assert(xs[0] == x@[i as int]);
        }
        if i < y.len() {
            assert(ys[0] == y@[i as int]);
        }
    }
    if i == x.len() {
        assert(x@.skip(i as int).len() == 0);
        i < y.len()
    } else if i == y.len() {
        assert(y@.skip(i as int).len() == 0);
        assert(x@.skip(i as int).len() > 0);
        false
    } else {
        let xc = x[i];
        let yc = y[i];
        assert(xc != yc);
        assert(x@.skip(i as int)[0] == xc);
        assert(y@.skip(i as int)[0] == yc);
        assert(lex_lt(x@.skip(i as int), y@.skip(i as int)) == ((xc as int) < (yc as int)));
        xc < yc
    }
}

/// The bindings of a table, by the views of their names and ids.
pub open spec fn entry_views(v: Seq<(String, SessionId)>) -> Seq<(Seq<char>, u128)> {
    v.map_values(|e: (String, SessionId)| (e.0@, e.1.value))
}

/// Whether the bindings are in strictly increasing name order (so no name
/// occurs twice).
pub open spec fn sorted_by_name(es: Seq<(Seq<char>, u128)>) -> bool {
    forall|i: int, j: int| 0 <= i < j < es.len() ==> lex_lt(#[trigger] es[i].0, #[trigger] es[j].0)
}

/// Whether some binding has the name `n`.
pub open spec fn has_name(es: Seq<(Seq<char>, u128)>, n: Seq<char>) -> bool {
    exists|i: int| 0 <= i < es.len() && #[trigger] es[i].0 == n
}

/// The table as a map from name to session id.
pub open spec fn name_table(es: Seq<(Seq<char>, u128)>) -> Map<Seq<char>, u128> {
    Map::new(
        |n: Seq<char>| has_name(es, n),
        |n: Seq<char>| es[choose|i: int| 0 <= i < es.len() && #[trigger] es[i].0 == n].1,
    )
}

/// The name of the first binding (in name order) to the session `v`.
pub open spec fn first_named(es: Seq<(Seq<char>, u128)>, v: u128) -> Option<Seq<char>>
    decreases es.len(),
{
    if es.len() == 0 {
        None
    } else if es[0].1 == v {
        Some(es[0].0)
    } else {
        first_named(es.drop_first(), v)
    }
}

/// Whether no two bindings name the same session.
pub open spec fn one_name_per_session(es: Seq<(Seq<char>, u128)>) -> bool {
    forall|i: int, j: int| 0 <= i < j < es.len() ==> #[trigger] es[i].1 != #[trigger] es[j].1
}

/// Whether no bound name is itself the text of a session id.
pub open spec fn no_ulid_names(es: Seq<(Seq<char>, u128)>) -> bool {
    forall|i: int| 0 <= i < es.len() ==> !is_ulid_text(#[trigger] es[i].0)
}

proof fn lemma_sorted_distinct(es: Seq<(Seq<char>, u128)>, i: int, j: int)
    requires
        sorted_by_name(es),
        0 <= i < es.len(),
        0 <= j < es.len(),
        es[i].0 == es[j].0,
    ensures
        i == j,
{
    if i < j {
        assert(lex_lt(es[i].0, es[j].0));
        lemma_lex_irreflexive(es[i].0);
    } else if j < i {
        assert(lex_lt(es[j].0, es[i].0));
        lemma_lex_irreflexive(es[i].0);
    }
}

/// In a sorted table, binding `i` is what its name maps to.
proof fn lemma_table_at(es: Seq<(Seq<char>, u128)>, i: int)
    requires
        sorted_by_name(es),
        0 <= i < es.len(),
    ensures
        name_table(es).contains_key(es[i].0),
        name_table(es)[es[i].0] == es[i].1,
{
    assert(has_name(es, es[i].0));
    let j = choose|j: int| 0 <= j < es.len() && #[trigger] es[j].0 == es[i].0;
    lemma_sorted_distinct(es, i, j);
}

/// `first_named` finds the first binding to `v`, or proves there is none.
proof fn lemma_first_named(es: Seq<(Seq<char>, u128)>, v: u128)
    ensures
        first_named(es, v) is None ==> forall|k: int| 0 <= k < es.len() ==> #[trigger] es[k].1 != v,
        first_named(es, v) is Some ==> exists|k: int| 0 <= k < es.len() && es[k].1 == v
            && es[k].0 == first_named(es, v)->0 && forall|m: int| 0 <= m < k ==> #[trigger] es[m].1 != v,
    decreases es.len(),
{
    if es.len() > 0 {
        lemma_first_named(es.drop_first(), v);
        if es[0].1 != v {
            if first_named(es.drop_first(), v) is None {
                assert forall|k: int| 0 <= k < es.len() implies #[trigger] es[k].1 != v by {
                    if k > 0 {
                        assert(es[k] == es.drop_first()[k - 1]);
                    }
                }
            } else {
                let k = choose|k: int| 0 <= k < es.len() - 1 && es.drop_first()[k].1 == v
                    && es.drop_first()[k].0 == first_named(es.drop_first(), v)->0
                    && forall|m: int| 0 <= m < k ==> #[trigger] es.drop_first()[m].1 != v;
                assert(es[k + 1] == es.drop_first()[k]);
                assert forall|m: int| 0 <= m < k + 1 implies #[trigger] es[m].1 != v by {
                    if m > 0 {
                        assert(es[m] == es.drop_first()[m - 1]);
                    }
                }
            }
        }
    }
}

proof fn lemma_insert_sorted(es: Seq<(Seq<char>, u128)>, p: int, x: (Seq<char>, u128))
    requires
        sorted_by_name(es),
        0 <= p <= es.len(),
        forall|i: int| 0 <= i < p ==> lex_lt(#[trigger] es[i].0, x.0),
        forall|i: int| p <= i < es.len() ==> lex_lt(x.0, #[trigger] es[i].0),
    ensures
        sorted_by_name(es.insert(p, x)),
{
    let e2 = es.insert(p, x);
    assert forall|i: int, j: int| 0 <= i < j < e2.len() implies lex_lt(#[trigger] e2[i].0, #[trigger] e2[j].0) by {
        if j < p {
            assert(e2[i] == es[i] && e2[j] == es[j]);
        } else if j == p {
            assert(e2[i] == es[i] && e2[j] == x);
        } else if i < p {
            assert(e2[i] == es[i] && e2[j] == es[j - 1]);
            lemma_lex_transitive(es[i].0, x.0, es[j - 1].0);
        } else if i == p {
            assert(e2[i] == x && e2[j] == es[j - 1]);
        } else {
            assert(e2[i] == es[i - 1] && e2[j] == es[j - 1]);
        }
    }
}

proof fn lemma_remove_sorted(es: Seq<(Seq<char>, u128)>, k: int)
    requires
        sorted_by_name(es),
        0 <= k < es.len(),
    ensures
        sorted_by_name(es.remove(k)),
{
    let e2 = es.remove(k);
    assert forall|i: int, j: int| 0 <= i < j < e2.len() implies lex_lt(#[trigger] e2[i].0, #[trigger] e2[j].0) by {
        let i0 = if i < k { i } else { i + 1 };
        let j0 = if j < k { j } else { j + 1 };
        assert(e2[i] == es[i0] && e2[j] == es[j0]);
    }
}

proof fn lemma_table_insert(es: Seq<(Seq<char>, u128)>, p: int, x: (Seq<char>, u128))
    requires
        sorted_by_name(es),
        sorted_by_name(es.insert(p, x)),
        0 <= p <= es.len(),
    ensures
        name_table(es.insert(p, x)) == name_table(es).insert(x.0, x.1),
{
    let e2 = es.insert(p, x);
    assert forall|n: Seq<char>| #[trigger] has_name(e2, n) == (n == x.0 || has_name(es, n)) by {
        if has_name(es, n) {
            let i = choose|i: int| 0 <= i < es.len() && #[trigger] es[i].0 == n;
            let i2 = if i < p { i } else { i + 1 };
            assert(e2[i2] == es[i]);
        }
        if n == x.0 {
            assert(e2[p] == x);
        }
        if has_name(e2, n) && n != x.0 {
            let i = choose|i: int| 0 <= i < e2.len() && #[trigger] e2[i].0 == n;
            let i0 = if i < p { i } else { i - 1 };
            assert(i != p);
            assert(es[i0] == e2[i]);
        }
    }
    assert forall|n: Seq<char>| #[trigger] name_table(e2).contains_key(n) implies name_table(e2)[n]
        == name_table(es).insert(x.0, x.1)[n] by {
        let i = choose|i: int| 0 <= i < e2.len() && #[trigger] e2[i].0 == n;
        lemma_table_at(e2, i);
        if i == p {
        } else {
            let i0 = if i < p { i } else { i - 1 };
            assert(es[i0] == e2[i]);
            lemma_table_at(es, i0);
            assert(e2[p] == x);
            if n == x.0 {
                lemma_sorted_distinct(e2, i, p);
            }
        }
    }
    assert(name_table(e2) =~= name_table(es).insert(x.0, x.1));
}

proof fn lemma_table_remove(es: Seq<(Seq<char>, u128)>, k: int)
    requires
        sorted_by_name(es),
        0 <= k < es.len(),
    ensures
        name_table(es.remove(k)) == name_table(es).remove(es[k].0),
{
    let e2 = es.remove(k);
    lemma_remove_sorted(es, k);
    assert forall|n: Seq<char>| #[trigger] has_name(e2, n) == (n != es[k].0 && has_name(es, n)) by {
        if has_name(e2, n) {
            let i = choose|i: int| 0 <= i < e2.len() && #[trigger] e2[i].0 == n;
            let i0 = if i < k { i } else { i + 1 };
            assert(es[i0] == e2[i]);
            if n == es[k].0 {
                lemma_sorted_distinct(es, i0, k);
            }
        }
        if n != es[k].0 && has_name(es, n) {
            let i = choose|i: int| 0 <= i < es.len() && #[trigger] es[i].0 == n;
            assert(i != k);
            let i2 = if i < k { i } else { i - 1 };
            assert(e2[i2] == es[i]);
        }
    }
    assert forall|n: Seq<char>| #[trigger] name_table(e2).contains_key(n) implies name_table(e2)[n]
        == name_table(es).remove(es[k].0)[n] by {
        let i = choose|i: int| 0 <= i < e2.len() && #[trigger] e2[i].0 == n;
        lemma_table_at(e2, i);
        let i0 = if i < k { i } else { i + 1 };
        assert(es[i0] == e2[i]);
        lemma_table_at(es, i0);
    }
    assert(name_table(e2) =~= name_table(es).remove(es[k].0));
}

proof fn lemma_table_update(es: Seq<(Seq<char>, u128)>, k: int, x: (Seq<char>, u128))
    requires
        sorted_by_name(es),
        0 <= k < es.len(),
        es[k].0 == x.0,
    ensures
        sorted_by_name(es.update(k, x)),
        name_table(es.update(k, x)) == name_table(es).insert(x.0, x.1),
{
    let e2 = es.update(k, x);
    assert forall|i: int, j: int| 0 <= i < j < e2.len() implies lex_lt(#[trigger] e2[i].0, #[trigger] e2[j].0) by {
        assert(e2[i].0 == es[i].0 && e2[j].0 == es[j].0);
    }
    assert forall|n: Seq<char>| #[trigger] has_name(e2, n) == has_name(es, n) by {
        if has_name(es, n) {
            let i = choose|i: int| 0 <= i < es.len() && #[trigger] es[i].0 == n;
            assert(e2[i].0 == es[i].0);
        }
        if has_name(e2, n) {
            let i = choose|i: int| 0 <= i < e2.len() && #[trigger] e2[i].0 == n;
            assert(e2[i].0 == es[i].0);
        }
    }
    assert(has_name(es, x.0));
    assert forall|n: Seq<char>| #[trigger] name_table(e2).contains_key(n) implies name_table(e2)[n]
        == name_table(es).insert(x.0, x.1)[n] by {
        let i = choose|i: int| 0 <= i < e2.len() && #[trigger] e2[i].0 == n;
        lemma_table_at(e2, i);
        if i != k {
            assert(es[i] == e2[i]);
            lemma_table_at(es, i);
            if n == x.0 {
                lemma_sorted_distinct(e2, i, k);
            }
        }
    }
    assert(name_table(e2) =~= name_table(es).insert(x.0, x.1));
}

/// The table read from `pairs` in order, a later binding of a name
/// replacing an earlier one.
pub open spec fn loaded_table(pairs: Seq<(Seq<char>, u128)>) -> Map<Seq<char>, u128>
    decreases pairs.len(),
{
    if pairs.len() == 0 {
        Map::empty()
    } else {
        loaded_table(pairs.drop_last()).insert(pairs.last().0, pairs.last().1)
    }
}

/// A naming, renaming or removal refusal, naming what collided or what
/// was missing.
pub enum NameError {
    /// The name is itself the text of a session id.
    LooksLikeUlid(String),
    /// The name is already bound to a different session.
    AlreadyBound { name: String, existing: SessionId },
    /// No name is bound to the given name or session.
    Unknown(String),
    /// The sidecar file could not be read or written; the I/O error's text.
    Io(String),
}

impl NameError {
    /// The text a refusal quotes: the name or target it is about (empty for
    /// an I/O failure, which quotes nothing).
    pub fn subject(&self) -> (r: &str)
        ensures
            r@ == name_error_subject(*self),
    {
        match self {
            NameError::LooksLikeUlid(name) => name.as_str(),
            NameError::AlreadyBound { name, .. } => name.as_str(),
            NameError::Unknown(target) => target.as_str(),
            NameError::Io(_) => {
                proof {
                    reveal_strlit("");
                }
                ""
            }
        }
    }

    /// The message shown for the refusal.
    pub fn message(&self) -> (r: String)
        ensures
            r@ == name_error_text(*self),
    {
        let q = debug_text(self.subject());
        self.message_quoting(q.as_str())
    }

    /// The message shown for the refusal, with `quoted` standing for its
    /// quoted subject (see [`name_error_text_quoting`]).
    pub fn message_quoting(&self, quoted: &str) -> (r: String)
        ensures
            r@ == name_error_text_quoting(*self, quoted@),
    {
        match self {
            NameError::LooksLikeUlid(_) => {
                let mut s = string_from("name ");
                push_str(&mut s, quoted);
                push_str(&mut s, LOOKS_LIKE_ULID);
                s
            }
            NameError::AlreadyBound { name, existing } => {
                let mut s = string_from("name ");
                push_str(&mut s, quoted);
                push_str(&mut s, " is already bound to session ");
                push_str(&mut s, existing.to_string().as_str());
                push_str(&mut s, "; unname it first (`conway sessions unname ");
                push_str(&mut s, name.as_str());
                push_str(&mut s, "`) or choose a different name");
                s
            }
            NameError::Unknown(_) => {
                let mut s = string_from("no name bound to ");
                push_str(&mut s, quoted);
                s
            }
            NameError::Io(e) => {
                let mut s = string_from("session names file: ");
                push_str(&mut s, e.as_str());
                s
            }
        }
    }
}

/// The rest of the refusal of a ULID-shaped name.
pub const LOOKS_LIKE_ULID: &'static str = " looks like a session id (a valid ULID); names must not parse as ULIDs, so the reference grammar never has to guess which one a bare token means";

/// The message of a naming refusal; a session id is shown by its display
/// form.
pub open spec fn name_error_text(e: NameError) -> Seq<char> {
    name_error_text_quoting(e, debug_quoted(name_error_subject(e)))
}

/// What a naming refusal quotes.
pub open spec fn name_error_subject(e: NameError) -> Seq<char> {
    match e {
        NameError::LooksLikeUlid(name) => name@,
        NameError::AlreadyBound { name, .. } => name@,
        NameError::Unknown(target) => target@,
        NameError::Io(_) => Seq::empty(),
    }
}

/// The message of a naming refusal, given its subject already quoted.
pub open spec fn name_error_text_quoting(e: NameError, quoted: Seq<char>) -> Seq<char> {
    match e {
        NameError::LooksLikeUlid(_) => "name "@ + quoted + LOOKS_LIKE_ULID@,
        NameError::AlreadyBound { name, existing } => "name "@ + quoted
            + " is already bound to session "@ + id_text(existing.value as nat)
            + "; unname it first (`conway sessions unname "@ + name@ + "`) or choose a different name"@,
        NameError::Unknown(_) => "no name bound to "@ + quoted,
        NameError::Io(e) => "session names file: "@ + e@,
    }
}

/// A reference that is neither a session id nor a bound name.
pub struct ResolveError(pub String);

/// The message of an unresolvable reference.
pub open spec fn resolve_error_text(raw: Seq<char>) -> Seq<char> {
    unresolved_text(debug_quoted(raw))
}

/// The message of an unresolvable reference, given it already quoted.
pub open spec fn unresolved_text(quoted: Seq<char>) -> Seq<char> {
    "invalid session reference "@ + quoted + ": not a valid session id (ULID) and no session is named that"@
}

impl ResolveError {
    /// The message shown for the reference (see [`resolve_error_text`]).
    pub fn message(&self) -> (r: String)
        ensures
            r@ == resolve_error_text(self.0@),
    {
        let q = debug_text(self.0.as_str());
        unresolved_message(q.as_str())
    }
}

/// The message of an unresolvable reference, with `quoted` standing for the
/// reference (see [`unresolved_text`]).
pub fn unresolved_message(quoted: &str) -> (r: String)
    ensures
        r@ == unresolved_text(quoted@),
{
    let mut s = string_from("invalid session reference ");
    push_str(&mut s, quoted);
    push_str(&mut s, ": not a valid session id (ULID) and no session is named that");
    s
}

/// The name `unset(target)` removes: `target` when it is not a session
/// id and is bound, or the name of the session it is the id of.
pub open spec fn unset_key(store: NamesStore, target: Seq<char>) -> Option<Seq<char>> {
    match sid_of(target) {
        Some(v) => store.name_of_spec(v as u128),
        None => if store.table().contains_key(target) {
            Some(target)
        } else {
            None
        },
    }
}

/// The table after binding the unbound `name` to session `v`: the
/// session's old name, if any, dropped, and `name` bound.
pub open spec fn set_table(store: NamesStore, name: Seq<char>, v: u128) -> Map<Seq<char>, u128> {
    (match store.name_of_spec(v) {
        Some(o) => store.table().remove(o),
        None => store.table(),
    }).insert(name, v)
}

/// Unnaming undoes naming: after a new name is bound to a session that
/// had none, unsetting that name picks exactly it and leaves the table as
/// it was before.
pub proof fn law_unset_undoes_set(before: NamesStore, after: NamesStore, name: Seq<char>, v: u128)
    requires
        sid_of(name) is None,
        !before.table().contains_key(name),
        before.name_of_spec(v) is None,
        after.table() == set_table(before, name, v),
    ensures
        unset_key(after, name) == Some(name),
        after.table().remove(name) == before.table(),
{
    assert(after.table().remove(name) =~= before.table());
}

/// The name -> session table of `conway sessions name`.
pub struct NamesStore {
    entries: Vec<(String, SessionId)>,
}

impl NamesStore {
    /// The bindings, in name order.
    pub closed spec fn bindings_view(&self) -> Seq<(Seq<char>, u128)> {
        entry_views(self.entries@)
    }

    /// Whether the bindings are in strictly increasing name order.
    pub open spec fn wf(&self) -> bool {
        sorted_by_name(self.bindings_view())
    }

    /// The table as a map from name to session id.
    pub open spec fn table(&self) -> Map<Seq<char>, u128> {
        name_table(self.bindings_view())
    }

    /// The name bound to session `v`: the first in name order, if any.
    pub open spec fn name_of_spec(&self, v: u128) -> Option<Seq<char>> {
        first_named(self.bindings_view(), v)
    }

    /// An empty table.
    pub fn new() -> (r: NamesStore)
        ensures
            r.wf(),
            r.bindings_view() == Seq::<(Seq<char>, u128)>::empty(),
            r.table() == Map::<Seq<char>, u128>::empty(),
    {
        let r = NamesStore { entries: Vec::new() };
        assert(r.bindings_view() =~= Seq::<(Seq<char>, u128)>::empty());
        assert(r.table() =~= Map::<Seq<char>, u128>::empty());
        r
    }

    /// The bindings, in name order.
    pub fn bindings(&self) -> (r: &Vec<(String, SessionId)>)
        ensures
            entry_views(r@) == self.bindings_view(),
    {
        &self.entries
    }

    /// The index of the binding named `name`.
    fn find_name(&self, name: &str) -> (r: Option<usize>)
        requires
            self.wf(),
        ensures
            r matches Some(k) ==> k < self.entries@.len() && self.bindings_view()[k as int].0 == name@,
            r is None ==> !has_name(self.bindings_view(), name@),
    {
        let ghost es = self.bindings_view();
        let mut k: usize = 0;
        while k < self.entries.len()
            invariant
                k <= self.entries.len(),
                es == entry_views(self.entries@),
                forall|m: int| 0 <= m < k ==> #[trigger] es[m].0 != name@,
            decreases self.entries.len() - k,
        {
            if str_eq(self.entries[k].0.as_str(), name) {
                return Some(k);
            }
            k = k + 1;
        }
        None
    }

    /// The index of the first binding to session `v`.
    fn find_id(&self, v: u128) -> (r: Option<usize>)
        ensures
            match self.name_of_spec(v) {
                Some(n) => r matches Some(k) && k < self.entries@.len() && self.bindings_view()[k as int] == (n, v),
                None => r is None,
            },
    {
        let ghost es = self.bindings_view();
        proof {
            lemma_first_named(es, v);
        }
        let mut k: usize = 0;
        while k < self.entries.len()
            invariant
                k <= self.entries.len(),
                es == entry_views(self.entries@),
                forall|m: int| 0 <= m < k ==> #[trigger] es[m].1 != v,
            decreases self.entries.len() - k,
        {
            if self.entries[k].1.value == v {
                proof {
                    assert(es[k as int].1 == v);
                    lemma_first_named(es, v);
                    if first_named(es, v) is Some {
                        let j = choose|j: int| 0 <= j < es.len() && es[j].1 == v
                            && es[j].0 == first_named(es, v)->0 && forall|m: int| 0 <= m < j ==> #[trigger] es[m].1 != v;
                        assert(0 <= j < es.len() && es[j].1 == v);
                        if j < k {
                            assert(es[j].1 != v);
                        } else if j > k {
                            assert(es[k as int].1 != v);
                        }
                    }
                }
                return Some(k);
            }
            k = k + 1;
        }
        proof {
            if first_named(es, v) is Some {
                let j = choose|j: int| 0 <= j < es.len() && es[j].1 == v
                    && es[j].0 == first_named(es, v)->0 && forall|m: int| 0 <= m < j ==> #[trigger] es[m].1 != v;
                assert(es[j].1 != v);
            }
        }
        None
    }

    /// The session bound to `name`, if any.
    pub fn resolve(&self, name: &str) -> (r: Option<SessionId>)
        requires
            self.wf(),
        ensures
            r matches Some(id) ==> self.table().contains_key(name@) && self.table()[name@] == id.value,
            r is None ==> !self.table().contains_key(name@),
    {
        match self.find_name(name) {
            Some(k) => {
                proof {
                    lemma_table_at(self.bindings_view(), k as int);
                }
                Some(self.entries[k].1)
            }
            None => None,
        }
    }

    /// The name bound to session `id`, if any (see [`NamesStore::name_of_spec`]).
    pub fn name_of(&self, id: SessionId) -> (r: Option<&str>)
        ensures
            match self.name_of_spec(id.value) {
                Some(n) => r matches Some(s) && s@ == n,
                None => r is None,
            },
    {
        match self.find_id(id.value) {
            Some(k) => Some(self.entries[k].0.as_str()),
            None => None,
        }
    }

    /// Puts `(name, id)` at its place in name order; `name` must be
    /// unbound.
    fn insert_sorted(&mut self, name: &str, id: SessionId)
        requires
            old(self).wf(),
            !has_name(old(self).bindings_view(), name@),
        ensures
            final(self).wf(),
            final(self).table() == old(self).table().insert(name@, id.value),
            exists|p: int| 0 <= p <= old(self).bindings_view().len() && final(self).bindings_view()
                == old(self).bindings_view().insert(p, (name@, id.value)),
    {
        let ghost es = self.bindings_view();
        let mut p: usize = 0;
        while p < self.entries.len() && !str_lt(name, self.entries[p].0.as_str())
            invariant
                p <= self.entries.len(),
                es == entry_views(self.entries@),
                sorted_by_name(es),
                !has_name(es, name@),
                forall|i: int| 0 <= i < p ==> lex_lt(#[trigger] es[i].0, name@),
            decreases self.entries.len() - p,
        {
            proof {
                assert(es[p as int].0 != name@);
                lemma_lex_total(es[p as int].0, name@);
            }
            p = p + 1;
        }
        proof {
            assert forall|i: int| p <= i < es.len() implies lex_lt(name@, #[trigger] es[i].0) by {
                if i > p {
                    assert(lex_lt(es[p as int].0, es[i].0));
                    lemma_lex_transitive(name@, es[p as int].0, es[i].0);
                }
            }
            lemma_insert_sorted(es, p as int, (name@, id.value));
            lemma_table_insert(es, p as int, (name@, id.value));
        }
        self.entries.insert(p, (string_from(name), id));
        assert(self.bindings_view() =~= es.insert(p as int, (name@, id.value)));
    }

    /// Removes the binding at `k`.
    fn remove_at(&mut self, k: usize)
        requires
            old(self).wf(),
            k < old(self).bindings_view().len(),
        ensures
            final(self).wf(),
            final(self).bindings_view() == old(self).bindings_view().remove(k as int),
            final(self).table() == old(self).table().remove(old(self).bindings_view()[k as int].0),
    {
        let ghost es = self.bindings_view();
        proof {
            lemma_remove_sorted(es, k as int);
            lemma_table_remove(es, k as int);
        }
        self.entries.remove(k);
        assert(self.bindings_view() =~= es.remove(k as int));
    }

    /// Binds `name` to `id`, replacing whatever `name` was bound to.
    fn put(&mut self, name: &str, id: SessionId)
        requires
            old(self).wf(),
        ensures
            final(self).wf(),
            final(self).table() == old(self).table().insert(name@, id.value),
    {
        match self.find_name(name) {
            Some(k) => {
                let ghost es = self.bindings_view();
                proof {
                    lemma_table_update(es, k as int, (name@, id.value));
                }
                self.entries.set(k, (string_from(name), id));
                assert(self.bindings_view() =~= es.update(k as int, (name@, id.value)));
            }
            None => self.insert_sorted(name, id),
        }
    }

    /// A table holding `pairs` (a name given twice keeps its last id), as
    /// read from the sidecar file.
    pub fn from_entries(pairs: Vec<(String, SessionId)>) -> (r: NamesStore)
        ensures
            r.wf(),
            r.table() == loaded_table(entry_views(pairs@)),
    {
        let mut store = NamesStore::new();
        let ghost pv = entry_views(pairs@);
        let mut k: usize = 0;
        while k < pairs.len()
            invariant
                k <= pairs.len(),
                pv == entry_views(pairs@),
                store.wf(),
                store.table() == loaded_table(pv.take(k as int)),
            decreases pairs.len() - k,
        {
            assert(pv.take(k as int + 1).drop_last() =~= pv.take(k as int));
            store.put(pairs[k].0.as_str(), pairs[k].1);
            k = k + 1;
        }
        assert(pv.take(pairs.len() as int) =~= pv);
        store
    }

    /// Binds `name` to `id`. Refuses a ULID-shaped name and a name bound to
    /// a different session, leaving the table untouched; re-binding a name
    /// to its own session changes nothing; otherwise the session's old name
    /// (if any) is dropped and `name` bound to it.
    pub fn set(&mut self, name: &str, id: SessionId) -> (r: Result<(), NameError>)
        requires
            old(self).wf(),
        ensures
            final(self).wf(),
            sid_of(name@) is Some ==> (r matches Err(NameError::LooksLikeUlid(n)) && n@ == name@)
                && final(self).bindings_view() == old(self).bindings_view(),
            sid_of(name@) is None && old(self).table().contains_key(name@) && old(self).table()[name@] == id.value
                ==> r is Ok && final(self).bindings_view() == old(self).bindings_view(),
            sid_of(name@) is None && old(self).table().contains_key(name@) && old(self).table()[name@] != id.value
                ==> (r matches Err(NameError::AlreadyBound { name: n, existing }) && n@ == name@
                && existing.value == old(self).table()[name@])
                && final(self).bindings_view() == old(self).bindings_view(),
            sid_of(name@) is None && !old(self).table().contains_key(name@) ==> r is Ok
                && final(self).table() == set_table(*old(self), name@, id.value),
            one_name_per_session(old(self).bindings_view()) ==> one_name_per_session(final(self).bindings_view()),
            one_name_per_session(old(self).bindings_view()) && r is Ok ==> final(self).name_of_spec(id.value) == Some(name@),
            no_ulid_names(old(self).bindings_view()) ==> no_ulid_names(final(self).bindings_view()),
    {
        let ghost es = self.bindings_view();
        if parse_sid(name).is_ok() {
            return Err(NameError::LooksLikeUlid(string_from(name)));
        }
        match self.find_name(name) {
            Some(k) => {
                proof {
                    lemma_table_at(es, k as int);
                }
                let existing = self.entries[k].1;
                if existing == id {
                    proof {
                        if one_name_per_session(es) {
                            lemma_first_named(es, id.value);
                            if first_named(es, id.value) is Some {
                                let j = choose|j: int| 0 <= j < es.len() && es[j].1 == id.value
                                    && es[j].0 == first_named(es, id.value)->0
                                    && forall|m: int| 0 <= m < j ==> #[trigger] es[m].1 != id.value;
                                if j != k {
                                    assert(es[j].1 == es[k as int].1);
                                    if j < k {
                                        assert(es[j].1 != es[k as int].1);
                                    } else {
                                        assert(es[k as int].1 != es[j].1);
                                    }
                                }
                            } else {
                                assert(es[k as int].1 != id.value);
                            }
                        }
                    }
                    return Ok(());
                }
                return Err(NameError::AlreadyBound { name: string_from(name), existing });
            }
            None => {}
        }
        assert(!name_table(es).contains_key(name@));
        let ghost mut at: int = -1;
        match self.find_id(id.value) {
            Some(k) => {
                proof {
                    at = k as int;
                }
                self.remove_at(k);
            }
            None => {}
        }
        let ghost mid = self.bindings_view();
        proof {
            lemma_first_named(es, id.value);
            assert(at >= 0 ==> mid == es.remove(at) && es[at].1 == id.value);
            assert(at < 0 ==> mid == es && forall|i: int| 0 <= i < es.len() ==> #[trigger] es[i].1 != id.value);
            if one_name_per_session(es) {
                assert forall|i: int| 0 <= i < mid.len() implies #[trigger] mid[i].1 != id.value by {
                    if at >= 0 {
                        let i0 = if i < at { i } else { i + 1 };
                        assert(mid[i] == es[i0]);
                        if i0 < at {
                            assert(es[i0].1 != es[at].1);
                        } else {
                            assert(es[at].1 != es[i0].1);
                        }
                    }
                }
                assert forall|i: int, j: int| 0 <= i < j < mid.len() implies #[trigger] mid[i].1 != #[trigger] mid[j].1 by {
                    if at >= 0 {
                        let i0 = if i < at { i } else { i + 1 };
                        let j0 = if j < at { j } else { j + 1 };
                        assert(mid[i] == es[i0] && mid[j] == es[j0]);
                    }
                }
            }
            if no_ulid_names(es) {
                assert forall|i: int| 0 <= i < mid.len() implies !is_ulid_text(#[trigger] mid[i].0) by {
                    if at >= 0 {
                        let i0 = if i < at { i } else { i + 1 };
                        assert(mid[i] == es[i0]);
                    }
                }
            }
            assert(!has_name(mid, name@)) by {
                if has_name(mid, name@) {
                    let i = choose|i: int| 0 <= i < mid.len() && #[trigger] mid[i].0 == name@;
                    if at >= 0 {
                        let i0 = if i < at { i } else { i + 1 };
                        assert(mid[i] == es[i0]);
                    }
                    assert(has_name(es, name@));
                }
            }
        }
        self.insert_sorted(name, id);
        proof {
            let fin = self.bindings_view();
            let p = choose|p: int| 0 <= p <= mid.len() && fin == mid.insert(p, (name@, id.value));
            if one_name_per_session(es) {
                assert forall|i: int, j: int| 0 <= i < j < fin.len() implies #[trigger] fin[i].1 != #[trigger] fin[j].1 by {
                    let i0 = if i < p { i } else { i - 1 };
                    let j0 = if j < p { j } else { j - 1 };
                    if i != p && j != p {
                        assert(fin[i] == mid[i0] && fin[j] == mid[j0]);
                    } else if i == p {
                        assert(fin[j] == mid[j0]);
                    } else {
                        assert(fin[i] == mid[i0]);
                    }
                }
                lemma_first_named(fin, id.value);
                assert(fin[p].1 == id.value);
                if first_named(fin, id.value) is Some {
                    let j = choose|j: int| 0 <= j < fin.len() && fin[j].1 == id.value
                        && fin[j].0 == first_named(fin, id.value)->0
                        && forall|m: int| 0 <= m < j ==> #[trigger] fin[m].1 != id.value;
                    if j != p {
                        if j < p {
                            assert(fin[j].1 != fin[p].1);
                        } else {
                            assert(fin[p].1 != fin[j].1);
                        }
                    }
                }
            }
            if no_ulid_names(es) {
                assert forall|i: int| 0 <= i < fin.len() implies !is_ulid_text(#[trigger] fin[i].0) by {
                    if i != p {
                        let i0 = if i < p { i } else { i - 1 };
                        assert(fin[i] == mid[i0]);
                    }
                }
            }
        }
        Ok(())
    }

    /// Removes whichever name `target` picks out: `target` itself when it
    /// is a bound name, or the name of the session it is the id of.
    pub fn unset(&mut self, target: &str) -> (r: Result<(), NameError>)
        requires
            old(self).wf(),
        ensures
            final(self).wf(),
            match unset_key(*old(self), target@) {
                Some(k) => r is Ok && final(self).table() == old(self).table().remove(k),
                None => (r matches Err(NameError::Unknown(t)) && t@ == target@)
                    && final(self).bindings_view() == old(self).bindings_view(),
            },
            one_name_per_session(old(self).bindings_view()) ==> one_name_per_session(final(self).bindings_view()),
    {
        let ghost es = self.bindings_view();
        let k: Option<usize> = match parse_sid(target) {
            Ok(sid) => self.find_id(sid.value),
            Err(_) => self.find_name(target),
        };
        match k {
            Some(k) => {
                proof {
                    lemma_table_at(es, k as int);
                }
                self.remove_at(k);
                proof {
                    if one_name_per_session(es) {
                        let fin = self.bindings_view();
                        assert forall|i: int, j: int| 0 <= i < j < fin.len() implies #[trigger] fin[i].1 != #[trigger] fin[j].1 by {
                            let i0 = if i < k { i } else { i + 1 };
                            let j0 = if j < k { j } else { j + 1 };
                            assert(fin[i] == es[i0] && fin[j] == es[j0]);
                        }
                    }
                }
                Ok(())
            }
            None => Err(NameError::Unknown(string_from(target))),
        }
    }
}

/// What a session reference resolves to: a session id is used as itself;
/// anything else is looked up as a name.
pub open spec fn resolve_of(raw: Seq<char>, table: Map<Seq<char>, u128>) -> Option<nat> {
    match sid_of(raw) {
        Some(v) => Some(v),
        None => if table.contains_key(raw) {
            Some(table[raw] as nat)
        } else {
            None
        },
    }
}

/// Resolves a `--session`/`--resume`/`sessions show|tree|export` value:
/// a session id is used directly, never consulting the names; any other
/// text is looked up by name (see [`resolve_of`]).
pub fn resolve(raw: &str, names: &NamesStore) -> (r: Result<SessionId, ResolveError>)
    requires
        names.wf(),
    ensures
        match resolve_of(raw@, names.table()) {
            Some(v) => r matches Ok(id) && id.value == v,
            None => r matches Err(e) && e.0@ == raw@,
        },
{
    match parse_sid(raw) {
        Ok(sid) => Ok(sid),
        Err(_) => match names.resolve(raw) {
            Some(id) => Ok(id),
            None => Err(ResolveError(string_from(raw))),
        },
    }
}

/// Resolves a `<session-id-or-name>[@<seq>]` value: the `@<seq>` half is
/// split off first, then the rest resolved as [`resolve`] does; any
/// failure names the whole text given.
pub fn resolve_fork_ref(raw: &str, names: &NamesStore) -> (r: Result<(SessionId, Option<LogSeq>), ResolveError>)
    requires
        names.wf(),
    ensures
        match split_of(raw@) {
            Err(_) => r matches Err(e) && e.0@ == raw@,
            Ok((head, seq)) => match resolve_of(head, names.table()) {
                None => r matches Err(e) && e.0@ == raw@,
                Some(v) => r matches Ok((id, s)) && id.value == v && match seq {
                    None => s is None,
                    Some(n) => s matches Some(q) && q.0 == n,
                },
            },
        },
{
    match split_fork_ref(raw) {
        Err(_) => Err(ResolveError(string_from(raw))),
        Ok((head, seq)) => match resolve(head.as_str(), names) {
            Ok(id) => Ok((id, seq)),
            Err(_) => Err(ResolveError(string_from(raw))),
        },
    }
}

} // verus!
