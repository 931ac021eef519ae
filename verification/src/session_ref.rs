//! Session identifiers and the values of the session-continuity flags:
//! `--session`/`--resume` take a bare session id, `--fork-from` takes
//! `<session-id>[@<seq>]`.
//!
//! A session id is a ULID: 128 bits written as 26 Crockford base-32
//! characters (`0-9`, `A-Z` without `I`, `L`, `O`, `U`), most significant
//! first. Parsing accepts either case and refuses any text whose value
//! does not fit in 128 bits; the display form is upper case.
use vstd::prelude::*;
use vstd::arithmetic::div_mod::lemma_breakdown;
use crate::text::{chars_of, parse_unsigned, parse_unsigned_chars, push_str, slice_range, string_from, string_of};

verus! {

/// A session's identity: a 128-bit ULID.
#[derive(Clone, Copy, Debug, PartialEq, Eq, Structural)]
pub struct SessionId {
    pub value: u128,
}

/// A position in a session's own log.
#[derive(Clone, Copy, Debug, PartialEq, Eq, Structural)]
pub struct LogSeq(pub u64);

/// `c`'s code with an ASCII lower-case letter raised to upper case.
pub open spec fn upper_code(c: char) -> int {
    if 'a' <= c && c <= 'z' {
        c as int - 32
    } else {
        c as int
    }
}

/// The Crockford base-32 digit `c` stands for, either case.
pub open spec fn crockford_value(c: char) -> Option<nat> {
    let u = upper_code(c);
    if 48 <= u <= 57 {
        Some((u - 48) as nat)
    } else if 65 <= u <= 72 {
        Some((u - 55) as nat)
    } else if u == 74 {
        Some(18)
    } else if u == 75 {
        Some(19)
    } else if u == 77 {
        Some(20)
    } else if u == 78 {
        Some(21)
    } else if 80 <= u <= 84 {
        Some((u - 58) as nat)
    } else if 86 <= u <= 90 {
        Some((u - 59) as nat)
    } else {
        None
    }
}

/// The character code of the upper-case Crockford digit for `d < 32`.
pub open spec fn crockford_code(d: nat) -> int {
    if d < 10 {
        48 + d as int
    } else if d < 18 {
        55 + d as int
    } else if d == 18 {
        74
    } else if d == 19 {
        75
    } else if d == 20 {
        77
    } else if d == 21 {
        78
    } else if d < 27 {
        58 + d as int
    } else {
        59 + d as int
    }
}

/// `32` to the power `k`.
pub open spec fn pow32(k: nat) -> nat
    decreases k,
{
    if k == 0 {
        1
    } else {
        32 * pow32((k - 1) as nat)
    }
}

/// The value of base-32 digits, most significant first.
pub open spec fn horner32(ds: Seq<nat>) -> nat
    decreases ds.len(),
{
    if ds.len() == 0 {
        0
    } else {
        horner32(ds.drop_last()) * 32 + ds.last()
    }
}

/// The `k` lowest base-32 digits of `v`, most significant first.
pub open spec fn base32_digits(v: nat, k: nat) -> Seq<nat>
    decreases k,
{
    if k == 0 {
        Seq::empty()
    } else {
        base32_digits(v / 32, (k - 1) as nat).push(v % 32)
    }
}

/// The digits the characters of `s` stand for (zero where none).
pub open spec fn text_digits(s: Seq<char>) -> Seq<nat> {
    s.map_values(|c: char| match crockford_value(c) {
        Some(d) => d,
        None => 0,
    })
}

/// Whether `s` is the text of a session id: 26 Crockford digits whose
/// value fits in 128 bits.
pub open spec fn is_ulid_text(s: Seq<char>) -> bool {
    &&& s.len() == 26
    &&& forall|i: int| 0 <= i < s.len() ==> (#[trigger] crockford_value(s[i])) is Some
    &&& horner32(text_digits(s)) <= u128::MAX
}

/// The value written by the text of a session id.
pub open spec fn ulid_value(s: Seq<char>) -> nat {
    horner32(text_digits(s))
}

/// Whether `t` spells the digits `ds` in upper-case Crockford characters.
pub open spec fn spells(t: Seq<char>, ds: Seq<nat>) -> bool {
    &&& t.len() == ds.len()
    &&& forall|i: int| 0 <= i < t.len() ==> #[trigger] t[i] as int == crockford_code(ds[i])
}

/// Whether `t` is the display form of the session id with value `v`.
pub open spec fn is_id_text(t: Seq<char>, v: nat) -> bool {
    spells(t, base32_digits(v, 26))
}

fn digit_char(d: u128) -> (c: char)
    requires
        d < 32,
    ensures
        c as int == crockford_code(d as nat),
{
    let code: u8 = if d < 10 {
        48 + d as u8
    } else if d < 18 {
        55 + d as u8
    } else if d == 18 {
        74
    } else if d == 19 {
        75
    } else if d == 20 {
        77
    } else if d == 21 {
        78
    } else if d < 27 {
        58 + d as u8
    } else {
        59 + d as u8
    };
    code as char
}

fn digit_of(c: char) -> (r: Option<u128>)
    ensures
        match crockford_value(c) {
            Some(d) => r == Some(d as u128),
            None => r is None,
        },
{
    let raw = c as u32;
    let u: u32 = if 97 <= raw && raw <= 122 { raw - 32 } else { raw };
    if 48 <= u && u <= 57 {
        Some((u - 48) as u128)
    } else if 65 <= u && u <= 72 {
        Some((u - 55) as u128)
    } else if u == 74 {
        Some(18)
    } else if u == 75 {
        Some(19)
    } else if u == 77 {
        Some(20)
    } else if u == 78 {
        Some(21)
    } else if 80 <= u && u <= 84 {
        Some((u - 58) as u128)
    } else if 86 <= u && u <= 90 {
        Some((u - 59) as u128)
    } else {
        None
    }
}

/// Appends the `k` lowest base-32 digits of `v` as upper-case Crockford
/// characters.
fn push_digits(out: &mut Vec<char>, v: u128, k: usize)
    ensures
        final(out)@.len() == old(out)@.len() + k,
        final(out)@.take(old(out)@.len() as int) == old(out)@,
        spells(final(out)@.skip(old(out)@.len() as int), base32_digits(v as nat, k as nat)),
    decreases k,
{
    if k == 0 {
        assert(out@.skip(out@.len() as int) =~= Seq::<char>::empty());
        assert(out@.take(out@.len() as int) =~= out@);
        return;
    }
    let ghost start = out@;
    push_digits(out, v / 32, k - 1);
    let ghost mid = out@;
    out.push(digit_char(v % 32));
    proof {
        let ds = base32_digits(v as nat, k as nat);
        assert(ds == base32_digits((v / 32) as nat, (k - 1) as nat).push((v % 32) as nat));
        assert(out@.take(start.len() as int) =~= mid.take(start.len() as int));
        let tail = out@.skip(start.len() as int);
        assert(tail =~= mid.skip(start.len() as int).push(out@.last()));
        assert forall|i: int| 0 <= i < tail.len() implies #[trigger] tail[i] as int == crockford_code(ds[i]) by {
            if i < tail.len() - 1 {
                assert(tail[i] == mid.skip(start.len() as int)[i]);
            }
        }
    }
}

impl SessionId {
    /// The id's display form: 26 upper-case Crockford characters.
    pub fn to_string(&self) -> (r: String)
        ensures
            is_id_text(r@, self.value as nat),
    {
        let mut cs: Vec<char> = Vec::new();
        push_digits(&mut cs, self.value, 26);
        assert(cs@.skip(0) =~= cs@);
        string_of(&cs)
    }
}

/// Parses the text of a session id (see [`is_ulid_text`]).
fn parse_ulid(cs: &[char]) -> (r: Option<SessionId>)
    ensures
        is_ulid_text(cs@) ==> r == Some(SessionId { value: ulid_value(cs@) as u128 }),
        !is_ulid_text(cs@) ==> r is None,
{
    if cs.len() != 26 {
        return None;
    }
    let mut v: u128 = 0;
    let mut i: usize = 0;
    while i < 26
        invariant
            cs@.len() == 26,
            i <= 26,
            forall|k: int| 0 <= k < i ==> (#[trigger] crockford_value(cs@[k])) is Some,
            v == horner32(text_digits(cs@).take(i as int)),
        decreases 26 - i,
    {
        let ghost prev = text_digits(cs@).take(i as int);
        let ghost next = text_digits(cs@).take(i as int + 1);
        assert(next.drop_last() =~= prev);
        match digit_of(cs[i]) {
            None => {
                return None;
            }
            Some(d) => {
                assert(next.last() == d);
                match v.checked_mul(32) {
                    None => {
                        proof {
                            lemma_horner_prefix(text_digits(cs@), i as int + 1);
                        }
                        return None;
                    }
                    Some(w) => match w.checked_add(d) {
                        None => {
                            proof {
                                lemma_horner_prefix(text_digits(cs@), i as int + 1);
                            }
                            return None;
                        }
                        Some(x) => {
                            v = x;
                        }
                    },
                }
            }
        }
        i = i + 1;
    }
    assert(text_digits(cs@).take(26) =~= text_digits(cs@));
    Some(SessionId { value: v })
}

/// A prefix of digits is worth no more than the whole.
proof fn lemma_horner_prefix(ds: Seq<nat>, k: int)
    requires
        0 <= k <= ds.len(),
    ensures
        horner32(ds.take(k)) <= horner32(ds),
    decreases ds.len() - k,
{
    if k < ds.len() {
        lemma_horner_prefix(ds, k + 1);
        assert(ds.take(k + 1).drop_last() =~= ds.take(k));
    } else {
        assert(ds.take(k) =~= ds);
    }
}

/// The reason a session id is refused.
pub const NOT_A_SESSION_ID: &'static str = "not a valid session id (ULID)";

/// The reason an empty `@<seq>` suffix is refused.
pub const EMPTY_SEQ: &'static str = "empty `@<seq>` suffix";

/// The reason a non-numeric `@<seq>` is refused.
pub const BAD_SEQ: &'static str = "`@<seq>` is not a valid non-negative integer";

/// A malformed `--session`/`--resume`/`--fork-from` value: the whole text
/// given, and why it was refused.
pub struct ParseError {
    pub input: String,
    pub reason: &'static str,
}

/// What `format!("{:?}", s)` renders for a string `s`: the text quoted and
/// escaped the way `str`'s `Debug` does.
pub uninterp spec fn debug_quoted(s: Seq<char>) -> Seq<char>;

/// Whether `c` is printable ASCII that `str`'s `Debug` leaves unescaped.
pub open spec fn plain_ascii(c: char) -> bool {
    ' ' <= c && c <= '~' && c != '"' && c != '\\'
}

/// `format!("{:?}", s)`: `s` quoted, with the escapes `str`'s `Debug`
/// makes. The contract ties the result to [`debug_quoted`] of `s`, and
/// states only that printable ASCII other than `"` and `\` passes through
/// unchanged between the two quotes.
#[verifier::external_body]
pub(crate) fn debug_text(s: &str) -> (r: String)
    ensures
        r@ == debug_quoted(s@),
        (forall|i: int| 0 <= i < s@.len() ==> plain_ascii(#[trigger] s@[i])) ==> r@ == seq!['"'] + s@ + seq!['"'],
{
    format!("{:?}", s)
}

/// The message of a refused value.
pub open spec fn parse_error_text(input: Seq<char>, reason: Seq<char>) -> Seq<char> {
    refusal_text(debug_quoted(input), reason)
}

/// The message of a refusal, given the refused value already quoted.
pub open spec fn refusal_text(quoted: Seq<char>, reason: Seq<char>) -> Seq<char> {
    "invalid session reference "@ + quoted + ": expected `<session-id>[@<seq>]` ("@ + reason + ")"@
}

impl ParseError {
    /// A refusal of `input` for `reason`.
    pub fn new(input: &str, reason: &'static str) -> (r: ParseError)
        ensures
            r.input@ == input@,
            r.reason == reason,
    {
        ParseError { input: string_from(input), reason }
    }

    /// The message shown for the refusal (see [`parse_error_text`]).
    pub fn message(&self) -> (r: String)
        ensures
            r@ == parse_error_text(self.input@, self.reason@),
    {
        let q = debug_text(self.input.as_str());
        self.message_quoting(q.as_str())
    }

    /// The message shown for the refusal, with `quoted` standing for the
    /// refused value (see [`refusal_text`]).
    pub fn message_quoting(&self, quoted: &str) -> (r: String)
        ensures
            r@ == refusal_text(quoted@, self.reason@),
    {
        let mut s = string_from("invalid session reference ");
        push_str(&mut s, quoted);
        push_str(&mut s, ": expected `<session-id>[@<seq>]` (");
        push_str(&mut s, self.reason);
        push_str(&mut s, ")");
        s
    }
}

/// What parsing a bare `--session`/`--resume` value gives: the id, or
/// `None` for a refusal.
pub open spec fn sid_of(s: Seq<char>) -> Option<nat> {
    if is_ulid_text(s) { Some(ulid_value(s)) } else { None }
}

/// Parses a bare `--session`/`--resume` value: a whole session id, no
/// `@<seq>` suffix and no prefix matching.
pub fn parse_sid(s: &str) -> (r: Result<SessionId, ParseError>)
    ensures
        match sid_of(s@) {
            Some(v) => r matches Ok(id) && id.value == v,
            None => r matches Err(e) && e.input@ == s@ && e.reason@ == NOT_A_SESSION_ID@,
        },
{
    let cs = chars_of(s);
    match parse_ulid(&cs) {
        Some(id) => Ok(id),
        None => Err(ParseError::new(s, NOT_A_SESSION_ID)),
    }
}

/// The position of the first `@` in `s`, if any.
pub open spec fn first_at(s: Seq<char>) -> Option<int> {
    if exists|i: int| 0 <= i < s.len() && s[i] == '@' {
        Some(choose|i: int| 0 <= i < s.len() && s[i] == '@' && forall|j: int| 0 <= j < i ==> s[j] != '@')
    } else {
        None
    }
}

/// What parsing a `--fork-from` value gives: the parent id and the
/// optional fork point, or the reason for refusing it.
pub open spec fn fork_ref_of(s: Seq<char>) -> Result<(nat, Option<nat>), Seq<char>> {
    match first_at(s) {
        None => match sid_of(s) {
            Some(v) => Ok((v, None)),
            None => Err(NOT_A_SESSION_ID@),
        },
        Some(i) => {
            let sid_part = s.take(i);
            let seq_part = s.skip(i + 1);
            match sid_of(sid_part) {
                None => Err(NOT_A_SESSION_ID@),
                Some(v) => if seq_part.len() == 0 {
                    Err(EMPTY_SEQ@)
                } else {
                    match parse_unsigned(seq_part, u64::MAX as nat) {
                        None => Err(BAD_SEQ@),
                        Some(n) => Ok((v, Some(n))),
                    }
                },
            }
        },
    }
}

/// Parses a `--fork-from` value, `<session-id>` or `<session-id>@<seq>`
/// (see [`fork_ref_of`]); a refusal names the whole text given.
pub fn parse_fork_ref(s: &str) -> (r: Result<(SessionId, Option<LogSeq>), ParseError>)
    ensures
        match fork_ref_of(s@) {
            Ok((v, None)) => r matches Ok((id, None)) && id.value == v,
            Ok((v, Some(n))) => r matches Ok((id, Some(seq))) && id.value == v && seq.0 == n,
            Err(reason) => r matches Err(e) && e.input@ == s@ && e.reason@ == reason,
        },
{
    let cs = chars_of(s);
    let mut i: usize = 0;
    while i < cs.len() && cs[i] != '@'
        invariant
            i <= cs.len(),
            forall|j: int| 0 <= j < i ==> cs@[j] != '@',
        decreases cs.len() - i,
    {
        i = i + 1;
    }
    if i == cs.len() {
        assert(!(exists|k: int| 0 <= k < cs@.len() && cs@[k] == '@'));
        return match parse_ulid(&cs) {
            Some(id) => Ok((id, None)),
            None => Err(ParseError::new(s, NOT_A_SESSION_ID)),
        };
    }
    proof {
        let j = choose|j: int| 0 <= j < cs@.len() && cs@[j] == '@' && forall|k: int| 0 <= k < j ==> cs@[k] != '@';
        assert(cs@[i as int] == '@');
        if j < i {
        } else if j > i {
        }
        assert(first_at(s@) == Some(i as int));
    }
    let sid_part = slice_range(&cs, 0, i);
    let seq_part = slice_range(&cs, i + 1, cs.len());
    assert(sid_part@ =~= s@.take(i as int));
    assert(seq_part@ =~= s@.skip(i + 1));
    let id = match parse_ulid(&sid_part) {
        Some(id) => id,
        None => return Err(ParseError::new(s, NOT_A_SESSION_ID)),
    };
    if seq_part.len() == 0 {
        return Err(ParseError::new(s, EMPTY_SEQ));
    }
    match parse_unsigned_chars(&seq_part, u64::MAX) {
        None => Err(ParseError::new(s, BAD_SEQ)),
        Some(n) => Ok((id, Some(LogSeq(n)))),
    }
}

proof fn lemma_pow32_positive(k: nat)
    ensures
        pow32(k) > 0,
    decreases k,
{
    if k > 0 {
        lemma_pow32_positive((k - 1) as nat);
    }
}

/// The digits of `v` read back give `v` modulo `32^k`.
proof fn lemma_horner_of_digits(v: nat, k: nat)
    ensures
        horner32(base32_digits(v, k)) == v % pow32(k),
    decreases k,
{
    if k > 0 {
        lemma_horner_of_digits(v / 32, (k - 1) as nat);
        lemma_pow32_positive((k - 1) as nat);
        let ds = base32_digits(v, k);
        assert(ds.drop_last() =~= base32_digits(v / 32, (k - 1) as nat));
        lemma_breakdown(v as int, 32, pow32((k - 1) as nat) as int);
    }
}

/// Every base-32 digit is below 32.
proof fn lemma_digits_small(v: nat, k: nat)
    ensures
        base32_digits(v, k).len() == k,
        forall|i: int| 0 <= i < k ==> #[trigger] base32_digits(v, k)[i] < 32,
    decreases k,
{
    if k > 0 {
        lemma_digits_small(v / 32, (k - 1) as nat);
    }
}

/// Digits below 32 are the digits of their own value.
proof fn lemma_digits_of_horner(ds: Seq<nat>)
    requires
        forall|i: int| 0 <= i < ds.len() ==> #[trigger] ds[i] < 32,
    ensures
        base32_digits(horner32(ds), ds.len()) == ds,
    decreases ds.len(),
{
    if ds.len() > 0 {
        let rest = ds.drop_last();
        assert forall|i: int| 0 <= i < rest.len() implies #[trigger] rest[i] < 32 by {
            assert(rest[i] == ds[i]);
        }
        lemma_digits_of_horner(rest);
        let h = horner32(ds);
        let d = ds.last();
        assert(d < 32);
        assert(h == horner32(rest) * 32 + d);
        assert(h / 32 == horner32(rest) && h % 32 == d) by (nonlinear_arith)
            requires
                h == horner32(rest) * 32 + d,
                d < 32;
        assert(base32_digits(h, ds.len()) =~= base32_digits(horner32(rest), rest.len()).push(d));
        assert(rest.push(d) =~= ds);
    }
}

/// An upper-case Crockford character stands for its own digit.
proof fn lemma_value_of_code(c: char, d: nat)
    requires
        d < 32,
        c as int == crockford_code(d),
    ensures
        crockford_value(c) == Some(d),
{
}

/// A Crockford character, raised to upper case, is the code of its digit.
proof fn lemma_code_of_value(c: char)
    requires
        crockford_value(c) is Some,
    ensures
        crockford_value(c)->0 < 32,
        crockford_code(crockford_value(c)->0) == upper_code(c),
{
}

/// Reading back the display form of a session id gives the same id:
/// display text always parses, to the value it was made from.
pub proof fn law_display_then_parse(v: u128, t: Seq<char>)
    requires
        is_id_text(t, v as nat),
    ensures
        is_ulid_text(t),
        ulid_value(t) == v,
{
    let ds = base32_digits(v as nat, 26);
    lemma_digits_small(v as nat, 26);
    assert forall|i: int| 0 <= i < t.len() implies (#[trigger] crockford_value(t[i])) == Some(ds[i]) by {
        lemma_value_of_code(t[i], ds[i]);
    }
    assert(text_digits(t) =~= ds);
    lemma_horner_of_digits(v as nat, 26);
    assert(pow32(26) == 1361129467683753853853498429727072845824nat) by {
        reveal_with_fuel(pow32, 27);
    }
    assert((v as nat) % pow32(26) == v as nat);
}

/// Displaying a parsed session id gives back the text it was parsed from,
/// raised to upper case.
pub proof fn law_parse_then_display(s: Seq<char>, t: Seq<char>)
    requires
        is_ulid_text(s),
        is_id_text(t, ulid_value(s)),
    ensures
        t.len() == s.len(),
        forall|i: int| 0 <= i < t.len() ==> #[trigger] t[i] as int == upper_code(s[i]),
{
    let ds = text_digits(s);
    assert forall|i: int| 0 <= i < ds.len() implies #[trigger] ds[i] < 32 by {
        lemma_code_of_value(s[i]);
    }
    lemma_digits_of_horner(ds);
    assert forall|i: int| 0 <= i < t.len() implies #[trigger] t[i] as int == upper_code(s[i]) by {
        lemma_code_of_value(s[i]);
        assert(t[i] as int == crockford_code(ds[i]));
    }
}

/// The display form of the session id with value `v`.
pub open spec fn id_text(v: nat) -> Seq<char> {
    choose|t: Seq<char>| is_id_text(t, v)
}

/// What splitting a `<reference>[@<seq>]` value gives: the reference
/// before the first `@` and the parsed fork point, or the reason for
/// refusing the `@<seq>` half.
pub open spec fn split_of(s: Seq<char>) -> Result<(Seq<char>, Option<nat>), Seq<char>> {
    match first_at(s) {
        None => Ok((s, None)),
        Some(i) => {
            let seq_part = s.skip(i + 1);
            if seq_part.len() == 0 {
                Err(EMPTY_SEQ@)
            } else {
                match parse_unsigned(seq_part, u64::MAX as nat) {
                    None => Err(BAD_SEQ@),
                    Some(n) => Ok((s.take(i), Some(n))),
                }
            }
        },
    }
}

/// Splits a `<reference>[@<seq>]` value at its first `@` (see
/// [`split_of`]); the reference half is returned as written.
pub fn split_fork_ref(s: &str) -> (r: Result<(String, Option<LogSeq>), ParseError>)
    ensures
        match split_of(s@) {
            Ok((head, None)) => r matches Ok((h, None)) && h@ == head,
            Ok((head, Some(n))) => r matches Ok((h, Some(seq))) && h@ == head && seq.0 == n,
            Err(reason) => r matches Err(e) && e.input@ == s@ && e.reason@ == reason,
        },
{
    let cs = chars_of(s);
    let mut i: usize = 0;
    while i < cs.len() && cs[i] != '@'
        invariant
            i <= cs.len(),
            forall|j: int| 0 <= j < i ==> cs@[j] != '@',
        decreases cs.len() - i,
    {
        i = i + 1;
    }
    if i == cs.len() {
        assert(!(exists|k: int| 0 <= k < cs@.len() && cs@[k] == '@'));
        return Ok((string_from(s), None));
    }
    proof {
        let j = choose|j: int| 0 <= j < cs@.len() && cs@[j] == '@' && forall|k: int| 0 <= k < j ==> cs@[k] != '@';
        assert(cs@[i as int] == '@');
        if j < i {
        } else if j > i {
        }
        assert(first_at(s@) == Some(i as int));
    }
    let head = slice_range(&cs, 0, i);
    let seq_part = slice_range(&cs, i + 1, cs.len());
    assert(head@ =~= s@.take(i as int));
    assert(seq_part@ =~= s@.skip(i + 1));
    if seq_part.len() == 0 {
        return Err(ParseError::new(s, EMPTY_SEQ));
    }
    match parse_unsigned_chars(&seq_part, u64::MAX) {
        None => Err(ParseError::new(s, BAD_SEQ)),
        Some(n) => Ok((string_of(&head), Some(LogSeq(n)))),
    }
}

/// Every refusal of a session reference names the grammar it expected.
pub proof fn law_refusal_names_the_grammar(input: Seq<char>, reason: Seq<char>)
    ensures
        crate::exit::contains_seq(parse_error_text(input, reason), ": expected `<session-id>[@<seq>]` ("@),
{
    let lead = "invalid session reference "@ + debug_quoted(input);
    let p = ": expected `<session-id>[@<seq>]` ("@;
    let t = parse_error_text(input, reason);
    assert(t =~= lead + p + (reason + ")"@));
    assert(t.subrange(lead.len() as int, (lead.len() + p.len()) as int) =~= p);
    assert(crate::text::occurs_at(t, p, lead.len() as int));
}

} // verus!
