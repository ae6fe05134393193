//! The textual codec of the persisted identity record.
//!
//! The record is stored as a single flat object in the common brace/key/value
//! notation: unsigned decimal counters and per-target message ids that are
//! either a decimal number or `null`. Loading is lenient where that is safe —
//! surrounding whitespace is allowed, unknown keys with scalar values are
//! ignored, missing keys fall back to the default — and strict where it is
//! not: a duplicated known key, a wrongly typed value, an out-of-range
//! counter, or any structural damage makes the whole parse fail, which the
//! loader heals by resetting to the default record.
use vstd::prelude::*;

use crate::record::DataJson;
use crate::record::Target;
use crate::text::chars_to_string;

verus! {

/// Whitespace accepted between tokens of a stored record.
pub open spec fn is_ws(c: char) -> bool {
    c == ' ' || c == '\n' || c == '\r' || c == '\t'
}

/// ASCII decimal digit.
pub open spec fn is_digit(c: char) -> bool {
    48 <= c as u32 && c as u32 <= 57
}

/// Numeric value of a digit character.
pub open spec fn digit_val(c: char) -> int {
    c as u32 - 48
}

/// The digit character of a value below ten.
pub open spec fn digit_char(d: nat) -> char {
    if d == 0 {
        '0'
    } else if d == 1 {
        '1'
    } else if d == 2 {
        '2'
    } else if d == 3 {
        '3'
    } else if d == 4 {
        '4'
    } else if d == 5 {
        '5'
    } else if d == 6 {
        '6'
    } else if d == 7 {
        '7'
    } else if d == 8 {
        '8'
    } else {
        '9'
    }
}

/// Decimal digits of `n`, most significant first, without leading zeros.
pub open spec fn digits_of(n: nat) -> Seq<char>
    decreases n,
{
    if n < 10 {
        seq![digit_char(n)]
    } else {
        digits_of(n / 10).push(digit_char(n % 10))
    }
}

/// First position at or after `i` that does not hold whitespace.
pub open spec fn skip_ws(s: Seq<char>, i: nat) -> nat
    decreases s.len() - i,
{
    if i < s.len() && is_ws(s[i as int]) {
        skip_ws(s, (i + 1) as nat)
    } else {
        i
    }
}

/// Position of the closing quote of a string whose content starts at `i`.
///
/// Escape sequences are not part of the stored format, so a backslash (like a
/// missing closing quote) makes the string — and the record — malformed.
pub open spec fn key_end(s: Seq<char>, i: nat) -> Option<nat>
    decreases s.len() - i,
{
    if i < s.len() {
        if s[i as int] == '"' {
            Some(i)
        } else if s[i as int] == '\\' {
            None
        } else {
            key_end(s, (i + 1) as nat)
        }
    } else {
        None
    }
}

/// Reads digits from `i` on into an accumulator, failing on 64-bit overflow.
pub open spec fn parse_u64_at(s: Seq<char>, i: nat, acc: u64) -> Option<(u64, nat)>
    decreases s.len() - i,
{
    if i < s.len() && is_digit(s[i as int]) {
        let v = acc * 10 + digit_val(s[i as int]);
        if v > u64::MAX {
            None
        } else {
            parse_u64_at(s, (i + 1) as nat, v as u64)
        }
    } else {
        Some((acc, i))
    }
}

/// A decimal number at `i`: at least one digit, value within 64 bits.
pub open spec fn parse_number(s: Seq<char>, i: nat) -> Option<(u64, nat)> {
    if i < s.len() && is_digit(s[i as int]) {
        parse_u64_at(s, i, 0)
    } else {
        None
    }
}

/// A scalar value of the stored format.
#[derive(Clone, Copy, Debug, PartialEq, Eq)]
pub enum JsonScalar {
    /// An unsigned decimal number.
    Num(u64),
    /// The literal `null`.
    Null,
    /// A quoted string; its content never matters to the record.
    Text,
    /// One of the literals `true` and `false`.
    Boolean,
}

/// A scalar value starting at `i`: a number, a string, `null`, or a boolean.
pub open spec fn parse_scalar(s: Seq<char>, i: nat) -> Option<(JsonScalar, nat)> {
    if i < s.len() {
        if is_digit(s[i as int]) {
            match parse_number(s, i) {
                Some((v, j)) => Some((JsonScalar::Num(v), j)),
                None => None,
            }
        } else if s[i as int] == '"' {
            match key_end(s, (i + 1) as nat) {
                Some(j) => Some((JsonScalar::Text, (j + 1) as nat)),
                None => None,
            }
        } else if i + 4 <= s.len() && s[i as int] == 'n' && s[i + 1 as int] == 'u' && s[i + 2 as int] == 'l'
            && s[i + 3 as int] == 'l' {
            Some((JsonScalar::Null, (i + 4) as nat))
        } else if i + 4 <= s.len() && s[i as int] == 't' && s[i + 1 as int] == 'r' && s[i + 2 as int] == 'u'
            && s[i + 3 as int] == 'e' {
            Some((JsonScalar::Boolean, (i + 4) as nat))
        } else if i + 5 <= s.len() && s[i as int] == 'f' && s[i + 1 as int] == 'a' && s[i + 2 as int] == 'l'
            && s[i + 3 as int] == 's' && s[i + 4 as int] == 'e' {
            Some((JsonScalar::Boolean, (i + 5) as nat))
        } else {
            None
        }
    } else {
        None
    }
}

/// The characters of `lit` stand in `s` at position `i`, compared from
/// offset `j` on.
pub open spec fn lit_at(s: Seq<char>, i: nat, lit: Seq<char>, j: nat) -> bool
    decreases lit.len() - j,
{
    if j < lit.len() {
        i + j < s.len() && s[(i + j) as int] == lit[j as int] && lit_at(s, i, lit, (j + 1) as nat)
    } else {
        true
    }
}

/// The key spanning `s[lo..hi]` is exactly `lit`.
pub open spec fn is_key(s: Seq<char>, lo: nat, hi: nat, lit: Seq<char>) -> bool {
    hi - lo == lit.len() && lit_at(s, lo, lit, 0)
}

/// Stored key of the suggestion counter.
pub open spec fn key_suggestion() -> Seq<char> {
    "suggestionCount"@
}

/// Stored key of the bug-report counter.
pub open spec fn key_bug_report() -> Seq<char> {
    "bugReportCount"@
}

/// Stored key of the server-status message id.
pub open spec fn key_status_id() -> Seq<char> {
    "statusMessageId"@
}

/// Stored key of the platform-status message id.
pub open spec fn key_cfx_status_id() -> Seq<char> {
    "cfxStatusMessageId"@
}

/// A record being assembled from key/value pairs, with one seen-flag per
/// known key so that a duplicate is caught.
#[derive(Clone, Copy, Debug)]
pub struct LoadState {
    pub rec: DataJson,
    pub seen_suggestion: bool,
    pub seen_bug_report: bool,
    pub seen_status_id: bool,
    pub seen_cfx_status_id: bool,
}

/// Assembly starts from the default record: a key that never occurs keeps
/// its default value.
pub open spec fn init_state() -> LoadState {
    LoadState {
        rec: DataJson::default_spec(),
        seen_suggestion: false,
        seen_bug_report: false,
        seen_status_id: false,
        seen_cfx_status_id: false,
    }
}

/// Folds one key/value pair into the record being assembled.
///
/// The key is the span `s[lo..hi]`. A known key must occur at most once and
/// carry a value of its type — counters a number within 16 bits, message ids
/// a number or `null`. An unknown key is ignored whatever its scalar value.
pub open spec fn apply_field(
    st: LoadState,
    s: Seq<char>,
    lo: nat,
    hi: nat,
    v: JsonScalar,
) -> Option<LoadState> {
    if is_key(s, lo, hi, key_suggestion()) {
        if st.seen_suggestion {
            None
        } else {
            match v {
                JsonScalar::Num(x) => if x <= u16::MAX as u64 {
                    Some(
                        LoadState {
                            rec: DataJson { suggestion_count: x as u16, ..st.rec },
                            seen_suggestion: true,
                            ..st
                        },
                    )
                } else {
                    None
                },
                _ => None,
            }
        }
    } else if is_key(s, lo, hi, key_bug_report()) {
        if st.seen_bug_report {
            None
        } else {
            match v {
                JsonScalar::Num(x) => if x <= u16::MAX as u64 {
                    Some(
                        LoadState {
                            rec: DataJson { bug_report_count: x as u16, ..st.rec },
                            seen_bug_report: true,
                            ..st
                        },
                    )
                } else {
                    None
                },
                _ => None,
            }
        }
    } else if is_key(s, lo, hi, key_status_id()) {
        if st.seen_status_id {
            None
        } else {
            match v {
                JsonScalar::Num(x) => Some(
                    LoadState {
                        rec: DataJson { status_message_id: Some(x), ..st.rec },
                        seen_status_id: true,
                        ..st
                    },
                ),
                JsonScalar::Null => Some(
                    LoadState {
                        rec: DataJson { status_message_id: None, ..st.rec },
                        seen_status_id: true,
                        ..st
                    },
                ),
                _ => None,
            }
        }
    } else if is_key(s, lo, hi, key_cfx_status_id()) {
        if st.seen_cfx_status_id {
            None
        } else {
            match v {
                JsonScalar::Num(x) => Some(
                    LoadState {
                        rec: DataJson { cfx_status_message_id: Some(x), ..st.rec },
                        seen_cfx_status_id: true,
                        ..st
                    },
                ),
                JsonScalar::Null => Some(
                    LoadState {
                        rec: DataJson { cfx_status_message_id: None, ..st.rec },
                        seen_cfx_status_id: true,
                        ..st
                    },
                ),
                _ => None,
            }
        }
    } else {
        Some(st)
    }
}

/// Bounds of `skip_ws`: it never moves backwards nor past the end.
pub proof fn lemma_skip_ws_bounds(s: Seq<char>, i: nat)
    ensures
        i <= skip_ws(s, i),
        i <= s.len() ==> skip_ws(s, i) <= s.len(),
    decreases s.len() - i,
{
    if i < s.len() && is_ws(s[i as int]) {
        lemma_skip_ws_bounds(s, (i + 1) as nat);
    }
}

/// Bounds of `key_end`: a found closing quote lies at or after the content
/// start and inside the text.
pub proof fn lemma_key_end_bounds(s: Seq<char>, i: nat)
    ensures
        match key_end(s, i) {
            Some(j) => i <= j < s.len(),
            None => true,
        },
    decreases s.len() - i,
{
    if i < s.len() && s[i as int] != '"' && s[i as int] != '\\' {
        lemma_key_end_bounds(s, (i + 1) as nat);
    }
}

/// Bounds of `parse_u64_at`: it stops at or before the end of the text.
pub proof fn lemma_parse_u64_bounds(s: Seq<char>, i: nat, acc: u64)
    requires
        i <= s.len(),
    ensures
        match parse_u64_at(s, i, acc) {
            Some((v, j)) => i <= j <= s.len(),
            None => true,
        },
    decreases s.len() - i,
{
    if i < s.len() && is_digit(s[i as int]) {
        let v = acc * 10 + digit_val(s[i as int]);
        if v <= u64::MAX {
            lemma_parse_u64_bounds(s, (i + 1) as nat, v as u64);
        }
    }
}

/// Bounds of `parse_scalar`: a parsed value consumes at least one character
/// and stops at or before the end of the text.
pub proof fn lemma_parse_scalar_bounds(s: Seq<char>, i: nat)
    requires
        i <= s.len(),
    ensures
        match parse_scalar(s, i) {
            Some((v, j)) => i < j <= s.len(),
            None => true,
        },
{
    if i < s.len() {
        if is_digit(s[i as int]) {
            lemma_parse_u64_bounds(s, (i + 1) as nat, digit_val(s[i as int]) as u64);
        } else if s[i as int] == '"' {
            lemma_key_end_bounds(s, (i + 1) as nat);
        }
    }
}

/// One key/value pair and all that follow it, starting at `i`, up to and
/// including the closing brace of the object.
pub open spec fn parse_pairs(s: Seq<char>, i: nat, st: LoadState) -> Option<(LoadState, nat)>
    decreases s.len() - i,
{
    let k0 = skip_ws(s, i);
    if k0 < s.len() && s[k0 as int] == '"' {
        match key_end(s, (k0 + 1) as nat) {
            None => None,
            Some(kq) => {
                let c0 = skip_ws(s, (kq + 1) as nat);
                if c0 < s.len() && s[c0 as int] == ':' {
                    match parse_scalar(s, skip_ws(s, (c0 + 1) as nat)) {
                        None => None,
                        Some((v, m)) => match apply_field(st, s, (k0 + 1) as nat, kq, v) {
                            None => None,
                            Some(st2) => {
                                let p = skip_ws(s, m);
                                if p < s.len() && s[p as int] == ',' {
                                    proof {
                                        lemma_skip_ws_bounds(s, i);
                                        lemma_key_end_bounds(s, (k0 + 1) as nat);
                                        lemma_skip_ws_bounds(s, (kq + 1) as nat);
                                        lemma_skip_ws_bounds(s, (c0 + 1) as nat);
                                        lemma_parse_scalar_bounds(
                                            s,
                                            skip_ws(s, (c0 + 1) as nat),
                                        );
                                        lemma_skip_ws_bounds(s, m);
                                    }
                                    parse_pairs(s, (p + 1) as nat, st2)
                                } else if p < s.len() && s[p as int] == '}' {
                                    Some((st2, (p + 1) as nat))
                                } else {
                                    None
                                }
                            },
                        },
                    }
                } else {
                    None
                }
            },
        }
    } else {
        None
    }
}

/// The whole stored record: one object of scalar fields, with nothing but
/// whitespace around it.
pub open spec fn spec_parse_record(s: Seq<char>) -> Option<DataJson> {
    let i = skip_ws(s, 0);
    if i < s.len() && s[i as int] == '{' {
        let j = skip_ws(s, (i + 1) as nat);
        if j < s.len() && s[j as int] == '}' {
            if skip_ws(s, (j + 1) as nat) == s.len() {
                Some(init_state().rec)
            } else {
                None
            }
        } else {
            match parse_pairs(s, (i + 1) as nat, init_state()) {
                Some((st, m)) => if skip_ws(s, m) == s.len() {
                    Some(st.rec)
                } else {
                    None
                },
                None => None,
            }
        }
    } else {
        None
    }
}

/// A stored message id: its number, or `null` while none is recorded.
pub open spec fn spec_encode_id(v: Option<u64>) -> Seq<char> {
    match v {
        Some(x) => digits_of(x as nat),
        None => "null"@,
    }
}

/// The canonical stored form of a record, the exact text `encode_record`
/// produces.
pub open spec fn spec_encode(d: DataJson) -> Seq<char> {
    "{\"suggestionCount\":"@ + digits_of(d.suggestion_count as nat) + ",\"bugReportCount\":"@
        + digits_of(d.bug_report_count as nat) + ",\"statusMessageId\":"@ + spec_encode_id(
        d.status_message_id,
    ) + ",\"cfxStatusMessageId\":"@ + spec_encode_id(d.cfx_status_message_id) + "}"@
}

/// The characters of a text, one by one.
fn str_chars(s: &str) -> (v: Vec<char>)
    ensures
        v@ == s@,
{
    let n = s.unicode_len();
    let mut v: Vec<char> = Vec::new();
    let mut k: usize = 0;
    while k < n
        invariant
            k <= n,
            n == s@.len(),
            v@ == s@.take(k as int),
        decreases n - k,
    {
        v.push(s.get_char(k));
        k += 1;
        assert(v@ =~= s@.take(k as int));
    }
    assert(v@ =~= s@);
    v
}

/// Appends the characters of a literal to the text being built.
fn push_lit(out: &mut Vec<char>, lit: &str)
    ensures
        final(out)@ == old(out)@ + lit@,
{
    let n = lit.unicode_len();
    let mut k: usize = 0;
    while k < n
        invariant
            k <= n,
            n == lit@.len(),
            out@ == old(out)@ + lit@.take(k as int),
        decreases n - k,
    {
        out.push(lit.get_char(k));
        k += 1;
        assert(out@ =~= old(out)@ + lit@.take(k as int));
    }
    assert(out@ =~= old(out)@ + lit@);
}

/// The digit character of a value below ten, as an executable step.
fn digit_char_x(d: u64) -> (c: char)
    requires
        d < 10,
    ensures
        c == digit_char(d as nat),
{
    if d == 0 {
        '0'
    } else if d == 1 {
        '1'
    } else if d == 2 {
        '2'
    } else if d == 3 {
        '3'
    } else if d == 4 {
        '4'
    } else if d == 5 {
        '5'
    } else if d == 6 {
        '6'
    } else if d == 7 {
        '7'
    } else if d == 8 {
        '8'
    } else {
        '9'
    }
}

/// Appends the decimal digits of `n` to the text being built.
fn push_digits(out: &mut Vec<char>, n: u64)
    ensures
        final(out)@ == old(out)@ + digits_of(n as nat),
    decreases n,
{
    if n < 10 {
        out.push(digit_char_x(n));
        assert(out@ =~= old(out)@ + digits_of(n as nat));
    } else {
        push_digits(out, n / 10);
        out.push(digit_char_x(n % 10));
        assert(out@ =~= old(out)@ + digits_of(n as nat));
    }
}

/// Writes a record in its canonical stored form.
pub fn encode_record(d: &DataJson) -> (r: String)
    ensures
        r@ == spec_encode(*d),
{
    let mut out: Vec<char> = Vec::new();
    push_lit(&mut out, "{\"suggestionCount\":");
    push_digits(&mut out, d.suggestion_count as u64);
    push_lit(&mut out, ",\"bugReportCount\":");
    push_digits(&mut out, d.bug_report_count as u64);
    push_lit(&mut out, ",\"statusMessageId\":");
    match d.status_message_id {
        Some(x) => push_digits(&mut out, x),
        None => push_lit(&mut out, "null"),
    }
    push_lit(&mut out, ",\"cfxStatusMessageId\":");
    match d.cfx_status_message_id {
        Some(x) => push_digits(&mut out, x),
        None => push_lit(&mut out, "null"),
    }
    push_lit(&mut out, "}");
    assert(out@ =~= spec_encode(*d));
    chars_to_string(&out)
}


/// Whitespace test, as an executable step.
fn is_ws_x(c: char) -> (r: bool)
    ensures
        r == is_ws(c),
{
    c == ' ' || c == '\n' || c == '\r' || c == '\t'
}

/// Digit test, as an executable step.
fn is_digit_x(c: char) -> (r: bool)
    ensures
        r == is_digit(c),
{
    let u = c as u32;
    48 <= u && u <= 57
}

/// Executable mirror of `skip_ws`.
fn skip_ws_x(s: &Vec<char>, i: usize) -> (r: usize)
    requires
        i <= s@.len(),
    ensures
        r as nat == skip_ws(s@, i as nat),
        i <= r <= s@.len(),
    decreases s@.len() - i,
{
    if i < s.len() && is_ws_x(s[i]) {
        skip_ws_x(s, i + 1)
    } else {
        i
    }
}

/// Executable mirror of `key_end`.
fn key_end_x(s: &Vec<char>, i: usize) -> (r: Option<usize>)
    requires
        i <= s@.len(),
    ensures
        match r {
            Some(j) => key_end(s@, i as nat) == Some(j as nat) && i <= j < s@.len(),
            None => key_end(s@, i as nat) is None,
        },
    decreases s@.len() - i,
{
    if i < s.len() {
        let c = s[i];
        if c == '"' {
            Some(i)
        } else if c == '\\' {
            None
        } else {
            key_end_x(s, i + 1)
        }
    } else {
        None
    }
}

/// Executable mirror of `parse_u64_at`, with checked arithmetic in place of
/// the specification's unbounded value.
fn parse_u64_at_x(s: &Vec<char>, i: usize, acc: u64) -> (r: Option<(u64, usize)>)
    requires
        i <= s@.len(),
    ensures
        match r {
            Some((v, j)) => parse_u64_at(s@, i as nat, acc) == Some((v, j as nat)) && i <= j
                <= s@.len(),
            None => parse_u64_at(s@, i as nat, acc) is None,
        },
    decreases s@.len() - i,
{
    if i < s.len() && is_digit_x(s[i]) {
        let d = (s[i] as u32 - 48) as u64;
        assert(d == digit_val(s@[i as int]));
        match acc.checked_mul(10) {
            None => None,
            Some(p) => match p.checked_add(d) {
                None => None,
                Some(v) => parse_u64_at_x(s, i + 1, v),
            },
        }
    } else {
        Some((acc, i))
    }
}

/// Executable mirror of `parse_scalar`.
fn parse_scalar_x(s: &Vec<char>, i: usize) -> (r: Option<(JsonScalar, usize)>)
    requires
        i <= s@.len(),
    ensures
        match r {
            Some((v, j)) => parse_scalar(s@, i as nat) == Some((v, j as nat)) && i < j
                <= s@.len(),
            None => parse_scalar(s@, i as nat) is None,
        },
{
    if i < s.len() {
        let c = s[i];
        if is_digit_x(c) {
            match parse_u64_at_x(s, i, 0) {
                Some((v, j)) => {
                    proof {
                        let dv = digit_val(s@[i as int]);
                        assert(parse_u64_at(s@, i as nat, 0) == parse_u64_at(
                            s@,
                            (i + 1) as nat,
                            dv as u64,
                        ));
                        lemma_parse_u64_bounds(s@, (i + 1) as nat, dv as u64);
                    }
                    Some((JsonScalar::Num(v), j))
                },
                None => None,
            }
        } else if c == '"' {
            match key_end_x(s, i + 1) {
                Some(j) => Some((JsonScalar::Text, j + 1)),
                None => None,
            }
        } else if c == 'n' {
            if s.len() - i >= 4 && s[i + 1] == 'u' && s[i + 2] == 'l' && s[i + 3] == 'l' {
                Some((JsonScalar::Null, i + 4))
            } else {
                None
            }
        } else if c == 't' {
            if s.len() - i >= 4 && s[i + 1] == 'r' && s[i + 2] == 'u' && s[i + 3] == 'e' {
                Some((JsonScalar::Boolean, i + 4))
            } else {
                None
            }
        } else if c == 'f' {
            if s.len() - i >= 5 && s[i + 1] == 'a' && s[i + 2] == 'l' && s[i + 3] == 's' && s[i
                + 4] == 'e' {
                Some((JsonScalar::Boolean, i + 5))
            } else {
                None
            }
        } else {
            None
        }
    } else {
        None
    }
}

/// Executable mirror of `lit_at`.
fn lit_at_x(s: &Vec<char>, i: usize, lit: &str, j: usize) -> (r: bool)
    ensures
        r == lit_at(s@, i as nat, lit@, j as nat),
    decreases lit@.len() - j,
{
    let n = lit.unicode_len();
    if j < n {
        if i < s.len() && j < s.len() - i {
            if s[i + j] == lit.get_char(j) {
                lit_at_x(s, i, lit, j + 1)
            } else {
                false
            }
        } else {
            false
        }
    } else {
        true
    }
}

/// Executable mirror of `is_key`.
fn is_key_x(s: &Vec<char>, lo: usize, hi: usize, lit: &str) -> (r: bool)
    requires
        lo <= hi,
    ensures
        r == is_key(s@, lo as nat, hi as nat, lit@),
{
    let n = lit.unicode_len();
    if hi - lo == n {
        lit_at_x(s, lo, lit, 0)
    } else {
        false
    }
}

/// Executable mirror of `apply_field`.
fn apply_field_x(st: LoadState, s: &Vec<char>, lo: usize, hi: usize, v: JsonScalar) -> (r:
    Option<LoadState>)
    requires
        lo <= hi,
    ensures
        r == apply_field(st, s@, lo as nat, hi as nat, v),
{
    if is_key_x(s, lo, hi, "suggestionCount") {
        if st.seen_suggestion {
            None
        } else {
            match v {
                JsonScalar::Num(x) => if x <= u16::MAX as u64 {
                    Some(
                        LoadState {
                            rec: DataJson { suggestion_count: x as u16, ..st.rec },
                            seen_suggestion: true,
                            ..st
                        },
                    )
                } else {
                    None
                },
                _ => None,
            }
        }
    } else if is_key_x(s, lo, hi, "bugReportCount") {
        if st.seen_bug_report {
            None
        } else {
            match v {
                JsonScalar::Num(x) => if x <= u16::MAX as u64 {
                    Some(
                        LoadState {
                            rec: DataJson { bug_report_count: x as u16, ..st.rec },
                            seen_bug_report: true,
                            ..st
                        },
                    )
                } else {
                    None
                },
                _ => None,
            }
        }
    } else if is_key_x(s, lo, hi, "statusMessageId") {
        if st.seen_status_id {
            None
        } else {
            match v {
                JsonScalar::Num(x) => Some(
                    LoadState {
                        rec: DataJson { status_message_id: Some(x), ..st.rec },
                        seen_status_id: true,
                        ..st
                    },
                ),
                JsonScalar::Null => Some(
                    LoadState {
                        rec: DataJson { status_message_id: None, ..st.rec },
                        seen_status_id: true,
                        ..st
                    },
                ),
                _ => None,
            }
        }
    } else if is_key_x(s, lo, hi, "cfxStatusMessageId") {
        if st.seen_cfx_status_id {
            None
        } else {
            match v {
                JsonScalar::Num(x) => Some(
                    LoadState {
                        rec: DataJson { cfx_status_message_id: Some(x), ..st.rec },
                        seen_cfx_status_id: true,
                        ..st
                    },
                ),
                JsonScalar::Null => Some(
                    LoadState {
                        rec: DataJson { cfx_status_message_id: None, ..st.rec },
                        seen_cfx_status_id: true,
                        ..st
                    },
                ),
                _ => None,
            }
        }
    } else {
        Some(st)
    }
}

/// Executable mirror of `parse_pairs`.
fn parse_pairs_x(s: &Vec<char>, i: usize, st: LoadState) -> (r: Option<(LoadState, usize)>)
    requires
        i <= s@.len(),
    ensures
        match r {
            Some((st2, m)) => parse_pairs(s@, i as nat, st) == Some((st2, m as nat)) && i < m
                <= s@.len(),
            None => parse_pairs(s@, i as nat, st) is None,
        },
    decreases s@.len() - i,
{
    let k0 = skip_ws_x(s, i);
    if k0 < s.len() && s[k0] == '"' {
        match key_end_x(s, k0 + 1) {
            None => None,
            Some(kq) => {
                let c0 = skip_ws_x(s, kq + 1);
                if c0 < s.len() && s[c0] == ':' {
                    let n0 = skip_ws_x(s, c0 + 1);
                    match parse_scalar_x(s, n0) {
                        None => None,
                        Some((v, m)) => match apply_field_x(st, s, k0 + 1, kq, v) {
                            None => None,
                            Some(st2) => {
                                let p = skip_ws_x(s, m);
                                if p < s.len() {
                                    let c = s[p];
                                    if c == ',' {
                                        parse_pairs_x(s, p + 1, st2)
                                    } else if c == '}' {
                                        Some((st2, p + 1))
                                    } else {
                                        None
                                    }
                                } else {
                                    None
                                }
                            },
                        },
                    }
                } else {
                    None
                }
            },
        }
    } else {
        None
    }
}

/// Reads a stored record from its characters.
pub fn parse_record_chars(s: &Vec<char>) -> (r: Option<DataJson>)
    ensures
        r == spec_parse_record(s@),
{
    let i = skip_ws_x(s, 0);
    if i < s.len() && s[i] == '{' {
        let j = skip_ws_x(s, i + 1);
        if j < s.len() && s[j] == '}' {
            let e = skip_ws_x(s, j + 1);
            if e == s.len() {
                Some(DataJson::new())
            } else {
                None
            }
        } else {
            let st0 = LoadState {
                rec: DataJson::new(),
                seen_suggestion: false,
                seen_bug_report: false,
                seen_status_id: false,
                seen_cfx_status_id: false,
            };
            assert(st0 == init_state());
            match parse_pairs_x(s, i + 1, st0) {
                Some((st, m)) => {
                    let e = skip_ws_x(s, m);
                    if e == s.len() {
                        Some(st.rec)
                    } else {
                        None
                    }
                },
                None => None,
            }
        }
    } else {
        None
    }
}

/// Reads a stored record from text. `None` means the text is malformed and
/// the caller should fall back to the default record.
pub fn parse_record(s: &str) -> (r: Option<DataJson>)
    ensures
        r == spec_parse_record(s@),
{
    let v = str_chars(s);
    parse_record_chars(&v)
}

/// Loads the identity record from whatever the durable store held.
///
/// `None` stands for a missing store. A missing or malformed store never
/// fails: it yields the default record, and the second component asks the
/// caller to rewrite the store with that default.
pub fn load_record(contents: Option<&str>) -> (r: (DataJson, bool))
    ensures
        ({
            let parsed = match contents {
                Some(c) => spec_parse_record(c@),
                None => None::<DataJson>,
            };
            match parsed {
                Some(d) => r == (d, false),
                None => r == (DataJson::default_spec(), true),
            }
        }),
{
    match contents {
        Some(c) => match parse_record(c) {
            Some(d) => (d, false),
            None => (DataJson::new(), true),
        },
        None => (DataJson::new(), true),
    }
}


/// Powers of ten.
pub open spec fn pow10(k: nat) -> nat
    decreases k,
{
    if k == 0 {
        1
    } else {
        10 * pow10((k - 1) as nat)
    }
}

/// A digit character round-trips through its numeric value.
proof fn lemma_digit_char_val(d: nat)
    requires
        d < 10,
    ensures
        is_digit(digit_char(d)),
        digit_val(digit_char(d)) == d,
{
}

/// A digit run is nonempty and holds digits only.
proof fn lemma_digits_of_digits(n: nat)
    ensures
        digits_of(n).len() >= 1,
        forall|k: int| 0 <= k < digits_of(n).len() ==> is_digit(#[trigger] digits_of(n)[k]),
    decreases n,
{
    if n < 10 {
        lemma_digit_char_val(n);
    } else {
        lemma_digits_of_digits(n / 10);
        lemma_digit_char_val(n % 10);
    }
}

/// Reading the digit run of `n` multiplies the accumulator past it and adds
/// `n`, provided the combined value still fits.
proof fn lemma_parse_digits(s: Seq<char>, i: nat, n: u64, acc: u64)
    requires
        i + digits_of(n as nat).len() <= s.len(),
        forall|k: int|
            0 <= k < digits_of(n as nat).len() ==> s[i + k] == #[trigger] digits_of(n as nat)[k],
        acc * pow10(digits_of(n as nat).len()) + n <= u64::MAX,
    ensures
        parse_u64_at(s, i, acc) == parse_u64_at(
            s,
            (i + digits_of(n as nat).len()) as nat,
            (acc * pow10(digits_of(n as nat).len()) + n) as u64,
        ),
    decreases n,
{
    let ds = digits_of(n as nat);
    let ll = ds.len();
    if n < 10 {
        lemma_digit_char_val(n as nat);
        assert(ds[0] == digit_char(n as nat));
        assert(s[i as int] == digit_char(n as nat));
        assert(pow10(1) == 10) by {
            assert(pow10(0) == 1);
        }
        let v = acc * 10 + digit_val(s[i as int]);
        assert(v == acc * pow10(ll) + n);
        assert(parse_u64_at(s, i, acc) == parse_u64_at(s, (i + 1) as nat, v as u64));
    } else {
        let n0: u64 = n / 10;
        let r0: u64 = n % 10;
        let ds0 = digits_of(n0 as nat);
        let l0 = ds0.len();
        assert(ds == ds0.push(digit_char(r0 as nat)));
        assert(ll == l0 + 1);
        assert forall|k: int| 0 <= k < l0 implies s[i + k] == #[trigger] ds0[k] by {
            assert(ds[k] == ds0[k]);
            assert(s[i + k] == ds[k]);
        }
        assert(pow10(ll) == 10 * pow10(l0));
        let am = acc * pow10(ll) + n;
        let a0 = acc * pow10(l0) + n0;
        assert(n == n0 * 10 + r0) by (nonlinear_arith)
            requires
                n0 == n / 10,
                r0 == n % 10,
        ;
        assert(a0 * 10 + r0 == am) by (nonlinear_arith)
            requires
                pow10(ll) == 10 * pow10(l0),
                a0 == acc * pow10(l0) + n0,
                am == acc * pow10(ll) + n,
                n == n0 * 10 + r0,
        ;
        assert(a0 <= u64::MAX) by (nonlinear_arith)
            requires
                a0 * 10 + r0 == am,
                am <= u64::MAX,
                a0 >= 0,
                r0 >= 0,
        ;
        lemma_parse_digits(s, i, n0, acc);
        assert(parse_u64_at(s, i, acc) == parse_u64_at(s, (i + l0) as nat, a0 as u64));
        lemma_digit_char_val(r0 as nat);
        assert(ds[l0 as int] == digit_char(r0 as nat));
        assert(s[(i + l0) as int] == ds[l0 as int]);
        let v = a0 * 10 + digit_val(s[(i + l0) as int]);
        assert(v == am);
        assert(parse_u64_at(s, (i + l0) as nat, a0 as u64) == parse_u64_at(
            s,
            (i + ll) as nat,
            v as u64,
        ));
    }
}

/// A digit run of `n` followed by a non-digit (or the end) reads as exactly
/// `n`.
proof fn lemma_parse_number_digits(s: Seq<char>, i: nat, n: u64)
    requires
        i + digits_of(n as nat).len() <= s.len(),
        forall|k: int|
            0 <= k < digits_of(n as nat).len() ==> s[i + k] == #[trigger] digits_of(n as nat)[k],
        i + digits_of(n as nat).len() == s.len() || !is_digit(
            s[(i + digits_of(n as nat).len()) as int],
        ),
    ensures
        parse_number(s, i) == Some((n, (i + digits_of(n as nat).len()) as nat)),
{
    let ll = digits_of(n as nat).len();
    lemma_digits_of_digits(n as nat);
    assert(s[i as int] == digits_of(n as nat)[0]);
    assert(is_digit(s[i as int]));
    assert(0 * pow10(ll) + n <= u64::MAX) by (nonlinear_arith);
    lemma_parse_digits(s, i, n, 0);
    assert(0 * pow10(ll) + n == n) by (nonlinear_arith);
    assert(parse_u64_at(s, (i + ll) as nat, n) == Some((n, (i + ll) as nat)));
}

/// `skip_ws` stays put on anything but whitespace.
proof fn lemma_skip_ws_here(s: Seq<char>, i: nat)
    requires
        i >= s.len() || !is_ws(s[i as int]),
    ensures
        skip_ws(s, i) == i,
{
}

/// The closing quote of a string is the first quote after its content.
proof fn lemma_key_end_scan(s: Seq<char>, i: nat, end: nat)
    requires
        i <= end < s.len(),
        forall|k: int| i <= k < end ==> s[k] != '"' && s[k] != '\\',
        s[end as int] == '"',
    ensures
        key_end(s, i) == Some(end),
    decreases end - i,
{
    if i < end {
        lemma_key_end_scan(s, (i + 1) as nat, end);
    }
}

/// Characters standing in place, compared from `j` on, make `lit_at` true.
proof fn lemma_lit_at_range(s: Seq<char>, i: nat, lit: Seq<char>, j: nat)
    requires
        j <= lit.len(),
        i + lit.len() <= s.len(),
        forall|k: int| j <= k < lit.len() ==> s[i + k] == lit[k],
    ensures
        lit_at(s, i, lit, j),
    decreases lit.len() - j,
{
    if j < lit.len() {
        lemma_lit_at_range(s, i, lit, (j + 1) as nat);
    }
}


/// Round trip: the canonical stored form of any record parses back to
/// exactly that record.
#[verifier::rlimit(100)]
pub proof fn lemma_encode_parse_round_trip(d: DataJson)
    ensures
        spec_parse_record(spec_encode(d)) == Some(d),
{
    reveal_strlit("{\"suggestionCount\":");
    reveal_strlit(",\"bugReportCount\":");
    reveal_strlit(",\"statusMessageId\":");
    reveal_strlit(",\"cfxStatusMessageId\":");
    reveal_strlit("}");
    reveal_strlit("suggestionCount");
    reveal_strlit("bugReportCount");
    reveal_strlit("statusMessageId");
    reveal_strlit("cfxStatusMessageId");
    reveal_strlit("null");
    let l1 = "{\"suggestionCount\":"@;
    let l2 = ",\"bugReportCount\":"@;
    let l3 = ",\"statusMessageId\":"@;
    let l4 = ",\"cfxStatusMessageId\":"@;
    let l5 = "}"@;
    let d1 = digits_of(d.suggestion_count as nat);
    let d2 = digits_of(d.bug_report_count as nat);
    let x3 = spec_encode_id(d.status_message_id);
    let x4 = spec_encode_id(d.cfx_status_message_id);
    let a1 = l1 + d1;
    let a2 = a1 + l2;
    let a3 = a2 + d2;
    let a4 = a3 + l3;
    let a5 = a4 + x3;
    let a6 = a5 + l4;
    let a7 = a6 + x4;
    let a8 = a7 + l5;
    let s = spec_encode(d);
    assert(s == a8);
    lemma_digits_of_digits(d.suggestion_count as nat);
    lemma_digits_of_digits(d.bug_report_count as nat);
    assert(x3.len() >= 1) by {
        match d.status_message_id {
            Some(x) => lemma_digits_of_digits(x as nat),
            None => {},
        }
    }
    assert(x4.len() >= 1) by {
        match d.cfx_status_message_id {
            Some(x) => lemma_digits_of_digits(x as nat),
            None => {},
        }
    }
    let o2: nat = (19 + d1.len()) as nat;
    let o3: nat = (o2 + 18) as nat;
    let o4: nat = (o3 + d2.len()) as nat;
    let o5: nat = (o4 + 19) as nat;
    let o6: nat = (o5 + x3.len()) as nat;
    let o7: nat = (o6 + 22) as nat;
    let o8: nat = (o7 + x4.len()) as nat;
    assert(s.len() == o8 + 1);
    // Where each segment of the encoding stands in the whole text.
    assert forall|k: int| 0 <= k < 19 implies s[k] == #[trigger] l1[k] by {
        assert(a1[k] == l1[k]);
        assert(a2[k] == a1[k]);
        assert(a3[k] == a2[k]);
        assert(a4[k] == a3[k]);
        assert(a5[k] == a4[k]);
        assert(a6[k] == a5[k]);
        assert(a7[k] == a6[k]);
        assert(s[k] == a7[k]);
    }
    assert forall|k: int| 0 <= k < d1.len() implies s[19 + k] == #[trigger] d1[k] by {
        assert(a1[19 + k] == d1[k]);
        assert(a2[19 + k] == a1[19 + k]);
        assert(a3[19 + k] == a2[19 + k]);
        assert(a4[19 + k] == a3[19 + k]);
        assert(a5[19 + k] == a4[19 + k]);
        assert(a6[19 + k] == a5[19 + k]);
        assert(a7[19 + k] == a6[19 + k]);
        assert(s[19 + k] == a7[19 + k]);
    }
    assert forall|k: int| 0 <= k < 18 implies s[o2 + k] == #[trigger] l2[k] by {
        assert(a2[o2 + k] == l2[k]);
        assert(a3[o2 + k] == a2[o2 + k]);
        assert(a4[o2 + k] == a3[o2 + k]);
        assert(a5[o2 + k] == a4[o2 + k]);
        assert(a6[o2 + k] == a5[o2 + k]);
        assert(a7[o2 + k] == a6[o2 + k]);
        assert(s[o2 + k] == a7[o2 + k]);
    }
    assert forall|k: int| 0 <= k < d2.len() implies s[o3 + k] == #[trigger] d2[k] by {
        assert(a3[o3 + k] == d2[k]);
        assert(a4[o3 + k] == a3[o3 + k]);
        assert(a5[o3 + k] == a4[o3 + k]);
        assert(a6[o3 + k] == a5[o3 + k]);
        assert(a7[o3 + k] == a6[o3 + k]);
        assert(s[o3 + k] == a7[o3 + k]);
    }
    assert forall|k: int| 0 <= k < 19 implies s[o4 + k] == #[trigger] l3[k] by {
        assert(a4[o4 + k] == l3[k]);
        assert(a5[o4 + k] == a4[o4 + k]);
        assert(a6[o4 + k] == a5[o4 + k]);
        assert(a7[o4 + k] == a6[o4 + k]);
        assert(s[o4 + k] == a7[o4 + k]);
    }
    assert forall|k: int| 0 <= k < x3.len() implies s[o5 + k] == #[trigger] x3[k] by {
        assert(a5[o5 + k] == x3[k]);
        assert(a6[o5 + k] == a5[o5 + k]);
        assert(a7[o5 + k] == a6[o5 + k]);
        assert(s[o5 + k] == a7[o5 + k]);
    }
    assert forall|k: int| 0 <= k < 22 implies s[o6 + k] == #[trigger] l4[k] by {
        assert(a6[o6 + k] == l4[k]);
        assert(a7[o6 + k] == a6[o6 + k]);
        assert(s[o6 + k] == a7[o6 + k]);
    }
    assert forall|k: int| 0 <= k < x4.len() implies s[o7 + k] == #[trigger] x4[k] by {
        assert(a7[o7 + k] == x4[k]);
        assert(s[o7 + k] == a7[o7 + k]);
    }
    assert(s[o8 as int] == '}') by {
        assert(a8[o8 as int] == l5[0]);
    }
    // The walk down the text, one field at a time.
    let st0 = init_state();
    assert(s[0] == '{');
    lemma_skip_ws_here(s, 0);
    assert(s[1] == '"');
    lemma_skip_ws_here(s, 1);
    // First field: the suggestion counter.
    let sc: u64 = d.suggestion_count as u64;
    assert forall|k: int| 2 <= k < 17 implies s[k] != '"' && s[k] != '\\' by {
        assert(s[k] == l1[k]);
    }
    lemma_key_end_scan(s, 2, 17);
    assert(key_end(s, 2) == Some(17nat));
    assert(s[18] == ':');
    lemma_skip_ws_here(s, 18);
    assert(s[19] == d1[0]);
    assert(is_digit(s[19]));
    lemma_skip_ws_here(s, 19);
    assert(s[o2 as int] == l2[0]);
    assert(s[o2 as int] == ',');
    assert(!is_digit(s[o2 as int]));
    lemma_parse_number_digits(s, 19, sc);
    assert(parse_scalar(s, 19) == Some((JsonScalar::Num(sc), o2)));
    assert(key_suggestion().len() == 15);
    assert forall|k: int| 0 <= k < 15 implies s[2 + k] == #[trigger] key_suggestion()[k] by {
        assert(s[2 + k] == l1[2 + k]);
    }
    lemma_lit_at_range(s, 2, key_suggestion(), 0);
    assert(is_key(s, 2, 17, key_suggestion()));
    let st1 = LoadState {
        rec: DataJson { suggestion_count: d.suggestion_count, ..st0.rec },
        seen_suggestion: true,
        ..st0
    };
    assert(apply_field(st0, s, 2, 17, JsonScalar::Num(sc)) == Some(st1));
    lemma_skip_ws_here(s, o2);
    let p2: nat = (o2 + 1) as nat;
    assert(parse_pairs(s, 1, st0) == parse_pairs(s, p2, st1));
    // Second field: the bug-report counter.
    let brc: u64 = d.bug_report_count as u64;
    assert(s[p2 as int] == l2[1]);
    assert(s[p2 as int] == '"');
    lemma_skip_ws_here(s, p2);
    let lo2: nat = (o2 + 2) as nat;
    let hi2: nat = (o2 + 16) as nat;
    assert forall|k: int| lo2 <= k < hi2 implies s[k] != '"' && s[k] != '\\' by {
        assert(s[o2 + (k - o2)] == l2[k - o2]);
    }
    assert(s[hi2 as int] == l2[16]);
    assert(s[hi2 as int] == '"');
    lemma_key_end_scan(s, lo2, hi2);
    assert(s[(o2 + 17) as int] == l2[17]);
    assert(s[(o2 + 17) as int] == ':');
    lemma_skip_ws_here(s, (o2 + 17) as nat);
    assert(s[o3 as int] == d2[0]);
    assert(is_digit(s[o3 as int]));
    lemma_skip_ws_here(s, o3);
    assert(s[o4 as int] == l3[0]);
    assert(s[o4 as int] == ',');
    assert(!is_digit(s[o4 as int]));
    lemma_parse_number_digits(s, o3, brc);
    assert(parse_scalar(s, o3) == Some((JsonScalar::Num(brc), o4)));
    assert(key_bug_report().len() == 14);
    assert(!is_key(s, lo2, hi2, key_suggestion()));
    assert forall|k: int| 0 <= k < 14 implies s[lo2 + k] == #[trigger] key_bug_report()[k] by {
        assert(s[o2 + (2 + k)] == l2[2 + k]);
    }
    lemma_lit_at_range(s, lo2, key_bug_report(), 0);
    assert(is_key(s, lo2, hi2, key_bug_report()));
    let st2 = LoadState {
        rec: DataJson { bug_report_count: d.bug_report_count, ..st1.rec },
        seen_bug_report: true,
        ..st1
    };
    assert(apply_field(st1, s, lo2, hi2, JsonScalar::Num(brc)) == Some(st2));
    lemma_skip_ws_here(s, o4);
    let p3: nat = (o4 + 1) as nat;
    assert(parse_pairs(s, p2, st1) == parse_pairs(s, p3, st2));
    // Third field: the server-status message id.
    assert(s[p3 as int] == l3[1]);
    assert(s[p3 as int] == '"');
    lemma_skip_ws_here(s, p3);
    let lo3: nat = (o4 + 2) as nat;
    let hi3: nat = (o4 + 17) as nat;
    assert forall|k: int| lo3 <= k < hi3 implies s[k] != '"' && s[k] != '\\' by {
        assert(s[o4 + (k - o4)] == l3[k - o4]);
    }
    assert(s[hi3 as int] == l3[17]);
    assert(s[hi3 as int] == '"');
    lemma_key_end_scan(s, lo3, hi3);
    assert(s[(o4 + 18) as int] == l3[18]);
    assert(s[(o4 + 18) as int] == ':');
    lemma_skip_ws_here(s, (o4 + 18) as nat);
    assert(s[o6 as int] == l4[0]);
    assert(s[o6 as int] == ',');
    assert(!is_digit(s[o6 as int]));
    let v3 = match d.status_message_id {
        Some(x) => JsonScalar::Num(x),
        None => JsonScalar::Null,
    };
    assert(parse_scalar(s, o5) == Some((v3, o6))) by {
        match d.status_message_id {
            Some(x) => {
                lemma_digits_of_digits(x as nat);
                assert(s[o5 as int] == x3[0]);
                assert(is_digit(s[o5 as int]));
                lemma_parse_number_digits(s, o5, x);
            },
            None => {
                assert(x3 == "null"@);
                assert(s[o5 as int] == x3[0]);
                assert(s[(o5 + 1) as int] == x3[1]);
                assert(s[(o5 + 2) as int] == x3[2]);
                assert(s[(o5 + 3) as int] == x3[3]);
                assert(s[o5 as int] == 'n');
                assert(!is_digit(s[o5 as int]));
            },
        }
    }
    lemma_skip_ws_here(s, o5);
    assert(key_status_id().len() == 15);
    assert(!lit_at(s, lo3, key_suggestion(), 0)) by {
        reveal_with_fuel(lit_at, 3);
        assert(s[(o4 + 3) as int] == l3[3]);
        assert(s[(lo3 + 1) as int] == 't');
        assert(key_suggestion()[1] == 'u');
    }
    assert(!is_key(s, lo3, hi3, key_suggestion()));
    assert(!is_key(s, lo3, hi3, key_bug_report()));
    assert forall|k: int| 0 <= k < 15 implies s[lo3 + k] == #[trigger] key_status_id()[k] by {
        assert(s[o4 + (2 + k)] == l3[2 + k]);
    }
    lemma_lit_at_range(s, lo3, key_status_id(), 0);
    assert(is_key(s, lo3, hi3, key_status_id()));
    let st3 = LoadState {
        rec: DataJson { status_message_id: d.status_message_id, ..st2.rec },
        seen_status_id: true,
        ..st2
    };
    assert(apply_field(st2, s, lo3, hi3, v3) == Some(st3));
    lemma_skip_ws_here(s, o6);
    let p4: nat = (o6 + 1) as nat;
    assert(parse_pairs(s, p3, st2) == parse_pairs(s, p4, st3));
    // Fourth field: the platform-status message id.
    assert(s[p4 as int] == l4[1]);
    assert(s[p4 as int] == '"');
    lemma_skip_ws_here(s, p4);
    let lo4: nat = (o6 + 2) as nat;
    let hi4: nat = (o6 + 20) as nat;
    assert forall|k: int| lo4 <= k < hi4 implies s[k] != '"' && s[k] != '\\' by {
        assert(s[o6 + (k - o6)] == l4[k - o6]);
    }
    assert(s[hi4 as int] == l4[20]);
    assert(s[hi4 as int] == '"');
    lemma_key_end_scan(s, lo4, hi4);
    assert(s[(o6 + 21) as int] == l4[21]);
    assert(s[(o6 + 21) as int] == ':');
    lemma_skip_ws_here(s, (o6 + 21) as nat);
    assert(!is_digit(s[o8 as int]));
    let v4 = match d.cfx_status_message_id {
        Some(x) => JsonScalar::Num(x),
        None => JsonScalar::Null,
    };
    assert(parse_scalar(s, o7) == Some((v4, o8))) by {
        match d.cfx_status_message_id {
            Some(x) => {
                lemma_digits_of_digits(x as nat);
                assert(s[o7 as int] == x4[0]);
                assert(is_digit(s[o7 as int]));
                lemma_parse_number_digits(s, o7, x);
            },
            None => {
                assert(x4 == "null"@);
                assert(s[o7 as int] == x4[0]);
                assert(s[(o7 + 1) as int] == x4[1]);
                assert(s[(o7 + 2) as int] == x4[2]);
                assert(s[(o7 + 3) as int] == x4[3]);
                assert(s[o7 as int] == 'n');
                assert(!is_digit(s[o7 as int]));
            },
        }
    }
    lemma_skip_ws_here(s, o7);
    assert(key_cfx_status_id().len() == 18);
    assert(!is_key(s, lo4, hi4, key_suggestion()));
    assert(!is_key(s, lo4, hi4, key_bug_report()));
    assert(!is_key(s, lo4, hi4, key_status_id()));
    assert forall|k: int| 0 <= k < 18 implies s[lo4 + k] == #[trigger] key_cfx_status_id()[k] by {
        assert(s[o6 + (2 + k)] == l4[2 + k]);
    }
    lemma_lit_at_range(s, lo4, key_cfx_status_id(), 0);
    assert(is_key(s, lo4, hi4, key_cfx_status_id()));
    let st4 = LoadState {
        rec: DataJson { cfx_status_message_id: d.cfx_status_message_id, ..st3.rec },
        seen_cfx_status_id: true,
        ..st3
    };
    assert(apply_field(st3, s, lo4, hi4, v4) == Some(st4));
    lemma_skip_ws_here(s, o8);
    assert(parse_pairs(s, p4, st3) == Some((st4, (o8 + 1) as nat)));
    // Reassembly: the text ends right after the closing brace.
    lemma_skip_ws_here(s, (o8 + 1) as nat);
    assert(parse_pairs(s, 1, st0) == Some((st4, (o8 + 1) as nat)));
    assert(st4.rec == d);
    assert(spec_parse_record(s) == Some(st4.rec));
}

/// Round-trip persistence: recording a sent message id and storing the
/// record leaves a text from which a fresh load yields that same id (and the
/// whole record) back.
pub proof fn lemma_record_sent_round_trip(d: DataJson, target: Target, id: u64)
    ensures
        spec_parse_record(spec_encode(d.with_id(target, id))) == Some(d.with_id(target, id)),
        d.with_id(target, id).spec_get(target) == Some(id),
{
    lemma_encode_parse_round_trip(d.with_id(target, id));
}

/// The decimal text of a number.
pub fn u64_string(n: u64) -> (r: String)
    ensures
        r@ == digits_of(n as nat),
{
    let mut v: Vec<char> = Vec::new();
    push_digits(&mut v, n);
    assert(v@ =~= digits_of(n as nat));
    chars_to_string(&v)
}
} // verus!
