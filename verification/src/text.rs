//! Text shaping for rendered payloads: display truncation and escaping of
//! the message markup that player-chosen names could otherwise corrupt.
use vstd::prelude::*;

verus! {

/// Relies on `String::from_iter` over `char` (via `Iterator::collect`):
/// collecting characters yields the string of exactly those characters.
#[verifier::external_body]
pub(crate) fn chars_to_string(v: &Vec<char>) -> (r: String)
    ensures
        r@ == v@,
{
    v.iter().collect()
}

/// The first `max` characters of a text, or all of it if it is shorter.
pub open spec fn spec_truncate(s: Seq<char>, max: nat) -> Seq<char> {
    if s.len() <= max {
        s
    } else {
        s.take(max as int)
    }
}

/// Cuts a text at `max_chars` characters (not bytes).
pub fn truncate(s: &str, max_chars: usize) -> (r: &str)
    ensures
        r@ == spec_truncate(s@, max_chars as nat),
{
    let n = s.unicode_len();
    if n <= max_chars {
        s
    } else {
        let r = s.substring_char(0, max_chars);
        assert(r@ =~= spec_truncate(s@, max_chars as nat));
        r
    }
}

/// Characters that carry formatting meaning in the message markup: emphasis,
/// underline, strikethrough, emoji shortcodes, code spans, and the escape
/// character itself.
pub open spec fn needs_escape(c: char) -> bool {
    c == '\\' || c == '*' || c == '_' || c == '~' || c == ':' || c == '`'
}

/// A character as it is rendered: markup characters get a leading backslash.
pub open spec fn escape_char(c: char) -> Seq<char> {
    if needs_escape(c) {
        seq!['\\', c]
    } else {
        seq![c]
    }
}

/// A whole text as it is rendered, each markup character escaped on its own.
pub open spec fn spec_sanitize(s: Seq<char>) -> Seq<char>
    decreases s.len(),
{
    if s.len() == 0 {
        Seq::empty()
    } else {
        spec_sanitize(s.drop_last()) + escape_char(s.last())
    }
}

/// Escapes every markup character of a player-chosen name.
pub fn sanitize_name(name: &str) -> (r: String)
    ensures
        r@ == spec_sanitize(name@),
{
    let n = name.unicode_len();
    let mut out: Vec<char> = Vec::new();
    let mut i: usize = 0;
    while i < n
        invariant
            i <= n,
            n == name@.len(),
            out@ == spec_sanitize(name@.take(i as int)),
        decreases n - i,
    {
        let c = name.get_char(i);
        if c == '\\' || c == '*' || c == '_' || c == '~' || c == ':' || c == '`' {
            out.push('\\');
            out.push(c);
        } else {
            out.push(c);
        }
        i += 1;
        proof {
            assert(name@.take(i as int).drop_last() =~= name@.take(i - 1));
            assert(name@.take(i as int).last() == name@[i - 1]);
            assert(out@ =~= spec_sanitize(name@.take(i as int)));
        }
    }
    assert(name@.take(n as int) =~= name@);
    chars_to_string(&out)
}

/// Character-for-character equality of two texts.
pub fn str_eq(a: &str, b: &str) -> (r: bool)
    ensures
        r == (a@ == b@),
{
    let n = a.unicode_len();
    let m = b.unicode_len();
    if n != m {
        return false;
    }
    let mut i: usize = 0;
    while i < n
        invariant
            i <= n,
            n == a@.len(),
            n == b@.len(),
            forall|k: int| 0 <= k < i ==> a@[k] == b@[k],
        decreases n - i,
    {
        if a.get_char(i) != b.get_char(i) {
            return false;
        }
        i += 1;
    }
    proof {
        assert(a@ =~= b@);
    }
    true
}

} // verus!
