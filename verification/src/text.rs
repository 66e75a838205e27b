//! Verified text utilities: string equality, whitespace trimming, and the
//! case-insensitive "ping" test used by the keep-alive path.

use vstd::prelude::*;

verus! {

/// Relies on `String::push`: appends one character at the end of the string.
#[verifier::external_body]
pub(crate) fn push_char(s: &mut String, c: char)
    ensures
        final(s)@ == old(s)@.push(c),
{
    s.push(c);
}

/// Character-by-character string equality, stated over the views.
pub fn str_eq(a: &str, b: &str) -> (r: bool)
    ensures
        r == (a@ == b@),
{
    let na = a.unicode_len();
    let nb = b.unicode_len();
    if na != nb {
        return false;
    }
    let mut i: usize = 0;
    while i < na
        invariant
            i <= na,
            na == a@.len(),
            na == b@.len(),
            forall|k: int| 0 <= k < i ==> a@[k] == b@[k],
        decreases na - i,
    {
        if a.get_char(i) != b.get_char(i) {
            return false;
        }
        i += 1;
    }
    proof {
        assert(a@ =~= b@);
    }
    true
}

/// The whitespace characters the wire format skips between tokens (JSON
/// knows only these four).
pub open spec fn is_ws_char(c: char) -> bool {
    c == ' ' || c == '\t' || c == '\n' || c == '\r'
}

pub fn is_ws(c: char) -> (r: bool)
    ensures
        r == is_ws_char(c),
{
    c == ' ' || c == '\t' || c == '\n' || c == '\r'
}

/// The Unicode whitespace characters, as trimming understands them.
pub open spec fn is_trim_ws_char(c: char) -> bool {
    c == ' ' || c == '\t' || c == '\n' || c == '\r' || c as u32 == 0x000B || c as u32 == 0x000C
        || c as u32 == 0x0085 || c as u32 == 0x00A0 || c as u32 == 0x1680 || (0x2000 <= c as u32
        && c as u32 <= 0x200A) || c as u32 == 0x2028 || c as u32 == 0x2029 || c as u32 == 0x202F
        || c as u32 == 0x205F || c as u32 == 0x3000
}

pub fn is_trim_ws(c: char) -> (r: bool)
    ensures
        r == is_trim_ws_char(c),
{
    let u = c as u32;
    u == 0x20 || u == 0x09 || u == 0x0A || u == 0x0D || u == 0x0B || u == 0x0C || u == 0x85
        || u == 0xA0 || u == 0x1680 || (0x2000 <= u && u <= 0x200A) || u == 0x2028 || u == 0x2029
        || u == 0x202F || u == 0x205F || u == 0x3000
}

pub open spec fn trim_front(s: Seq<char>) -> Seq<char>
    decreases s.len(),
{
    if s.len() > 0 && is_trim_ws_char(s[0]) {
        trim_front(s.drop_first())
    } else {
        s
    }
}

pub open spec fn trim_back(s: Seq<char>) -> Seq<char>
    decreases s.len(),
{
    if s.len() > 0 && is_trim_ws_char(s.last()) {
        trim_back(s.drop_last())
    } else {
        s
    }
}

/// The text with leading and trailing Unicode whitespace removed.
pub open spec fn spec_trim(s: Seq<char>) -> Seq<char> {
    trim_back(trim_front(s))
}

/// Case-insensitive comparison of one character against an ASCII letter given
/// in both cases.
pub open spec fn eq_ci(c: char, lo: char, up: char) -> bool {
    c == lo || c == up
}

/// Whether the text, trimmed, reads "ping" regardless of ASCII case.
pub open spec fn is_ping_text(s: Seq<char>) -> bool {
    let t = spec_trim(s);
    t.len() == 4 && eq_ci(t[0], 'p', 'P') && eq_ci(t[1], 'i', 'I') && eq_ci(t[2], 'n', 'N')
        && eq_ci(t[3], 'g', 'G')
}

/// Decides whether a text frame is the application-level keep-alive "ping"
/// (trimmed, ASCII case-insensitive).
pub fn is_ping(text: &str) -> (r: bool)
    ensures
        r == is_ping_text(text@),
{
    let n = text.unicode_len();
    let mut start: usize = 0;
    proof {
        assert(text@.skip(0) =~= text@);
    }
    while start < n && is_trim_ws(text.get_char(start))
        invariant
            start <= n,
            n == text@.len(),
            trim_front(text@) == trim_front(text@.skip(start as int)),
        decreases n - start,
    {
        proof {
            assert(text@.skip(start as int).drop_first() =~= text@.skip(start as int + 1));
        }
        start += 1;
    }
    proof {
        assert(trim_front(text@) =~= text@.skip(start as int));
        assert(text@.skip(start as int) =~= text@.subrange(start as int, n as int));
    }
    let mut end: usize = n;
    while end > start && is_trim_ws(text.get_char(end - 1))
        invariant
            start <= end <= n,
            n == text@.len(),
            trim_front(text@) == text@.skip(start as int),
            trim_back(text@.skip(start as int)) == trim_back(
                text@.subrange(start as int, end as int),
            ),
        decreases end,
    {
        proof {
            assert(text@.subrange(start as int, end as int).drop_last() =~= text@.subrange(
                start as int,
                end as int - 1,
            ));
        }
        end -= 1;
    }
    proof {
        assert(spec_trim(text@) =~= text@.subrange(start as int, end as int));
    }
    if end - start != 4 {
        return false;
    }
    let c0 = text.get_char(start);
    let c1 = text.get_char(start + 1);
    let c2 = text.get_char(start + 2);
    let c3 = text.get_char(start + 3);
    (c0 == 'p' || c0 == 'P') && (c1 == 'i' || c1 == 'I') && (c2 == 'n' || c2 == 'N') && (c3 == 'g'
        || c3 == 'G')
}

} // verus!
