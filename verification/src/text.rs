//! Text rendering helpers: decimal and hexadecimal digits.

use vstd::prelude::*;
use std::str::Chars;
use vstd::std_specs::iter::IteratorSpec;

verus! {

/// `String::push` appends one character.
pub assume_specification[ String::push ](s: &mut String, ch: char)
    ensures
        final(s)@ == old(s)@.push(ch),
;

/// Text decoded from bytes as UTF-8, with each invalid sequence replaced by
/// U+FFFD, as `String::from_utf8_lossy` does.
pub uninterp spec fn utf8_lossy(b: Seq<u8>) -> Seq<char>;

/// `String::from_utf8_lossy`, owned: the bytes as UTF-8 text with invalid
/// sequences replaced. The contract only names the result.
#[verifier::external_body]
pub(crate) fn lossy_string(b: &[u8]) -> (r: String)
    ensures
        r@ == utf8_lossy(b@),
{
    String::from_utf8_lossy(b).to_string()
}

/// The character of a decimal digit.
pub open spec fn digit_char(d: int) -> char {
    (d + 48) as char
}

/// Decimal rendering of a natural number (no leading zeros; "0" for zero).
pub open spec fn dec(n: nat) -> Seq<char>
    decreases n,
{
    if n < 10 {
        seq![digit_char(n as int)]
    } else {
        dec(n / 10).push(digit_char((n % 10) as int))
    }
}

/// The character of a lower-case hexadecimal digit.
pub open spec fn hex_char(d: int) -> char {
    if d < 10 { (d + 48) as char } else { (d + 87) as char }
}

/// Two lower-case hexadecimal digits of a byte.
pub open spec fn hex2(b: u8) -> Seq<char> {
    seq![hex_char((b / 16) as int), hex_char((b % 16) as int)]
}

/// Appends the decimal digits of `n` to `s`.
pub fn push_dec(s: &mut String, n: u64)
    ensures
        final(s)@ == old(s)@ + dec(n as nat),
    decreases n,
{
    if n >= 10 {
        push_dec(s, n / 10);
    }
    let d: u8 = (n % 10) as u8;
    let c = (d + 48) as char;
    s.push(c);
    proof {
        if n >= 10 {
            assert(dec(n as nat) == dec((n / 10) as nat).push(digit_char((n % 10) as int)));
        } else {
            assert(dec(n as nat) =~= seq![digit_char(n as int)]);
        }
    }
}

/// Decimal rendering of `n` as a new string.
pub fn dec_string(n: u64) -> (s: String)
    ensures
        s@ == dec(n as nat),
{
    let mut s = String::new();
    push_dec(&mut s, n);
    assert(s@ =~= dec(n as nat));
    s
}

/// Appends the two lower-case hexadecimal digits of `b` to `s`.
pub fn push_hex2(s: &mut String, b: u8)
    ensures
        final(s)@ == old(s)@ + hex2(b),
{
    let hi: u8 = b / 16;
    let lo: u8 = b % 16;
    let ch = if hi < 10 { (hi + 48) as char } else { (hi + 87) as char };
    let cl = if lo < 10 { (lo + 48) as char } else { (lo + 87) as char };
    s.push(ch);
    s.push(cl);
    assert(final(s)@ =~= old(s)@ + hex2(b));
}


/// The characters of `s`, in order.
pub fn collect_chars(s: &str) -> (r: Vec<char>)
    ensures
        r@ == s@,
{
    broadcast use vstd::string::group_string_axioms;

    let mut out: Vec<char> = Vec::new();
    let mut it: Chars = s.chars();
    let ghost full = s@;
    let ghost mut i: int = 0;
    loop
        invariant_except_break
            0 <= i <= full.len(),
            it.remaining() == full.skip(i),
            out@ == full.take(i),
        invariant
            full == s@,
        ensures
            out@ == full,
        decreases full.len() - i,
    {
        match it.next() {
            None => {
                proof {
                    assert(full.skip(i).len() == 0);
                    assert(full.take(i) =~= full);
                }
                break;
            },
            Some(c) => {
                proof {
                    assert(full.skip(i)[0] == c);
                    assert(full.skip(i).drop_first() =~= full.skip(i + 1));
                    assert(full.take(i).push(c) =~= full.take(i + 1));
                }
                out.push(c);
                proof {
                    i = i + 1;
                }
            },
        }
    }
    out
}

/// The characters `s[a..b]` as a `String`.
pub fn chars_to_string(s: &Vec<char>, a: usize, b: usize) -> (r: String)
    requires
        a <= b <= s.len(),
    ensures
        r@ == s@.subrange(a as int, b as int),
{
    let mut out = String::new();
    let mut i: usize = a;
    while i < b
        invariant
            a <= i <= b <= s.len(),
            out@ == s@.subrange(a as int, i as int),
        decreases b - i,
    {
        out.push(s[i]);
        proof {
            assert(s@.subrange(a as int, i as int).push(s@[i as int]) =~= s@.subrange(a as int, i + 1));
        }
        i = i + 1;
    }
    out
}

/// Whether `s[a..b]` is exactly the text `w`.
pub fn chars_match(s: &Vec<char>, a: usize, b: usize, w: &str) -> (r: bool)
    requires
        a <= b <= s.len(),
    ensures
        r == (s@.subrange(a as int, b as int) == w@),
{
    let n = w.unicode_len();
    if b - a != n {
        return false;
    }
    let mut i: usize = 0;
    while i < n
        invariant
            n == w@.len(),
            b - a == n,
            a <= b <= s.len(),
            0 <= i <= n,
            forall|j: int| 0 <= j < i ==> s@[a + j] == w@[j],
        decreases n - i,
    {
        if s[a + i] != w.get_char(i) {
            proof {
                assert(s@.subrange(a as int, b as int)[i as int] != w@[i as int]);
            }
            return false;
        }
        i = i + 1;
    }
    proof {
        assert(s@.subrange(a as int, b as int) =~= w@);
    }
    true
}


/// Appends the text `t` to `s`.
pub fn push_text(s: &mut String, t: &str)
    ensures
        final(s)@ == old(s)@ + t@,
{
    let n = t.unicode_len();
    let mut i: usize = 0;
    while i < n
        invariant
            n == t@.len(),
            i <= n,
            s@ == old(s)@ + t@.subrange(0, i as int),
        decreases n - i,
    {
        s.push(t.get_char(i));
        i = i + 1;
        assert(s@ =~= old(s)@ + t@.subrange(0, i as int));
    }
    assert(t@.subrange(0, n as int) =~= t@);
}

} // verus!
