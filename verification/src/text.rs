//! Character and string helpers shared by the assembler, the disassembler and the
//! register names.
use vstd::prelude::*;
use vstd::string::StrSliceExecFns;
use vstd::string::StringExecFns;

verus! {

/// Appends `c` to `s`, using `String::push`.
///
/// Trusted: `String::push` appends the one character to the string's contents.
#[verifier::external_body]
pub fn push_char(s: &mut String, c: char)
    ensures
        final(s)@ == old(s)@.push(c),
{
    s.push(c);
}

/// Appends the contents of `other` to `s`.
pub fn push_str(s: &mut String, other: &str)
    ensures
        final(s)@ == old(s)@ + other@,
{
    s.append(other);
}

/// Returns a new string holding the characters of `s`.
pub fn string_from(s: &str) -> (r: String)
    ensures
        r@ == s@,
{
    <String as StringExecFns>::from_str(s)
}

/// Returns the characters of `s`, in order.
pub fn chars_of(s: &str) -> (v: Vec<char>)
    ensures
        v@ == s@,
{
    let n = s.unicode_len();
    let mut v: Vec<char> = Vec::new();
    let mut i: usize = 0;
    while i < n
        invariant
            n == s@.len(),
            i <= n,
            v@ == s@.subrange(0, i as int),
        decreases n - i,
    {
        v.push(s.get_char(i));
        i = i + 1;
    }
    assert(v@ == s@.subrange(0, n as int));
    v
}

/// Returns a string holding the characters `v`, in order.
pub fn string_of(v: &[char]) -> (s: String)
    ensures
        s@ == v@,
{
    let mut s = String::new();
    let mut i: usize = 0;
    while i < v.len()
        invariant
            i <= v@.len(),
            s@ == v@.subrange(0, i as int),
        decreases v.len() - i,
    {
        push_char(&mut s, v[i]);
        i = i + 1;
    }
    assert(v@.subrange(0, v@.len() as int) == v@);
    s
}

/// Returns true if the characters `a` are exactly those of `s`.
pub fn eq_chars_str(a: &[char], s: &str) -> (r: bool)
    ensures
        r == (a@ == s@),
{
    let n = s.unicode_len();
    if a.len() != n {
        return false;
    }
    let mut i: usize = 0;
    while i < n
        invariant
            n == s@.len(),
            n == a@.len(),
            i <= n,
            forall|j: int| 0 <= j < i ==> a@[j] == s@[j],
        decreases n - i,
    {
        if a[i] != s.get_char(i) {
            return false;
        }
        i = i + 1;
    }
    assert(a@ =~= s@);
    true
}

/// The upper-case hexadecimal digit for `n` (0-15).
pub open spec fn hex_digit(n: int) -> char {
    if n < 10 {
        (('0' as int) + n) as char
    } else {
        (('A' as int) + n - 10) as char
    }
}

/// The digits of `value` in upper-case hexadecimal, `width` digits long, most significant
/// first (leading zeroes included).
pub open spec fn hex_digits(value: nat, width: nat) -> Seq<char>
    decreases width,
{
    if width == 0 {
        Seq::empty()
    } else {
        hex_digits(value / 16, (width - 1) as nat).push(hex_digit((value % 16) as int))
    }
}

/// `0x` followed by the two-digit upper-case hex form of `b`, as `{:#04X}` formats it.
pub open spec fn hex_byte_text(b: u8) -> Seq<char> {
    seq!['0', 'x'] + hex_digits(b as nat, 2)
}

/// `0x` followed by the four-digit upper-case hex form of `w`, as `{:#06X}` formats it.
pub open spec fn hex_word_text(w: u16) -> Seq<char> {
    seq!['0', 'x'] + hex_digits(w as nat, 4)
}

/// The upper-case hex digit for `n` (below 16).
pub fn hex_digit_char(n: u8) -> (c: char)
    requires
        n < 16,
    ensures
        c == hex_digit(n as int),
{
    if n < 10 {
        ((48u8 + n) as char)
    } else {
        ((55u8 + n) as char)
    }
}

/// Appends the `width` upper-case hex digits of `value` to `s`.
fn push_hex_digits(s: &mut String, value: u16, width: u8)
    requires
        width <= 4,
    ensures
        final(s)@ == old(s)@ + hex_digits(value as nat, width as nat),
    decreases width,
{
    if width > 0 {
        push_hex_digits(s, value / 16, width - 1);
        push_char(s, hex_digit_char((value % 16) as u8));
    }
}

/// Formats `value` as `width` upper-case hex digits (no prefix).
pub fn hex_digits_of(value: u16, width: u8) -> (s: String)
    requires
        width <= 4,
    ensures
        s@ == hex_digits(value as nat, width as nat),
{
    let mut s = String::new();
    push_hex_digits(&mut s, value, width);
    s
}

/// Formats `b` as `0x` and two upper-case hex digits.
pub fn hex_byte(b: u8) -> (s: String)
    ensures
        s@ == hex_byte_text(b),
{
    let mut s = String::new();
    push_char(&mut s, '0');
    push_char(&mut s, 'x');
    push_hex_digits(&mut s, b as u16, 2);
    s
}

/// Formats `w` as `0x` and four upper-case hex digits.
pub fn hex_word(w: u16) -> (s: String)
    ensures
        s@ == hex_word_text(w),
{
    let mut s = String::new();
    push_char(&mut s, '0');
    push_char(&mut s, 'x');
    push_hex_digits(&mut s, w, 4);
    s
}

} // verus!
