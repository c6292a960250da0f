//! Character-level text building blocks: decimal and hexadecimal rendering
//! of integers, shared by the error, JSON and report modules.

use vstd::prelude::*;
use vstd::string::StringExecFns;

verus! {

/// The character of a hexadecimal digit (lower case), `d` in `0..16`.
pub open spec fn hex_char(d: nat) -> char {
    if d == 0 { '0' } else if d == 1 { '1' } else if d == 2 { '2' } else if d == 3 { '3' }
    else if d == 4 { '4' } else if d == 5 { '5' } else if d == 6 { '6' } else if d == 7 { '7' }
    else if d == 8 { '8' } else if d == 9 { '9' } else if d == 10 { 'a' } else if d == 11 { 'b' }
    else if d == 12 { 'c' } else if d == 13 { 'd' } else if d == 14 { 'e' } else { 'f' }
}

/// Decimal rendering of a natural number, most significant digit first.
pub open spec fn nat_text(n: nat) -> Seq<char>
    decreases n,
{
    if n < 10 {
        seq![hex_char(n)]
    } else {
        nat_text(n / 10).push(hex_char(n % 10))
    }
}

/// Decimal rendering of an integer, with a leading `-` when negative.
pub open spec fn int_text(i: int) -> Seq<char> {
    if i < 0 {
        seq!['-'] + nat_text((-i) as nat)
    } else {
        nat_text(i as nat)
    }
}

/// Two lower-case hexadecimal digits of a byte.
pub open spec fn byte_hex(b: u8) -> Seq<char> {
    seq![hex_char((b / 16) as nat), hex_char((b % 16) as nat)]
}

/// Appends a character to a string (`String::push`).
#[verifier::external_body]
pub(crate) fn push_char(s: &mut String, c: char)
    ensures
        final(s)@ == old(s)@.push(c),
{
    s.push(c);
}

/// Appends a string slice to a string.
pub(crate) fn push_str(s: &mut String, t: &str)
    ensures
        final(s)@ == old(s)@ + t@,
{
    s.append(t);
}

/// Character of the hexadecimal digit `d`.
pub fn digit_char(d: u8) -> (c: char)
    requires
        d < 16,
    ensures
        c == hex_char(d as nat),
{
    match d {
        0 => '0', 1 => '1', 2 => '2', 3 => '3', 4 => '4', 5 => '5', 6 => '6', 7 => '7',
        8 => '8', 9 => '9', 10 => 'a', 11 => 'b', 12 => 'c', 13 => 'd', 14 => 'e', _ => 'f',
    }
}

/// Appends the decimal rendering of `n`.
pub fn push_u64(s: &mut String, n: u64)
    ensures
        final(s)@ == old(s)@ + nat_text(n as nat),
    decreases n,
{
    if n >= 10 {
        push_u64(s, n / 10);
    }
    push_char(s, digit_char((n % 10) as u8));
    proof {
        if n >= 10 {
            assert(final(s)@ =~= old(s)@ + nat_text(n as nat));
        } else {
            assert(final(s)@ =~= old(s)@ + nat_text(n as nat));
        }
    }
}

/// Appends the decimal rendering of `i`.
pub fn push_i64(s: &mut String, i: i64)
    ensures
        final(s)@ == old(s)@ + int_text(i as int),
{
    if i < 0 {
        push_char(s, '-');
        let j: i64 = -(i + 1);
        let m: u64 = j as u64 + 1;
        assert(m == -i);
        push_u64(s, m);
        assert(final(s)@ =~= old(s)@ + int_text(i as int));
    } else {
        push_u64(s, i as u64);
    }
}

/// Decimal rendering of a signed integer as a new string.
pub fn i64_to_text(i: i64) -> (s: String)
    ensures
        s@ == int_text(i as int),
{
    let mut s = String::new();
    push_i64(&mut s, i);
    assert(s@ =~= int_text(i as int));
    s
}

/// Appends the two lower-case hexadecimal digits of a byte.
pub fn push_byte_hex(s: &mut String, b: u8)
    ensures
        final(s)@ == old(s)@ + byte_hex(b),
{
    push_char(s, digit_char(b / 16));
    push_char(s, digit_char(b % 16));
    assert(final(s)@ =~= old(s)@ + byte_hex(b));
}

/// The character of a hexadecimal digit (upper case), `d` in `0..16`.
pub open spec fn upper_hex_char(d: nat) -> char {
    if d < 10 { hex_char(d) } else if d == 10 { 'A' } else if d == 11 { 'B' } else if d == 12 { 'C' }
    else if d == 13 { 'D' } else if d == 14 { 'E' } else { 'F' }
}

/// Upper-case hexadecimal rendering of a natural number, most significant
/// digit first.
pub open spec fn upper_hex_text(n: nat) -> Seq<char>
    decreases n,
{
    if n < 16 {
        seq![upper_hex_char(n)]
    } else {
        upper_hex_text(n / 16).push(upper_hex_char(n % 16))
    }
}

/// Upper-case hexadecimal rendering of `n` with zeros in front up to
/// `width` characters (the format `{:0width$X}`).
pub open spec fn padded_upper_hex(n: nat, width: nat) -> Seq<char> {
    let d = upper_hex_text(n);
    if d.len() < width {
        Seq::new((width - d.len()) as nat, |i: int| '0') + d
    } else {
        d
    }
}

/// How many digits the rendering of `n` has, below four digits.
proof fn lemma_upper_hex_len4(n: nat)
    ensures
        n < 16 ==> upper_hex_text(n).len() == 1,
        16 <= n < 256 ==> upper_hex_text(n).len() == 2,
        256 <= n < 4096 ==> upper_hex_text(n).len() == 3,
        4096 <= n ==> upper_hex_text(n).len() >= 4,
    decreases n,
{
    if n >= 16 {
        lemma_upper_hex_len4(n / 16);
    }
}

/// Character of the upper-case hexadecimal digit `d`.
pub fn upper_digit_char(d: u8) -> (c: char)
    requires
        d < 16,
    ensures
        c == upper_hex_char(d as nat),
{
    match d {
        0 => '0', 1 => '1', 2 => '2', 3 => '3', 4 => '4', 5 => '5', 6 => '6', 7 => '7',
        8 => '8', 9 => '9', 10 => 'A', 11 => 'B', 12 => 'C', 13 => 'D', 14 => 'E', _ => 'F',
    }
}

/// Appends the upper-case hexadecimal rendering of `n`.
pub fn push_upper_hex(s: &mut String, n: u64)
    ensures
        final(s)@ == old(s)@ + upper_hex_text(n as nat),
    decreases n,
{
    if n >= 16 {
        push_upper_hex(s, n / 16);
    }
    push_char(s, upper_digit_char((n % 16) as u8));
    proof {
        assert(final(s)@ =~= old(s)@ + upper_hex_text(n as nat));
    }
}

/// Appends the upper-case hexadecimal rendering of `n` on at least four
/// characters, zeros in front.
pub fn push_upper_hex4(s: &mut String, n: u64)
    ensures
        final(s)@ == old(s)@ + padded_upper_hex(n as nat, 4),
{
    proof {
        lemma_upper_hex_len4(n as nat);
    }
    let ghost d = upper_hex_text(n as nat);
    if n < 16 {
        push_str(s, "000");
    } else if n < 256 {
        push_str(s, "00");
    } else if n < 4096 {
        push_str(s, "0");
    }
    proof {
        reveal_strlit("000");
        reveal_strlit("00");
        reveal_strlit("0");
    }
    let ghost mid = s@;
    push_upper_hex(s, n);
    proof {
        if d.len() < 4 {
            assert(mid =~= old(s)@ + Seq::new((4 - d.len()) as nat, |i: int| '0'));
        } else {
            assert(mid =~= old(s)@);
        }
        assert(final(s)@ =~= old(s)@ + padded_upper_hex(n as nat, 4));
    }
}

} // verus!
