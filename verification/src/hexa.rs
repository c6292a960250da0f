//! Byte strings written as bracketed lists of hexadecimal bytes:
//! `[01,ff,0a]`.

use vstd::prelude::*;
use crate::error::{AfbError, AfbErrorView, err_view};
use crate::text::{byte_hex, nat_text, push_byte_hex, push_char, push_str, push_u64};

verus! {

/// A hexadecimal digit, in either case.
pub open spec fn is_hex_digit(c: char) -> bool {
    ||| 48 <= (c as u32) <= 57
    ||| 97 <= (c as u32) <= 102
    ||| 65 <= (c as u32) <= 70
}

/// The value of a hexadecimal digit.
pub open spec fn hex_digit_value(c: char) -> nat {
    if 48 <= (c as u32) <= 57 {
        (c as u32 - 48) as nat
    } else if 97 <= (c as u32) <= 102 {
        (c as u32 - 87) as nat
    } else {
        (c as u32 - 55) as nat
    }
}

/// The value of a string of hexadecimal digits.
pub open spec fn digits_value(d: Seq<char>) -> nat
    decreases d.len(),
{
    if d.len() == 0 {
        0
    } else {
        digits_value(d.drop_last()) * 16 + hex_digit_value(d.last())
    }
}

/// Every character is a hexadecimal digit.
pub open spec fn all_hex(d: Seq<char>) -> bool {
    forall|i: int| 0 <= i < d.len() ==> is_hex_digit(#[trigger] d[i])
}

/// A byte written in base 16, with an optional leading `+`: what
/// `u8::from_str_radix(_, 16)` accepts.
pub open spec fn hex_byte(s: Seq<char>) -> Option<u8> {
    let d = if s.len() > 0 && s[0] == '+' {
        s.drop_first()
    } else {
        s
    };
    if d.len() > 0 && all_hex(d) && digits_value(d) <= 255 {
        Some(digits_value(d) as u8)
    } else {
        None
    }
}

/// The pieces of a text between commas, as `str::split(',')` gives them.
pub open spec fn split_commas(s: Seq<char>) -> Seq<Seq<char>>
    decreases s.len(),
{
    if s.len() == 0 {
        seq![Seq::empty()]
    } else if s.last() == ',' {
        split_commas(s.drop_last()).push(Seq::empty())
    } else {
        let p = split_commas(s.drop_last());
        p.update(p.len() - 1, p.last().push(s.last()))
    }
}

/// The pieces of a bracketed list: what stands between the first and the
/// last character, split at commas.
pub open spec fn hexa_pieces(input: Seq<char>) -> Seq<Seq<char>> {
    split_commas(input.subrange(1, input.len() - 1))
}

/// Decoding stops at piece `k`: the buffer is full there, or the piece is
/// no byte; every earlier piece was decoded.
pub open spec fn hexa_stop_at(pieces: Seq<Seq<char>>, cap: nat, k: int) -> bool {
    &&& 0 <= k < pieces.len()
    &&& (k == cap || hex_byte(pieces[k]) is None)
    &&& forall|j: int| 0 <= j < k ==> j != cap && #[trigger] hex_byte(pieces[j]) is Some
}

/// The bytes the first `n` pieces stand for.
pub open spec fn hexa_bytes(pieces: Seq<Seq<char>>, n: int) -> Seq<u8> {
    Seq::new(n as nat, |j: int| hex_byte(pieces[j])->Some_0)
}

/// Error when the destination is too small.
pub open spec fn hexa_too_small(cap: nat) -> AfbErrorView {
    err_view("string-decode-hexa"@, "destination buffer too small size:"@ + nat_text(cap))
}

/// Error when a piece is no hexadecimal byte.
pub open spec fn hexa_invalid(input: Seq<char>) -> AfbErrorView {
    err_view("string-ecode-hexa"@, "invalid hexa encoding syntax: '[01,ff,...]' got:"@ + input)
}

/// The bracketed hexadecimal text of a byte string.
pub open spec fn hexa_text(bs: Seq<u8>) -> Seq<char>
    decreases bs.len(),
{
    if bs.len() == 0 {
        seq!['[', ']']
    } else {
        seq!['['] + hexa_items(bs) + seq![']']
    }
}

/// The two-digit texts of bytes, separated by commas.
pub open spec fn hexa_items(bs: Seq<u8>) -> Seq<char>
    decreases bs.len(),
{
    if bs.len() == 0 {
        Seq::empty()
    } else if bs.len() == 1 {
        byte_hex(bs[0])
    } else {
        hexa_items(bs.drop_last()) + seq![','] + byte_hex(bs.last())
    }
}

proof fn lemma_digits_monotone(d: Seq<char>, k: int)
    requires
        0 <= k <= d.len(),
    ensures
        digits_value(d.take(k)) <= digits_value(d),
    decreases d.len(),
{
    if k < d.len() {
        lemma_digits_monotone(d.drop_last(), k);
        assert(d.drop_last().take(k) =~= d.take(k));
    } else {
        assert(d.take(k) =~= d);
    }
}

/// Reads a byte written in base 16, as `u8::from_str_radix(_, 16)` does.
pub fn parse_hex_byte(s: &str) -> (r: Option<u8>)
    ensures
        r == hex_byte(s@),
{
    let n = s.unicode_len();
    let mut start: usize = 0;
    if n > 0 && s.get_char(0) == '+' {
        start = 1;
    }
    let ghost d = if s@.len() > 0 && s@[0] == '+' {
        s@.drop_first()
    } else {
        s@
    };
    assert(d =~= s@.subrange(start as int, n as int));
    if start == n {
        return None;
    }
    let mut value: u32 = 0;
    let mut i: usize = start;
    while i < n
        invariant
            n == s@.len(),
            start <= i <= n,
            d =~= s@.subrange(start as int, n as int),
            d == (if s@.len() > 0 && s@[0] == '+' {
                s@.drop_first()
            } else {
                s@
            }),
            start == s@.len() - d.len(),
            all_hex(d.take(i - start)),
            value == digits_value(d.take(i - start)),
            value <= 255,
        decreases n - i,
    {
        let c = s.get_char(i);
        let ghost k = i - start;
        assert(d[k as int] == c);
        let digit: u32 = if '0' <= c && c <= '9' {
            (c as u32) - 48
        } else if 'a' <= c && c <= 'f' {
            (c as u32) - 87
        } else if 'A' <= c && c <= 'F' {
            (c as u32) - 55
        } else {
            proof {
                assert(!is_hex_digit(d[k as int]));
            }
            return None;
        };
        value = value * 16 + digit;
        proof {
            assert(d.take(k + 1).drop_last() =~= d.take(k));
            assert(all_hex(d.take(k + 1)));
        }
        if value > 255 {
            proof {
                lemma_digits_monotone(d, k + 1);
            }
            return None;
        }
        i = i + 1;
    }
    assert(d.take(n - start) =~= d);
    Some(value as u8)
}

proof fn lemma_split_step(s: Seq<char>, i: int)
    requires
        0 <= i < s.len(),
    ensures
        s[i] == ',' ==> split_commas(s.take(i + 1)) == split_commas(s.take(i)).push(Seq::empty()),
        s[i] != ',' ==> split_commas(s.take(i + 1)) == ({
            let p = split_commas(s.take(i));
            p.update(p.len() - 1, p.last().push(s[i]))
        }),
{
    assert(s.take(i + 1).drop_last() =~= s.take(i));
}

proof fn lemma_split_prefix(s: Seq<char>, m: int)
    requires
        0 <= m <= s.len(),
    ensures
        ({
            let a = split_commas(s.take(m));
            let b = split_commas(s);
            &&& a.len() <= b.len()
            &&& forall|j: int| 0 <= j < a.len() - 1 ==> a[j] == b[j]
            &&& (m < s.len() && s[m] == ',') ==> a.len() < b.len() && a.last() == b[a.len() - 1]
            &&& m == s.len() ==> a == b
        }),
    decreases s.len(),
{
    lemma_split_nonempty(s.take(m));
    lemma_split_nonempty(s);
    if m == s.len() {
        assert(s.take(m) =~= s);
    } else {
        let t = s.drop_last();
        lemma_split_prefix(t, m);
        lemma_split_nonempty(t);
        assert(t.take(m) =~= s.take(m));
        let a = split_commas(s.take(m));
        let b = split_commas(s);
        let bp = split_commas(t);
        assert(s.drop_last() == t);
        if m == t.len() {
            assert(t.take(m) =~= t);
            assert(a == bp);
        }
        assert forall|j: int| 0 <= j < a.len() - 1 implies a[j] == b[j] by {
            assert(a[j] == bp[j]);
        }
    }
}

pub proof fn lemma_split_nonempty(s: Seq<char>)
    ensures
        split_commas(s).len() >= 1,
    decreases s.len(),
{
    if s.len() > 0 {
        lemma_split_nonempty(s.drop_last());
    }
}

/// Decodes `[01,ff,...]` into `buffer`; the decoded bytes are the start of
/// the buffer.
pub fn hexa_to_bytes<'a>(input: &str, buffer: &'a mut [u8]) -> (r: Result<&'a [u8], AfbError>)
    requires
        input@.len() >= 2,
        (input@[0] as u32) < 128,
        (input@.last() as u32) < 128,
    ensures
        ({
            let pieces = hexa_pieces(input@);
            let cap = old(buffer)@.len();
            if exists|k: int| hexa_stop_at(pieces, cap, k) {
                let k = choose|k: int| hexa_stop_at(pieces, cap, k);
                &&& r is Err
                &&& r->Err_0@ == if k == cap {
                    hexa_too_small(cap)
                } else {
                    hexa_invalid(input@)
                }
                &&& final(buffer)@ == hexa_bytes(pieces, k) + old(buffer)@.skip(k)
            } else {
                &&& r is Ok
                &&& r->Ok_0@ == hexa_bytes(pieces, pieces.len() as int)
                &&& final(buffer)@ == hexa_bytes(pieces, pieces.len() as int) + old(buffer)@.skip(
                    pieces.len() as int,
                )
            }
        }),
{
    let ghost inner = input@.subrange(1, input@.len() - 1);
    let ghost pieces = hexa_pieces(input@);
    let ghost cap = old(buffer)@.len();
    let ghost orig = old(buffer)@;
    let n = input.unicode_len();
    let last = n - 1;
    let mut idx: usize = 0;
    let mut piece = String::new();
    let mut i: usize = 1;
    proof {
        assert(inner.take(0) =~= Seq::<char>::empty());
        assert(split_commas(inner.take(0)) == seq![Seq::<char>::empty()]);
    }
    // pieces ending before position i are decoded, the current one is `piece`
    loop
        invariant
            n == input@.len(),
            last == n - 1,
            1 <= i <= last,
            inner == input@.subrange(1, last as int),
            pieces == split_commas(inner),
            cap == buffer@.len(),
            orig.len() == cap,
            orig == old(buffer)@,
            ({
                let sofar = split_commas(inner.take(i - 1));
                &&& idx == sofar.len() - 1
                &&& piece@ == sofar.last()
                &&& forall|j: int| 0 <= j < idx ==> sofar[j] == pieces[j]
            }),
            forall|j: int| 0 <= j < idx ==> j != cap && #[trigger] hex_byte(pieces[j]) is Some,
            idx <= cap,
            buffer@ == hexa_bytes(pieces, idx as int) + orig.skip(idx as int),
        decreases last - i,
    {
        let ghost sofar = split_commas(inner.take(i - 1));
        let at_end = i == last;
        let c = if at_end { ',' } else { input.get_char(i) };
        if at_end || c == ',' {
            // the current piece is complete
            proof {
                lemma_split_nonempty(inner.take(i - 1));
                lemma_split_prefix(inner, i - 1);
                if at_end {
                    assert(inner.take(i - 1) =~= inner);
                } else {
                    lemma_split_step(inner, i - 1);
                    assert(inner[i - 1] == c);
                }
                assert(pieces[idx as int] == piece@);
                assert(idx < pieces.len());
            }
            if idx == buffer.len() {
                proof {
                    assert(hexa_stop_at(pieces, cap, idx as int));
                    let k = choose|k: int| hexa_stop_at(pieces, cap, k);
                    assert(k == idx) by {
                        if k < idx { assert(hex_byte(pieces[k]) is Some); }
                        if idx < k { assert(idx != cap); }
                    }
                }
                let mut msg = String::new();
                push_str(&mut msg, "destination buffer too small size:");
                push_u64(&mut msg, buffer.len() as u64);
                assert(msg@ =~= "destination buffer too small size:"@ + nat_text(cap));
                let e = AfbError::msg_string("string-decode-hexa", msg);
                assert(e@ == hexa_too_small(cap));
                assert(buffer@ == hexa_bytes(pieces, idx as int) + orig.skip(idx as int));
                assert(orig == old(buffer)@);
                return Err(e);
            }
            match parse_hex_byte(piece.as_str()) {
                Some(value) => {
                    let ghost before = buffer@;
                    buffer[idx] = value;
                    proof {
                        assert(buffer@ =~= hexa_bytes(pieces, idx + 1) + orig.skip(idx + 1));
                    }
                },
                None => {
                    proof {
                        assert(hexa_stop_at(pieces, cap, idx as int));
                        let k = choose|k: int| hexa_stop_at(pieces, cap, k);
                        assert(k == idx) by {
                            if k < idx { assert(hex_byte(pieces[k]) is Some); }
                            if idx < k { assert(hex_byte(pieces[idx as int]) is Some); }
                        }
                    }
                    let mut msg = String::new();
                    push_str(&mut msg, "invalid hexa encoding syntax: '[01,ff,...]' got:");
                    push_str(&mut msg, input);
                    assert(msg@ =~= "invalid hexa encoding syntax: '[01,ff,...]' got:"@ + input@);
                    let e = AfbError::msg_string("string-ecode-hexa", msg);
                    assert(e@ == hexa_invalid(input@));
                    assert(orig == old(buffer)@);
                    return Err(e);
                },
            }
            idx = idx + 1;
            if at_end {
                proof {
                    assert(pieces.len() == idx);
                    assert forall|k: int| !hexa_stop_at(pieces, cap, k) by {
                        if hexa_stop_at(pieces, cap, k) {
                            assert(k < idx);
                            assert(hex_byte(pieces[k]) is Some);
                        }
                    }
                }
                let b: &'a [u8] = buffer;
                return Ok(vstd::slice::slice_subrange(b, 0, idx));
            }
            piece = String::new();
            proof {
                let next = split_commas(inner.take(i as int));
                assert(next == sofar.push(Seq::empty()));
                assert forall|j: int| 0 <= j < idx implies next[j] == pieces[j] by {
                    if j < idx - 1 {
                        assert(next[j] == sofar[j]);
                    } else {
                        assert(next[j] == sofar[j]);
                    }
                }
            }
        } else {
            push_char(&mut piece, c);
            proof {
                lemma_split_nonempty(inner.take(i - 1));
                lemma_split_step(inner, i - 1);
                assert(inner[i - 1] == c);
                let next = split_commas(inner.take(i as int));
                assert(next.len() == sofar.len());
                assert(next.last() == piece@);
                assert forall|j: int| 0 <= j < idx implies next[j] == pieces[j] by {
                    assert(next[j] == sofar[j]);
                }
            }
        }
        i = i + 1;
    }
}


/// The bracketed hexadecimal text of a byte string: `[01,ff,0a]`.
pub fn bytes_to_hexa(buffer: &[u8]) -> (r: String)
    ensures
        r@ == hexa_text(buffer@),
{
    let mut out = String::new();
    push_char(&mut out, '[');
    let n = buffer.len();
    let mut i: usize = 0;
    while i < n
        invariant
            n == buffer@.len(),
            i <= n,
            out@ == seq!['['] + hexa_items(buffer@.take(i as int)),
        decreases n - i,
    {
        if i > 0 {
            push_char(&mut out, ',');
        }
        push_byte_hex(&mut out, buffer[i]);
        proof {
            let t = buffer@.take(i + 1);
            assert(t.drop_last() =~= buffer@.take(i as int));
            if i == 0 {
                assert(hexa_items(buffer@.take(0)) =~= Seq::<char>::empty());
            }
            assert(out@ =~= seq!['['] + hexa_items(t));
        }
        i = i + 1;
    }
    push_char(&mut out, ']');
    proof {
        assert(buffer@.take(n as int) =~= buffer@);
        if n == 0 {
            assert(hexa_items(buffer@) =~= Seq::<char>::empty());
        }
        assert(out@ =~= hexa_text(buffer@));
    }
    out
}

} // verus!
