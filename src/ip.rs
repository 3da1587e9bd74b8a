//! Rendering of the raw address bytes of an IP address entry.
//!
//! Up to four bytes are written as decimal octets joined by `.`; longer
//! sequences are written as a flat dump of two lowercase hex digits per byte,
//! joined by `:` (no 16-bit grouping and no zero compression).

use vstd::prelude::*;

verus! {

/// The ASCII digit for `d` in base 16, lowercase.
pub open spec fn hex_char(d: u8) -> char {
    if d < 10 {
        (('0' as u8) + d) as char
    } else {
        (('a' as u8) + (d - 10)) as char
    }
}

/// The decimal digits of `b`, without leading zeros.
pub open spec fn dec_text(b: u8) -> Seq<char> {
    if b >= 100 {
        seq![hex_char(b / 100), hex_char((b / 10) % 10), hex_char(b % 10)]
    } else if b >= 10 {
        seq![hex_char(b / 10), hex_char(b % 10)]
    } else {
        seq![hex_char(b)]
    }
}

/// Exactly two lowercase hex digits for `b`.
pub open spec fn hex_text(b: u8) -> Seq<char> {
    seq![hex_char(b / 16), hex_char(b % 16)]
}

/// The parts, in order, with `sep` between each two neighbours.
pub open spec fn join(parts: Seq<Seq<char>>, sep: char) -> Seq<char>
    decreases parts.len(),
{
    if parts.len() == 0 {
        Seq::empty()
    } else if parts.len() == 1 {
        parts[0]
    } else {
        join(parts.drop_last(), sep) + seq![sep] + parts.last()
    }
}

/// The rendering of each byte: hex for long sequences, decimal otherwise.
pub open spec fn ip_parts(bytes: Seq<u8>) -> Seq<Seq<char>> {
    if bytes.len() > 4 {
        bytes.map_values(|b: u8| hex_text(b))
    } else {
        bytes.map_values(|b: u8| dec_text(b))
    }
}

/// The text of an IP address entry with the given raw bytes.
pub open spec fn ip_text(bytes: Seq<u8>) -> Seq<char> {
    join(ip_parts(bytes), if bytes.len() > 4 { ':' } else { '.' })
}

/// Relies on `String::push`, documented to append the character to the end.
pub assume_specification[ String::push ](s: &mut String, ch: char)
    ensures
        final(s)@ == old(s)@.push(ch),
;

fn digit_char(d: u8) -> (c: char)
    requires
        d < 16,
    ensures
        c == hex_char(d),
{
    match d {
        0 => '0',
        1 => '1',
        2 => '2',
        3 => '3',
        4 => '4',
        5 => '5',
        6 => '6',
        7 => '7',
        8 => '8',
        9 => '9',
        10 => 'a',
        11 => 'b',
        12 => 'c',
        13 => 'd',
        14 => 'e',
        _ => 'f',
    }
}

fn push_decimal(out: &mut String, b: u8)
    ensures
        final(out)@ == old(out)@ + dec_text(b),
{
    if b >= 100 {
        out.push(digit_char(b / 100));
        out.push(digit_char((b / 10) % 10));
        out.push(digit_char(b % 10));
    } else if b >= 10 {
        out.push(digit_char(b / 10));
        out.push(digit_char(b % 10));
    } else {
        out.push(digit_char(b));
    }
}

fn push_hex(out: &mut String, b: u8)
    ensures
        final(out)@ == old(out)@ + hex_text(b),
{
    out.push(digit_char(b / 16));
    out.push(digit_char(b % 16));
}

/// Renders raw address bytes; every length, including 0, gives a string.
pub fn format_ip(bytes: &[u8]) -> (r: String)
    ensures
        r@ == ip_text(bytes@),
{
    let long = bytes.len() > 4;
    let sep = if long { ':' } else { '.' };
    let mut out = String::new();
    let mut i: usize = 0;
    while i < bytes.len()
        invariant
            i <= bytes@.len(),
            long == (bytes@.len() > 4),
            sep == (if long { ':' } else { '.' }),
            out@ == join(ip_parts(bytes@).take(i as int), sep),
        decreases bytes@.len() - i,
    {
        let ghost before = out@;
        if i > 0 {
            out.push(sep);
        }
        if long {
            push_hex(&mut out, bytes[i]);
        } else {
            push_decimal(&mut out, bytes[i]);
        }
        proof {
            let parts = ip_parts(bytes@);
            let next = parts.take(i + 1);
            assert(next.drop_last() =~= parts.take(i as int));
            assert(next.last() == parts[i as int]);
            if i == 0 {
                assert(next.len() == 1);
            }
        }
        i = i + 1;
    }
    proof {
        assert(ip_parts(bytes@).take(bytes@.len() as int) =~= ip_parts(bytes@));
    }
    out
}

/// `c` is one of the ASCII digits `0` to `9`.
pub open spec fn is_decimal_digit(c: char) -> bool {
    '0' <= c && c <= '9'
}

/// `c` is one of `0` to `9` or `a` to `f`.
pub open spec fn is_lower_hex_digit(c: char) -> bool {
    is_decimal_digit(c) || ('a' <= c && c <= 'f')
}

/// The value of one digit character.
pub open spec fn digit_value(c: char) -> int {
    if c <= '9' {
        c as int - '0' as int
    } else {
        c as int - 'a' as int + 10
    }
}

/// The number that the digits of `s` write in the given base.
pub open spec fn digits_value(s: Seq<char>, base: int) -> int
    decreases s.len(),
{
    if s.len() == 0 {
        0
    } else {
        digits_value(s.drop_last(), base) * base + digit_value(s.last())
    }
}

proof fn lemma_hex_char(d: u8)
    requires
        d < 16,
    ensures
        is_lower_hex_digit(hex_char(d)),
        d < 10 ==> is_decimal_digit(hex_char(d)),
        digit_value(hex_char(d)) == d as int,
{
}

proof fn lemma_dec_text(b: u8)
    ensures
        1 <= dec_text(b).len() <= 3,
        forall|j: int| 0 <= j < dec_text(b).len() ==> is_decimal_digit(#[trigger] dec_text(b)[j]),
        digits_value(dec_text(b), 10) == b as int,
{
    let t = dec_text(b);
    if b >= 100 {
        let (h, m, l) = (b / 100, (b / 10) % 10, b % 10);
        lemma_hex_char(h);
        lemma_hex_char(m);
        lemma_hex_char(l);
        let t1 = t.drop_last();
        let t2 = t1.drop_last();
        assert(t2.drop_last().len() == 0);
        assert(digits_value(t2.drop_last(), 10) == 0);
        assert(t2.last() == hex_char(h));
        assert(t1.last() == hex_char(m));
        assert(digits_value(t2, 10) == h as int);
        assert(digits_value(t1, 10) == h as int * 10 + m as int);
        assert(digits_value(t, 10) == (h as int * 10 + m as int) * 10 + l as int);
        assert((h as int * 10 + m as int) * 10 + l as int == b as int) by (nonlinear_arith)
            requires
                h as int == b as int / 100,
                m as int == (b as int / 10) % 10,
                l as int == b as int % 10,
                0 <= b < 256,
        ;
    } else if b >= 10 {
        lemma_hex_char(b / 10);
        lemma_hex_char(b % 10);
        let t1 = t.drop_last();
        assert(t1.drop_last().len() == 0);
        assert(digits_value(t1.drop_last(), 10) == 0);
        assert(t1.last() == hex_char(b / 10));
        assert(digits_value(t1, 10) == (b / 10) as int);
        assert(digits_value(t, 10) == (b / 10) as int * 10 + (b % 10) as int);
    } else {
        lemma_hex_char(b);
        assert(t.drop_last().len() == 0);
        assert(digits_value(t.drop_last(), 10) == 0);
        assert(digits_value(t, 10) == b as int);
    }
}

proof fn lemma_hex_text(b: u8)
    ensures
        hex_text(b).len() == 2,
        forall|j: int| 0 <= j < 2 ==> is_lower_hex_digit(#[trigger] hex_text(b)[j]),
        digits_value(hex_text(b), 16) == b as int,
{
    let t = hex_text(b);
    lemma_hex_char(b / 16);
    lemma_hex_char(b % 16);
    let t1 = t.drop_last();
    assert(t1.drop_last().len() == 0);
    assert(digits_value(t1.drop_last(), 16) == 0);
    assert(t1.last() == hex_char(b / 16));
    assert(digits_value(t1, 16) == (b / 16) as int);
    assert(digits_value(t, 16) == (b / 16) as int * 16 + (b % 16) as int);
}

/// With four bytes or fewer, the text is the bytes' decimal forms joined by
/// `.`: one component per byte, each made of decimal digits only, whose value
/// is that byte (so it lies in `0..=255`).
pub proof fn lemma_short_address_is_dotted_decimal(bytes: Seq<u8>)
    requires
        bytes.len() <= 4,
    ensures
        ip_text(bytes) == join(ip_parts(bytes), '.'),
        ip_parts(bytes).len() == bytes.len(),
        forall|i: int|
            0 <= i < bytes.len() ==> {
                let part = #[trigger] ip_parts(bytes)[i];
                &&& 1 <= part.len() <= 3
                &&& forall|j: int| 0 <= j < part.len() ==> is_decimal_digit(part[j])
                &&& digits_value(part, 10) == bytes[i] as int
                &&& 0 <= digits_value(part, 10) <= 255
            },
{
    assert forall|i: int| 0 <= i < bytes.len() implies {
        let part = #[trigger] ip_parts(bytes)[i];
        &&& 1 <= part.len() <= 3
        &&& forall|j: int| 0 <= j < part.len() ==> is_decimal_digit(part[j])
        &&& digits_value(part, 10) == bytes[i] as int
        &&& 0 <= digits_value(part, 10) <= 255
    } by {
        lemma_dec_text(bytes[i]);
    }
}

/// With more than four bytes, the text is exactly two lowercase hex digits
/// per byte, whose value is that byte, joined by `:`: one group per byte.
pub proof fn lemma_long_address_is_hex_groups(bytes: Seq<u8>)
    requires
        bytes.len() > 4,
    ensures
        ip_text(bytes) == join(ip_parts(bytes), ':'),
        ip_parts(bytes).len() == bytes.len(),
        forall|i: int|
            0 <= i < bytes.len() ==> {
                let part = #[trigger] ip_parts(bytes)[i];
                &&& part.len() == 2
                &&& forall|j: int| 0 <= j < 2 ==> is_lower_hex_digit(part[j])
                &&& digits_value(part, 16) == bytes[i] as int
            },
{
    assert forall|i: int| 0 <= i < bytes.len() implies {
        let part = #[trigger] ip_parts(bytes)[i];
        &&& part.len() == 2
        &&& forall|j: int| 0 <= j < 2 ==> is_lower_hex_digit(part[j])
        &&& digits_value(part, 16) == bytes[i] as int
    } by {
        lemma_hex_text(bytes[i]);
    }
}

} // verus!
