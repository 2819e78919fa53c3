//! Hexadecimal rendering of byte sequences, used for PAN, track-2 and
//! status-word formatting.

use vstd::prelude::*;

verus! {

/// Relies on `String::push`: appends the given character to the end of the string.
pub assume_specification[ String::push ](s: &mut String, ch: char)
    ensures
        final(s)@ == old(s)@.push(ch),
;

/// The lower-case hexadecimal digit for a nibble value below 16.
pub open spec fn hex_digit_lower(n: u8) -> char {
    if n == 0 { '0' } else if n == 1 { '1' } else if n == 2 { '2' } else if n == 3 { '3' }
    else if n == 4 { '4' } else if n == 5 { '5' } else if n == 6 { '6' } else if n == 7 { '7' }
    else if n == 8 { '8' } else if n == 9 { '9' } else if n == 10 { 'a' } else if n == 11 { 'b' }
    else if n == 12 { 'c' } else if n == 13 { 'd' } else if n == 14 { 'e' } else { 'f' }
}

/// The upper-case hexadecimal digit for a nibble value below 16.
pub open spec fn hex_digit_upper(n: u8) -> char {
    if n == 0 { '0' } else if n == 1 { '1' } else if n == 2 { '2' } else if n == 3 { '3' }
    else if n == 4 { '4' } else if n == 5 { '5' } else if n == 6 { '6' } else if n == 7 { '7' }
    else if n == 8 { '8' } else if n == 9 { '9' } else if n == 10 { 'A' } else if n == 11 { 'B' }
    else if n == 12 { 'C' } else if n == 13 { 'D' } else if n == 14 { 'E' } else { 'F' }
}

/// Lower-case hex encoding of a byte sequence: two digits per byte, high
/// nibble first.
pub open spec fn hex_lower_of(bytes: Seq<u8>) -> Seq<char>
    decreases bytes.len(),
{
    if bytes.len() == 0 {
        Seq::empty()
    } else {
        hex_lower_of(bytes.drop_last())
            + seq![hex_digit_lower(bytes.last() / 16), hex_digit_lower(bytes.last() % 16)]
    }
}

/// The four upper-case hex digits of a 16-bit word, most significant first.
pub open spec fn hex_upper4_of(w: u16) -> Seq<char> {
    seq![
        hex_digit_upper((w / 4096) as u8),
        hex_digit_upper(((w / 256) % 16) as u8),
        hex_digit_upper(((w / 16) % 16) as u8),
        hex_digit_upper((w % 16) as u8),
    ]
}

/// A character sequence with every trailing `'f'` or `'F'` removed.
pub open spec fn strip_trailing_f(s: Seq<char>) -> Seq<char>
    decreases s.len(),
{
    if s.len() > 0 && (s.last() == 'f' || s.last() == 'F') {
        strip_trailing_f(s.drop_last())
    } else {
        s
    }
}

pub(crate) fn hex_digit_lower_char(n: u8) -> (c: char)
    requires
        n < 16,
    ensures
        c == hex_digit_lower(n),
{
    if n == 0 { '0' } else if n == 1 { '1' } else if n == 2 { '2' } else if n == 3 { '3' }
    else if n == 4 { '4' } else if n == 5 { '5' } else if n == 6 { '6' } else if n == 7 { '7' }
    else if n == 8 { '8' } else if n == 9 { '9' } else if n == 10 { 'a' } else if n == 11 { 'b' }
    else if n == 12 { 'c' } else if n == 13 { 'd' } else if n == 14 { 'e' } else { 'f' }
}

fn hex_digit_upper_char(n: u8) -> (c: char)
    requires
        n < 16,
    ensures
        c == hex_digit_upper(n),
{
    if n == 0 { '0' } else if n == 1 { '1' } else if n == 2 { '2' } else if n == 3 { '3' }
    else if n == 4 { '4' } else if n == 5 { '5' } else if n == 6 { '6' } else if n == 7 { '7' }
    else if n == 8 { '8' } else if n == 9 { '9' } else if n == 10 { 'A' } else if n == 11 { 'B' }
    else if n == 12 { 'C' } else if n == 13 { 'D' } else if n == 14 { 'E' } else { 'F' }
}

/// Appends the two lower-case hex digits of one byte to a string.
fn push_byte_hex(s: &mut String, b: u8)
    ensures
        final(s)@ == old(s)@ + seq![hex_digit_lower(b / 16), hex_digit_lower(b % 16)],
{
    s.push(hex_digit_lower_char(b / 16));
    s.push(hex_digit_lower_char(b % 16));
    proof {
        assert(s@ =~= old(s)@ + seq![hex_digit_lower(b / 16), hex_digit_lower(b % 16)]);
    }
}

/// Renders a byte sequence as lower-case hexadecimal text.
pub fn hex_encode(bytes: &[u8]) -> (r: String)
    ensures
        r@ == hex_lower_of(bytes@),
{
    let mut r = String::new();
    let mut i: usize = 0;
    while i < bytes.len()
        invariant
            i <= bytes@.len(),
            r@ == hex_lower_of(bytes@.take(i as int)),
        decreases bytes@.len() - i,
    {
        push_byte_hex(&mut r, bytes[i]);
        proof {
            assert(bytes@.take(i + 1).drop_last() =~= bytes@.take(i as int));
            assert(bytes@.take(i + 1).last() == bytes@[i as int]);
        }
        i += 1;
    }
    proof {
        assert(bytes@.take(bytes@.len() as int) =~= bytes@);
    }
    r
}

/// Renders a 16-bit word as four upper-case hex digits, most significant
/// first.
pub fn hex_upper4(w: u16) -> (r: String)
    ensures
        r@ == hex_upper4_of(w),
{
    let mut r = String::new();
    r.push(hex_digit_upper_char((w / 4096) as u8));
    r.push(hex_digit_upper_char(((w / 256) % 16) as u8));
    r.push(hex_digit_upper_char(((w / 16) % 16) as u8));
    r.push(hex_digit_upper_char((w % 16) as u8));
    proof {
        assert(r@ =~= hex_upper4_of(w));
    }
    r
}


/// Digits of nibbles other than 15 are neither `'f'` nor `'F'`.
pub(crate) proof fn lemma_hex_digit_lower_not_f(n: u8)
    requires
        n < 16,
        n != 15,
    ensures
        hex_digit_lower(n) != 'f',
        hex_digit_lower(n) != 'F',
{
}

/// A trailing `0xFF` byte contributes nothing once trailing `'f'` digits
/// are stripped.
pub(crate) proof fn lemma_strip_ff_byte(v: Seq<u8>)
    requires
        v.len() > 0,
        v.last() == 0xFF,
    ensures
        strip_trailing_f(hex_lower_of(v)) == strip_trailing_f(hex_lower_of(v.drop_last())),
{
    let h = hex_lower_of(v.drop_last());
    assert(hex_lower_of(v) == h + seq!['f', 'f']);
    assert((h + seq!['f', 'f']).drop_last() =~= h + seq!['f']);
    assert((h + seq!['f']).drop_last() =~= h);
    assert((h + seq!['f', 'f']).last() == 'f');
    assert((h + seq!['f']).last() == 'f');
    assert(strip_trailing_f(h + seq!['f', 'f']) == strip_trailing_f(h + seq!['f']));
    assert(strip_trailing_f(h + seq!['f']) == strip_trailing_f(h));
}

/// A trailing byte whose low nibble alone is 15 keeps only its high digit
/// once trailing `'f'` digits are stripped.
pub(crate) proof fn lemma_strip_half_byte(v: Seq<u8>)
    requires
        v.len() > 0,
        v.last() % 16 == 15,
        v.last() / 16 != 15,
    ensures
        strip_trailing_f(hex_lower_of(v)) == hex_lower_of(v.drop_last()) + seq![
            hex_digit_lower(v.last() / 16),
        ],
{
    let h = hex_lower_of(v.drop_last());
    let hi = hex_digit_lower(v.last() / 16);
    lemma_hex_digit_lower_not_f(v.last() / 16);
    assert(hex_lower_of(v) == h + seq![hi, 'f']);
    assert((h + seq![hi, 'f']).drop_last() =~= h + seq![hi]);
    assert((h + seq![hi, 'f']).last() == 'f');
    assert((h + seq![hi]).last() == hi);
    assert(strip_trailing_f(h + seq![hi, 'f']) == strip_trailing_f(h + seq![hi]));
    assert(strip_trailing_f(h + seq![hi]) == h + seq![hi]);
}

/// A byte sequence whose last low nibble is not 15 loses nothing to the
/// stripping of trailing `'f'` digits.
pub(crate) proof fn lemma_strip_full(v: Seq<u8>)
    requires
        v.len() == 0 || v.last() % 16 != 15,
    ensures
        strip_trailing_f(hex_lower_of(v)) == hex_lower_of(v),
{
    if v.len() > 0 {
        let h = hex_lower_of(v.drop_last());
        let lo = hex_digit_lower(v.last() % 16);
        lemma_hex_digit_lower_not_f(v.last() % 16);
        assert(hex_lower_of(v).last() == lo);
    }
}

} // verus!
