//! Text helpers shared by the wire codec and the key machinery: decimal
//! rendering of timestamps, lowercase hexadecimal for MAC bytes, and small
//! trusted wrappers around `String` growth.

use vstd::prelude::*;

verus! {

/// ASCII byte of the decimal digit `d` (meaningful for `d < 10`).
pub open spec fn digit_byte(d: u8) -> u8 {
    (0x30 + d) as u8
}

/// ASCII decimal digits of `n`, most significant first, as bytes.
pub open spec fn dec_bytes(n: u128) -> Seq<u8>
    decreases n,
{
    if n < 10 {
        seq![digit_byte(n as u8)]
    } else {
        dec_bytes((n / 10) as u128).push(digit_byte((n % 10) as u8))
    }
}

/// ASCII decimal digits of `n`, most significant first, as characters.
pub open spec fn dec_chars(n: u128) -> Seq<char> {
    dec_bytes(n).map_values(|b: u8| b as char)
}

/// Decimal rendering of a signed value: a minus sign followed by the digits
/// of the magnitude when negative.
pub open spec fn dec_chars_i64(n: i64) -> Seq<char> {
    if n >= 0 {
        dec_chars(n as u128)
    } else {
        seq!['-'] + dec_chars((-(n as int)) as u128)
    }
}

/// Lowercase hexadecimal character of the value `d` (meaningful for `d < 16`).
pub open spec fn hex_digit_char(d: u8) -> char {
    if d < 10 {
        digit_byte(d) as char
    } else {
        ((0x61 + (d - 10)) as u8) as char
    }
}

/// Lowercase hexadecimal rendering of a byte string, two characters per byte.
pub open spec fn hex_of(bytes: Seq<u8>) -> Seq<char>
    decreases bytes.len(),
{
    if bytes.len() == 0 {
        Seq::<char>::empty()
    } else {
        seq![
            hex_digit_char((bytes[0] / 16) as u8),
            hex_digit_char((bytes[0] % 16) as u8),
        ] + hex_of(bytes.drop_first())
    }
}

/// Whether `c` is a lowercase hexadecimal digit.
pub open spec fn is_lower_hex_digit(c: char) -> bool {
    (0x30 <= c as u32 && c as u32 <= 0x39) || (0x61 <= c as u32 && c as u32 <= 0x66)
}

/// Whether `c` is a hexadecimal digit (either case).
pub open spec fn is_hex_digit(c: char) -> bool {
    (0x30 <= c as u32 && c as u32 <= 0x39) || (0x61 <= c as u32 && c as u32 <= 0x66) || (0x41
        <= c as u32 && c as u32 <= 0x46)
}

/// Numeric value of a hexadecimal digit.
pub open spec fn hex_val(c: char) -> u8 {
    if 0x30 <= c as u32 && c as u32 <= 0x39 {
        (c as u32 - 0x30) as u8
    } else if 0x61 <= c as u32 && c as u32 <= 0x66 {
        (10 + (c as u32 - 0x61)) as u8
    } else {
        (10 + (c as u32 - 0x41)) as u8
    }
}

/// Whether `s` consists of hexadecimal digits only.
pub open spec fn is_hex_seq(s: Seq<char>) -> bool {
    forall|i: int| 0 <= i < s.len() ==> is_hex_digit(#[trigger] s[i])
}

/// Bytes denoted by a hexadecimal character string of even length, high
/// digit first within each byte.
pub open spec fn hex_decode(s: Seq<char>) -> Seq<u8>
    decreases s.len(),
{
    if s.len() < 2 {
        Seq::<u8>::empty()
    } else {
        seq![(hex_val(s[0]) * 16 + hex_val(s[1])) as u8] + hex_decode(s.skip(2))
    }
}

/// Relies on `String::push`: appends the given character to the end of the
/// string.
#[verifier::external_body]
pub(crate) fn push_char(s: &mut String, c: char)
    ensures
        final(s)@ == old(s)@.push(c),
{
    s.push(c);
}

/// Relies on `String::push_str`: appends the given string slice onto the end
/// of the string.
#[verifier::external_body]
pub(crate) fn append_str(s: &mut String, t: &str)
    ensures
        final(s)@ == old(s)@ + t@,
{
    s.push_str(t);
}

/// ASCII decimal digits of `n` as bytes.
pub fn u128_to_dec_bytes(n: u128) -> (r: Vec<u8>)
    ensures
        r@ == dec_bytes(n),
    decreases n,
{
    if n < 10 {
        let mut v: Vec<u8> = Vec::new();
        v.push(0x30 + (n as u8));
        assert(v@ =~= dec_bytes(n));
        v
    } else {
        let mut v = u128_to_dec_bytes(n / 10);
        v.push(0x30 + ((n % 10) as u8));
        assert(v@ =~= dec_bytes(n));
        v
    }
}

/// ASCII decimal digits of `n` as a string.
pub fn u128_to_dec_string(n: u128) -> (r: String)
    ensures
        r@ == dec_chars(n),
    decreases n,
{
    let mut s = String::new();
    if n < 10 {
        push_char(&mut s, (0x30 + (n as u8)) as char);
        assert(s@ =~= dec_chars(n));
    } else {
        s = u128_to_dec_string(n / 10);
        push_char(&mut s, (0x30 + ((n % 10) as u8)) as char);
        assert(s@ =~= dec_chars(n));
    }
    s
}

/// Decimal rendering of a signed value as a string.
pub fn i64_to_dec_string(n: i64) -> (r: String)
    ensures
        r@ == dec_chars_i64(n),
{
    if n >= 0 {
        let r = u128_to_dec_string(n as u128);
        assert(r@ =~= dec_chars_i64(n));
        r
    } else {
        let magnitude: u128 = (-(n as i128)) as u128;
        let mut s = String::new();
        push_char(&mut s, '-');
        let digits = u128_to_dec_string(magnitude);
        append_str(&mut s, digits.as_str());
        assert(s@ =~= dec_chars_i64(n));
        s
    }
}

/// Hexadecimal rendering yields exactly two lowercase digits per byte.
pub proof fn lemma_hex_of_props(bytes: Seq<u8>)
    ensures
        hex_of(bytes).len() == 2 * bytes.len(),
        forall|i: int|
            0 <= i < hex_of(bytes).len() ==> is_lower_hex_digit(#[trigger] hex_of(bytes)[i]),
    decreases bytes.len(),
{
    if bytes.len() > 0 {
        lemma_hex_of_props(bytes.drop_first());
        assert(is_lower_hex_digit(hex_digit_char((bytes[0] / 16) as u8)));
        assert(is_lower_hex_digit(hex_digit_char((bytes[0] % 16) as u8)));
        assert forall|i: int|
            0 <= i < hex_of(bytes).len() implies is_lower_hex_digit(
            #[trigger] hex_of(bytes)[i],
        ) by {
            if i >= 2 {
                assert(hex_of(bytes)[i] == hex_of(bytes.drop_first())[i - 2]);
            }
        }
    }
}

/// Whether two string slices hold the same characters.
pub(crate) fn str_eq(a: &str, b: &str) -> (r: bool)
    ensures
        r == (a@ == b@),
{
    let owned_a: String = a.to_owned();
    let owned_b: String = b.to_owned();
    owned_a.eq(&owned_b)
}

/// Whether `c` is a hexadecimal digit.
pub(crate) fn is_hex_digit_exec(c: char) -> (r: bool)
    ensures
        r == is_hex_digit(c),
{
    let v = c as u32;
    (0x30 <= v && v <= 0x39) || (0x61 <= v && v <= 0x66) || (0x41 <= v && v <= 0x46)
}

/// Numeric value of a hexadecimal digit character.
pub(crate) fn hex_val_exec(c: char) -> (r: u8)
    requires
        is_hex_digit(c),
    ensures
        r == hex_val(c),
{
    let v = c as u32;
    if v >= 0x61 {
        (10 + (v - 0x61)) as u8
    } else if v >= 0x41 {
        (10 + (v - 0x41)) as u8
    } else {
        (v - 0x30) as u8
    }
}

/// Lowercase hexadecimal character of the value `d`.
pub(crate) fn hex_digit_char_exec(d: u8) -> (r: char)
    requires
        d < 16,
    ensures
        r == hex_digit_char(d),
{
    if d < 10 {
        (0x30 + d) as char
    } else {
        (0x61 + (d - 10)) as char
    }
}

proof fn lemma_hex_of_take_step(bytes: Seq<u8>, i: int)
    requires
        0 <= i < bytes.len(),
    ensures
        hex_of(bytes.take(i + 1)) == hex_of(bytes.take(i)) + seq![
            hex_digit_char((bytes[i] / 16) as u8),
            hex_digit_char((bytes[i] % 16) as u8),
        ],
    decreases i,
{
    if i == 0 {
        assert(bytes.take(1)[0] == bytes[0]);
        assert(bytes.take(1).drop_first() =~= Seq::<u8>::empty());
        assert(bytes.take(0).len() == 0);
        assert(hex_of(Seq::<u8>::empty()) =~= Seq::<char>::empty());
        assert(hex_of(bytes.take(1)) =~= hex_of(bytes.take(0)) + seq![
            hex_digit_char((bytes[0] / 16) as u8),
            hex_digit_char((bytes[0] % 16) as u8),
        ]);
    } else {
        lemma_hex_of_take_step(bytes.drop_first(), i - 1);
        assert(bytes.take(i + 1).drop_first() =~= bytes.drop_first().take(i));
        assert(bytes.take(i).drop_first() =~= bytes.drop_first().take(i - 1));
        assert(hex_of(bytes.take(i + 1)) =~= hex_of(bytes.take(i)) + seq![
            hex_digit_char((bytes[i] / 16) as u8),
            hex_digit_char((bytes[i] % 16) as u8),
        ]);
    }
}

/// Lowercase hexadecimal rendering of a byte slice.
pub fn bytes_to_hex(bytes: &[u8]) -> (r: String)
    ensures
        r@ == hex_of(bytes@),
{
    let mut s = String::new();
    let mut i: usize = 0;
    assert(bytes@.take(0) =~= Seq::<u8>::empty());
    while i < bytes.len()
        invariant
            i <= bytes@.len(),
            s@ == hex_of(bytes@.take(i as int)),
        decreases bytes@.len() - i,
    {
        let b = bytes[i];
        proof {
            lemma_hex_of_take_step(bytes@, i as int);
        }
        push_char(&mut s, hex_digit_char_exec(b / 16));
        push_char(&mut s, hex_digit_char_exec(b % 16));
        i = i + 1;
    }
    assert(bytes@.take(bytes@.len() as int) =~= bytes@);
    s
}

} // verus!
