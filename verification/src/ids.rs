//! Identifiers: UUIDs are held as 128-bit integers and shown in the
//! hyphenated lower-case form.

use vstd::prelude::*;

verus! {

/// The lower-case hexadecimal digit for `n`, for `n < 16`.
pub open spec fn hex_char(n: u128) -> char {
    if n < 10 {
        (0x30 + n) as char
    } else {
        (0x57 + n) as char
    }
}

/// Positions 8, 13, 18 and 23 of the hyphenated form hold hyphens.
pub open spec fn is_hyphen_pos(i: int) -> bool {
    i == 8 || i == 13 || i == 18 || i == 23
}

/// The index, counted from the most significant, of the hexadecimal digit
/// shown at position `i` of the hyphenated form.
pub open spec fn digit_at(i: int) -> int {
    if i < 8 {
        i
    } else if i < 13 {
        i - 1
    } else if i < 18 {
        i - 2
    } else if i < 23 {
        i - 3
    } else {
        i - 4
    }
}

/// The `d`-th hexadecimal digit of `id`, counted from the most significant.
pub open spec fn nibble(id: u128, d: int) -> u128 {
    (id >> ((124 - 4 * d) as u128)) & 0xf
}

/// The hyphenated form `xxxxxxxx-xxxx-xxxx-xxxx-xxxxxxxxxxxx` of `id`, with
/// lower-case hexadecimal digits, most significant first.
pub open spec fn hyphenated(id: u128) -> Seq<char> {
    Seq::new(36, |i: int| if is_hyphen_pos(i) { '-' } else { hex_char(nibble(id, digit_at(i))) })
}

/// `uuid::Uuid::from_u128(id).to_string()`: the hyphenated lower-case form, as
/// the uuid crate documents for its `Display` output.
#[verifier::external_body]
pub(crate) fn uuid_string(id: u128) -> (s: String)
    ensures
        s@ == hyphenated(id),
{
    uuid::Uuid::from_u128(id).to_string()
}

/// `uuid::Uuid::new_v4()`: a random UUID. Nothing is stated of its value.
#[verifier::external_body]
pub(crate) fn fresh_uuid() -> u128 {
    uuid::Uuid::new_v4().as_u128()
}

proof fn lemma_hex_char_injective(x: u128, y: u128)
    requires
        x < 16,
        y < 16,
        hex_char(x) == hex_char(y),
    ensures
        x == y,
{
    assert((hex_char(x) as u32) == (if x < 10 { 0x30 + x } else { 0x57 + x }));
    assert((hex_char(y) as u32) == (if y < 10 { 0x30 + y } else { 0x57 + y }));
}

proof fn lemma_digit_equal(a: u128, b: u128, i: int, d: int)
    requires
        hyphenated(a) == hyphenated(b),
        0 <= i < 36,
        !is_hyphen_pos(i),
        digit_at(i) == d,
        0 <= d < 32,
    ensures
        nibble(a, d) == nibble(b, d),
{
    assert(hyphenated(a)[i] == hyphenated(b)[i]);
    assert(hyphenated(a)[i] == hex_char(nibble(a, digit_at(i))));
    assert(hyphenated(b)[i] == hex_char(nibble(b, digit_at(i))));
    let sa = (124 - 4 * d) as u128;
    assert(nibble(a, d) < 16 && nibble(b, d) < 16) by {
        let x = a >> sa;
        let y = b >> sa;
        assert(x & 0xf < 16) by (bit_vector);
        assert(y & 0xf < 16) by (bit_vector);
    }
    lemma_hex_char_injective(nibble(a, d), nibble(b, d));
}

/// Distinct identifiers have distinct hyphenated forms: the form shows every
/// hexadecimal digit of the 128-bit value.
pub proof fn lemma_hyphenated_injective(a: u128, b: u128)
    requires
        hyphenated(a) == hyphenated(b),
    ensures
        a == b,
{
    lemma_digit_equal(a, b, 0, 0);
    lemma_digit_equal(a, b, 1, 1);
    lemma_digit_equal(a, b, 2, 2);
    lemma_digit_equal(a, b, 3, 3);
    lemma_digit_equal(a, b, 4, 4);
    lemma_digit_equal(a, b, 5, 5);
    lemma_digit_equal(a, b, 6, 6);
    lemma_digit_equal(a, b, 7, 7);
    lemma_digit_equal(a, b, 9, 8);
    lemma_digit_equal(a, b, 10, 9);
    lemma_digit_equal(a, b, 11, 10);
    lemma_digit_equal(a, b, 12, 11);
    lemma_digit_equal(a, b, 14, 12);
    lemma_digit_equal(a, b, 15, 13);
    lemma_digit_equal(a, b, 16, 14);
    lemma_digit_equal(a, b, 17, 15);
    lemma_digit_equal(a, b, 19, 16);
    lemma_digit_equal(a, b, 20, 17);
    lemma_digit_equal(a, b, 21, 18);
    lemma_digit_equal(a, b, 22, 19);
    lemma_digit_equal(a, b, 24, 20);
    lemma_digit_equal(a, b, 25, 21);
    lemma_digit_equal(a, b, 26, 22);
    lemma_digit_equal(a, b, 27, 23);
    lemma_digit_equal(a, b, 28, 24);
    lemma_digit_equal(a, b, 29, 25);
    lemma_digit_equal(a, b, 30, 26);
    lemma_digit_equal(a, b, 31, 27);
    lemma_digit_equal(a, b, 32, 28);
    lemma_digit_equal(a, b, 33, 29);
    lemma_digit_equal(a, b, 34, 30);
    lemma_digit_equal(a, b, 35, 31);
    assert(a == b) by (bit_vector)
        requires
            (a >> 124u128) & 0xf == (b >> 124u128) & 0xf,
            (a >> 120u128) & 0xf == (b >> 120u128) & 0xf,
            (a >> 116u128) & 0xf == (b >> 116u128) & 0xf,
            (a >> 112u128) & 0xf == (b >> 112u128) & 0xf,
            (a >> 108u128) & 0xf == (b >> 108u128) & 0xf,
            (a >> 104u128) & 0xf == (b >> 104u128) & 0xf,
            (a >> 100u128) & 0xf == (b >> 100u128) & 0xf,
            (a >> 96u128) & 0xf == (b >> 96u128) & 0xf,
            (a >> 92u128) & 0xf == (b >> 92u128) & 0xf,
            (a >> 88u128) & 0xf == (b >> 88u128) & 0xf,
            (a >> 84u128) & 0xf == (b >> 84u128) & 0xf,
            (a >> 80u128) & 0xf == (b >> 80u128) & 0xf,
            (a >> 76u128) & 0xf == (b >> 76u128) & 0xf,
            (a >> 72u128) & 0xf == (b >> 72u128) & 0xf,
            (a >> 68u128) & 0xf == (b >> 68u128) & 0xf,
            (a >> 64u128) & 0xf == (b >> 64u128) & 0xf,
            (a >> 60u128) & 0xf == (b >> 60u128) & 0xf,
            (a >> 56u128) & 0xf == (b >> 56u128) & 0xf,
            (a >> 52u128) & 0xf == (b >> 52u128) & 0xf,
            (a >> 48u128) & 0xf == (b >> 48u128) & 0xf,
            (a >> 44u128) & 0xf == (b >> 44u128) & 0xf,
            (a >> 40u128) & 0xf == (b >> 40u128) & 0xf,
            (a >> 36u128) & 0xf == (b >> 36u128) & 0xf,
            (a >> 32u128) & 0xf == (b >> 32u128) & 0xf,
            (a >> 28u128) & 0xf == (b >> 28u128) & 0xf,
            (a >> 24u128) & 0xf == (b >> 24u128) & 0xf,
            (a >> 20u128) & 0xf == (b >> 20u128) & 0xf,
            (a >> 16u128) & 0xf == (b >> 16u128) & 0xf,
            (a >> 12u128) & 0xf == (b >> 12u128) & 0xf,
            (a >> 8u128) & 0xf == (b >> 8u128) & 0xf,
            (a >> 4u128) & 0xf == (b >> 4u128) & 0xf,
            (a >> 0u128) & 0xf == (b >> 0u128) & 0xf,
    ;
}

} // verus!
