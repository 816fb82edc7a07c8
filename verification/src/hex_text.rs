//! Hexadecimal text.

use vstd::prelude::*;

verus! {

/// The lower-case hexadecimal digit for a number below sixteen.
pub open spec fn hex_digit(n: int) -> char {
    if n < 10 {
        ('0' as int + n) as char
    } else {
        ('a' as int + n - 10) as char
    }
}

/// The hexadecimal text of a byte sequence: two digits for each byte, the high half first.
pub open spec fn hex_chars(bytes: Seq<u8>) -> Seq<char> {
    Seq::new(
        2 * bytes.len(),
        |i: int|
            if i % 2 == 0 {
                hex_digit(bytes[i / 2] as int / 16)
            } else {
                hex_digit(bytes[i / 2] as int % 16)
            },
    )
}

/// Calls `hex::encode`, which returns the lower-case hexadecimal text of its argument, two digits
/// for each byte.
#[verifier::external_body]
pub(crate) fn hex_encode(bytes: &Vec<u8>) -> (text: String)
    ensures
        text@ == hex_chars(bytes@),
{
    hex::encode(bytes)
}

/// Different numbers below sixteen have different digits.
proof fn lemma_hex_digit_injective(m: int, n: int)
    requires
        0 <= m < 16,
        0 <= n < 16,
        hex_digit(m) == hex_digit(n),
    ensures
        m == n,
{
    assert(hex_digit(m) as int == if m < 10 { 48 + m } else { 87 + m });
    assert(hex_digit(n) as int == if n < 10 { 48 + n } else { 87 + n });
}

/// The digit for a number below sixteen is one of `0` to `9` and `a` to `f`, in this order.
pub proof fn law_hex_digit_counts_up(n: int)
    requires
        0 <= n < 16,
    ensures
        n < 10 ==> hex_digit(n) as int == 48 + n,
        n >= 10 ==> hex_digit(n) as int == 97 + (n - 10),
{
}

/// The hexadecimal text of a byte sequence has two digits for each byte, the first for the byte's
/// high half and the second for its low half.
pub proof fn law_hex_text_spells_every_byte(bytes: Seq<u8>)
    ensures
        hex_chars(bytes).len() == 2 * bytes.len(),
        forall|i: int| #![trigger bytes[i]]
            0 <= i < bytes.len() ==> {
                &&& hex_chars(bytes)[2 * i] == hex_digit(bytes[i] as int / 16)
                &&& hex_chars(bytes)[2 * i + 1] == hex_digit(bytes[i] as int % 16)
            },
{
    assert forall|i: int| #![trigger bytes[i]] 0 <= i < bytes.len() implies {
        &&& hex_chars(bytes)[2 * i] == hex_digit(bytes[i] as int / 16)
        &&& hex_chars(bytes)[2 * i + 1] == hex_digit(bytes[i] as int % 16)
    } by {
        assert((2 * i) / 2 == i && (2 * i) % 2 == 0);
        assert((2 * i + 1) / 2 == i && (2 * i + 1) % 2 == 1);
    }
}

/// Different byte sequences have different hexadecimal texts.
pub proof fn law_hex_text_determines_bytes(x: Seq<u8>, y: Seq<u8>)
    requires
        hex_chars(x) == hex_chars(y),
    ensures
        x == y,
{
    assert(hex_chars(x).len() == 2 * x.len());
    assert(hex_chars(y).len() == 2 * y.len());
    assert forall|i: int| 0 <= i < x.len() implies x[i] == y[i] by {
        assert((2 * i) / 2 == i && (2 * i) % 2 == 0);
        assert((2 * i + 1) / 2 == i && (2 * i + 1) % 2 == 1);
        assert(hex_chars(x)[2 * i] == hex_digit(x[i] as int / 16));
        assert(hex_chars(y)[2 * i] == hex_digit(y[i] as int / 16));
        assert(hex_chars(x)[2 * i + 1] == hex_digit(x[i] as int % 16));
        assert(hex_chars(y)[2 * i + 1] == hex_digit(y[i] as int % 16));
        lemma_hex_digit_injective(x[i] as int / 16, y[i] as int / 16);
        lemma_hex_digit_injective(x[i] as int % 16, y[i] as int % 16);
    }
    assert(x =~= y);
}

} // verus!
