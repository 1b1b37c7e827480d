//! Numbers and bytes as text.

use vstd::prelude::*;
use vstd::string::{StrSliceExecFns, StringExecFns};

verus! {

/// The digits of both numerals, in order.
pub open spec fn digits() -> Seq<char> {
    seq!['0', '1', '2', '3', '4', '5', '6', '7', '8', '9', 'a', 'b', 'c', 'd', 'e', 'f']
}

/// The digit with the value `value`, as a text of one character.
fn digit(value: u8) -> (r: &'static str)
    requires
        value < 16,
    ensures
        r@ == seq![digits()[value as int]],
{
    let all = "0123456789abcdef";
    proof {
        reveal_strlit("0123456789abcdef");
    }
    assert(all@ =~= digits());
    let at: usize = value as usize;
    let one = all.substring_char(at, at + 1);
    assert(one@ =~= seq![digits()[value as int]]);
    one
}

/// A number in decimal notation, without leading zeros.
pub open spec fn decimal_text(n: nat) -> Seq<char>
    decreases n,
{
    if n < 10 {
        seq![digits()[n as int]]
    } else {
        decimal_text(n / 10).push(digits()[(n % 10) as int])
    }
}

/// Writes a number in decimal notation.
pub fn decimal(n: u64) -> (r: String)
    ensures
        r@ == decimal_text(n as nat),
    decreases n,
{
    if n < 10 {
        digit(n as u8).to_owned()
    } else {
        let mut r = decimal(n / 10);
        r.append(digit((n % 10) as u8));
        assert(r@ =~= decimal_text((n / 10) as nat).push(digits()[(n % 10) as int]));
        r
    }
}

/// Bytes in hexadecimal notation, two digits each.
pub open spec fn hex_text(bytes: Seq<u8>) -> Seq<char> {
    Seq::new(
        bytes.len() * 2,
        |i: int|
            if i % 2 == 0 {
                digits()[bytes[i / 2] as int / 16]
            } else {
                digits()[bytes[i / 2] as int % 16]
            },
    )
}

/// Writes bytes in hexadecimal notation.
pub fn hex(bytes: &[u8]) -> (r: String)
    ensures
        r@ == hex_text(bytes@),
        r@.len() == bytes@.len() * 2,
{
    let mut r = String::new();
    let mut i: usize = 0;
    while i < bytes.len()
        invariant
            i <= bytes@.len(),
            r@ =~= hex_text(bytes@.take(i as int)),
        decreases bytes@.len() - i,
    {
        let ghost before = r@;
        let byte: u8 = bytes[i];
        r.append(digit(byte / 16));
        r.append(digit(byte % 16));
        i = i + 1;
        let ghost after = hex_text(bytes@.take(i as int));
        assert forall|j: int| 0 <= j < after.len() implies after[j] == r@[j] by {
            if j < before.len() {
                assert(bytes@.take(i as int)[j / 2] == bytes@.take(i - 1)[j / 2]);
                assert(after[j] == before[j]);
            }
        }
    }
    assert(bytes@.take(bytes@.len() as int) =~= bytes@);
    r
}

proof fn lemma_digit_value(value: int)
    requires
        0 <= value < 16,
    ensures
        digits()[value] as int == if value < 10 {
            0x30 + value
        } else {
            0x57 + value
        },
{
    let d = digits();
    assert(d[0] == '0' && d[1] == '1' && d[2] == '2' && d[3] == '3' && d[4] == '4' && d[5] == '5'
        && d[6] == '6' && d[7] == '7');
    assert(d[8] == '8' && d[9] == '9' && d[10] == 'a' && d[11] == 'b' && d[12] == 'c' && d[13]
        == 'd' && d[14] == 'e' && d[15] == 'f');
}

/// The notation of bytes holds nothing but digits and the letters from `a` to `f`.
pub proof fn law_hex_digits_only(bytes: Seq<u8>, i: int)
    requires
        0 <= i < hex_text(bytes).len(),
    ensures
        '0' as u32 <= hex_text(bytes)[i] as u32 <= '9' as u32 || 'a' as u32 <= hex_text(
            bytes,
        )[i] as u32 <= 'f' as u32,
{
    if i % 2 == 0 {
        lemma_digit_value(bytes[i / 2] as int / 16);
    } else {
        lemma_digit_value(bytes[i / 2] as int % 16);
    }
}

/// Different bytes have different notations: what is random about the bytes is
/// random about the text.
pub proof fn law_hex_tells_bytes_apart(a: Seq<u8>, b: Seq<u8>)
    requires
        hex_text(a) == hex_text(b),
    ensures
        a == b,
{
    assert(hex_text(a).len() == a.len() * 2);
    assert(hex_text(b).len() == b.len() * 2);
    assert forall|i: int| 0 <= i < a.len() implies a[i] == b[i] by {
        assert(hex_text(a)[2 * i] == digits()[a[i] as int / 16]);
        assert(hex_text(b)[2 * i] == digits()[b[i] as int / 16]);
        assert(hex_text(a)[2 * i + 1] == digits()[a[i] as int % 16]);
        assert(hex_text(b)[2 * i + 1] == digits()[b[i] as int % 16]);
        lemma_digit_value(a[i] as int / 16);
        lemma_digit_value(b[i] as int / 16);
        lemma_digit_value(a[i] as int % 16);
        lemma_digit_value(b[i] as int % 16);
    }
    assert(a =~= b);
}

/// What a decimal numeral is worth.
pub open spec fn decimal_value(numeral: Seq<char>) -> int
    decreases numeral.len(),
{
    if numeral.len() == 0 {
        0
    } else {
        decimal_value(numeral.drop_last()) * 10 + (numeral.last() as int - 0x30)
    }
}

/// A number is written as the decimal numeral that is worth it: nothing but decimal
/// digits, and no zero in front of others.
pub proof fn law_numeral_is_worth_the_number(n: nat)
    ensures
        decimal_value(decimal_text(n)) == n,
        decimal_text(n).len() > 0,
        decimal_text(n).len() > 1 ==> decimal_text(n)[0] != '0',
        forall|i: int|
            0 <= i < decimal_text(n).len() ==> 0x30 <= (#[trigger] decimal_text(n)[i]) as int <= 0x39,
        n > 0 ==> decimal_text(n)[0] != '0',
    decreases n,
{
    reveal_with_fuel(decimal_value, 2);
    lemma_digit_value((n % 10) as int);
    let text = decimal_text(n);
    if n < 10 {
        assert(text.drop_last() =~= Seq::<char>::empty());
    } else {
        law_numeral_is_worth_the_number(n / 10);
        let shorter = decimal_text(n / 10);
        assert(text.drop_last() =~= shorter);
        assert(text[0] == shorter[0]);
        assert forall|i: int| 0 <= i < text.len() implies 0x30 <= (#[trigger] text[i]) as int
            <= 0x39 by {
            if i < shorter.len() {
                assert(text[i] == shorter[i]);
            }
        }
    }
}

/// What a hexadecimal digit is worth.
pub open spec fn hex_digit_value(c: char) -> int {
    if c as int <= 0x39 {
        c as int - 0x30
    } else {
        c as int - 0x57
    }
}

/// Each byte is written as two digits, of which the first is worth sixteen times as
/// much.
pub proof fn law_hex_is_worth_the_bytes(bytes: Seq<u8>, i: int)
    requires
        0 <= i < bytes.len(),
    ensures
        hex_text(bytes).len() == 2 * bytes.len(),
        hex_digit_value(hex_text(bytes)[2 * i]) * 16 + hex_digit_value(hex_text(bytes)[2 * i + 1])
            == bytes[i],
        0 <= hex_digit_value(hex_text(bytes)[2 * i]) < 16,
        0 <= hex_digit_value(hex_text(bytes)[2 * i + 1]) < 16,
{
    lemma_digit_value(bytes[i] as int / 16);
    lemma_digit_value(bytes[i] as int % 16);
}

/// A number that is written is worth what it was, and bytes that are written can be told
/// from the text.
pub proof fn law_written_numbers_keep_their_worth(n: u64, r: String, bytes: &[u8], text: String)
    requires
        call_ensures(decimal, (n,), r),
        call_ensures(hex, (bytes,), text),
    ensures
        decimal_value(r@) == n,
        r@.len() > 1 ==> r@[0] != '0',
        text@.len() == 2 * bytes@.len(),
        text@ == hex_text(bytes@),
{
    law_numeral_is_worth_the_number(n as nat);
}

} // verus!
