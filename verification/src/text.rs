//! Numbers written as text: decimal and hexadecimal digits, and the length
//! of a text in bytes.

use vstd::prelude::*;
use vstd::string::*;
use vstd::utf8::*;

verus! {

/// The decimal digits, each at the index of its value.
pub open spec fn decimal_digits() -> Seq<char> {
    "0123456789"@
}

/// The lowercase hexadecimal digits, each at the index of its value.
pub open spec fn hex_digits() -> Seq<char> {
    "0123456789abcdef"@
}

/// `c` is one of `0` to `9`.
pub open spec fn is_decimal_digit(c: char) -> bool {
    '0' <= c && c <= '9'
}

/// `c` is one of `0` to `9` or `a` to `f`.
pub open spec fn is_lower_hex(c: char) -> bool {
    ('0' <= c && c <= '9') || ('a' <= c && c <= 'f')
}

/// Every character of `s` is a decimal digit.
pub open spec fn all_decimal(s: Seq<char>) -> bool {
    forall|i: int| 0 <= i < s.len() ==> is_decimal_digit(#[trigger] s[i])
}

/// Every character of `s` is a lowercase hexadecimal digit.
pub open spec fn all_lower_hex(s: Seq<char>) -> bool {
    forall|i: int| 0 <= i < s.len() ==> is_lower_hex(#[trigger] s[i])
}

/// `n` in decimal, without leading zeros.
pub open spec fn decimal(n: nat) -> Seq<char>
    decreases n,
{
    if n < 10 {
        seq![decimal_digits()[n as int]]
    } else {
        decimal(n / 10).push(decimal_digits()[(n % 10) as int])
    }
}

/// `i` in decimal, with a leading `-` where it is negative.
pub open spec fn signed_decimal(i: int) -> Seq<char> {
    if i < 0 {
        "-"@ + decimal((-i) as nat)
    } else {
        decimal(i as nat)
    }
}

/// `n` in decimal, with a leading zero where it is below ten.
pub open spec fn two_digits(n: nat) -> Seq<char> {
    if n < 10 {
        "0"@ + decimal(n)
    } else {
        decimal(n)
    }
}

/// The last `width` hexadecimal digits of `n`, most significant first.
pub open spec fn hex_padded(n: nat, width: nat) -> Seq<char>
    decreases width,
{
    if width == 0 {
        Seq::<char>::empty()
    } else {
        hex_padded(n / 16, (width - 1) as nat).push(hex_digits()[(n % 16) as int])
    }
}

/// `n` as eight lowercase hexadecimal digits.
pub open spec fn hex8(n: u32) -> Seq<char> {
    hex_padded(n as nat, 8)
}

/// `c` in lowercase where it is an uppercase letter of ASCII, else `c`.
pub open spec fn ascii_lower(c: char) -> char {
    if 'A' <= c && c <= 'Z' {
        ((c as u8 + 32) as u8) as char
    } else {
        c
    }
}

/// `s` with its uppercase letters of ASCII in lowercase.
pub open spec fn lowercase(s: Seq<char>) -> Seq<char> {
    Seq::new(s.len(), |i: int| ascii_lower(s[i]))
}

/// The value of a lowercase hexadecimal digit.
pub open spec fn hex_digit_value(c: char) -> nat {
    if '0' <= c && c <= '9' {
        (c as int - '0' as int) as nat
    } else {
        (c as int - 'a' as int + 10) as nat
    }
}

/// The number that lowercase hexadecimal digits write, most significant
/// first.
pub open spec fn hex_value(digits: Seq<char>) -> nat
    decreases digits.len(),
{
    if digits.len() == 0 {
        0
    } else {
        16 * hex_value(digits.drop_last()) + hex_digit_value(digits.last())
    }
}

/// Number of bytes that `s` takes in UTF-8.
pub open spec fn byte_len(s: Seq<char>) -> nat {
    encode_utf8(s).len()
}

/// What the two digit tables hold.
pub proof fn lemma_digit_tables()
    ensures
        decimal_digits().len() == 10,
        hex_digits().len() == 16,
        forall|d: int| 0 <= d < 10 ==> #[trigger] decimal_digits()[d] as int == '0' as int + d,
        forall|d: int| 0 <= d < 10 ==> #[trigger] hex_digits()[d] as int == '0' as int + d,
        forall|d: int| 10 <= d < 16 ==> #[trigger] hex_digits()[d] as int == 'a' as int + d - 10,
        is_ascii_chars(decimal_digits()),
        is_ascii_chars(hex_digits()),
{
    reveal_strlit("0123456789");
    reveal_strlit("0123456789abcdef");
    let dec = decimal_digits();
    let hex = hex_digits();
    assert forall|d: int| 0 <= d < 10 implies #[trigger] dec[d] as int == '0' as int + d by {
        assert(dec[0] == '0' && dec[1] == '1' && dec[2] == '2' && dec[3] == '3' && dec[4] == '4');
        assert(dec[5] == '5' && dec[6] == '6' && dec[7] == '7' && dec[8] == '8' && dec[9] == '9');
    }
    assert forall|d: int| 0 <= d < 16 implies #[trigger] hex[d] as int == (if d < 10 {
        '0' as int + d
    } else {
        'a' as int + d - 10
    }) by {
        assert(hex[0] == '0' && hex[1] == '1' && hex[2] == '2' && hex[3] == '3' && hex[4] == '4');
        assert(hex[5] == '5' && hex[6] == '6' && hex[7] == '7' && hex[8] == '8' && hex[9] == '9');
        assert(hex[10] == 'a' && hex[11] == 'b' && hex[12] == 'c' && hex[13] == 'd');
        assert(hex[14] == 'e' && hex[15] == 'f');
    }
}

/// A decimal number is made of decimal digits, at least one of them.
pub proof fn lemma_decimal_digits(n: nat)
    ensures
        decimal(n).len() >= 1,
        all_decimal(decimal(n)),
    decreases n,
{
    lemma_digit_tables();
    if n >= 10 {
        lemma_decimal_digits(n / 10);
    }
}

/// A number below a power of ten has no more digits than the power has
/// zeros.
pub proof fn lemma_decimal_len(n: nat, digits: nat, bound: nat)
    requires
        digits >= 1,
        bound == vstd::arithmetic::power::pow(10, digits),
        n < bound,
    ensures
        decimal(n).len() <= digits,
    decreases digits,
{
    vstd::arithmetic::power::lemma_pow1(10);
    vstd::arithmetic::power::lemma_pow_positive(10, (digits - 1) as nat);
    if n >= 10 {
        assert(vstd::arithmetic::power::pow(10, digits) == 10 * vstd::arithmetic::power::pow(
            10,
            (digits - 1) as nat,
        )) by {
            reveal(vstd::arithmetic::power::pow);
        }
        if digits == 1 {
        } else {
            let rest = vstd::arithmetic::power::pow(10, (digits - 1) as nat) as nat;
            assert(n / 10 < rest) by (nonlinear_arith)
                requires
                    n < 10 * rest,
            ;
            lemma_decimal_len(n / 10, (digits - 1) as nat, rest);
        }
    }
}

/// A number that is at least a power of ten has more digits than the
/// power has zeros.
pub proof fn lemma_decimal_len_at_least(n: nat, zeros: nat, bound: nat)
    requires
        bound == vstd::arithmetic::power::pow(10, zeros),
        n >= bound,
    ensures
        decimal(n).len() > zeros,
    decreases zeros,
{
    lemma_decimal_digits(n);
    if zeros > 0 {
        reveal(vstd::arithmetic::power::pow);
        let rest = vstd::arithmetic::power::pow(10, (zeros - 1) as nat);
        assert(bound == 10 * rest);
        vstd::arithmetic::power::lemma_pow_positive(10, (zeros - 1) as nat);
        assert(n / 10 >= rest) by (nonlinear_arith)
            requires
                n >= 10 * rest,
        ;
        lemma_decimal_len_at_least(n / 10, (zeros - 1) as nat, rest as nat);
    }
}

/// `width` hexadecimal digits are that many characters, each a lowercase
/// hexadecimal digit.
pub proof fn lemma_hex_padded_digits(n: nat, width: nat)
    ensures
        hex_padded(n, width).len() == width,
        all_lower_hex(hex_padded(n, width)),
    decreases width,
{
    lemma_digit_tables();
    if width > 0 {
        lemma_hex_padded_digits(n / 16, (width - 1) as nat);
    }
}

/// Hexadecimal digits write the number they were made of, where the
/// number needs no more digits than were written.
pub proof fn lemma_hex_padded_value(n: nat, width: nat)
    requires
        n < vstd::arithmetic::power::pow(16, width),
    ensures
        hex_value(hex_padded(n, width)) == n,
    decreases width,
{
    lemma_digit_tables();
    reveal(vstd::arithmetic::power::pow);
    if width > 0 {
        let rest = vstd::arithmetic::power::pow(16, (width - 1) as nat);
        assert(vstd::arithmetic::power::pow(16, width) == 16 * rest);
        assert(n / 16 < rest) by (nonlinear_arith)
            requires
                n < 16 * rest,
        ;
        lemma_hex_padded_value(n / 16, (width - 1) as nat);
        let digits = hex_padded(n, width);
        assert(digits.drop_last() =~= hex_padded(n / 16, (width - 1) as nat));
        assert(digits.last() == hex_digits()[(n % 16) as int]);
        assert(hex_digit_value(digits.last()) == n % 16);
    }
}

/// The eight digits of a number of 32 bits write that number.
pub proof fn lemma_hex8_value(n: u32)
    ensures
        hex_value(hex8(n)) == n,
{
    assert(vstd::arithmetic::power::pow(16, 8) == 0x1_0000_0000int) by {
        reveal_with_fuel(vstd::arithmetic::power::pow, 9);
    }
    lemma_hex_padded_value(n as nat, 8);
}

/// The encoding of two texts, one after the other, is the two encodings,
/// one after the other.
pub proof fn lemma_encode_concat(a: Seq<char>, b: Seq<char>)
    ensures
        encode_utf8(a + b) == encode_utf8(a) + encode_utf8(b),
        byte_len(a + b) == byte_len(a) + byte_len(b),
    decreases a.len(),
{
    if a.len() == 0 {
        assert(a + b =~= b);
        assert(encode_utf8(a) + encode_utf8(b) =~= encode_utf8(b));
    } else {
        lemma_encode_concat(a.drop_first(), b);
        assert((a + b).drop_first() =~= a.drop_first() + b);
        assert((a + b)[0] == a[0]);
        assert(encode_utf8(a + b) =~= encode_utf8(a) + encode_utf8(b));
    }
}

/// A text of ASCII characters takes one byte for each character.
pub proof fn lemma_ascii_byte_len(s: Seq<char>)
    requires
        is_ascii_chars(s),
    ensures
        byte_len(s) == s.len(),
{
    is_ascii_chars_encode_utf8(s);
}

/// The decimal digit of value `d`, as a text of one character.
fn decimal_digit_str(d: usize) -> (digit: &'static str)
    requires
        d < 10,
    ensures
        digit@ == seq![decimal_digits()[d as int]],
{
    proof {
        lemma_digit_tables();
    }
    let digit = "0123456789".substring_ascii(d, d + 1);
    assert(digit@ =~= seq![decimal_digits()[d as int]]);
    digit
}

/// The hexadecimal digit of value `d`, as a text of one character.
pub(crate) fn hex_digit_str(d: u32) -> (digit: &'static str)
    requires
        d < 16,
    ensures
        digit@ == seq![hex_digits()[d as int]],
{
    proof {
        lemma_digit_tables();
    }
    let at = d as usize;
    let digit = "0123456789abcdef".substring_ascii(at, at + 1);
    assert(digit@ =~= seq![hex_digits()[d as int]]);
    digit
}

/// Writes `n` in decimal, without leading zeros.
pub fn decimal_string(n: usize) -> (text: String)
    ensures
        text@ == decimal(n as nat),
    decreases n,
{
    if n < 10 {
        String::from_str(decimal_digit_str(n))
    } else {
        let mut text = decimal_string(n / 10);
        text.append(decimal_digit_str(n % 10));
        text
    }
}

/// Writes the last `width` hexadecimal digits of `n`, most significant
/// first.
pub fn hex_padded_string(n: u32, width: u32) -> (text: String)
    ensures
        text@ == hex_padded(n as nat, width as nat),
    decreases width,
{
    if width == 0 {
        String::new()
    } else {
        let mut text = hex_padded_string(n / 16, width - 1);
        text.append(hex_digit_str(n % 16));
        text
    }
}

} // verus!
