//! Text helpers: comparing strings, rendering integers in decimal and
//! hexadecimal, and the standard-library text conversions the parser relies on.
use vstd::arithmetic::div_mod::lemma_breakdown;
use vstd::arithmetic::power::{lemma_pow_positive, pow};
use vstd::prelude::*;
use vstd::string::*;
use vstd::utf8::*;

verus! {

/// The ASCII digit for a value below 16 (lower-case letters above 9).
pub open spec fn digit_char(d: nat) -> char {
    if d < 10 {
        (48 + d) as char
    } else {
        (87 + d) as char
    }
}

/// Decimal rendering of a natural number, without sign or leading zeros.
pub open spec fn decimal(n: nat) -> Seq<char>
    decreases n,
{
    if n < 10 {
        seq![digit_char(n)]
    } else {
        decimal(n / 10).push(digit_char(n % 10))
    }
}

/// Decimal rendering of an integer, with a leading `-` for negative values.
pub open spec fn signed_decimal(i: int) -> Seq<char> {
    if i < 0 {
        seq!['-'] + decimal((-i) as nat)
    } else {
        decimal(i as nat)
    }
}

/// Lower-case hexadecimal rendering of `n` padded with zeros to exactly `width` digits
/// (only the low `width` digits are kept).
pub open spec fn hex_fixed(n: nat, width: nat) -> Seq<char>
    decreases width,
{
    if width == 0 {
        seq![]
    } else {
        hex_fixed(n / 16, (width - 1) as nat).push(digit_char(n % 16))
    }
}

/// `true` or `false`, as Rust renders a `bool`.
pub open spec fn bool_text(b: bool) -> Seq<char> {
    if b {
        seq!['t', 'r', 'u', 'e']
    } else {
        seq!['f', 'a', 'l', 's', 'e']
    }
}

/// Whether two string slices hold the same characters.
pub fn str_eq(a: &str, b: &str) -> (r: bool)
    ensures
        r == (a@ == b@),
{
    let n: usize = a.unicode_len();
    if n != b.unicode_len() {
        return false;
    }
    let mut i: usize = 0;
    while i < n
        invariant
            n == a@.len(),
            n == b@.len(),
            i <= n,
            forall|j: int| 0 <= j < i ==> a@[j] == b@[j],
        decreases n - i,
    {
        if a.get_char(i) != b.get_char(i) {
            return false;
        }
        i += 1;
    }
    assert(a@ =~= b@);
    true
}

/// The one-character string holding the digit `d` (below 16).
fn digit_str(d: u64) -> (r: &'static str)
    requires
        d < 16,
    ensures
        r@ == seq![digit_char(d as nat)],
{
    let digits = "0123456789abcdef";
    proof {
        reveal_strlit("0123456789abcdef");
    }
    let i: usize = d as usize;
    let r = digits.substring_char(i, i + 1);
    assert(r@ =~= seq![digits@[i as int]]);
    r
}

/// Appends the decimal rendering of `n` to `s`.
pub fn push_decimal(s: &mut String, n: u64)
    ensures
        final(s)@ == old(s)@ + decimal(n as nat),
    decreases n,
{
    if n >= 10 {
        push_decimal(s, n / 10);
    }
    s.append(digit_str(n % 10));
}

/// Appends the decimal rendering of `i`, with a `-` sign when negative.
pub fn push_signed_decimal(s: &mut String, i: i64)
    ensures
        final(s)@ == old(s)@ + signed_decimal(i as int),
{
    if i < 0 {
        s.append("-");
        proof {
            reveal_strlit("-");
        }
        let m: u64 = if i == i64::MIN {
            9223372036854775808u64
        } else {
            (-i) as u64
        };
        push_decimal(s, m);
        assert(s@ =~= old(s)@ + signed_decimal(i as int));
    } else {
        push_decimal(s, i as u64);
    }
}

/// Appends the lower-case hexadecimal rendering of `n`, zero-padded to `width` digits.
pub fn push_hex_fixed(s: &mut String, n: u64, width: u64)
    ensures
        final(s)@ == old(s)@ + hex_fixed(n as nat, width as nat),
    decreases width,
{
    if width > 0 {
        push_hex_fixed(s, n / 16, width - 1);
        s.append(digit_str(n % 16));
    } else {
        assert(hex_fixed(n as nat, 0) =~= Seq::<char>::empty());
        assert(old(s)@ + hex_fixed(n as nat, 0) =~= old(s)@);
    }
}

/// Appends `true` or `false`.
pub fn push_bool(s: &mut String, b: bool)
    ensures
        final(s)@ == old(s)@ + bool_text(b),
{
    if b {
        s.append("true");
        proof {
            reveal_strlit("true");
        }
    } else {
        s.append("false");
        proof {
            reveal_strlit("false");
        }
    }
}

/// The decimal rendering of `n` is a non-empty string of ASCII digits whose value is `n`.
pub proof fn lemma_decimal_is_digits(n: nat)
    ensures
        decimal(n).len() >= 1,
        forall|i: int| 0 <= i < decimal(n).len() ==> #[trigger] is_ascii_digit(decimal(n)[i]),
        digits_value(decimal(n)) == n,
    decreases n,
{
    let d: nat = (n % 10) as nat;
    assert(digit_char(d) as int == 48 + d);
    assert(decimal(n).last() == digit_char(d));
    if n < 10 {
        assert(decimal(n).drop_last() =~= Seq::<char>::empty());
        assert(digits_value(decimal(n)) == digits_value(Seq::<char>::empty()) * 10 + d);
    } else {
        lemma_decimal_is_digits(n / 10);
        assert(decimal(n).drop_last() =~= decimal(n / 10));
        assert(digits_value(decimal(n)) == (n / 10) * 10 + d);
    }
}

/// Reading back the decimal rendering of a `u32` gives the number.
pub proof fn lemma_u32_decimal_round_trip(n: u32)
    ensures
        u32_text(decimal(n as nat)) == Some(n),
{
    lemma_decimal_is_digits(n as nat);
    assert(is_ascii_digit(decimal(n as nat)[0]));
}

/// Reading back the signed decimal rendering of an `i32` gives the number.
pub proof fn lemma_i32_decimal_round_trip(i: i32)
    ensures
        i32_text(signed_decimal(i as int)) == Some(i),
{
    if i < 0 {
        let d = decimal((-i) as nat);
        lemma_decimal_is_digits((-i) as nat);
        assert((seq!['-'] + d).drop_first() =~= d);
    } else {
        lemma_decimal_is_digits(i as nat);
        assert(is_ascii_digit(decimal(i as nat)[0]));
    }
}

/// Whether a character is a lower-case hexadecimal digit: `0` to `9` or `a` to `f`.
pub open spec fn is_hex_digit(c: char) -> bool {
    ('0' <= c <= '9') || ('a' <= c <= 'f')
}

/// The value of a hexadecimal digit.
pub open spec fn hex_digit_value(c: char) -> int {
    if '0' <= c <= '9' {
        c as int - '0' as int
    } else {
        c as int - 'a' as int + 10
    }
}

/// The value of a string of hexadecimal digits, most significant first.
pub open spec fn hex_value(d: Seq<char>) -> int
    decreases d.len(),
{
    if d.len() == 0 {
        0
    } else {
        hex_value(d.drop_last()) * 16 + hex_digit_value(d.last())
    }
}

/// The fixed-width hexadecimal rendering has exactly `width` digits and reads back as
/// `n` modulo `16` to the power `width`.
pub proof fn lemma_hex_fixed_reads_back(n: nat, width: nat)
    ensures
        hex_fixed(n, width).len() == width,
        forall|i: int| 0 <= i < width ==> #[trigger] is_hex_digit(hex_fixed(n, width)[i]),
        hex_value(hex_fixed(n, width)) == (n as int) % pow(16, width),
    decreases width,
{
    reveal(pow);
    if width == 0 {
        assert(n % 1 == 0);
    } else {
        let w1: nat = (width - 1) as nat;
        let d: nat = (n % 16) as nat;
        lemma_hex_fixed_reads_back(n / 16, w1);
        let h = hex_fixed(n, width);
        assert(h.drop_last() =~= hex_fixed(n / 16, w1));
        assert(h.last() == digit_char(d));
        if d < 10 {
            assert(digit_char(d) as int == 48 + d);
        } else {
            assert(digit_char(d) as int == 87 + d);
        }
        assert(hex_digit_value(digit_char(d)) == d);
        lemma_pow_positive(16, w1);
        lemma_breakdown(n as int, 16, pow(16, w1));
        assert(pow(16, width) == 16 * pow(16, w1));
        assert(hex_value(h) == hex_value(hex_fixed(n / 16, w1)) * 16 + d);
        assert forall|i: int| 0 <= i < width implies #[trigger] is_hex_digit(h[i]) by {
            if i < w1 {
                assert(h[i] == hex_fixed(n / 16, w1)[i]);
            }
        }
    }
}

/// The eight hexadecimal digits of a `u32` read back as the number itself.
pub proof fn lemma_u32_hex_round_trip(n: u32)
    ensures
        hex_fixed(n as nat, 8).len() == 8,
        hex_value(hex_fixed(n as nat, 8)) == n,
{
    lemma_hex_fixed_reads_back(n as nat, 8);
    reveal_with_fuel(pow, 9);
    assert(pow(16, 8) == 0x1_0000_0000);
}

/// Whether a character is one of the ASCII digits `0` to `9`.
pub open spec fn is_ascii_digit(c: char) -> bool {
    '0' <= c <= '9'
}

/// The value of a string of ASCII digits read in base ten.
pub open spec fn digits_value(d: Seq<char>) -> nat
    decreases d.len(),
{
    if d.len() == 0 {
        0
    } else {
        digits_value(d.drop_last()) * 10 + ((d.last() as int - 48) as nat)
    }
}

/// The value of a non-empty string made of ASCII digits only; `None` for any other string.
pub open spec fn digit_string(d: Seq<char>) -> Option<nat> {
    if d.len() > 0 && forall|i: int| 0 <= i < d.len() ==> #[trigger] is_ascii_digit(d[i]) {
        Some(digits_value(d))
    } else {
        None
    }
}

/// The number written by an optional `+` followed by decimal digits.
pub open spec fn unsigned_decimal_text(s: Seq<char>) -> Option<nat> {
    if s.len() > 0 && s[0] == '+' {
        digit_string(s.drop_first())
    } else {
        digit_string(s)
    }
}

/// The number written by an optional `+` or `-` followed by decimal digits.
pub open spec fn signed_decimal_text(s: Seq<char>) -> Option<int> {
    if s.len() > 0 && s[0] == '-' {
        match digit_string(s.drop_first()) {
            Some(n) => Some(-n),
            None => None,
        }
    } else {
        match unsigned_decimal_text(s) {
            Some(n) => Some(n as int),
            None => None,
        }
    }
}

/// What `u32::from_str` accepts: the text written by [`unsigned_decimal_text`], in range.
pub open spec fn u32_text(s: Seq<char>) -> Option<u32> {
    match unsigned_decimal_text(s) {
        Some(n) => if n <= u32::MAX {
            Some(n as u32)
        } else {
            None
        },
        None => None,
    }
}

/// What `i32::from_str` accepts: the text written by [`signed_decimal_text`], in range.
pub open spec fn i32_text(s: Seq<char>) -> Option<i32> {
    match signed_decimal_text(s) {
        Some(n) => if i32::MIN <= n <= i32::MAX {
            Some(n as i32)
        } else {
            None
        },
        None => None,
    }
}

/// Makes `std::num::ParseIntError` known to Verus as an opaque type; nothing is claimed of its values.
#[verifier::external_type_specification]
#[verifier::external_body]
pub struct ExParseIntError(std::num::ParseIntError);

/// Names the result of `str::to_lowercase`: the characters mapped to their lower-case forms
/// by the Unicode `Lowercase` property.
pub uninterp spec fn lowercase(s: Seq<char>) -> Seq<char>;

/// Whether every character of a text is ASCII.
pub open spec fn is_ascii_text(s: Seq<char>) -> bool {
    forall|i: int| 0 <= i < s.len() ==> (#[trigger] s[i] as int) < 128
}

/// An ASCII letter `A` to `Z` in lower case; any other character unchanged.
pub open spec fn ascii_lower_char(c: char) -> char {
    if 'A' <= c <= 'Z' {
        ((c as int) + 32) as char
    } else {
        c
    }
}

/// A text with its ASCII capital letters in lower case.
pub open spec fn ascii_lowercase(s: Seq<char>) -> Seq<char> {
    s.map_values(|c: char| ascii_lower_char(c))
}

/// Calls `str::to_lowercase`. The contract says that the result is [`lowercase`] of the
/// input, and that on ASCII text it maps `A` to `Z` to `a` to `z` and keeps every other
/// character.
#[verifier::external_body]
pub(crate) fn to_lowercase(s: &str) -> (r: String)
    ensures
        r@ == lowercase(s@),
        is_ascii_text(s@) ==> r@ == ascii_lowercase(s@),
{
    s.to_lowercase()
}

/// Names the error that `u32::from_str` gives for a text it refuses; it depends on the
/// text alone.
pub uninterp spec fn u32_text_error(s: Seq<char>) -> std::num::ParseIntError;

/// Names the error that `i32::from_str` gives for a text it refuses; it depends on the
/// text alone.
pub uninterp spec fn i32_text_error(s: Seq<char>) -> std::num::ParseIntError;

/// Calls `u32::from_str`. Its documentation: the text is an optional `+` followed by
/// decimal digits; an empty text, any other character, or a value out of range is an error.
/// The error is named by [`u32_text_error`].
#[verifier::external_body]
pub(crate) fn u32_from_str(s: &str) -> (r: Result<u32, std::num::ParseIntError>)
    ensures
        r is Ok <==> u32_text(s@) is Some,
        r matches Ok(v) ==> u32_text(s@) == Some(v),
        r matches Err(e) ==> e == u32_text_error(s@),
{
    s.parse::<u32>()
}

/// Calls `i32::from_str`. Its documentation: the text is an optional `+` or `-` followed by
/// decimal digits; an empty text, any other character, or a value out of range is an error.
/// The error is named by [`i32_text_error`].
#[verifier::external_body]
pub(crate) fn i32_from_str(s: &str) -> (r: Result<i32, std::num::ParseIntError>)
    ensures
        r is Ok <==> i32_text(s@) is Some,
        r matches Ok(v) ==> i32_text(s@) == Some(v),
        r matches Err(e) ==> e == i32_text_error(s@),
{
    s.parse::<i32>()
}

/// Calls `String::from_utf8`: a string exactly when the bytes are well-formed UTF-8,
/// holding the characters they encode.
#[verifier::external_body]
pub(crate) fn string_from_utf8(bytes: Vec<u8>) -> (r: Option<String>)
    ensures
        r is Some <==> valid_utf8(bytes@),
        r matches Some(s) ==> s@ == decode_utf8(bytes@),
{
    String::from_utf8(bytes).ok()
}

} // verus!
