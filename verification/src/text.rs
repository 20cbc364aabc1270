//! Text building blocks: decimal and hexadecimal numerals, padding, and the few
//! standard library string operations that the rest of the crate relies on.

use vstd::prelude::*;
use vstd::string::*;
#[allow(unused_imports)]
use vstd::utf8::{decode_utf8, valid_utf8};

verus! {

/// `String::push`: appends the character to the end of the string.
pub assume_specification[ String::push ](text: &mut String, c: char)
    ensures
        final(text)@ == old(text)@.push(c),
;

/// A result with its message taken as text.
pub open spec fn text_result<T>(result: Result<T, String>) -> Result<T, Seq<char>> {
    match result {
        Ok(value) => Ok(value),
        Err(message) => Err(message@),
    }
}

/// An optional string taken as text.
pub open spec fn optional_text(text: Option<String>) -> Option<Seq<char>> {
    match text {
        Some(text) => Some(text@),
        None => None,
    }
}

/// Whether `c` is a lower-case hexadecimal digit.
pub open spec fn is_lower_hex(c: char) -> bool {
    '0' <= c <= '9' || 'a' <= c <= 'f'
}

/// Whether `text` is a random (version 4) UUID in its hyphenated form.
pub open spec fn is_uuid_text(text: Seq<char>) -> bool {
    &&& text.len() == 36
    &&& forall|i: int|
        0 <= i < 36 ==> if i == 8 || i == 13 || i == 18 || i == 23 {
            #[trigger] text[i] == '-'
        } else {
            is_lower_hex(text[i])
        }
    &&& text[14] == '4'
    &&& text[19] == '8' || text[19] == '9' || text[19] == 'a' || text[19] == 'b'
}

/// The text that `String::from_utf8_lossy` makes of `bytes`.
pub uninterp spec fn utf8_lossy(bytes: Seq<u8>) -> Seq<char>;

/// The text of bytes that should be UTF-8, with replacement characters for what is not.
pub open spec fn received_text(bytes: Seq<u8>) -> Seq<char> {
    if valid_utf8(bytes) {
        decode_utf8(bytes)
    } else {
        utf8_lossy(bytes)
    }
}

/// `String::from_utf8_lossy`: decodes UTF-8, with replacement characters for what is not
/// UTF-8. What comes back depends on the bytes alone; valid UTF-8 is decoded as it is.
#[verifier::external_body]
pub(crate) fn lossy_text(bytes: &[u8]) -> (text: String)
    ensures
        text@ == utf8_lossy(bytes@),
        valid_utf8(bytes@) ==> text@ == decode_utf8(bytes@),
{
    String::from_utf8_lossy(bytes).into_owned()
}

/// `std::str::from_utf8`: the text of valid UTF-8, and `None` for anything else.
#[verifier::external_body]
pub(crate) fn utf8_text(bytes: &[u8]) -> (text: Option<String>)
    ensures
        match text {
            Some(text) => valid_utf8(bytes@) && text@ == decode_utf8(bytes@),
            None => !valid_utf8(bytes@),
        },
{
    std::str::from_utf8(bytes).ok().map(|text| text.to_string())
}

/// The `Debug` form of a string.
pub uninterp spec fn debug_form(text: Seq<char>) -> Seq<char>;

/// `Debug` of `str`: the text between quotation marks, with escapes. What comes back
/// depends on the text alone.
#[verifier::external_body]
pub(crate) fn debug_text(text: &str) -> (debug: String)
    ensures
        debug@ == debug_form(text@),
{
    format!("{:?}", text)
}

/// The character of a decimal digit.
pub open spec fn digit_char(digit: int) -> char {
    (0x30 + digit) as u8 as char
}

/// The decimal numeral of `n`, without leading zeros.
pub open spec fn decimal(n: nat) -> Seq<char>
    decreases n,
{
    if n < 10 {
        seq![digit_char(n as int)]
    } else {
        decimal(n / 10).push(digit_char((n % 10) as int))
    }
}

/// Whether `c` is a decimal digit.
pub open spec fn is_digit(c: char) -> bool {
    '0' <= c <= '9'
}

/// The number that a run of decimal digits stands for.
pub open spec fn digits_value(digits: Seq<char>) -> nat
    decreases digits.len(),
{
    if digits.len() == 0 {
        0
    } else {
        digits_value(digits.drop_last()) * 10 + (digits.last() as nat - '0' as nat) as nat
    }
}

/// Whether `text` is one or more decimal digits and nothing else.
pub open spec fn all_digits(text: Seq<char>) -> bool {
    text.len() > 0 && forall|i: int| 0 <= i < text.len() ==> is_digit(#[trigger] text[i])
}

/// `text` without a plus sign in front.
pub open spec fn without_plus(text: Seq<char>) -> Seq<char> {
    if text.len() > 0 && text[0] == '+' {
        text.drop_first()
    } else {
        text
    }
}

/// The number that `text` spells in decimal: digits and nothing else, behind an optional
/// plus sign.
pub open spec fn spelled_number(text: Seq<char>) -> Option<nat> {
    if all_digits(without_plus(text)) {
        Some(digits_value(without_plus(text)))
    } else {
        None
    }
}

/// The words in which `u64::from_str` says why it cannot read `text`.
pub uninterp spec fn u64_parse_error(text: Seq<char>) -> Seq<char>;

/// `str::parse::<u64>`: reads a decimal number, digits behind an optional plus sign. It
/// fails on any other text and on a number above `u64::MAX`; the words of the failure
/// depend on the text alone.
#[verifier::external_body]
pub(crate) fn parse_u64(text: &str) -> (number: Result<u64, String>)
    ensures
        match spelled_number(text@) {
            Some(n) if n <= u64::MAX => number == Ok::<u64, String>(n as u64),
            _ => number matches Err(message) && message@ == u64_parse_error(text@),
        },
{
    text.parse::<u64>().map_err(|e| e.to_string())
}

/// The texts of a sequence of strings.
pub open spec fn texts(strings: Seq<String>) -> Seq<Seq<char>> {
    strings.map_values(|s: String| s@)
}

/// `width` copies of `c`.
pub open spec fn repeated(c: char, width: nat) -> Seq<char> {
    Seq::new(width, |i: int| c)
}

/// `text` with enough copies of `fill` in front of it to be `width` characters wide.
pub open spec fn pad_left(text: Seq<char>, fill: char, width: nat) -> Seq<char> {
    if text.len() < width {
        repeated(fill, (width - text.len()) as nat) + text
    } else {
        text
    }
}

/// The upper-case hexadecimal digit with the value `nibble`.
pub open spec fn hex_char(nibble: int) -> char {
    if nibble < 10 {
        (0x30 + nibble) as u8 as char
    } else {
        (0x37 + nibble) as u8 as char
    }
}

/// `byte` as two upper-case hexadecimal digits behind `0x`.
pub open spec fn hex_byte(byte: u8) -> Seq<char> {
    "0x"@.push(hex_char(byte as int / 16)).push(hex_char(byte as int % 16))
}

/// Renders `n` as a decimal numeral.
pub fn decimal_text(n: usize) -> (text: String)
    ensures
        text@ == decimal(n as nat),
    decreases n,
{
    if n < 10 {
        let mut text = String::new();
        text.push((0x30 + n as u8) as char);
        text
    } else {
        let mut text = decimal_text(n / 10);
        text.push((0x30 + (n % 10) as u8) as char);
        text
    }
}

/// Renders `byte` as `0xHH`.
pub fn hex_byte_text(byte: u8) -> (text: String)
    ensures
        text@ == hex_byte(byte),
{
    let mut text = "0x".to_string();
    let high: u8 = byte / 16;
    let low: u8 = byte % 16;
    text.push(if high < 10 { (0x30 + high) as char } else { (0x37 + high) as char });
    text.push(if low < 10 { (0x30 + low) as char } else { (0x37 + low) as char });
    text
}

/// Appends `count` copies of `c` to `text`.
pub fn push_repeated(text: &mut String, c: char, count: usize)
    ensures
        final(text)@ == old(text)@ + repeated(c, count as nat),
{
    let mut i: usize = 0;
    while i < count
        invariant
            i <= count,
            text@ == old(text)@ + repeated(c, i as nat),
        decreases count - i,
    {
        text.push(c);
        i += 1;
        assert(repeated(c, i as nat) =~= repeated(c, (i - 1) as nat).push(c));
    }
}

/// Appends `piece` to `text`, right-aligned in a field of `width` characters.
pub fn push_padded(text: &mut String, piece: &str, fill: char, width: usize)
    ensures
        final(text)@ == old(text)@ + pad_left(piece@, fill, width as nat),
{
    let len = piece.unicode_len();
    if len < width {
        push_repeated(text, fill, width - len);
    }
    text.append(piece);
}

/// A decimal numeral is made of digits.
pub proof fn lemma_decimal_is_digits(n: nat)
    ensures
        all_digits(decimal(n)),
    decreases n,
{
    if n >= 10 {
        lemma_decimal_is_digits(n / 10);
    }
}

/// Reading a decimal numeral gives the number that was written.
pub proof fn law_decimal_reads_back(n: nat)
    ensures
        spelled_number(decimal(n)) == Some(n),
{
    lemma_decimal_is_digits(n);
    lemma_decimal_value(n);
    assert(is_digit(decimal(n)[0]));
}

proof fn lemma_decimal_value(n: nat)
    ensures
        digits_value(decimal(n)) == n,
    decreases n,
{
    if n >= 10 {
        lemma_decimal_value(n / 10);
        assert(decimal(n).drop_last() =~= decimal(n / 10));
    } else {
        reveal_with_fuel(digits_value, 2);
    }
}

/// A larger number has at least as many digits.
pub proof fn lemma_decimal_length_grows(a: nat, b: nat)
    requires
        a <= b,
    ensures
        decimal(a).len() <= decimal(b).len(),
    decreases b,
{
    if b >= 10 {
        if a >= 10 {
            lemma_decimal_length_grows(a / 10, b / 10);
        } else {
            lemma_decimal_is_digits(b / 10);
        }
    }
}

} // verus!
