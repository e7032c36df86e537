//! Text and bytes.

use vstd::prelude::*;

verus! {

/// What `String::from_utf8_lossy` makes of bytes.
pub uninterp spec fn lossy(bytes: Seq<u8>) -> Seq<char>;

/// What `str::to_uppercase` makes of a text.
pub uninterp spec fn uppercase(text: Seq<char>) -> Seq<char>;

/// An ASCII letter in upper case; every other character as it is.
pub open spec fn ascii_upper(c: char) -> char {
    if 'a' <= c && c <= 'z' {
        (c as u32 - 32) as char
    } else {
        c
    }
}

/// Wraps `String::from_utf8_lossy`: bytes that are UTF-8 are decoded; what it puts
/// in the place of bytes that are not is left to the name `lossy`.
#[verifier::external_body]
pub(crate) fn lossy_text(bytes: &[u8]) -> (text: String)
    ensures
        text@ == lossy(bytes@),
        vstd::utf8::valid_utf8(bytes@) ==> text@ == vstd::utf8::decode_utf8(bytes@),
{
    String::from_utf8_lossy(bytes).into_owned()
}

/// Wraps `str::to_uppercase`: of a text in ASCII the letters are put in upper case;
/// what it makes of other texts is left to the name `uppercase`.
#[verifier::external_body]
pub(crate) fn upper_text(text: &str) -> (upper: String)
    ensures
        upper@ == uppercase(text@),
        vstd::utf8::is_ascii_chars(text@) ==> upper@ == text@.map_values(|c: char| ascii_upper(c)),
{
    text.to_uppercase()
}

/// Wraps `std::str::from_utf8`: the text that the bytes encode, if they are UTF-8.
#[verifier::external_body]
pub(crate) fn utf8_text(bytes: &[u8]) -> (text: Option<&str>)
    ensures
        match text {
            Some(decoded) => vstd::utf8::valid_utf8(bytes@) && decoded@
                == vstd::utf8::decode_utf8(bytes@),
            None => !vstd::utf8::valid_utf8(bytes@),
        },
{
    std::str::from_utf8(bytes).ok()
}

/// Whether a text is a word.
pub(crate) fn is_word(text: &String, word: &str) -> (same: bool)
    ensures
        same == (text@ == word@),
{
    let expected = word.to_owned();
    *text == expected
}

/// Whether a character is a digit.
pub open spec fn is_digit(c: char) -> bool {
    '0' <= c && c <= '9'
}

/// The number that digits write in base ten.
pub open spec fn decimal_value(digits: Seq<char>) -> nat
    decreases digits.len(),
{
    if digits.len() == 0 {
        0
    } else {
        decimal_value(digits.drop_last()) * 10 + (digits.last() as u32 - '0' as u32) as nat
    }
}

/// The number up to `max` that a text writes: digits, at least one, with or without
/// a plus sign before them.
pub open spec fn written_number(text: Seq<char>, max: nat) -> Option<nat> {
    let digits = if text.len() > 0 && text[0] == '+' {
        text.skip(1)
    } else {
        text
    };
    if digits.len() > 0 && (forall|i: int| 0 <= i < digits.len() ==> is_digit(#[trigger] digits[i]))
        && decimal_value(digits) <= max {
        Some(decimal_value(digits))
    } else {
        None
    }
}

/// Wraps `str::parse::<u16>`: the number that the text writes, if it fits.
#[verifier::external_body]
pub(crate) fn parse_u16(text: &str) -> (number: Option<u16>)
    ensures
        match number {
            Some(n) => written_number(text@, u16::MAX as nat) == Some(n as nat),
            None => written_number(text@, u16::MAX as nat) is None,
        },
{
    text.parse::<u16>().ok()
}

/// The digits of a number in base ten, as bytes.
pub open spec fn decimal_digits(n: nat) -> Seq<u8>
    decreases n,
{
    let last = (48 + n % 10) as u8;
    if n < 10 {
        seq![last]
    } else {
        decimal_digits(n / 10).push(last)
    }
}

/// A number in base ten, as bytes: a minus sign if it is negative, and the digits.
pub open spec fn decimal_text(n: int) -> Seq<u8> {
    if n < 0 {
        seq![45u8] + decimal_digits((-n) as nat)
    } else {
        decimal_digits(n as nat)
    }
}

/// Writes the digits of a number.
fn push_digits(n: u64, out: &mut Vec<u8>)
    ensures
        final(out)@ == old(out)@ + decimal_digits(n as nat),
    decreases n,
{
    if n >= 10 {
        push_digits(n / 10, out);
    }
    out.push((48 + n % 10) as u8);
    assert(out@ =~= old(out)@ + decimal_digits(n as nat));
}

/// A number in base ten, as bytes.
pub fn decimal(n: i64) -> (digits: Vec<u8>)
    ensures
        digits@ == decimal_text(n as int),
{
    let mut digits: Vec<u8> = Vec::new();
    if n < 0 {
        digits.push(45u8);
        push_digits((-(n as i128)) as u64, &mut digits);
    } else {
        push_digits(n as u64, &mut digits);
    }
    assert(digits@ =~= decimal_text(n as int));
    digits
}

/// The number that digits write in base ten, given as bytes.
pub open spec fn number_written(digits: Seq<u8>) -> int
    decreases digits.len(),
{
    if digits.len() == 0 {
        0
    } else {
        10 * number_written(digits.drop_last()) + (digits.last() - 48)
    }
}

/// What digits of a number are.
proof fn lemma_digits(n: nat)
    ensures
        decimal_digits(n).len() > 0,
        number_written(decimal_digits(n)) == n,
        forall|i: int|
            0 <= i < decimal_digits(n).len() ==> 48 <= #[trigger] decimal_digits(n)[i] <= 57,
        n > 0 ==> decimal_digits(n)[0] != 48,
        n == 0 ==> decimal_digits(n) == seq![48u8],
    decreases n,
{
    let digits = decimal_digits(n);
    if n >= 10 {
        lemma_digits(n / 10);
        assert(digits.drop_last() =~= decimal_digits(n / 10));
        assert(digits[0] == decimal_digits(n / 10)[0]);
    } else {
        assert(digits.drop_last() =~= Seq::empty());
        assert(number_written(digits.drop_last()) == 0);
        if n == 0 {
            assert(digits =~= seq![48u8]);
        }
    }
}

/// A number in decimal reads back as the number: a minus sign exactly if it is negative,
/// then digits only, without a zero in front unless that is all.
pub proof fn law_decimals_read_back(n: int)
    ensures
        ({
            let written = decimal_text(n);
            let digits = if n < 0 {
                written.skip(1)
            } else {
                written
            };
            &&& written.len() > 0
            &&& n < 0 <==> written[0] == 45
            &&& digits.len() > 0
            &&& forall|i: int| 0 <= i < digits.len() ==> 48 <= #[trigger] digits[i] <= 57
            &&& number_written(digits) == (if n < 0 {
                -n
            } else {
                n
            })
            &&& digits[0] == 48 ==> digits.len() == 1
        }),
{
    if n < 0 {
        lemma_digits((-n) as nat);
        assert(decimal_text(n).skip(1) =~= decimal_digits((-n) as nat));
    } else {
        lemma_digits(n as nat);
    }
}

} // verus!
