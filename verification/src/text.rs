//! Text helpers that the rest of the crate shares.

use vstd::prelude::*;

verus! {

/// Whether two texts are the same, character for character. This is `==` on
/// `str`, which compares the two texts' contents.
#[verifier::external_body]
pub(crate) fn same_text(a: &str, b: &str) -> (equal: bool)
    ensures
        equal == (a@ == b@),
{
    a == b
}

/// The value of a decimal digit.
pub open spec fn digit_value(digit: char) -> Option<int> {
    if '0' <= digit <= '9' {
        Some(digit as int - '0' as int)
    } else {
        None
    }
}

/// The number that the digits write in decimal; nothing where one of them is
/// no digit. No digits write zero.
pub open spec fn digits_value(digits: Seq<char>) -> Option<int>
    decreases digits.len(),
{
    if digits.len() == 0 {
        Some(0)
    } else {
        match (digits_value(digits.drop_last()), digit_value(digits.last())) {
            (Some(before), Some(digit)) => Some(10 * before + digit),
            _ => None,
        }
    }
}

/// The number that `text` writes in decimal: an optional `+`, then one digit
/// or more, and nothing else; nothing where the text is not of that form, or
/// writes a number above `u64::MAX`.
pub open spec fn decimal_u64(text: Seq<char>) -> Option<u64> {
    let digits = if text.len() > 0 && text[0] == '+' {
        text.skip(1)
    } else {
        text
    };
    if digits.len() == 0 {
        None
    } else {
        match digits_value(digits) {
            Some(number) => if number <= u64::MAX {
                Some(number as u64)
            } else {
                None
            },
            None => None,
        }
    }
}

/// Reads a `u64` from its decimal text. This is `str::parse::<u64>`, which
/// takes an optional `+` sign followed by digits only, and fails on an empty
/// text, on any other character, and on a number that does not fit.
#[verifier::external_body]
pub(crate) fn parse_u64(text: &str) -> (number: Option<u64>)
    ensures
        number == decimal_u64(text@),
{
    text.parse::<u64>().ok()
}

/// Whether `text` is the number `number` as it is printed: in decimal, without
/// a sign and without a leading zero, but for zero itself.
pub open spec fn is_decimal_of(text: Seq<char>, number: u64) -> bool {
    &&& text.len() > 0
    &&& text[0] != '+'
    &&& text.len() == 1 || text[0] != '0'
    &&& digits_value(text) == Some(number as int)
}

/// The number `number` as it is printed. This is `u64::to_string`, which
/// prints an integer in decimal, with no sign and no leading zero.
#[verifier::external_body]
pub(crate) fn decimal_text(number: u64) -> (text: String)
    ensures
        is_decimal_of(text@, number),
{
    number.to_string()
}

/// Whether `text` begins with `prefix`. This is `str::starts_with` with a text
/// as its pattern, which says whether the pattern matches a prefix of `text`.
#[verifier::external_body]
pub(crate) fn starts_with(text: &str, prefix: &str) -> (begins: bool)
    ensures
        begins == prefix@.is_prefix_of(text@),
{
    text.starts_with(prefix)
}

/// `text` with each character replaced by its Unicode case folding, as
/// `unicase::UniCase::to_folded_case` gives it. Two texts are the same name
/// without regard to case where their foldings are the same text.
pub uninterp spec fn folded_case(text: Seq<char>) -> Seq<char>;

/// The case folding of `text`. This is `unicase::UniCase::new`, then
/// `to_folded_case`, whose result depends on the text alone.
#[verifier::external_body]
pub(crate) fn fold_case(text: &str) -> (folded: String)
    ensures
        folded@ == folded_case(text@),
{
    unicase::UniCase::new(text).to_folded_case()
}

} // verus!
