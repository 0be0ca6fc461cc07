//! Validation of numeric command-line values.
use vstd::prelude::*;

verus! {

/// A character is an ASCII decimal digit.
pub open spec fn is_digit(c: char) -> bool {
    '0' <= c && c <= '9'
}

/// Every character of `s` is an ASCII decimal digit.
pub open spec fn all_digits(s: Seq<char>) -> bool {
    forall|i: int| 0 <= i < s.len() ==> is_digit(#[trigger] s[i])
}

/// The value of a sequence of decimal digits, most significant first.
pub open spec fn digits_value(s: Seq<char>) -> int
    decreases s.len(),
{
    if s.len() == 0 {
        0
    } else {
        digits_value(s.drop_last()) * 10 + (s.last() as int - '0' as int)
    }
}

/// The value written by `s` when it is an optional `+` or `-` sign followed by
/// one or more decimal digits, and `None` for any other text.
pub open spec fn signed_decimal_value(s: Seq<char>) -> Option<int> {
    if s.len() > 0 && (s[0] == '+' || s[0] == '-') {
        let d = s.drop_first();
        if d.len() > 0 && all_digits(d) {
            Some(if s[0] == '-' { -digits_value(d) } else { digits_value(d) })
        } else {
            None
        }
    } else if s.len() > 0 && all_digits(s) {
        Some(digits_value(s))
    } else {
        None
    }
}

/// `s` names a value of type `isize`.
pub open spec fn is_isize_text(s: Seq<char>) -> bool {
    match signed_decimal_value(s) {
        Some(v) => isize::MIN <= v <= isize::MAX,
        None => false,
    }
}

/// Relies on `str::parse::<isize>`: it accepts an optional sign followed by
/// decimal digits whose value fits in `isize`, and rejects everything else.
#[verifier::external_body]
fn parse_isize(s: &str) -> (r: Option<isize>)
    ensures
        r.is_some() <==> is_isize_text(s@),
        r matches Some(n) ==> signed_decimal_value(s@) == Some(n as int),
{
    s.parse::<isize>().ok()
}

/// Why a value was refused.
pub open spec fn integer_message() -> Seq<char> {
    "Value must be an integer"@
}

/// Why a value was refused where a count is expected.
pub open spec fn count_message() -> Seq<char> {
    "Value must be a positive integer"@
}

/// Accepts `v` when it names an `isize`; otherwise explains that an integer is
/// expected.
pub fn arg_validator_isize(v: &str) -> (r: Result<(), String>)
    ensures
        r is Ok <==> is_isize_text(v@),
        r matches Err(m) ==> m@ == integer_message(),
{
    match parse_isize(v) {
        Some(_) => Ok(()),
        None => Err(String::from_str("Value must be an integer")),
    }
}

/// Accepts `v` when it names an `isize` (counts are read through the signed
/// type, as the rest of the tool does); otherwise explains that a positive
/// integer is expected.
pub fn arg_validator_usize(v: &str) -> (r: Result<(), String>)
    ensures
        r is Ok <==> is_isize_text(v@),
        r matches Err(m) ==> m@ == count_message(),
{
    match parse_isize(v) {
        Some(_) => Ok(()),
        None => Err(String::from_str("Value must be a positive integer")),
    }
}

/// `v` ends with the character `c`.
pub open spec fn ends_with_char(v: Seq<char>, c: char) -> bool {
    v.len() > 0 && v.last() == c
}

/// What is left of `v` for the inner validator: the trailing suffix character
/// when there is one, and one character more, are cut off.
pub open spec fn without_suffix(v: Seq<char>, c: char) -> Seq<char> {
    let cut: int = if ends_with_char(v, c) { 2 } else { 1 };
    v.subrange(0, v.len() - cut)
}

/// Runs the validator `f` on `v` with its suffix taken off (see
/// `without_suffix`). The text must be long enough for that cut.
pub fn arg_validator_suffix<F: Fn(&str) -> Result<(), String>>(
    f: &F,
    suffix: char,
    v: &str,
) -> (r: Result<(), String>)
    requires
        v@.len() >= if ends_with_char(v@, suffix) { 2int } else { 1int },
        forall|s: &str| #[trigger] f.requires((s,)),
    ensures
        exists|s: &str| s@ == without_suffix(v@, suffix) && #[trigger] f.ensures((s,), r),
{
    let vlen = v.unicode_len();
    let len: usize = if vlen > 0 && v.get_char(vlen - 1) == suffix {
        1
    } else {
        0
    };
    let rest = v.substring_char(0, vlen - len - 1);
    f(rest)
}

} // verus!
