//! Reading numbers and booleans from configuration text.

use vstd::prelude::*;

verus! {

/// The value of a string of decimal digits, most significant first.
pub open spec fn decimal_value(d: Seq<char>) -> nat
    decreases d.len(),
{
    if d.len() == 0 {
        0
    } else {
        decimal_value(d.drop_last()) * 10 + (d.last() as nat - '0' as nat) as nat
    }
}

/// Every character is an ASCII decimal digit, and there is at least one.
pub open spec fn is_decimal_digits(d: Seq<char>) -> bool {
    d.len() > 0 && forall|i: int| 0 <= i < d.len() ==> '0' <= #[trigger] d[i] <= '9'
}

/// Reading decimal digits is positional: appending a digit multiplies the value so far by
/// ten and adds the digit, so a lone digit is worth itself and no digits are worth 0.
pub proof fn lemma_decimal_value_appends_digit(d: Seq<char>, c: char)
    requires
        '0' <= c <= '9',
    ensures
        decimal_value(d.push(c)) == 10 * decimal_value(d) + (c as nat - '0' as nat),
        decimal_value(Seq::empty()) == 0,
        decimal_value(seq![c]) == c as nat - '0' as nat,
{
    assert(d.push(c).drop_last() =~= d);
    assert(seq![c].drop_last() =~= Seq::<char>::empty());
}

/// What an unsigned integer type with largest value `max` reads from `s` (Rust's `FromStr`
/// for unsigned integers): an optional `+`, then decimal digits whose value is at most `max`.
pub open spec fn parse_unsigned(s: Seq<char>, max: nat) -> Option<nat> {
    let d = if s.len() > 0 && s[0] == '+' {
        s.drop_first()
    } else {
        s
    };
    if is_decimal_digits(d) && decimal_value(d) <= max {
        Some(decimal_value(d))
    } else {
        None
    }
}

/// What `bool` reads from `s` (Rust's `FromStr` for `bool`).
pub open spec fn parse_bool_spec(s: Seq<char>) -> Option<bool> {
    if s == "true"@ {
        Some(true)
    } else if s == "false"@ {
        Some(false)
    } else {
        None
    }
}

/// `str::parse::<u16>`: the number that `s` spells, as `parse_unsigned` describes.
#[verifier::external_body]
pub(crate) fn parse_u16(s: &str) -> (r: Option<u16>)
    ensures
        match parse_unsigned(s@, u16::MAX as nat) {
            Some(v) => r == Some(v as u16),
            None => r is None,
        },
{
    match s.parse::<u16>() {
        Ok(v) => Some(v),
        Err(_) => None,
    }
}

/// `str::parse::<usize>`: the number that `s` spells, as `parse_unsigned` describes.
#[verifier::external_body]
pub(crate) fn parse_usize(s: &str) -> (r: Option<usize>)
    ensures
        match parse_unsigned(s@, usize::MAX as nat) {
            Some(v) => r == Some(v as usize),
            None => r is None,
        },
{
    match s.parse::<usize>() {
        Ok(v) => Some(v),
        Err(_) => None,
    }
}

/// `str::parse::<bool>`: `true` for exactly "true", `false` for exactly "false".
#[verifier::external_body]
pub(crate) fn parse_bool(s: &str) -> (r: Option<bool>)
    ensures
        r == parse_bool_spec(s@),
{
    match s.parse::<bool>() {
        Ok(v) => Some(v),
        Err(_) => None,
    }
}

} // verus!
