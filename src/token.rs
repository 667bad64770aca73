use crate::protocol::opt_text;
use vstd::prelude::*;

verus! {

/// The character of a decimal digit `d < 10`.
pub open spec fn digit_char(d: nat) -> char {
    ((d + 48) as u8) as char
}

pub open spec fn is_digit(c: char) -> bool {
    '0' <= c && c <= '9'
}

/// The decimal text of `n`: no sign, no leading zeros.
pub open spec fn decimal(n: nat) -> Seq<char>
    decreases n,
{
    if n < 10 {
        seq![digit_char(n)]
    } else {
        decimal(n / 10).push(digit_char(n % 10))
    }
}

/// The value of a string of decimal digits.
pub open spec fn digits_value(s: Seq<char>) -> nat
    decreases s.len(),
{
    if s.len() == 0 {
        0
    } else {
        digits_value(s.drop_last()) * 10 + ((s.last() as int - 48) as nat)
    }
}

pub open spec fn all_digits(s: Seq<char>) -> bool {
    forall|i: int| 0 <= i < s.len() ==> is_digit(#[trigger] s[i])
}

/// The digits that follow an optional leading `+`.
pub open spec fn unsigned_body(s: Seq<char>) -> Seq<char> {
    if s.len() > 0 && s[0] == '+' {
        s.drop_first()
    } else {
        s
    }
}

/// What a token string denotes: an optional `+`, then one or more decimal
/// digits whose value fits in 64 bits; anything else denotes no token.
pub open spec fn token_value(s: Seq<char>) -> Option<u64> {
    let body = unsigned_body(s);
    if body.len() > 0 && all_digits(body) && digits_value(body) <= u64::MAX {
        Some(digits_value(body) as u64)
    } else {
        None
    }
}

/// The text of a token read as an optional string.
pub open spec fn parsed_token(source: Option<Seq<char>>) -> Option<u64> {
    match source {
        Some(s) => token_value(s),
        None => None,
    }
}

/// Decimal text is made of digits, and reads back as the number it was made from.
pub proof fn lemma_decimal_digits(n: nat)
    ensures
        decimal(n).len() > 0,
        all_digits(decimal(n)),
        digits_value(decimal(n)) == n,
    decreases n,
{
    if n < 10 {
        let s = decimal(n);
        assert(s.drop_last() =~= Seq::<char>::empty());
        assert(((n + 48) as u8) as char as int == n + 48);
        assert(digits_value(s) == digits_value(s.drop_last()) * 10 + ((s.last() as int - 48) as nat));
    } else {
        lemma_decimal_digits(n / 10);
        let s = decimal(n);
        let d = n % 10;
        assert(s.drop_last() =~= decimal(n / 10));
        assert(((d + 48) as u8) as char as int == d + 48);
        assert(s.last() == digit_char(d));
        assert(digits_value(s) == digits_value(s.drop_last()) * 10 + ((s.last() as int - 48) as nat));
        assert((n / 10) * 10 + d == n);
        assert forall|i: int| 0 <= i < s.len() implies is_digit(#[trigger] s[i]) by {
            if i < s.len() - 1 {
                assert(s[i] == decimal(n / 10)[i]);
            }
        }
    }
}

/// The decimal text of a 64-bit value is read back as that value.
pub proof fn lemma_token_text_round_trip(t: u64)
    ensures
        token_value(decimal(t as nat)) == Some(t),
{
    lemma_decimal_digits(t as nat);
    assert(is_digit(decimal(t as nat)[0]));
}

/// Relies on the decimal `Display` of `u64` (through `to_string`): its digits,
/// with no sign and no padding.
#[verifier::external_body]
pub(crate) fn token_text(t: u64) -> (r: String)
    ensures
        r@ == decimal(t as nat),
{
    t.to_string()
}

/// Relies on `str::parse::<u64>`: it accepts an optional `+` followed by one or
/// more ASCII digits whose value fits in `u64`, and rejects everything else.
#[verifier::external_body]
fn parse_u64(s: &str) -> (r: Option<u64>)
    ensures
        r == token_value(s@),
{
    s.parse::<u64>().ok()
}

/// Reads a token from the text a client sent, if any.
pub fn parse_token(source: Option<String>) -> (r: Option<u64>)
    ensures
        r == parsed_token(opt_text(source)),
{
    match source {
        Some(input) => parse_u64(input.as_str()),
        None => None,
    }
}

/// Relies on `rand::random::<u64>` (the thread-local generator): any value may
/// come back. The generator panics only when the operating system's random
/// source fails while seeding or reseeding it, which no argument here can
/// cause or prevent.
#[verifier::external_body]
pub(crate) fn draw_token() -> (r: u64) {
    rand::random::<u64>()
}

} // verus!
