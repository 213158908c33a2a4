//! Bearer-token claim payloads: who the token is for and when it expires.

use vstd::prelude::*;

verus! {

/// How many seconds an issued token stays valid: 24 hours.
pub const TOKEN_LIFETIME_SECONDS: i64 = 86400;

/// The decimal digit character for a value below ten.
pub open spec fn digit_char(d: nat) -> char {
    ((48 + d) as u8) as char
}

/// The decimal digits of `n`, most significant first.
pub open spec fn dec_digits(n: nat) -> Seq<char>
    decreases n,
{
    if n < 10 {
        seq![digit_char(n)]
    } else {
        dec_digits(n / 10).push(digit_char(n % 10))
    }
}

/// The decimal rendering of `n`: its digits, with a leading `-` when negative.
pub open spec fn dec_str_of(n: int) -> Seq<char> {
    if n < 0 {
        seq!['-'] + dec_digits((-n) as nat)
    } else {
        dec_digits(n as nat)
    }
}

/// Relies on `i32`'s `Display`: a value is rendered as its decimal digits,
/// with a leading `-` when negative.
#[verifier::external_body]
fn i32_to_string(n: i32) -> (r: String)
    ensures
        r@ == dec_str_of(n as int),
{
    n.to_string()
}

/// Relies on chrono's `Utc::now`: the current Unix timestamp in seconds,
/// nonnegative (the conversion fails on a clock before the epoch) and below
/// 10^13, chrono's representable years ending long before that.
#[verifier::external_body]
fn now_timestamp() -> (r: i64)
    ensures
        0 <= r < 10_000_000_000_000,
{
    chrono::Utc::now().timestamp()
}

/// The claims carried by a bearer token.
#[derive(Debug, Clone)]
pub struct Claims {
    /// Subject: the customer identifier, in decimal.
    pub sub: String,
    /// The merchant identifier.
    pub mid: i32,
    /// Expiration time, seconds since the Unix epoch.
    pub exp: i64,
    /// Issued-at time, seconds since the Unix epoch.
    pub iat: i64,
}

impl Claims {
    /// Claims for a customer of a merchant, issued now and expiring 24 hours
    /// later.
    pub fn new(customer_id: i32, mid: i32) -> (c: Claims)
        ensures
            c.mid == mid,
            c.sub@ == dec_str_of(customer_id as int),
            c.exp == c.iat + TOKEN_LIFETIME_SECONDS,
            0 <= c.iat,
    {
        let iat: i64 = now_timestamp();
        Claims { sub: i32_to_string(customer_id), mid, iat, exp: iat + TOKEN_LIFETIME_SECONDS }
    }
}

} // verus!
