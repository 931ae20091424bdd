//! Small text helpers: blank padding, decimal widths and the rendering of
//! timestamps.

use vstd::prelude::*;
use vstd::string::*;

verus! {

/// A run of `n` blanks.
pub open spec fn blanks(n: nat) -> Seq<char> {
    Seq::new(n, |i: int| ' ')
}

/// Builds a string of `n` blanks.
pub fn spaces(n: usize) -> (s: String)
    ensures
        s@ == blanks(n as nat),
{
    let mut s = String::new();
    let mut i: usize = 0;
    while i < n
        invariant
            i <= n,
            s@ == blanks(i as nat),
        decreases n - i,
    {
        proof {
            reveal_strlit(" ");
        }
        s.append(" ");
        i = i + 1;
    }
    s
}

/// The number of digits in the decimal notation of `n`.
pub open spec fn decimal_len(n: nat) -> nat
    decreases n,
{
    if n < 10 {
        1
    } else {
        1 + decimal_len(n / 10)
    }
}

/// A larger number is never written with fewer digits.
pub proof fn lemma_decimal_len_monotonic(a: nat, b: nat)
    requires
        a <= b,
    ensures
        decimal_len(a) <= decimal_len(b),
    decreases b,
{
    if b >= 10 && a >= 10 {
        lemma_decimal_len_monotonic(a / 10, b / 10);
    }
}

/// The widest `u128` has 39 digits.
pub proof fn lemma_decimal_len_u128(n: u128)
    ensures
        1 <= decimal_len(n as nat) <= 39,
{
    assert(decimal_len(u128::MAX as nat) == 39) by {
        reveal_with_fuel(decimal_len, 40);
    }
    lemma_decimal_len_monotonic(n as nat, u128::MAX as nat);
}

/// Counts the decimal digits of `n`.
pub fn decimal_digits(n: u128) -> (d: usize)
    ensures
        d == decimal_len(n as nat),
        1 <= d <= 39,
{
    let mut rest: u128 = n;
    let mut d: usize = 1;
    proof {
        lemma_decimal_len_u128(n);
    }
    while rest >= 10
        invariant
            1 <= d,
            d + decimal_len(rest as nat) == decimal_len(n as nat) + 1,
            decimal_len(n as nat) <= 39,
        decreases rest,
    {
        rest = rest / 10;
        d = d + 1;
    }
    d
}

/// The latest second after the Unix epoch that has a calendar rendering.
pub const MAX_TIMESTAMP: u64 = 8_210_266_876_799;

/// The text `YYYY-MM-DD hh:mm:ss` of the UTC date and time that lies `secs`
/// seconds after the Unix epoch, as the `chrono` crate renders it.
pub uninterp spec fn utc_date_time(secs: i64) -> Seq<char>;

/// Calls `chrono::NaiveDateTime::from_timestamp` and formats its result with
/// the pattern `%Y-%m-%d %H:%M:%S`. Nothing is proved of the text; it is only
/// given the name `utc_date_time`. The bounds are those beyond which `chrono`
/// refuses the number of seconds.
#[verifier::external_body]
#[allow(deprecated)]
fn format_utc(secs: i64) -> (text: String)
    requires
        -8_334_601_228_800 <= secs <= 8_210_266_876_799,
    ensures
        text@ == utc_date_time(secs),
{
    chrono::NaiveDateTime::from_timestamp(secs, 0).format("%Y-%m-%d %H:%M:%S").to_string()
}

/// Renders a block time, where it has a calendar rendering.
pub fn render_timestamp(timestamp: u64) -> (text: Option<String>)
    ensures
        timestamp <= MAX_TIMESTAMP ==> text.is_some() && text.unwrap()@ == utc_date_time(
            timestamp as i64,
        ),
        timestamp > MAX_TIMESTAMP ==> text.is_none(),
{
    if timestamp <= MAX_TIMESTAMP {
        Some(format_utc(timestamp as i64))
    } else {
        None
    }
}

} // verus!
