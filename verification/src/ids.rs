use vstd::prelude::*;

use crate::text::{concat3, decimal, parse_i64, parse_i64_spec, u128_to_decimal};

verus! {

/// `prefix-millis`: the identifier made from a prefix and a millisecond count.
pub open spec fn id_spec(prefix: Seq<char>, millis: nat) -> Seq<char> {
    prefix + seq!['-'] + decimal(millis)
}

/// The type of a reading of the system clock, `std::time::SystemTime`.
#[verifier::external_type_specification]
#[verifier::external_body]
pub struct ExSystemTime(std::time::SystemTime);

/// Reads the system clock with `std::time::SystemTime::now`. Nothing is
/// claimed of the reading: it is the time.
#[verifier::external_body]
fn clock_now() -> (r: std::time::SystemTime) {
    std::time::SystemTime::now()
}

/// How long after the Unix epoch a clock reading lies, by
/// `SystemTime::duration_since(UNIX_EPOCH)`; `None` when it lies before the
/// epoch. Nothing is claimed of the duration.
#[verifier::external_body]
fn since_unix_epoch(t: &std::time::SystemTime) -> (r: Option<std::time::Duration>) {
    t.duration_since(std::time::UNIX_EPOCH).ok()
}

/// The whole milliseconds of a duration, by `Duration::as_millis`. Nothing is
/// claimed of the count, since the duration is not modelled.
#[verifier::external_body]
fn whole_millis(d: &std::time::Duration) -> (r: u128) {
    d.as_millis()
}

/// The identifier `prefix-millis` for a given millisecond count.
pub fn format_id(prefix: &str, millis: u128) -> (r: String)
    ensures
        r@ == id_spec(prefix@, millis as nat),
{
    let digits = u128_to_decimal(millis);
    proof {
        reveal_strlit("-");
    }
    let r = concat3(prefix, "-", digits.as_str());
    assert(r@ =~= id_spec(prefix@, millis as nat));
    r
}

/// A fresh identifier `prefix-millis` from the current time in milliseconds
/// since the Unix epoch (`0` when the clock stands before the epoch).
pub fn next_id(prefix: &str) -> (r: String)
    ensures
        exists|m: u128| r@ == id_spec(prefix@, m as nat),
{
    let now = clock_now();
    let millis = match since_unix_epoch(&now) {
        Some(d) => whole_millis(&d),
        None => 0,
    };
    format_id(prefix, millis)
}

/// The value of an optional decimal string, or `default` when it is absent
/// or does not parse as an `i64`.
pub fn parse_i64_or_default(value: Option<&String>, default: i64) -> (r: i64)
    ensures
        r == match value {
            Some(v) => match parse_i64_spec(v@) {
                Some(x) => x,
                None => default,
            },
            None => default,
        },
{
    match value {
        Some(v) => match parse_i64(v.as_str()) {
            Some(x) => x,
            None => default,
        },
        None => default,
    }
}

} // verus!
