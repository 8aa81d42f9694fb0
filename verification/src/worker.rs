//! The logic of a worker: its health-check answer and its configuration
//! values.

use vstd::prelude::*;
use vstd::string::*;
use rand::Rng;
use crate::utils::{append_decimal, decimal};

verus! {

/// The longest delay, in milliseconds, that a health check reports.
pub const MAX_HEALTH_CHECK_DELAY_MS: u64 = 100;

/// Whether a character is an ASCII decimal digit.
pub open spec fn is_digit(c: char) -> bool {
    '0' <= c && c <= '9'
}

/// The number that a sequence of decimal digits writes.
pub open spec fn digits_value(s: Seq<char>) -> nat
    decreases s.len(),
{
    if s.len() == 0 {
        0
    } else {
        digits_value(s.drop_last()) * 10 + ((s.last() as int - 48) as nat)
    }
}

/// The `u64` that a text writes, as Rust reads one: an optional `+`, then
/// one or more decimal digits, with a value that fits in `u64`.
pub open spec fn read_u64(s: Seq<char>) -> Option<u64> {
    let digits = unsigned_part(s);
    if digits.len() > 0 && all_digits(digits) && digits_value(digits) <= u64::MAX {
        Some(digits_value(digits) as u64)
    } else {
        None
    }
}

/// A text without its leading `+`, if it has one.
pub open spec fn unsigned_part(s: Seq<char>) -> Seq<char> {
    if s.len() > 0 && s[0] == '+' {
        s.drop_first()
    } else {
        s
    }
}

/// Whether every character of a text is a decimal digit.
pub open spec fn all_digits(s: Seq<char>) -> bool {
    forall|i: int| 0 <= i < s.len() ==> is_digit(#[trigger] s[i])
}

/// Why no health-check delay can be had from the configuration.
#[derive(Debug, PartialEq, Eq, Structural, Clone, Copy)]
pub enum HealthCheckDelayError {
    /// No delay is configured.
    Unset,
    /// The configured text is not a `u64`.
    Unparsable,
}

/// The text of a health-check answer.
pub open spec fn health_check_text(worker_number: Seq<char>, delay_ms: nat) -> Seq<char> {
    "worker: "@ + worker_number + ", (not implemented) delay: "@ + decimal(delay_ms)
}

/// The worker number used when none is configured.
pub open spec fn default_worker_number() -> Seq<char> {
    "3000"@
}

/// A longer sequence of digits never writes a smaller number than its
/// beginning.
proof fn lemma_digits_value_grows(s: Seq<char>, k: int)
    requires
        0 <= k <= s.len(),
        forall|i: int| 0 <= i < s.len() ==> is_digit(#[trigger] s[i]),
    ensures
        digits_value(s.take(k)) <= digits_value(s),
    decreases s.len(),
{
    if k == s.len() {
        assert(s.take(k) =~= s);
    } else {
        let t = s.drop_last();
        assert forall|i: int| 0 <= i < t.len() implies is_digit(#[trigger] t[i]) by {
            assert(t[i] == s[i]);
        }
        lemma_digits_value_grows(t, k);
        assert(t.take(k) =~= s.take(k));
        assert(digits_value(t) <= digits_value(t) * 10);
    }
}

/// Reads the configured health-check delay in milliseconds, as Rust reads a
/// `u64` from text; nothing when the text is not such a number.
pub fn parse_health_check_delay_ms(value: &str) -> (r: Option<u64>)
    ensures
        r == read_u64(value@),
{
    let n = value.unicode_len();
    let ghost s = value@;
    let mut start: usize = 0;
    if n > 0 && value.get_char(0) == '+' {
        start = 1;
    }
    let ghost digits = unsigned_part(s);
    assert(digits =~= s.subrange(start as int, n as int));
    if start == n {
        return None;
    }
    let mut i: usize = start;
    let mut acc: u64 = 0;
    assert(digits.take(0) =~= Seq::<char>::empty());
    while i < n
        invariant
            n == s.len(),
            s == value@,
            start <= i <= n,
            digits == s.subrange(start as int, n as int),
            digits == unsigned_part(s),
            acc == digits_value(digits.take(i - start)),
            forall|j: int| 0 <= j < i - start ==> is_digit(#[trigger] digits[j]),
        decreases n - i,
    {
        let c = value.get_char(i);
        let code = c as u32;
        if code < 48 || code > 57 {
            proof {
                assert(digits[i - start] == c);
                assert(!is_digit(digits[i - start]));
                assert(!all_digits(digits));
                assert(read_u64(s) is None);
            }
            return None;
        }
        let d = (code - 48) as u64;
        proof {
            assert(digits.take(i - start + 1).drop_last() =~= digits.take(i - start));
            assert(digits.take(i - start + 1).last() == c);
        }
        if acc > (u64::MAX - d) / 10 {
            proof {
                assert(acc * 10 + d > u64::MAX) by (nonlinear_arith)
                    requires
                        acc > (u64::MAX - d) / 10,
                        d <= 9,
                ;
                if all_digits(digits) {
                    lemma_digits_value_grows(digits, i - start + 1);
                    assert(digits_value(digits.take(i - start + 1)) == acc * 10 + d);
                    assert(digits_value(digits) > u64::MAX);
                }
                assert(read_u64(s) is None);
            }
            return None;
        }
        proof {
            assert(acc * 10 + d <= u64::MAX) by (nonlinear_arith)
                requires
                    acc <= (u64::MAX - d) / 10,
                    d <= 9,
            ;
        }
        acc = acc * 10 + d;
        i = i + 1;
    }
    assert(digits.take(n - start) =~= digits);
    Some(acc)
}

/// The configured health-check delay in milliseconds: an error when none
/// is configured, or when the configured text is not a `u64` as Rust reads
/// one.
pub fn health_check_delay_ms(configured: Option<String>) -> (r: Result<u64, HealthCheckDelayError>)
    ensures
        match configured {
            None => r == Err::<u64, HealthCheckDelayError>(HealthCheckDelayError::Unset),
            Some(text) => match read_u64(text@) {
                Some(v) => r == Ok::<u64, HealthCheckDelayError>(v),
                None => r == Err::<u64, HealthCheckDelayError>(HealthCheckDelayError::Unparsable),
            },
        },
{
    match configured {
        None => Err(HealthCheckDelayError::Unset),
        Some(text) => match parse_health_check_delay_ms(text.as_str()) {
            Some(v) => Ok(v),
            None => Err(HealthCheckDelayError::Unparsable),
        },
    }
}

/// The answer to a health check from worker `worker_number` that reports
/// the delay `delay_ms`.
pub fn health_check_message(worker_number: &str, delay_ms: u64) -> (m: String)
    ensures
        m@ == health_check_text(worker_number@, delay_ms as nat),
{
    let mut m = String::from_str("worker: ");
    m.append(worker_number);
    m.append(", (not implemented) delay: ");
    append_decimal(&mut m, delay_ms as u128);
    m
}

/// A number drawn with `rand`'s thread-local generator `rand::rng()` by
/// `Rng::random_range` over `0..=max`. Claimed: at most `max`. The number
/// itself rests on chance and is not stated; neither is a failure of the
/// operating system's random source, on which `rand`'s thread-local
/// generator panics.
#[verifier::external_body]
fn random_up_to(max: u64) -> (d: u64)
    ensures
        d <= max,
{
    rand::rng().random_range(0..=max)
}

/// The answer to a health check from worker `worker_number`, reporting a
/// random delay of at most `MAX_HEALTH_CHECK_DELAY_MS` milliseconds.
pub fn health_check(worker_number: &str) -> (m: String)
    ensures
        exists|d: nat| d <= MAX_HEALTH_CHECK_DELAY_MS && m@ == health_check_text(worker_number@, d),
{
    let delay_ms = random_up_to(MAX_HEALTH_CHECK_DELAY_MS);
    let m = health_check_message(worker_number, delay_ms);
    assert(m@ == health_check_text(worker_number@, delay_ms as nat));
    m
}

/// The worker number: the configured one, or `3000` when none is.
pub fn worker_number_or_default(configured: Option<String>) -> (n: String)
    ensures
        n@ == match configured {
            Some(v) => v@,
            None => default_worker_number(),
        },
{
    match configured {
        Some(v) => v,
        None => String::from_str("3000"),
    }
}

} // verus!
