//! Retrying an HTTP request on transient failures: which statuses and errors
//! are retried, how long to wait, and when to give up.
use vstd::prelude::*;
use crate::text::to_chars;

verus! {

/// The most retries after the first try.
pub const MAX_RETRIES: u32 = 2;

/// The first backoff, doubled on each retry.
pub const BASE_DELAY_MS: u64 = 200;

/// Too many requests, or a server error that may pass.
pub open spec fn retryable_status(status: u16) -> bool {
    status == 429 || status == 500 || status == 502 || status == 503 || status == 504
}

/// Whether a response with this status is retried.
pub fn is_retryable_status(status: u16) -> (b: bool)
    ensures
        b == retryable_status(status),
{
    status == 429 || status == 500 || status == 502 || status == 503 || status == 504
}

/// The value of a decimal digit.
pub open spec fn digit_value(c: char) -> nat {
    ((c as u32) - ('0' as u32)) as nat
}

pub open spec fn is_digit(c: char) -> bool {
    '0' <= c && c <= '9'
}

/// The number that the digits `s` write.
pub open spec fn digits_value(s: Seq<char>) -> nat
    decreases s.len(),
{
    if s.len() == 0 {
        0
    } else {
        digits_value(s.drop_last()) * 10 + digit_value(s.last())
    }
}

/// The digits of a number written with an optional "+".
pub open spec fn unsigned_digits(s: Seq<char>) -> Seq<char> {
    if s.len() > 0 && s[0] == '+' {
        s.drop_first()
    } else {
        s
    }
}

/// One digit or more, for a value that fits a `u64`.
pub open spec fn digits_u64(d: Seq<char>) -> Option<u64> {
    if d.len() > 0 && (forall|i: int| 0 <= i < d.len() ==> is_digit(#[trigger] d[i]))
        && digits_value(d) <= u64::MAX {
        Some(digits_value(d) as u64)
    } else {
        None
    }
}

/// `u64::from_str`: an optional "+", then one digit or more, for a value that
/// fits.
pub open spec fn parse_u64(s: Seq<char>) -> Option<u64> {
    digits_u64(unsigned_digits(s))
}

/// `u64::from_str` (see `parse_u64`).
pub fn parse_u64_exec(s: &str) -> (r: Option<u64>)
    ensures
        r == parse_u64(s@),
{
    let v = to_chars(s);
    let start: usize = if v.len() > 0 && v[0] == '+' {
        1
    } else {
        0
    };
    let ghost d = unsigned_digits(s@);
    assert(d =~= v@.skip(start as int));
    if start == v.len() {
        return None;
    }
    let mut value: u64 = 0;
    let mut i = start;
    assert(d.take(0) =~= Seq::<char>::empty());
    while i < v.len()
        invariant
            start <= i <= v.len(),
            v@ == s@,
            d == v@.skip(start as int),
            d == unsigned_digits(s@),
            d.len() > 0,
            forall|k: int| 0 <= k < i - start ==> is_digit(#[trigger] d[k]),
            value == digits_value(d.take(i - start)),
        decreases v.len() - i,
    {
        let c = v[i];
        assert(d[i - start] == c);
        if !('0' <= c && c <= '9') {
            assert(!is_digit(d[i - start]));
            return None;
        }
        let dv = (c as u32 - '0' as u32) as u64;
        assert(d.take(i - start + 1).drop_last() =~= d.take(i - start));
        if value > (u64::MAX - dv) / 10 {
            proof {
                assert(digits_value(d.take(i - start + 1)) > u64::MAX) by (nonlinear_arith)
                    requires
                        value > (u64::MAX - dv) / 10,
                        digits_value(d.take(i - start + 1)) == value * 10 + dv,
                ;
                lemma_digits_value_monotone(d, i - start + 1);
            }
            return None;
        }
        assert(value * 10 + dv <= u64::MAX) by (nonlinear_arith)
            requires
                value <= (u64::MAX - dv) / 10,
                dv <= 9,
        ;
        value = value * 10 + dv;
        i = i + 1;
    }
    assert(d.take(v.len() - start) =~= d);
    Some(value)
}

/// A longer prefix of digits writes no smaller a number.
pub proof fn lemma_digits_value_monotone(d: Seq<char>, k: int)
    requires
        0 <= k <= d.len(),
    ensures
        digits_value(d.take(k)) <= digits_value(d),
    decreases d.len() - k,
{
    if k < d.len() {
        lemma_digits_value_monotone(d, k + 1);
        assert(d.take(k + 1).drop_last() =~= d.take(k));
        assert(digits_value(d.take(k)) <= digits_value(d.take(k)) * 10) by (nonlinear_arith);
    } else {
        assert(d.take(k) =~= d);
    }
}

/// How long to wait before the next try.
#[derive(Clone, Copy, PartialEq, Eq, Debug, Structural)]
pub enum Delay {
    Seconds(u64),
    Millis(u64),
}

/// The backoff before retry number `attempt + 1`: 200 ms, then 400 ms, ...
pub open spec fn backoff_ms(attempt: nat) -> nat
    decreases attempt,
{
    if attempt == 0 {
        BASE_DELAY_MS as nat
    } else {
        2 * backoff_ms((attempt - 1) as nat)
    }
}

/// What came back from one try of a request.
#[derive(Clone, Copy, PartialEq, Eq, Debug, Structural)]
pub enum TryOutcome {
    /// A response with this status, and the seconds of its "retry-after"
    /// header when it holds a number.
    Response { status: u16, retry_after: Option<u64> },
    /// No response; `transient` for a timeout or a failed connection.
    Failed { transient: bool },
}

/// What to do after a try.
#[derive(Clone, Copy, PartialEq, Eq, Debug, Structural)]
pub enum RetryDecision {
    /// Wait, then try again.
    Retry(Delay),
    /// Hand the response over.
    Deliver,
    /// Report the request's error.
    Fail,
}

/// After try number `attempt + 1`: a retryable status is retried, after the
/// time the server asked for or else the backoff; a timeout or a failed
/// connection is retried after the backoff; all this while retries are left.
pub open spec fn retry_decision(attempt: nat, outcome: TryOutcome) -> RetryDecision {
    match outcome {
        TryOutcome::Response { status, retry_after } => if retryable_status(status) && attempt
            < MAX_RETRIES {
            match retry_after {
                Some(secs) => RetryDecision::Retry(Delay::Seconds(secs)),
                None => RetryDecision::Retry(Delay::Millis(backoff_ms(attempt) as u64)),
            }
        } else {
            RetryDecision::Deliver
        },
        TryOutcome::Failed { transient } => if transient && attempt < MAX_RETRIES {
            RetryDecision::Retry(Delay::Millis(backoff_ms(attempt) as u64))
        } else {
            RetryDecision::Fail
        },
    }
}

/// What to do after try number `attempt + 1` (see `retry_decision`).
pub fn decide_retry(attempt: u32, outcome: TryOutcome) -> (d: RetryDecision)
    requires
        attempt <= MAX_RETRIES,
    ensures
        d == retry_decision(attempt as nat, outcome),
{
    let backoff: u64 = if attempt == 0 {
        200
    } else if attempt == 1 {
        400
    } else {
        800
    };
    proof {
        reveal_with_fuel(backoff_ms, 3);
    }
    match outcome {
        TryOutcome::Response { status, retry_after } => {
            if is_retryable_status(status) && attempt < MAX_RETRIES {
                match retry_after {
                    Some(secs) => RetryDecision::Retry(Delay::Seconds(secs)),
                    None => RetryDecision::Retry(Delay::Millis(backoff)),
                }
            } else {
                RetryDecision::Deliver
            }
        },
        TryOutcome::Failed { transient } => {
            if transient && attempt < MAX_RETRIES {
                RetryDecision::Retry(Delay::Millis(backoff))
            } else {
                RetryDecision::Fail
            }
        },
    }
}

/// The request is tried at most `MAX_RETRIES + 1` times: the last try is never
/// retried, whatever it gives.
pub proof fn law_last_try_is_final(outcome: TryOutcome)
    ensures
        !(retry_decision(MAX_RETRIES as nat, outcome) is Retry),
{
}

/// A success, or a status that is not transient, is handed over at once.
pub proof fn law_final_status_delivered(attempt: nat, status: u16, retry_after: Option<u64>)
    requires
        !retryable_status(status),
    ensures
        retry_decision(attempt, TryOutcome::Response { status, retry_after }) == RetryDecision::Deliver,
{
}

} // verus!
