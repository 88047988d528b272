//! The RPC retry policy and the reading of JSON-RPC answers.
//!
//! Public endpoints rate-limit (HTTP 429) and drop connections, so a call is
//! tried up to `MAX_ATTEMPTS` times: connection failures, timeouts, truncated
//! bodies and HTTP 429/502/503/504 are retried after an exponential backoff
//! (500 ms, then 1 s, at most 2 s, with full jitter) or after the integer
//! seconds of a `Retry-After` header (at most 4 s); anything else fails at once.
use vstd::prelude::*;
use crate::chains::opt_view;
use crate::json::Json;
use crate::results::spec_str_or;
use crate::text::{decimal_string, parse_unsigned, spec_decimal, spec_parse_unsigned, spec_trim, trim};

verus! {

/// Attempts per RPC call: the first request and two retries.
pub const MAX_ATTEMPTS: u32 = 3;

/// Backoff before the first retry, in milliseconds.
pub const BASE_BACKOFF_MS: u64 = 500;

/// Ceiling of the exponential backoff, in milliseconds.
pub const MAX_BACKOFF_MS: u64 = 2000;

/// Longest `Retry-After` honored, in seconds.
pub const MAX_RETRY_AFTER_SECS: u64 = 4;

/// HTTP statuses that signal a passing condition: 429, 502, 503, 504.
pub open spec fn spec_is_retryable_status(status: u16) -> bool {
    status == 429 || status == 502 || status == 503 || status == 504
}

pub fn is_retryable_status(status: u16) -> (r: bool)
    ensures
        r == spec_is_retryable_status(status),
{
    status == 429 || status == 502 || status == 503 || status == 504
}

/// A success status, 200 to 299.
pub open spec fn spec_is_success(status: u16) -> bool {
    200 <= status <= 299
}

pub open spec fn pow2(e: nat) -> nat
    decreases e,
{
    if e == 0 {
        1
    } else {
        2 * pow2((e - 1) as nat)
    }
}

/// The exponent of the backoff before the retry that follows attempt `attempt`.
pub open spec fn spec_backoff_exponent(attempt: u32) -> nat {
    let e: int = if attempt >= 1 { attempt - 1 } else { 0 };
    if e > 6 { 6 } else { e as nat }
}

/// The ceiling of the randomized wait after attempt `attempt`: 500 ms
/// doubled per earlier attempt, at most 2000 ms.
pub open spec fn spec_backoff_delay(attempt: u32) -> nat {
    let d: nat = BASE_BACKOFF_MS as nat * pow2(spec_backoff_exponent(attempt));
    if d > MAX_BACKOFF_MS { MAX_BACKOFF_MS as nat } else { d }
}

/// The ceiling, in milliseconds, of the randomized wait after attempt `attempt`.
pub fn backoff_delay(attempt: u32) -> (r: u64)
    ensures
        r == spec_backoff_delay(attempt),
{
    let exponent: u32 = if attempt >= 1 { attempt - 1 } else { 0 };
    let exponent: u32 = if exponent > 6 { 6 } else { exponent };
    let mut factor: u64 = 1;
    let mut k: u32 = 0;
    while k < exponent
        invariant
            k <= exponent <= 6,
            factor == pow2(k as nat),
            factor <= 64,
        decreases exponent - k,
    {
        proof {
            lemma_pow2_bound((k + 1) as nat);
        }
        factor = factor * 2;
        k = k + 1;
    }
    let d = BASE_BACKOFF_MS * factor;
    if d > MAX_BACKOFF_MS {
        MAX_BACKOFF_MS
    } else {
        d
    }
}

proof fn lemma_pow2_bound(e: nat)
    requires
        e <= 6,
    ensures
        pow2(e) <= 64,
        pow2(e) >= 1,
{
    reveal_with_fuel(pow2, 7);
    assert(pow2(6) == 64);
    if e > 0 {
        lemma_pow2_monotone(e, 6);
    }
}

/// The xorshift mix that turns a clock reading into a jitter sample.
pub open spec fn spec_jitter(seed: u64) -> u64 {
    let x0 = seed ^ 0x9E37_79B9_7F4A_7C15u64;
    let x1 = x0 ^ (x0 >> 12u64);
    let x2 = x1 ^ (x1 << 25u64);
    let x3 = x2 ^ (x2 >> 27u64);
    x3.wrapping_mul(0x2545_F491_4F6C_DD1Du64)
}

/// A pseudo-random sample for full jitter, seeded from the sub-second
/// nanoseconds of the clock; the wait is this sample's share of
/// `u64::MAX` times the backoff ceiling.
pub fn jitter(seed: u64) -> (r: u64)
    ensures
        r == spec_jitter(seed),
{
    let mut x = seed ^ 0x9E37_79B9_7F4A_7C15u64;
    x = x ^ (x >> 12u64);
    x = x ^ (x << 25u64);
    x = x ^ (x >> 27u64);
    x.wrapping_mul(0x2545_F491_4F6C_DD1Du64)
}

/// How long to wait before the next attempt, in milliseconds.
#[derive(Debug, Clone, Copy, PartialEq, Eq, Structural)]
pub enum RetryDelay {
    /// Exactly this long, as a `Retry-After` header asked.
    Exactly(u64),
    /// A random share, full jitter, of this ceiling.
    UpTo(u64),
}

/// The seconds of a `Retry-After` value in its integer form, if it has that form.
pub open spec fn spec_retry_after_secs(text: Seq<char>) -> Option<nat> {
    spec_parse_unsigned(spec_trim(text), 10, u64::MAX as nat)
}

/// The wait after attempt `attempt` that an endpoint answered with a
/// retryable status: the integer seconds of `Retry-After`, capped at four
/// seconds, else the jittered backoff.
pub open spec fn spec_retry_after_or_backoff(retry_after: Option<Seq<char>>, attempt: u32) -> RetryDelay {
    match retry_after {
        Some(t) => match spec_retry_after_secs(t) {
            Some(secs) => RetryDelay::Exactly(
                ((if secs > MAX_RETRY_AFTER_SECS { MAX_RETRY_AFTER_SECS as nat } else { secs })
                    * 1000) as u64,
            ),
            None => RetryDelay::UpTo(spec_backoff_delay(attempt) as u64),
        },
        None => RetryDelay::UpTo(spec_backoff_delay(attempt) as u64),
    }
}

pub fn retry_after_or_backoff(retry_after: Option<&str>, attempt: u32) -> (r: RetryDelay)
    ensures
        r == spec_retry_after_or_backoff(
            match retry_after {
                Some(t) => Some(t@),
                None => None,
            },
            attempt,
        ),
{
    match retry_after {
        Some(t) => {
            let trimmed = trim(t);
            match parse_unsigned(trimmed.as_str(), 10, 0xffff_ffff_ffff_ffffu128) {
                Some(secs) => {
                    let capped: u64 = if secs > MAX_RETRY_AFTER_SECS as u128 {
                        MAX_RETRY_AFTER_SECS
                    } else {
                        secs as u64
                    };
                    RetryDelay::Exactly(capped * 1000)
                },
                None => RetryDelay::UpTo(backoff_delay(attempt)),
            }
        },
        None => RetryDelay::UpTo(backoff_delay(attempt)),
    }
}

/// What one attempt of an RPC call came to.
#[derive(Debug)]
pub enum AttemptEvent {
    /// No answer: the request failed in transport; `transient` for connection
    /// failures, timeouts and truncated bodies.
    TransportFailed { transient: bool },
    /// An HTTP answer with this status and, when present as text, its `Retry-After` value.
    Answered { status: u16, retry_after: Option<String> },
    /// The body of a successful answer was read as JSON.
    BodyRead,
    /// The body could not be read as JSON; `truncated` when the connection broke off.
    BodyFailed { truncated: bool },
}

/// Why an RPC call failed.
#[derive(Debug, Clone, Copy, PartialEq, Eq, Structural)]
pub enum RetryFailure {
    /// The request failed in transport.
    Transport,
    /// The answer's body was no JSON.
    Decode,
    /// The endpoint answered with a status that is not retried.
    Status(u16),
    /// The endpoint kept answering with a retryable status until the attempts ran out.
    Exhausted { status: u16, attempts: u32 },
}

/// What to do after an attempt.
#[derive(Debug, Clone, Copy, PartialEq, Eq, Structural)]
pub enum RetryAction {
    /// The status is a success: read the body.
    ReadBody,
    /// Hand the body read to the caller.
    Deliver,
    /// Wait, then send the request again.
    RetryAfter(RetryDelay),
    /// Give up.
    Fail(RetryFailure),
}

/// The policy's decision after attempt number `attempt` (counted from 1).
pub open spec fn spec_next_action(attempt: u32, event: AttemptEvent) -> RetryAction {
    match event {
        AttemptEvent::TransportFailed { transient } => if attempt >= MAX_ATTEMPTS || !transient {
            RetryAction::Fail(RetryFailure::Transport)
        } else {
            RetryAction::RetryAfter(RetryDelay::UpTo(spec_backoff_delay(attempt) as u64))
        },
        AttemptEvent::Answered { status, retry_after } => if spec_is_success(status) {
            RetryAction::ReadBody
        } else if !spec_is_retryable_status(status) {
            RetryAction::Fail(RetryFailure::Status(status))
        } else if attempt >= MAX_ATTEMPTS {
            RetryAction::Fail(RetryFailure::Exhausted { status, attempts: attempt })
        } else {
            RetryAction::RetryAfter(spec_retry_after_or_backoff(opt_view(retry_after), attempt))
        },
        AttemptEvent::BodyRead => RetryAction::Deliver,
        AttemptEvent::BodyFailed { truncated } => if attempt >= MAX_ATTEMPTS || !truncated {
            RetryAction::Fail(RetryFailure::Decode)
        } else {
            RetryAction::RetryAfter(RetryDelay::UpTo(spec_backoff_delay(attempt) as u64))
        },
    }
}

/// Decides what follows attempt number `attempt` of an RPC call.
pub fn next_action(attempt: u32, event: &AttemptEvent) -> (r: RetryAction)
    ensures
        r == spec_next_action(attempt, *event),
{
    match event {
        AttemptEvent::TransportFailed { transient } => {
            if attempt >= MAX_ATTEMPTS || !*transient {
                RetryAction::Fail(RetryFailure::Transport)
            } else {
                RetryAction::RetryAfter(RetryDelay::UpTo(backoff_delay(attempt)))
            }
        },
        AttemptEvent::Answered { status, retry_after } => {
            let status = *status;
            if 200 <= status && status <= 299 {
                RetryAction::ReadBody
            } else if !is_retryable_status(status) {
                RetryAction::Fail(RetryFailure::Status(status))
            } else if attempt >= MAX_ATTEMPTS {
                RetryAction::Fail(RetryFailure::Exhausted { status, attempts: attempt })
            } else {
                let text: Option<&str> = match retry_after {
                    Some(t) => Some(t.as_str()),
                    None => None,
                };
                RetryAction::RetryAfter(retry_after_or_backoff(text, attempt))
            }
        },
        AttemptEvent::BodyRead => RetryAction::Deliver,
        AttemptEvent::BodyFailed { truncated } => {
            if attempt >= MAX_ATTEMPTS || !*truncated {
                RetryAction::Fail(RetryFailure::Decode)
            } else {
                RetryAction::RetryAfter(RetryDelay::UpTo(backoff_delay(attempt)))
            }
        },
    }
}

/// The backoff ceiling never drops as attempts go on, and stays between
/// 500 ms and 2000 ms.
pub proof fn law_backoff_grows_within_bounds(a: u32, b: u32)
    requires
        a <= b,
    ensures
        spec_backoff_delay(a) <= spec_backoff_delay(b),
        BASE_BACKOFF_MS <= spec_backoff_delay(a) <= MAX_BACKOFF_MS,
{
    lemma_pow2_monotone(spec_backoff_exponent(a), spec_backoff_exponent(b));
    lemma_pow2_bound(spec_backoff_exponent(a));
}

proof fn lemma_pow2_monotone(a: nat, b: nat)
    requires
        a <= b,
    ensures
        pow2(a) <= pow2(b),
    decreases b,
{
    if a < b {
        lemma_pow2_monotone(a, (b - 1) as nat);
        assert(pow2((b - 1) as nat) >= 1) by {
            lemma_pow2_positive((b - 1) as nat);
        }
    }
}

proof fn lemma_pow2_positive(e: nat)
    ensures
        pow2(e) >= 1,
    decreases e,
{
    if e > 0 {
        lemma_pow2_positive((e - 1) as nat);
    }
}

/// A call is never retried once `MAX_ATTEMPTS` attempts were made, so no
/// call sends more than `MAX_ATTEMPTS` requests.
pub proof fn law_attempts_are_bounded(attempt: u32, event: AttemptEvent)
    requires
        attempt >= MAX_ATTEMPTS,
    ensures
        !(spec_next_action(attempt, event) is RetryAfter),
{
}

/// The retryable statuses are exactly 429, 502, 503 and 504.
pub proof fn law_retryable_statuses(status: u16)
    ensures
        spec_is_retryable_status(status) <==> (status == 429 || status == 502 || status == 503
            || status == 504),
{
}

/// A 429, 502, 503 or 504 answer is retried while attempts remain, and
/// fails the call with its status and the attempts made once they run out.
pub proof fn law_transient_statuses_are_retried(attempt: u32, status: u16, retry_after: Option<String>)
    requires
        status == 429 || status == 502 || status == 503 || status == 504,
    ensures
        attempt < MAX_ATTEMPTS ==> spec_next_action(
            attempt,
            AttemptEvent::Answered { status, retry_after },
        ) is RetryAfter,
        attempt >= MAX_ATTEMPTS ==> spec_next_action(
            attempt,
            AttemptEvent::Answered { status, retry_after },
        ) == RetryAction::Fail(RetryFailure::Exhausted { status, attempts: attempt }),
{
}

/// Any 2xx answer has its body read, on whichever attempt it comes.
pub proof fn law_success_reads_body(attempt: u32, status: u16, retry_after: Option<String>)
    requires
        200 <= status <= 299,
    ensures
        spec_next_action(attempt, AttemptEvent::Answered { status, retry_after })
            == RetryAction::ReadBody,
{
}

/// A status that is neither a success nor retryable fails the call at once,
/// whatever attempt it came on.
pub proof fn law_other_statuses_fail_fast(attempt: u32, status: u16, retry_after: Option<String>)
    requires
        !spec_is_success(status),
        !spec_is_retryable_status(status),
    ensures
        spec_next_action(attempt, AttemptEvent::Answered { status, retry_after }) == RetryAction::Fail(
            RetryFailure::Status(status),
        ),
{
}

/// No retry waits longer than four seconds.
pub proof fn law_waits_are_bounded(attempt: u32, event: AttemptEvent)
    ensures
        spec_next_action(attempt, event) matches RetryAction::RetryAfter(d) ==> match d {
            RetryDelay::Exactly(ms) => ms <= MAX_RETRY_AFTER_SECS * 1000,
            RetryDelay::UpTo(ms) => ms <= MAX_BACKOFF_MS,
        },
{
    law_backoff_grows_within_bounds(attempt, attempt);
}

// ───────────────────────── JSON-RPC answers ─────────────────────────

/// A JSON-RPC request as it travels.
#[derive(Debug)]
pub struct JsonRpcRequest {
    pub jsonrpc: String,
    pub id: u64,
    pub method: String,
    pub params: Json,
}

/// A JSON-RPC response as it travels.
#[derive(Debug)]
pub struct JsonRpcResponse {
    pub jsonrpc: String,
    pub id: u64,
    pub result: Option<Json>,
    pub error: Option<Json>,
}

/// A JSON-RPC error answer.
#[derive(Debug)]
pub struct RpcError {
    pub message: String,
    pub code: i64,
}

/// What a JSON-RPC POST hands its caller once the body is delivered: the
/// `result` member, `None` standing for a missing one (read as null).
pub fn posted_result(body: &Json) -> (r: Option<&Json>)
    ensures
        match r {
            Some(v) => body.spec_get("result"@) == Some(*v),
            None => body.spec_get("result"@) is None,
        },
{
    body.get("result")
}

/// The decimal notation of a signed number.
pub open spec fn spec_signed_decimal(n: int) -> Seq<char> {
    if n < 0 {
        seq!['-'] + spec_decimal((-n) as nat)
    } else {
        spec_decimal(n as nat)
    }
}

impl RpcError {
    /// The error as the terminal reports it: `<message> (Code: <code>)`.
    pub fn describe(&self) -> (r: String)
        ensures
            r@ == self.message@ + " (Code: "@ + spec_signed_decimal(self.code as int) + ")"@,
    {
        let mut s = String::from_str(self.message.as_str());
        s.append(" (Code: ");
        let code = self.code;
        if code < 0 {
            s.append("-");
            let magnitude: u128 = (0i128 - code as i128) as u128;
            let digits = decimal_string(magnitude);
            s.append(digits.as_str());
        } else {
            let digits = decimal_string(code as u128);
            s.append(digits.as_str());
        }
        s.append(")");
        proof {
            reveal_strlit("-");
        }
        assert(s@ =~= self.message@ + " (Code: "@ + spec_signed_decimal(self.code as int) + ")"@);
        s
    }
}

/// The error an answer's `error` member describes: its `message` text, else
/// "Unknown RPC Error", and its integer `code`, else 0.
pub open spec fn spec_rpc_error_of(error: Json, e: RpcError) -> bool {
    &&& e.message@ == spec_str_or(error.spec_get("message"@), "Unknown RPC Error"@)
    &&& e.code == match error.spec_get("code"@) {
        Some(c) => match c.spec_as_i64() {
            Some(n) => n,
            None => 0,
        },
        None => 0,
    }
}

/// Reads a JSON-RPC answer. Where the chain reports errors (Ethereum,
/// Soroban), an `error` member makes the call fail; otherwise the call
/// yields the `result` member, `None` standing for a missing one (read as null).
pub fn rpc_outcome(body: &Json, reports_errors: bool) -> (r: Result<Option<&Json>, RpcError>)
    ensures
        reports_errors && body.spec_get("error"@) is Some ==> (r matches Err(e)
            && spec_rpc_error_of(body.spec_get("error"@).unwrap(), e)),
        !(reports_errors && body.spec_get("error"@) is Some) ==> (r matches Ok(o) && match o {
            Some(v) => body.spec_get("result"@) == Some(*v),
            None => body.spec_get("result"@) is None,
        }),
{
    if reports_errors {
        match body.get("error") {
            Some(error) => {
                let message = match error.get("message") {
                    Some(m) => match m.as_str() {
                        Some(s) => String::from_str(s),
                        None => String::from_str("Unknown RPC Error"),
                    },
                    None => String::from_str("Unknown RPC Error"),
                };
                let code = match error.get("code") {
                    Some(c) => match c.as_i64() {
                        Some(n) => n,
                        None => 0,
                    },
                    None => 0,
                };
                return Err(RpcError { message, code });
            },
            None => {},
        }
    }
    Ok(body.get("result"))
}

} // verus!
