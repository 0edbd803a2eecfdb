//! Inference requests and responses, token budgeting, the retry policy and the rate limiter.
use vstd::prelude::*;
use crate::error::HummingbirdError;
use crate::history::Message;
use crate::text::{byte_len, byte_len_of, contains, has_substring, owned, push_str};

verus! {

/// The sampling temperature that requests use unless told otherwise (0.2), as the bits of
/// its IEEE-754 `f32`.
pub const DEFAULT_TEMPERATURE_BITS: u32 = 0x3E4C_CCCD;

/// A chat completion request. The temperature is held as the bits of its IEEE-754 `f32`.
#[derive(Debug)]
pub struct InferenceRequest {
    pub messages: Vec<Message>,
    pub model: String,
    pub max_tokens: usize,
    pub temperature_bits: u32,
    pub stream: bool,
}

impl InferenceRequest {
    /// A non-streaming request for at most 4096 tokens at temperature 0.2.
    pub fn new(messages: Vec<Message>, model: &str) -> (r: InferenceRequest)
        ensures
            r.messages@ == messages@,
            r.model@ == model@,
            r.max_tokens == 4096,
            r.temperature_bits == DEFAULT_TEMPERATURE_BITS,
            !r.stream,
    {
        InferenceRequest {
            messages,
            model: owned(model),
            max_tokens: 4096,
            temperature_bits: DEFAULT_TEMPERATURE_BITS,
            stream: false,
        }
    }
}

/// What a model answered.
#[derive(Debug)]
pub struct InferenceResponse {
    pub content: String,
    pub model: String,
    pub prompt_tokens: Option<u32>,
    pub completion_tokens: Option<u32>,
}

/// One piece of a streamed answer; `done` marks the end of the stream.
#[derive(Debug)]
pub struct StreamToken {
    pub text: String,
    pub done: bool,
}

/// Takes one streamed token into the answer gathered so far: a closing token ends the stream
/// and adds nothing; the text of any other token is appended. Returns whether the stream
/// ended.
pub fn take_stream_token(answer: &mut String, token: &StreamToken) -> (finished: bool)
    ensures
        finished == token.done,
        token.done ==> final(answer)@ == old(answer)@,
        !token.done ==> final(answer)@ == old(answer)@ + token.text@,
{
    if token.done {
        return true;
    }
    push_str(answer, token.text.as_str());
    false
}

// ---------------------------------------------------------------------------------------------
// Token budgeting
// ---------------------------------------------------------------------------------------------

/// The estimated number of tokens of a text: a quarter of its UTF-8 length, at least one.
pub open spec fn tokens_spec(text: Seq<char>) -> nat {
    if byte_len(text) / 4 >= 1 {
        byte_len(text) / 4
    } else {
        1
    }
}

/// The estimated number of tokens of a request's messages: each message costs its content's
/// tokens plus four, and the request three more.
pub open spec fn message_tokens(ms: Seq<Message>) -> nat
    decreases ms.len(),
{
    if ms.len() == 0 {
        0
    } else {
        message_tokens(ms.drop_last()) + tokens_spec(ms.last().content@) + 4
    }
}

/// The estimated number of tokens of a request.
pub open spec fn request_tokens(ms: Seq<Message>) -> nat {
    message_tokens(ms) + 3
}

/// Rough token estimate: about four bytes of text per token, and never less than one.
pub fn estimate_tokens(text: &str) -> (r: usize)
    ensures
        r == tokens_spec(text@),
{
    let q = byte_len_of(text) / 4;
    if q >= 1 {
        q
    } else {
        1
    }
}

/// The estimated number of tokens of a request.
pub fn estimate_request_tokens(request: &InferenceRequest) -> (r: usize)
    requires
        request_tokens(request.messages@) <= usize::MAX,
    ensures
        r == request_tokens(request.messages@),
{
    let n = request.messages.len();
    let mut total: usize = 0;
    let mut i: usize = 0;
    while i < n
        invariant
            n == request.messages@.len(),
            i <= n,
            total == message_tokens(request.messages@.take(i as int)),
            request_tokens(request.messages@) <= usize::MAX,
        decreases n - i,
    {
        assert(request.messages@.take(i + 1).drop_last() =~= request.messages@.take(i as int));
        proof {
            lemma_message_tokens_prefix(request.messages@, i + 1);
        }
        let t = estimate_tokens(request.messages[i].content.as_str());
        total = total + t + 4;
        i = i + 1;
    }
    assert(request.messages@.take(n as int) =~= request.messages@);
    total + 3
}

/// The tokens of a prefix of the messages are at most those of all of them.
proof fn lemma_message_tokens_prefix(ms: Seq<Message>, k: int)
    requires
        0 <= k <= ms.len(),
    ensures
        message_tokens(ms.take(k)) <= message_tokens(ms),
    decreases ms.len() - k,
{
    if k < ms.len() {
        lemma_message_tokens_prefix(ms, k + 1);
        assert(ms.take(k + 1).drop_last() =~= ms.take(k));
    } else {
        assert(ms.take(k) =~= ms);
    }
}

/// Fails with `TokenLimitExceeded` when the request's estimated tokens exceed `limit`.
pub fn check_context_window(request: &InferenceRequest, limit: usize) -> (r: Result<(), HummingbirdError>)
    requires
        request_tokens(request.messages@) <= usize::MAX,
    ensures
        r is Ok <==> request_tokens(request.messages@) <= limit,
        r matches Err(e) ==> e == (HummingbirdError::TokenLimitExceeded {
            requested: request_tokens(request.messages@) as usize,
            limit,
        }),
{
    let tokens = estimate_request_tokens(request);
    if tokens > limit {
        return Err(HummingbirdError::TokenLimitExceeded { requested: tokens, limit });
    }
    Ok(())
}

// ---------------------------------------------------------------------------------------------
// Retries
// ---------------------------------------------------------------------------------------------

/// How many times a request is retried unless told otherwise.
pub const MAX_RETRIES: u32 = 3;

/// The first backoff, in milliseconds; each retry waits twice as long as the one before.
pub const BASE_BACKOFF_MS: u64 = 500;

/// Errors worth retrying: an inference error that mentions a rate limit or a server error
/// status (429, 500, 502, 503, 504), and every network error.
pub open spec fn retryable_spec(err: HummingbirdError) -> bool {
    match err {
        HummingbirdError::Inference(msg) => has_substring(msg@, "429"@) || has_substring(msg@, "500"@)
            || has_substring(msg@, "502"@) || has_substring(msg@, "503"@) || has_substring(msg@, "504"@),
        HummingbirdError::Network(_) => true,
        _ => false,
    }
}

/// Decides `retryable_spec`.
pub fn is_retryable(err: &HummingbirdError) -> (r: bool)
    ensures
        r == retryable_spec(*err),
{
    match err {
        HummingbirdError::Inference(msg) => {
            let m = msg.as_str();
            contains(m, "429") || contains(m, "500") || contains(m, "502") || contains(m, "503")
                || contains(m, "504")
        },
        HummingbirdError::Network(_) => true,
        _ => false,
    }
}

/// How long to wait before retry number `attempt + 1`: 500 ms doubled `attempt` times.
pub fn backoff_delay_ms(attempt: u32) -> (r: u64)
    requires
        attempt <= 55,
    ensures
        r == BASE_BACKOFF_MS * vstd::arithmetic::power2::pow2(attempt as nat),
{
    let mut d: u64 = BASE_BACKOFF_MS;
    let mut i: u32 = 0;
    proof {
        vstd::arithmetic::power2::lemma2_to64();
    }
    while i < attempt
        invariant
            i <= attempt <= 55,
            d == BASE_BACKOFF_MS * vstd::arithmetic::power2::pow2(i as nat),
        decreases attempt - i,
    {
        proof {
            vstd::arithmetic::power2::lemma_pow2_unfold((i + 1) as nat);
            if i + 1 < 55 {
                vstd::arithmetic::power2::lemma_pow2_strictly_increases((i + 1) as nat, 55);
            }
            vstd::arithmetic::power2::lemma2_to64_rest();
        }
        assert(BASE_BACKOFF_MS * vstd::arithmetic::power2::pow2((i + 1) as nat) <= 500 * 0x80000000000000) by (nonlinear_arith)
            requires
                vstd::arithmetic::power2::pow2((i + 1) as nat) <= 0x80000000000000,
        ;
        d = d * 2;
        i = i + 1;
    }
    d
}

/// What to do after a failed attempt.
#[derive(Debug, PartialEq, Eq)]
pub enum RetryDecision {
    /// Wait this many milliseconds, then try again.
    RetryAfterMs(u64),
    /// Give up and report the error.
    GiveUp,
}

/// After attempt number `attempt` (counting from zero) failed with `err`: retry, after 500 ms
/// doubled `attempt` times, when fewer than `max_retries` attempts have been retried and the
/// error is retryable; otherwise give up.
pub open spec fn decision_spec(max_retries: u32, attempt: u32, err: HummingbirdError) -> RetryDecision {
    if attempt < max_retries && retryable_spec(err) {
        RetryDecision::RetryAfterMs((BASE_BACKOFF_MS * vstd::arithmetic::power2::pow2(attempt as nat)) as u64)
    } else {
        RetryDecision::GiveUp
    }
}

/// Each retry waits twice as long as the one before it.
pub proof fn law_backoff_doubles(max_retries: u32, attempt: u32, err: HummingbirdError, next_err: HummingbirdError)
    requires
        attempt < 55,
    ensures
        decision_spec(max_retries, attempt, err) matches RetryDecision::RetryAfterMs(a)
            ==> decision_spec(max_retries, (attempt + 1) as u32, next_err) matches RetryDecision::RetryAfterMs(b)
            ==> b == 2 * a,
{
    vstd::arithmetic::power2::lemma_pow2_unfold((attempt + 1) as nat);
    if attempt + 1 < 55 {
        vstd::arithmetic::power2::lemma_pow2_strictly_increases((attempt + 1) as nat, 55);
    }
    vstd::arithmetic::power2::lemma2_to64_rest();
}

/// No attempt after the last allowed retry is retried, whatever its error: a request is
/// sent at most `max_retries + 1` times.
pub proof fn law_retries_bounded(max_retries: u32, attempt: u32, err: HummingbirdError)
    requires
        attempt >= max_retries,
    ensures
        decision_spec(max_retries, attempt, err) == RetryDecision::GiveUp,
{
}

/// How a client retries failed requests.
#[derive(Debug)]
pub struct RetryPolicy {
    pub max_retries: u32,
}

impl RetryPolicy {
    /// Three retries.
    pub fn new() -> (r: RetryPolicy)
        ensures
            r.max_retries == MAX_RETRIES,
    {
        RetryPolicy { max_retries: MAX_RETRIES }
    }

    /// The given number of retries.
    pub fn with_retries(max_retries: u32) -> (r: RetryPolicy)
        ensures
            r.max_retries == max_retries,
    {
        RetryPolicy { max_retries }
    }

    /// After attempt number `attempt` (counting from zero) failed with `err`: retry, after
    /// the backoff, when attempts are left and the error is retryable; otherwise give up.
    pub fn after_failure(&self, attempt: u32, err: &HummingbirdError) -> (r: RetryDecision)
        requires
            attempt < self.max_retries && retryable_spec(*err) ==> attempt <= 55,
        ensures
            r == decision_spec(self.max_retries, attempt, *err),
    {
        if attempt < self.max_retries && is_retryable(err) {
            RetryDecision::RetryAfterMs(backoff_delay_ms(attempt))
        } else {
            RetryDecision::GiveUp
        }
    }
}

// ---------------------------------------------------------------------------------------------
// Rate limiting
// ---------------------------------------------------------------------------------------------

/// The length of the rate limiter's window: one minute, in nanoseconds.
pub const WINDOW_NANOS: u64 = 60_000_000_000;

/// The extra pause added to each computed wait: ten milliseconds, in nanoseconds.
pub const WAIT_SLACK_NANOS: u64 = 10_000_000;

/// The latest time, in nanoseconds, that the limiter accepts.
pub const LATEST_NANOS: u64 = 0xFFFF_FFF0_0000_0000;

/// Whether the time stamp `t` lies within the window that ends at `now` (a stamp later than
/// `now` counts as no time ago).
pub open spec fn within_window(now: u64, t: u64) -> bool {
    (if now >= t { now - t } else { 0 }) < WINDOW_NANOS
}

/// The stamps of `stamps` within the window that ends at `now`, in order.
pub open spec fn recent(stamps: Seq<u64>, now: u64) -> Seq<u64> {
    stamps.filter(|t: u64| within_window(now, t))
}

/// How long an attempt at `now` waits for the stamp `oldest` to leave the window: until it
/// does, plus ten milliseconds.
pub open spec fn wait_for(oldest: u64, now: u64) -> int {
    (if oldest + WINDOW_NANOS >= now { oldest + WINDOW_NANOS - now } else { 0 }) + WAIT_SLACK_NANOS
}

/// Waiting as told lets the next request through: when an attempt at `now` finds no free
/// slot, the limiter keeps the stamps within the window; an attempt made once the wait it
/// was told has passed, with no grant in between, finds a free slot.
pub proof fn law_wait_then_granted(stamps: Seq<u64>, requests_per_minute: u32, now: u64, later: u64)
    requires
        stamps.len() <= requests_per_minute,
        recent(stamps, now).len() >= requests_per_minute,
        requests_per_minute > 0,
        later >= now + wait_for(recent(stamps, now)[0], now),
    ensures
        recent(recent(stamps, now), later).len() < requests_per_minute,
{
    let p = |t: u64| within_window(now, t);
    let q = |t: u64| within_window(later, t);
    let kept = recent(stamps, now);
    stamps.lemma_filter_len(p);
    assert(kept.len() > 0);
    stamps.lemma_filter_pred(p, 0);
    let first = seq![kept[0]];
    let rest = kept.drop_first();
    assert(kept =~= first + rest);
    Seq::filter_distributes_over_add(first, rest, q);
    assert(!q(kept[0]));
    assert(first.filter(q) =~= seq![]) by {
        Seq::<u64>::empty().lemma_filter_push(kept[0], q);
        assert(first =~= Seq::<u64>::empty().push(kept[0]));
        reveal(Seq::filter);
    }
    rest.lemma_filter_len(q);
    assert(recent(kept, later) =~= first.filter(q) + rest.filter(q));
}

/// One attempt at time `now` on a limiter that holds `stamps`: the stamps that it holds
/// afterwards, and whether the request was granted.
pub open spec fn attempt(stamps: Seq<u64>, requests_per_minute: nat, now: u64) -> (Seq<u64>, bool) {
    let kept = recent(stamps, now);
    if kept.len() < requests_per_minute {
        (kept.push(now), true)
    } else {
        (kept, false)
    }
}

/// The stamps that a new limiter holds after attempts at `times`, in order.
pub open spec fn stamps_after(requests_per_minute: nat, times: Seq<u64>) -> Seq<u64>
    decreases times.len(),
{
    if times.len() == 0 {
        seq![]
    } else {
        attempt(stamps_after(requests_per_minute, times.drop_last()), requests_per_minute, times.last()).0
    }
}

/// The times of the attempts among `times`, in order, that a new limiter granted.
pub open spec fn granted_times(requests_per_minute: nat, times: Seq<u64>) -> Seq<u64>
    decreases times.len(),
{
    if times.len() == 0 {
        seq![]
    } else {
        let before = granted_times(requests_per_minute, times.drop_last());
        if attempt(stamps_after(requests_per_minute, times.drop_last()), requests_per_minute, times.last()).1 {
            before.push(times.last())
        } else {
            before
        }
    }
}

/// The times never go back.
pub open spec fn non_decreasing(times: Seq<u64>) -> bool {
    forall|i: int, j: int| 0 <= i <= j < times.len() ==> times[i] <= times[j]
}

/// Keeping what passes `p`, then what passes `q`, keeps what passes `q` when every value
/// that passes `q` passes `p`.
proof fn lemma_filter_narrower(s: Seq<u64>, p: spec_fn(u64) -> bool, q: spec_fn(u64) -> bool)
    requires
        forall|x: u64| #[trigger] q(x) ==> p(x),
    ensures
        s.filter(p).filter(q) == s.filter(q),
    decreases s.len(),
{
    if s.len() == 0 {
        reveal(Seq::filter);
    } else {
        let front = s.drop_last();
        lemma_filter_narrower(front, p, q);
        assert(s =~= front.push(s.last()));
        front.lemma_filter_push(s.last(), p);
        front.lemma_filter_push(s.last(), q);
        front.filter(p).lemma_filter_push(s.last(), q);
    }
}

/// A stamp within the window that ends at `later` is within the window that ends at any
/// earlier time.
proof fn lemma_window_shrinks(earlier: u64, later: u64)
    requires
        earlier <= later,
    ensures
        forall|x: u64| within_window(later, x) ==> within_window(earlier, x),
{
}

/// After attempts at non-decreasing times, a new limiter holds exactly the grants within the
/// minute that ends at the latest attempt, and no more of them than it allows.
proof fn lemma_stamps_are_recent_grants(requests_per_minute: nat, times: Seq<u64>)
    requires
        requests_per_minute > 0,
        times.len() > 0,
        non_decreasing(times),
    ensures
        stamps_after(requests_per_minute, times) == recent(granted_times(requests_per_minute, times), times.last()),
        stamps_after(requests_per_minute, times).len() <= requests_per_minute,
    decreases times.len(),
{
    let before = times.drop_last();
    let t = times.last();
    let g = granted_times(requests_per_minute, before);
    let held = stamps_after(requests_per_minute, before);
    let q = |x: u64| within_window(t, x);
    if before.len() == 0 {
        reveal(Seq::filter);
        assert(held =~= Seq::<u64>::empty());
        assert(recent(held, t) =~= Seq::<u64>::empty());
        Seq::<u64>::empty().lemma_filter_push(t, q);
        assert(g =~= Seq::<u64>::empty());
    } else {
        assert(non_decreasing(before)) by {
            assert forall|i: int, j: int| 0 <= i <= j < before.len() implies before[i] <= before[j] by {
                assert(before[i] == times[i] && before[j] == times[j]);
            }
        }
        lemma_stamps_are_recent_grants(requests_per_minute, before);
        let t0 = before.last();
        assert(t0 == times[times.len() - 2]);
        lemma_window_shrinks(t0, t);
        let p = |x: u64| within_window(t0, x);
        lemma_filter_narrower(g, p, q);
        assert(recent(held, t) == recent(g, t));
        held.lemma_filter_len(q);
        g.lemma_filter_push(t, q);
    }
}

/// At most `requests_per_minute` grants in a minute: when a new limiter sees attempts at
/// non-decreasing times, the granted attempts within the minute that ends at the latest
/// attempt number at most `requests_per_minute`, and they are exactly the stamps that the
/// limiter holds then.
pub proof fn law_grants_per_minute(requests_per_minute: nat, times: Seq<u64>)
    requires
        requests_per_minute > 0,
        times.len() > 0,
        non_decreasing(times),
    ensures
        recent(granted_times(requests_per_minute, times), times.last()).len() <= requests_per_minute,
        stamps_after(requests_per_minute, times) == recent(granted_times(requests_per_minute, times), times.last()),
{
    lemma_stamps_are_recent_grants(requests_per_minute, times);
}

/// The times of `granted` that lie within the minute that ends at `end`: at or before `end`,
/// and less than a minute before it.
pub open spec fn granted_within(granted: Seq<u64>, end: u64) -> Seq<u64> {
    granted.filter(|x: u64| x <= end && within_window(end, x))
}

proof fn lemma_grants_within(requests_per_minute: nat, times: Seq<u64>, end: u64)
    requires
        requests_per_minute > 0,
        non_decreasing(times),
    ensures
        granted_within(granted_times(requests_per_minute, times), end).len() <= requests_per_minute,
    decreases times.len(),
{
    let g = granted_times(requests_per_minute, times);
    let r = |x: u64| x <= end && within_window(end, x);
    if times.len() == 0 {
        reveal(Seq::filter);
    } else if times.last() <= end {
        lemma_stamps_are_recent_grants(requests_per_minute, times);
        let t = times.last();
        let q = |x: u64| within_window(t, x);
        assert forall|x: u64| #[trigger] r(x) implies q(x) by {}
        lemma_filter_narrower(g, q, r);
        g.filter(q).lemma_filter_len(r);
    } else {
        let before = times.drop_last();
        assert(non_decreasing(before)) by {
            assert forall|i: int, j: int| 0 <= i <= j < before.len() implies before[i] <= before[j] by {
                assert(before[i] == times[i] && before[j] == times[j]);
            }
        }
        lemma_grants_within(requests_per_minute, before, end);
        granted_times(requests_per_minute, before).lemma_filter_push(times.last(), r);
    }
}

/// At most `requests_per_minute` grants in any minute: when a new limiter sees attempts at
/// non-decreasing times, the granted attempts that lie within any one minute number at most
/// `requests_per_minute`.
pub proof fn law_grants_in_any_minute(requests_per_minute: nat, times: Seq<u64>, end: u64)
    requires
        requests_per_minute > 0,
        non_decreasing(times),
    ensures
        granted_within(granted_times(requests_per_minute, times), end).len() <= requests_per_minute,
{
    lemma_grants_within(requests_per_minute, times, end);
}

/// What an acquisition attempt asks of its caller.
#[derive(Debug, PartialEq, Eq)]
pub enum Acquire {
    /// The request may go ahead.
    Granted,
    /// Sleep this many nanoseconds, then try again.
    WaitNanos(u64),
}

/// Allows at most `requests_per_minute` requests within any minute. Times are nanoseconds
/// on the caller's monotonic clock.
#[derive(Debug)]
pub struct RateLimiter {
    pub requests_per_minute: u32,
    pub timestamps: Vec<u64>,
}

impl RateLimiter {
    /// Every stamp is a time the limiter accepted, and there are never more stamps than
    /// requests allowed per minute.
    pub open spec fn wf(&self) -> bool {
        &&& self.timestamps@.len() <= self.requests_per_minute
        &&& forall|i: int| 0 <= i < self.timestamps@.len() ==> self.timestamps@[i] <= LATEST_NANOS
    }

    /// A limiter that has granted nothing yet.
    pub fn new(requests_per_minute: u32) -> (r: RateLimiter)
        ensures
            r.requests_per_minute == requests_per_minute,
            r.timestamps@.len() == 0,
            r.wf(),
    {
        RateLimiter { requests_per_minute, timestamps: Vec::new() }
    }

    /// One attempt at acquiring a slot at time `now`: stamps older than a minute are
    /// forgotten; if fewer than `requests_per_minute` remain, `now` is recorded and the
    /// request is granted; otherwise the caller is told to wait until the oldest stamp leaves
    /// the window, plus ten milliseconds.
    pub fn try_acquire(&mut self, now: u64) -> (r: Acquire)
        requires
            old(self).wf(),
            old(self).requests_per_minute > 0,
            now <= LATEST_NANOS,
        ensures
            final(self).wf(),
            final(self).requests_per_minute == old(self).requests_per_minute,
            (final(self).timestamps@, r == Acquire::Granted) == attempt(old(self).timestamps@, old(self).requests_per_minute as nat, now),
            ({
                let kept = recent(old(self).timestamps@, now);
                if kept.len() < old(self).requests_per_minute {
                    &&& r == Acquire::Granted
                    &&& final(self).timestamps@ == kept.push(now)
                } else {
                    &&& final(self).timestamps@ == kept
                    &&& r == Acquire::WaitNanos(wait_for(kept[0], now) as u64)
                }
            }),
    {
        let ghost old_stamps = self.timestamps@;
        let mut kept: Vec<u64> = Vec::new();
        let n = self.timestamps.len();
        let mut i: usize = 0;
        while i < n
            invariant
                n == self.timestamps@.len(),
                self.timestamps@ == old_stamps,
                i <= n,
                kept@ == recent(old_stamps.take(i as int), now),
                kept@.len() <= i,
                forall|k: int| 0 <= k < kept@.len() ==> kept@[k] <= LATEST_NANOS,
                forall|k: int| 0 <= k < old_stamps.len() ==> old_stamps[k] <= LATEST_NANOS,
            decreases n - i,
        {
            let t = self.timestamps[i];
            let age: u64 = if now >= t { now - t } else { 0 };
            assert(old_stamps.take(i + 1).drop_last() =~= old_stamps.take(i as int));
            proof {
                old_stamps.take(i as int).lemma_filter_push(t, |t: u64| within_window(now, t));
                assert(old_stamps.take(i as int).push(t) =~= old_stamps.take(i + 1));
            }
            if age < WINDOW_NANOS {
                kept.push(t);
            }
            i = i + 1;
        }
        assert(old_stamps.take(n as int) =~= old_stamps);
        self.timestamps = kept;
        if self.timestamps.len() < self.requests_per_minute as usize {
            self.timestamps.push(now);
            Acquire::Granted
        } else {
            let oldest = self.timestamps[0];
            let until = oldest + WINDOW_NANOS;
            let wait: u64 = if until >= now { until - now } else { 0 };
            Acquire::WaitNanos(wait + WAIT_SLACK_NANOS)
        }
    }
}

/// Every message counts toward a request's estimate, whatever its role: a request of no
/// messages is estimated at three tokens, and one more message adds its content's bytes
/// over four (at least one) and four more.
pub proof fn law_every_message_counts(ms: Seq<Message>, m: Message)
    ensures
        request_tokens(seq![]) == 3,
        request_tokens(ms.push(m)) == request_tokens(ms) + (if byte_len(m.content@) / 4 >= 1 {
            byte_len(m.content@) / 4
        } else {
            1
        }) + 4,
        request_tokens(ms.push(m)) >= request_tokens(ms) + 5,
        request_tokens(ms) >= 3 + 5 * ms.len(),
    decreases ms.len(),
{
    assert(ms.push(m).drop_last() =~= ms);
    if ms.len() > 0 {
        law_every_message_counts(ms.drop_last(), ms.last());
        assert(ms.drop_last().push(ms.last()) =~= ms);
    }
}

} // verus!
