use hummingbird::error::HummingbirdError;
use hummingbird::history::Message;
use hummingbird::inference::{
    backoff_delay_ms, check_context_window, estimate_request_tokens, estimate_tokens, is_retryable, Acquire,
    InferenceRequest, RateLimiter, RetryDecision, RetryPolicy, WINDOW_NANOS,
};

fn make_request(content: &str) -> InferenceRequest {
    InferenceRequest::new(vec![Message { role: "user".into(), content: content.into() }], "test-model")
}

#[test]
fn token_estimate_non_zero() {
    assert!(estimate_tokens("hello world") > 0);
}

#[test]
fn token_estimate_is_a_quarter_of_the_bytes() {
    assert_eq!(estimate_tokens(""), 1);
    assert_eq!(estimate_tokens("abc"), 1);
    assert_eq!(estimate_tokens("abcdefgh"), 2);
    assert_eq!(estimate_tokens(&"x".repeat(40001)), 10000);
    // "é" takes two bytes
    assert_eq!(estimate_tokens("éééé"), 2);
}

#[test]
fn request_tokens_add_four_per_message_and_three() {
    let req = make_request("hello");
    assert_eq!(estimate_request_tokens(&req), 1 + 4 + 3);
}

#[test]
fn context_window_passes_within_limit() {
    let req = make_request("hello");
    assert!(check_context_window(&req, 10000).is_ok());
}

#[test]
fn context_window_rejects_oversized() {
    let long = "x".repeat(40001);
    let req = make_request(&long);
    assert!(check_context_window(&req, 100).is_err());
}

#[test]
fn context_window_error_names_both_numbers() {
    let req = make_request(&"x".repeat(40001));
    match check_context_window(&req, 100) {
        Err(HummingbirdError::TokenLimitExceeded { requested, limit }) => {
            assert_eq!(requested, 10007);
            assert_eq!(limit, 100);
        }
        other => panic!("unexpected {:?}", other),
    }
    assert!(check_context_window(&req, 10007).is_ok());
}

#[test]
fn rate_limiter_created() {
    let rl = RateLimiter::new(60);
    assert_eq!(rl.requests_per_minute, 60);
}

#[test]
fn rate_limiter_grants_up_to_the_limit_then_waits() {
    let mut rl = RateLimiter::new(2);
    assert_eq!(rl.try_acquire(1_000), Acquire::Granted);
    assert_eq!(rl.try_acquire(2_000), Acquire::Granted);
    // the oldest stamp (1000) leaves the window at 1000 + 60 s; plus 10 ms of slack
    assert_eq!(rl.try_acquire(3_000), Acquire::WaitNanos(1_000 + WINDOW_NANOS - 3_000 + 10_000_000));
    assert_eq!(rl.timestamps, vec![1_000, 2_000]);
}

#[test]
fn waiting_as_told_lets_the_next_request_through() {
    let mut rl = RateLimiter::new(1);
    assert_eq!(rl.try_acquire(5), Acquire::Granted);
    let wait = match rl.try_acquire(10) {
        Acquire::WaitNanos(w) => w,
        Acquire::Granted => panic!("expected a wait"),
    };
    assert_eq!(rl.try_acquire(10 + wait), Acquire::Granted);
    assert_eq!(rl.timestamps, vec![10 + wait]);
}

#[test]
fn old_stamps_are_forgotten() {
    let mut rl = RateLimiter::new(1);
    assert_eq!(rl.try_acquire(0), Acquire::Granted);
    assert_eq!(rl.try_acquire(WINDOW_NANOS), Acquire::Granted);
    assert_eq!(rl.timestamps, vec![WINDOW_NANOS]);
}

#[test]
fn is_retryable_on_429() {
    let err = HummingbirdError::Inference("OpenAI 429: rate limited".to_string());
    assert!(is_retryable(&err));
}

#[test]
fn is_not_retryable_on_config_error() {
    let err = HummingbirdError::Config("bad key".to_string());
    assert!(!is_retryable(&err));
}

#[test]
fn retryable_errors() {
    for code in ["500", "502", "503", "504"] {
        assert!(is_retryable(&HummingbirdError::Inference(format!("Ollama {code}: down"))));
    }
    assert!(is_retryable(&HummingbirdError::Network("reset".into())));
    assert!(!is_retryable(&HummingbirdError::Inference("Ollama 404: missing".into())));
}

#[test]
fn backoff_doubles() {
    assert_eq!(backoff_delay_ms(0), 500);
    assert_eq!(backoff_delay_ms(1), 1000);
    assert_eq!(backoff_delay_ms(2), 2000);
    assert_eq!(backoff_delay_ms(10), 512_000);
}

#[test]
fn retry_policy_decisions() {
    let p = RetryPolicy::new();
    assert_eq!(p.max_retries, 3);
    let e = HummingbirdError::Network("x".into());
    assert_eq!(p.after_failure(0, &e), RetryDecision::RetryAfterMs(500));
    assert_eq!(p.after_failure(2, &e), RetryDecision::RetryAfterMs(2000));
    assert_eq!(p.after_failure(3, &e), RetryDecision::GiveUp);
    assert_eq!(p.after_failure(0, &HummingbirdError::Config("k".into())), RetryDecision::GiveUp);
    assert_eq!(RetryPolicy::with_retries(0).after_failure(0, &e), RetryDecision::GiveUp);
}

#[test]
fn inference_request_defaults() {
    let req = InferenceRequest::new(vec![Message { role: "user".into(), content: "hello".into() }], "gpt-4o");
    assert_eq!(req.max_tokens, 4096);
    assert!(!req.stream);
    assert_eq!(f32::from_bits(req.temperature_bits), 0.2f32);
}

#[test]
fn no_minute_holds_more_grants_than_allowed() {
    let mut rl = RateLimiter::new(3);
    let second = 1_000_000_000u64;
    let times: Vec<u64> = (0..200u64).map(|k| k * 7 * second / 10).collect();
    let mut granted: Vec<u64> = Vec::new();
    for &t in &times {
        if rl.try_acquire(t) == Acquire::Granted {
            granted.push(t);
        }
        assert!(rl.timestamps.len() <= 3);
    }
    assert!(granted.len() > 3);
    for &end in &times {
        let within = granted.iter().filter(|&&g| g <= end && end - g < WINDOW_NANOS).count();
        assert!(within <= 3, "{} grants in the minute ending at {}", within, end);
    }
}

#[test]
fn stream_tokens_gather_until_the_closing_one() {
    let mut answer = String::from("Hel");
    assert!(!hummingbird::inference::take_stream_token(&mut answer, &hummingbird::inference::StreamToken { text: "lo".into(), done: false }));
    assert_eq!(answer, "Hello");
    assert!(hummingbird::inference::take_stream_token(&mut answer, &hummingbird::inference::StreamToken { text: "ignored".into(), done: true }));
    assert_eq!(answer, "Hello");
}

#[test]
fn late_attempts_give_up_on_errors_that_are_not_retried() {
    let p = RetryPolicy::with_retries(100);
    let e = HummingbirdError::Config("bad".into());
    assert_eq!(p.after_failure(60, &e), RetryDecision::GiveUp);
}
