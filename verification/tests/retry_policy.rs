use grizzly_agent::failure::ProviderFailure;
use grizzly_agent::retry::{RetryDecision, RetryPolicy, decide, exponential_backoff};
use grizzly_agent::Duration;

fn transport_failure() -> ProviderFailure {
    ProviderFailure::Transport {
        provider: "test".to_owned(),
        detail: "boom".to_owned(),
    }
}

fn status_with_retry_after(retry_after: Duration) -> ProviderFailure {
    ProviderFailure::Status {
        provider: "test".to_owned(),
        status: 429,
        message: "slow down".to_owned(),
        retry_after: Some(retry_after),
    }
}

#[test]
fn the_default_schedule_doubles_from_500ms_and_caps_at_10s() {
    let policy = RetryPolicy::default();
    let failure = transport_failure();

    let waits: Vec<Duration> = (1..policy.max_attempts())
        .map(|attempt| match decide(&policy, attempt, &failure) {
            RetryDecision::Wait(duration) => duration,
            RetryDecision::Stop => {
                panic!("attempt {attempt} of {} must retry", policy.max_attempts())
            }
        })
        .collect();

    assert_eq!(
        waits,
        vec![
            Duration::from_millis(500),
            Duration::from_millis(1000),
            Duration::from_millis(2000),
            Duration::from_millis(4000),
        ],
        "the default policy must double from 500ms across its 4 retry decisions"
    );
}

#[test]
fn backoff_caps_at_the_configured_ceiling() {
    let policy = RetryPolicy::new(10, Duration::from_secs(1), Duration::from_secs(10));
    let failure = transport_failure();

    let RetryDecision::Wait(sixth) = decide(&policy, 6, &failure) else {
        panic!("attempt 6 must retry");
    };

    assert_eq!(
        sixth,
        Duration::from_secs(10),
        "a delay that would exceed the cap must be clamped to it"
    );
}

#[test]
fn retry_after_wins_when_larger_than_the_computed_backoff() {
    let policy = RetryPolicy::default();
    let failure = status_with_retry_after(Duration::from_secs(30));

    let RetryDecision::Wait(computed) = decide(&policy, 1, &failure) else {
        panic!("a retryable status must retry");
    };

    assert_eq!(
        computed,
        Duration::from_secs(30),
        "Retry-After must win when it exceeds the computed backoff"
    );
}

#[test]
fn the_computed_backoff_wins_when_larger_than_retry_after() {
    let policy = RetryPolicy::default();
    let failure = status_with_retry_after(Duration::from_millis(10));

    let RetryDecision::Wait(computed) = decide(&policy, 3, &failure) else {
        panic!("a retryable status must retry");
    };

    assert_eq!(
        computed,
        Duration::from_millis(2000),
        "the computed backoff must win when Retry-After is smaller"
    );
}

#[test]
fn a_non_retryable_failure_stops_immediately() {
    let policy = RetryPolicy::default();
    let failure = ProviderFailure::InvalidRequest("bad request".to_owned());

    assert_eq!(
        decide(&policy, 1, &failure),
        RetryDecision::Stop,
        "a non-retryable failure must never be retried"
    );
}

#[test]
fn the_final_attempt_stops_even_when_the_failure_is_retryable() {
    let policy = RetryPolicy::default();
    let failure = transport_failure();

    assert_eq!(
        decide(&policy, policy.max_attempts(), &failure),
        RetryDecision::Stop,
        "once max_attempts is reached, decide must stop rather than retry forever"
    );
}

#[test]
fn none_policy_allows_exactly_one_attempt() {
    assert_eq!(RetryPolicy::none().max_attempts(), 1);
    assert_eq!(
        decide(&RetryPolicy::none(), 1, &transport_failure()),
        RetryDecision::Stop,
        "RetryPolicy::none must never retry"
    );
}

#[test]
fn a_policy_always_allows_at_least_one_attempt() {
    let policy = RetryPolicy::new(0, Duration::from_millis(1), Duration::from_millis(2));
    assert_eq!(policy.max_attempts(), 1);
}

#[test]
fn backoff_doubles_per_attempt_until_the_cap() {
    let policy = RetryPolicy::new(40, Duration::from_millis(3), Duration::from_secs(1));
    assert_eq!(exponential_backoff(&policy, 1), Duration::from_millis(3));
    assert_eq!(exponential_backoff(&policy, 2), Duration::from_millis(6));
    assert_eq!(exponential_backoff(&policy, 5), Duration::from_millis(48));
    assert_eq!(exponential_backoff(&policy, 9), Duration::from_millis(768));
    assert_eq!(exponential_backoff(&policy, 10), Duration::from_secs(1));
    assert_eq!(
        exponential_backoff(&policy, 35),
        Duration::from_secs(1),
        "the cap still holds far along"
    );
    assert_eq!(
        exponential_backoff(&policy, 0),
        Duration::from_millis(3),
        "attempt zero waits as long as the first"
    );
}

#[test]
fn waits_never_shrink_from_one_attempt_to_the_next() {
    let policy = RetryPolicy::default();
    let failure = transport_failure();
    let mut previous = Duration::zero();
    for attempt in 1..policy.max_attempts() {
        let RetryDecision::Wait(wait) = decide(&policy, attempt, &failure) else {
            panic!("attempt {attempt} must retry");
        };
        assert!(wait.as_nanos() >= previous.as_nanos());
        previous = wait;
    }
}

#[test]
fn backoff_keeps_doubling_past_the_thirty_second_attempt() {
    let policy = RetryPolicy::new(100, Duration::from_nanos(1), Duration::from_secs(3600));
    let RetryDecision::Wait(wait) = decide(&policy, 40, &transport_failure()) else {
        panic!("attempt 40 of 100 must retry");
    };
    assert_eq!(wait, Duration::from_nanos(1_u128 << 39));
    let uncapped = RetryPolicy::new(200, Duration::from_secs(1), Duration::max_value());
    assert_eq!(
        exponential_backoff(&uncapped, 150),
        Duration::max_value(),
        "a product past the largest span saturates"
    );
    assert_eq!(
        exponential_backoff(&uncapped, 11),
        Duration::from_secs(1024)
    );
}
