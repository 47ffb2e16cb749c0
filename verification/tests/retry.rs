use llm_proxy::retry::{RetryAction, RetryEvent, RetryLimits, RetryState};

fn limits(max_retries: u32, max_total_wait_ms: u64) -> RetryLimits {
    RetryLimits {
        max_retries,
        max_total_wait_ms,
    }
}

fn answered(retryable: bool, delay_ms: u64) -> RetryEvent {
    RetryEvent::Answered {
        retryable,
        delay_ms,
    }
}

fn lost(backoff_ms: u64) -> RetryEvent {
    RetryEvent::Unreachable {
        backoff_ms,
        message: "refused".to_string(),
    }
}

fn message(action: RetryAction) -> (u16, String, String) {
    match action {
        RetryAction::GiveUp(reply) => {
            let body: serde_json::Value = serde_json::from_str(&reply.body).unwrap();
            (
                reply.status,
                body["error"]["message"].as_str().unwrap().to_string(),
                body["error"]["type"].as_str().unwrap().to_string(),
            )
        }
        other => panic!("{:?}", other),
    }
}

fn failed(text: &str) -> (u16, String, String) {
    (502, text.to_string(), "upstream_failed".to_string())
}

#[test]
fn success_is_passed_on() {
    let mut state = RetryState::new();
    let l = limits(3, 0);
    assert!(matches!(
        state.next(&l, RetryEvent::Ready),
        RetryAction::Send
    ));
    assert!(matches!(
        state.next(&l, answered(false, 99)),
        RetryAction::PassOn
    ));
    assert_eq!((state.attempt, state.total_wait_ms), (0, 0));
}

#[test]
fn retries_until_the_limit() {
    let mut state = RetryState::new();
    let l = limits(2, 0);
    for round in 0..2u32 {
        assert!(matches!(
            state.next(&l, RetryEvent::Ready),
            RetryAction::Send
        ));
        assert!(matches!(
            state.next(&l, answered(true, 10)),
            RetryAction::Wait(10)
        ));
        assert_eq!(state.attempt, round + 1);
    }
    assert_eq!(state.total_wait_ms, 20);
    assert_eq!(
        message(state.next(&l, RetryEvent::Ready)),
        failed("upstream request failed (max retries exceeded)")
    );
    assert!(matches!(
        state.next(&l, answered(true, 10)),
        RetryAction::PassOn
    ));
    assert_eq!(
        message(state.next(&l, lost(1))),
        failed("upstream request failed: refused")
    );
}

#[test]
fn waits_within_the_budget() {
    let mut state = RetryState::new();
    let l = limits(9, 25);
    assert!(matches!(state.next(&l, lost(20)), RetryAction::Wait(20)));
    assert_eq!(
        message(state.next(&l, answered(true, 6))),
        failed("upstream request failed (budget exceeded)")
    );
    assert_eq!((state.attempt, state.total_wait_ms), (1, 20));
    assert!(matches!(
        state.next(&l, answered(true, 5)),
        RetryAction::Wait(5)
    ));
    assert_eq!(
        message(state.next(&l, RetryEvent::Ready)),
        failed("upstream request failed (total wait exceeded)")
    );
}

#[test]
fn a_client_that_left_is_not_waited_for() {
    let mut state = RetryState::new();
    assert_eq!(
        message(state.next(&limits(9, 0), RetryEvent::Disconnected)),
        (
            499,
            "client disconnected".to_string(),
            "client_disconnected".to_string()
        )
    );
}

#[test]
fn long_waits_do_not_pass_the_budget() {
    let mut state = RetryState::new();
    let l = limits(9, 1000);
    assert!(matches!(state.next(&l, lost(10)), RetryAction::Wait(10)));
    assert_eq!(
        message(state.next(&l, answered(true, u64::MAX))),
        failed("upstream request failed (budget exceeded)")
    );
    let mut unlimited = RetryState::new();
    let l = limits(9, 0);
    for _ in 0..2 {
        assert!(matches!(
            unlimited.next(&l, lost(u64::MAX)),
            RetryAction::Wait(u64::MAX)
        ));
    }
    assert_eq!(unlimited.total_wait_ms, u64::MAX);
}
