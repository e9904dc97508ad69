use audiobookbay::progress::Progress;
use audiobookbay::retry::{backoff_secs, retry_message, Retry, RetryAction};

/// What is said and how long is waited where every attempt fails with its number.
fn fail_always(retries: u32, quiet: bool) -> (String, Vec<u64>) {
    let progress = Progress { quiet, is_terminal: false };
    let mut retry = Retry::new(retries);
    let mut said = String::new();
    let mut waits = Vec::new();
    loop {
        let step = retry.fail(&progress, &format!("e{}", waits.len()));
        said.push_str(&step.text);
        match step.action {
            RetryAction::Wait(secs) => waits.push(secs),
            RetryAction::GiveUp => return (said, waits),
        }
    }
}

#[test]
fn waits_double_up_to_a_limit() {
    let waits: Vec<u64> = (0..8).map(backoff_secs).collect();
    assert_eq!(waits, [1, 2, 4, 8, 16, 32, 32, 32]);
    assert_eq!(backoff_secs(u32::MAX), 32);
}

#[test]
fn a_request_is_tried_again_as_often_as_asked() {
    let mut retry = Retry::new(3);
    assert_eq!(retry.after_failure(), RetryAction::Wait(1));
    assert_eq!(retry.after_failure(), RetryAction::Wait(2));
    assert_eq!(retry.after_failure(), RetryAction::Wait(4));
    assert_eq!(retry.after_failure(), RetryAction::GiveUp);
    assert_eq!(retry, Retry { attempt: 3, retries: 3 });
}

#[test]
fn without_retries_the_first_failure_is_final() {
    assert_eq!(Retry::new(0).after_failure(), RetryAction::GiveUp);
}

#[test]
fn the_number_of_attempts_can_be_the_largest() {
    let mut retry = Retry { attempt: u32::MAX - 1, retries: u32::MAX };
    assert_eq!(retry.after_failure(), RetryAction::Wait(32));
    assert_eq!(retry.after_failure(), RetryAction::GiveUp);
}

#[test]
fn what_a_retry_says() {
    assert_eq!(retry_message(0, 3, 1, "timed out"), "  retry 1/3 in 1s: timed out");
    assert_eq!(retry_message(u32::MAX, 12, 32, ""), "  retry 4294967296/12 in 32s: ");
}

#[test]
fn one_line_is_said_before_each_wait() {
    let (said, waits) = fail_always(3, false);
    assert_eq!(
        said,
        "  retry 1/3 in 1s: e0\n  retry 2/3 in 2s: e1\n  retry 3/3 in 4s: e2\n"
    );
    assert_eq!(waits, [1, 2, 4]);
    assert_eq!(fail_always(0, false), (String::new(), vec![]));
}

#[test]
fn quiet_retries_are_the_same() {
    for retries in 0..8 {
        let quiet = fail_always(retries, true);
        assert_eq!(quiet.0, "");
        assert_eq!(quiet.1, fail_always(retries, false).1);
        assert_eq!(quiet.1.len(), retries as usize);
    }
}
