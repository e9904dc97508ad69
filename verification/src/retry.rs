//! Trying a request again after it failed.

use vstd::arithmetic::power2::pow2;
use vstd::prelude::*;
use vstd::string::*;

use crate::progress::Progress;
use crate::text::{decimal, law_decimal_stands_for_its_number, number_of, push_decimal};

verus! {

/// How many seconds to wait after the failure of an attempt; the first attempt is number zero.
/// The time doubles with each attempt, up to the sixth.
pub open spec fn backoff(attempt: nat) -> nat {
    pow2(if attempt < 5 { attempt } else { 5 })
}

/// What to do after an attempt has failed.
#[derive(Clone, Copy, PartialEq, Eq, Structural, Debug)]
pub enum RetryAction {
    /// Wait for as many seconds, then try again.
    Wait(u64),
    /// Return the failure.
    GiveUp,
}

/// What to say and what to do after an attempt has failed.
#[derive(Debug, PartialEq, Eq)]
pub struct RetryStep {
    /// What the user is told first.
    pub text: String,
    /// What is to be done.
    pub action: RetryAction,
}

/// The attempts at one request.
#[derive(Clone, Copy, PartialEq, Eq, Structural, Debug)]
pub struct Retry {
    /// The number of the attempt that is being made; the first is number zero.
    pub attempt: u32,
    /// How many times a failed request is tried again.
    pub retries: u32,
}

impl Retry {
    /// There are no more attempts than allowed.
    pub open spec fn valid(self) -> bool {
        self.attempt <= self.retries
    }

    /// The state before the first attempt.
    pub fn new(retries: u32) -> (r: Retry)
        ensures
            r.valid(),
            r == (Retry { attempt: 0, retries }),
    {
        Retry { attempt: 0, retries }
    }

    /// What to do after the attempt has failed.
    pub open spec fn action(self) -> RetryAction {
        if self.attempt < self.retries {
            RetryAction::Wait(backoff(self.attempt as nat) as u64)
        } else {
            RetryAction::GiveUp
        }
    }

    /// The state after the attempt has failed.
    pub open spec fn next(self) -> Retry {
        if self.attempt < self.retries {
            Retry { attempt: (self.attempt + 1) as u32, retries: self.retries }
        } else {
            self
        }
    }

    /// Takes note that the attempt has failed, and says what to do.
    pub fn after_failure(&mut self) -> (r: RetryAction)
        requires
            old(self).valid(),
        ensures
            final(self).valid(),
            *final(self) == old(self).next(),
            r == old(self).action(),
    {
        if self.attempt < self.retries {
            let secs = backoff_secs(self.attempt);
            self.attempt += 1;
            RetryAction::Wait(secs)
        } else {
            RetryAction::GiveUp
        }
    }

    /// What the user is told after the attempt has failed with `error`: nothing where that failure
    /// is final.
    pub open spec fn failure_text(self, progress: Progress, error: Seq<char>) -> Seq<char> {
        match self.action() {
            RetryAction::Wait(secs) => progress.retrying_text(
                self.attempt as nat,
                self.retries as nat,
                secs as nat,
                error,
            ),
            RetryAction::GiveUp => Seq::empty(),
        }
    }

    /// Takes note that the attempt has failed with `error`, and gives what to say and to do.
    pub fn fail(&mut self, progress: &Progress, error: &str) -> (r: RetryStep)
        requires
            old(self).valid(),
        ensures
            final(self).valid(),
            *final(self) == old(self).next(),
            r.action == old(self).action(),
            r.text@ == old(self).failure_text(*progress, error@),
    {
        let attempt: u32 = self.attempt;
        let action = self.after_failure();
        let text = match action {
            RetryAction::Wait(secs) => progress.retrying(attempt, self.retries, secs, error),
            RetryAction::GiveUp => String::new(),
        };
        RetryStep { text, action }
    }
}

proof fn lemma_backoff(attempt: nat)
    ensures
        attempt == 0 ==> backoff(attempt) == 1,
        attempt == 1 ==> backoff(attempt) == 2,
        attempt == 2 ==> backoff(attempt) == 4,
        attempt == 3 ==> backoff(attempt) == 8,
        attempt == 4 ==> backoff(attempt) == 16,
        attempt >= 5 ==> backoff(attempt) == 32,
{
    vstd::arithmetic::power2::lemma2_to64();
}

/// How many seconds to wait after the failure of an attempt.
pub fn backoff_secs(attempt: u32) -> (r: u64)
    ensures
        r == backoff(attempt as nat),
{
    proof {
        lemma_backoff(attempt as nat);
    }
    match attempt {
        0 => 1,
        1 => 2,
        2 => 4,
        3 => 8,
        4 => 16,
        _ => 32,
    }
}

/// What the user is told before an attempt is made again.
pub open spec fn retry_notice(
    attempt: nat,
    retries: nat,
    secs: nat,
    error: Seq<char>,
) -> Seq<char> {
    "  retry "@ + decimal(attempt + 1) + "/"@ + decimal(retries) + " in "@ + decimal(secs) + "s: "@
        + error
}

/// What the user is told after attempt number `attempt` has failed with `error`.
pub fn retry_message(attempt: u32, retries: u32, secs: u64, error: &str) -> (r: String)
    ensures
        r@ == retry_notice(attempt as nat, retries as nat, secs as nat, error@),
{
    let mut m = "  retry ".to_owned();
    push_decimal(&mut m, attempt as u64 + 1);
    m.append("/");
    push_decimal(&mut m, retries as u64);
    m.append(" in ");
    push_decimal(&mut m, secs);
    m.append("s: ");
    m.append(error);
    m
}

/// The state after as many failures.
pub open spec fn after_failures(retries: u32, failures: nat) -> Retry
    decreases failures,
{
    if failures == 0 {
        Retry { attempt: 0, retries }
    } else {
        after_failures(retries, (failures - 1) as nat).next()
    }
}

/// A request that always fails is tried once and then again as often as was asked for: each of
/// the first `retries` failures is followed by a wait, and the next one is final.
pub proof fn law_retries_are_counted(retries: u32, failures: nat)
    requires
        failures <= retries,
    ensures
        after_failures(retries, failures) == (Retry { attempt: failures as u32, retries }),
        failures < retries ==> after_failures(retries, failures).action() == RetryAction::Wait(
            backoff(failures) as u64,
        ),
        failures == retries ==> after_failures(retries, failures).action() == RetryAction::GiveUp,
    decreases failures,
{
    if failures > 0 {
        law_retries_are_counted(retries, (failures - 1) as nat);
    }
}

/// The waits never get shorter, and none is longer than 32 seconds.
pub proof fn law_backoff_grows_to_a_limit(attempt: nat)
    ensures
        1 <= backoff(attempt) <= backoff(attempt + 1) <= 32,
        attempt < 5 ==> backoff(attempt + 1) == 2 * backoff(attempt),
{
    lemma_backoff(attempt);
    lemma_backoff(attempt + 1);
}

/// What becomes of a request.
#[verifier::ext_equal]
pub struct RetryRun {
    /// How many attempts are made. What the last of them gives is the result.
    pub attempts: nat,
    /// The seconds of each wait.
    pub waits: Seq<nat>,
    /// What is said before each wait.
    pub texts: Seq<Seq<char>>,
}

/// What becomes of a request from `state` on, where attempt number `i` fails with the error
/// `errors[i]`, or works where that is nothing.
pub open spec fn run_from(
    progress: Progress,
    state: Retry,
    errors: Seq<Option<Seq<char>>>,
) -> RetryRun
    decreases state.retries - state.attempt,
{
    match (errors[state.attempt as int], state.action()) {
        (Some(error), RetryAction::Wait(secs)) => {
            let rest = run_from(progress, state.next(), errors);
            RetryRun {
                attempts: rest.attempts,
                waits: seq![secs as nat] + rest.waits,
                texts: seq![state.failure_text(progress, error)] + rest.texts,
            }
        },
        _ => RetryRun {
            attempts: state.attempt as nat + 1,
            waits: Seq::empty(),
            texts: Seq::empty(),
        },
    }
}

/// What becomes of a request that is tried again up to `retries` times.
pub open spec fn retry_run(
    progress: Progress,
    retries: u32,
    errors: Seq<Option<Seq<char>>>,
) -> RetryRun {
    run_from(progress, Retry { attempt: 0, retries }, errors)
}

proof fn lemma_run_from(progress: Progress, state: Retry, errors: Seq<Option<Seq<char>>>)
    requires
        state.valid(),
    ensures
        ({
            let run = run_from(progress, state, errors);
            let n = state.attempt as nat;
            &&& n < run.attempts <= state.retries + 1
            &&& run.waits.len() == run.attempts - 1 - n
            &&& run.texts.len() == run.waits.len()
            &&& forall|i: int| n <= i < run.attempts - 1 ==> (#[trigger] errors[i]) is Some
            &&& errors[run.attempts - 1] is None || run.attempts == state.retries + 1
            &&& forall|i: int|
                0 <= i < run.waits.len() ==> #[trigger] run.waits[i] == backoff((n + i) as nat)
            &&& forall|i: int|
                0 <= i < run.texts.len() ==> #[trigger] run.texts[i] == progress.retrying_text(
                    (n + i) as nat,
                    state.retries as nat,
                    backoff((n + i) as nat),
                    errors[n + i]->0,
                )
        }),
    decreases state.retries - state.attempt,
{
    let n = state.attempt as nat;
    let run = run_from(progress, state, errors);
    lemma_backoff(n);
    if errors[n as int] is Some && state.attempt < state.retries {
        let rest = run_from(progress, state.next(), errors);
        lemma_run_from(progress, state.next(), errors);
        assert forall|i: int| 0 <= i < run.waits.len() implies #[trigger] run.waits[i] == backoff(
            (n + i) as nat,
        ) by {
            if i > 0 {
                assert(run.waits[i] == rest.waits[i - 1]);
            }
        }
        assert forall|i: int| 0 <= i < run.texts.len() implies #[trigger] run.texts[i]
            == progress.retrying_text(
            (n + i) as nat,
            state.retries as nat,
            backoff((n + i) as nat),
            errors[n + i]->0,
        ) by {
            if i > 0 {
                assert(run.texts[i] == rest.texts[i - 1]);
            }
        }
    }
}

/// A request is made until it works or has been tried again as often as was asked for. Between two
/// attempts there is one wait, and before each wait one line is said, which counts the attempts
/// from one.
pub proof fn law_request_is_tried_until_it_works(
    progress: Progress,
    retries: u32,
    errors: Seq<Option<Seq<char>>>,
)
    requires
        errors.len() == retries + 1,
    ensures
        ({
            let run = retry_run(progress, retries, errors);
            &&& 1 <= run.attempts <= retries + 1
            &&& forall|i: int| 0 <= i < run.attempts - 1 ==> (#[trigger] errors[i]) is Some
            &&& errors[run.attempts - 1] is None || run.attempts == retries + 1
            &&& run.waits.len() == run.attempts - 1
            &&& forall|i: int|
                0 <= i < run.waits.len() ==> #[trigger] run.waits[i] == backoff(i as nat)
            &&& run.texts.len() == run.waits.len()
            &&& forall|i: int|
                0 <= i < run.texts.len() ==> #[trigger] run.texts[i] == progress.said(
                    retry_notice(i as nat, retries as nat, run.waits[i], errors[i]->0) + "\n"@,
                )
        }),
{
    lemma_run_from(progress, Retry { attempt: 0, retries }, errors);
}

/// A user who wants to hear nothing gets the same result, after as many attempts and the same
/// waits, and the program says nothing on the way.
pub proof fn law_quiet_retries_are_the_same(
    quiet: Progress,
    other: Progress,
    retries: u32,
    errors: Seq<Option<Seq<char>>>,
)
    requires
        quiet.quiet,
        errors.len() == retries + 1,
    ensures
        ({
            let a = retry_run(quiet, retries, errors);
            let b = retry_run(other, retries, errors);
            &&& a.attempts == b.attempts
            &&& a.waits == b.waits
            &&& forall|i: int| 0 <= i < a.texts.len() ==> (#[trigger] a.texts[i]).len() == 0
        }),
{
    lemma_same_attempts(quiet, other, Retry { attempt: 0, retries }, errors);
    law_request_is_tried_until_it_works(quiet, retries, errors);
}

proof fn lemma_same_attempts(
    p: Progress,
    q: Progress,
    state: Retry,
    errors: Seq<Option<Seq<char>>>,
)
    ensures
        run_from(p, state, errors).attempts == run_from(q, state, errors).attempts,
        run_from(p, state, errors).waits == run_from(q, state, errors).waits,
    decreases state.retries - state.attempt,
{
    if errors[state.attempt as int] is Some && state.attempt < state.retries {
        lemma_same_attempts(p, q, state.next(), errors);
    }
}

/// The first wait is one second, each of the next five is twice as long as the one before, and all
/// the others are as long as the sixth.
pub proof fn law_backoff_doubles_five_times(attempt: nat)
    ensures
        backoff(0) == 1,
        attempt < 5 ==> backoff(attempt + 1) == 2 * backoff(attempt),
        attempt >= 5 ==> backoff(attempt) == 32,
{
    lemma_backoff(0);
    lemma_backoff(attempt);
    lemma_backoff(attempt + 1);
}

/// The user is told the number of the retry, counted from one, how many there are, how long the
/// wait is, and the whole error.
pub proof fn law_retry_is_told_whole(attempt: nat, retries: nat, secs: nat, error: Seq<char>)
    ensures
        exists|number: Seq<char>, of: Seq<char>, wait: Seq<char>|
            #![trigger number_of(number), number_of(of), number_of(wait)]
            {
                &&& number_of(number) == attempt + 1
                &&& number_of(of) == retries
                &&& number_of(wait) == secs
                &&& retry_notice(attempt, retries, secs, error) == "  retry "@ + number + "/"@ + of
                    + " in "@ + wait + "s: "@ + error
            },
{
    law_decimal_stands_for_its_number(attempt + 1);
    law_decimal_stands_for_its_number(retries);
    law_decimal_stands_for_its_number(secs);
    let number = decimal(attempt + 1);
    let of = decimal(retries);
    let wait = decimal(secs);
    assert(number_of(number) == attempt + 1 && number_of(of) == retries && number_of(wait)
        == secs);
}

} // verus!
