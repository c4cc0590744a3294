//! Which failures are worth another attempt, and when it is made.

use vstd::arithmetic::power2;
use vstd::prelude::*;

use crate::error::OssError;
use crate::error::OssErrorView;
use crate::text;

verus! {

/// The delay, in milliseconds, that is doubled with each attempt.
pub const BASE_DELAY_MS: u64 = 100;

/// The longest delay between two attempts, in milliseconds.
pub const MAX_DELAY_MS: u64 = 10000;

/// The last attempt whose doubled delay fits in 64 bits.
pub const LAST_BACKOFF_ATTEMPT: u32 = 56;

/// Whether an error code of the service stands for a passing condition.
pub open spec fn passing_code(code: Seq<char>) -> bool {
    ||| code == "InternalError"@
    ||| code == "ServiceUnavailable"@
    ||| code == "RequestTimeTooSkewed"@
    ||| code == "Throttling"@
}

/// Whether a message in lower case tells of a passing condition.
pub open spec fn passing_message(lower: Seq<char>) -> bool {
    ||| text::contains_text(lower, "timeout"@)
    ||| text::contains_text(lower, "broken pipe"@)
    ||| text::contains_text(lower, "throttl"@)
}

/// Whether an HTTP status tells of a passing condition.
pub open spec fn passing_status(status: u16) -> bool {
    status >= 500 || status == 429 || status == 408
}

/// Whether a request that failed with `error` may be made again.
pub open spec fn retryable(error: OssErrorView) -> bool {
    match error {
        OssErrorView::ReqwestError(_) => true,
        OssErrorView::IoError(_) => true,
        OssErrorView::ApiError { code, message } => passing_code(code),
        OssErrorView::StatusError { status, message } => passing_status(status),
        OssErrorView::Other(message) => passing_message(text::lowercase(message)),
        OssErrorView::Malformed(_) => false,
    }
}

/// Whether `error` says that the object, or its bucket, does not exist.
pub open spec fn says_not_found(error: OssErrorView) -> bool {
    match error {
        OssErrorView::ApiError { code, message } => {
            code == "NoSuchKey"@ || code == "NoSuchBucket"@
        },
        OssErrorView::StatusError { status, message } => status == 404,
        _ => false,
    }
}

/// Whether a message in lower case tells of a passing condition.
pub fn is_passing_message(lower: &str) -> (yes: bool)
    ensures
        yes == passing_message(lower@),
{
    text::contains(lower, "timeout") || text::contains(lower, "broken pipe") || text::contains(
        lower,
        "throttl",
    )
}

/// Whether a request that failed with `error` may be made again.
pub fn is_retryable_error(error: &OssError) -> (yes: bool)
    ensures
        yes == retryable(error@),
        error@ matches OssErrorView::Other(message) ==> (vstd::utf8::is_ascii_chars(message)
            ==> yes == passing_message(text::ascii_lowercase(message))),
{
    match error {
        OssError::ReqwestError(_) => true,
        OssError::IoError(_) => true,
        OssError::ApiError { code, message: _ } => {
            let code = code.as_str();
            text::same_text(code, "InternalError") || text::same_text(code, "ServiceUnavailable")
                || text::same_text(code, "RequestTimeTooSkewed") || text::same_text(
                code,
                "Throttling",
            )
        },
        OssError::StatusError { status, message: _ } => {
            *status >= 500 || *status == 429 || *status == 408
        },
        OssError::Other(message) => {
            let lower = text::lowercase_text(message.as_str());
            is_passing_message(lower.as_str())
        },
        OssError::Malformed(_) => false,
    }
}

/// Whether `error` says that the object, or its bucket, does not exist.
pub fn is_not_found_error(error: &OssError) -> (yes: bool)
    ensures
        yes == says_not_found(error@),
{
    match error {
        OssError::ApiError { code, message: _ } => {
            text::same_text(code.as_str(), "NoSuchKey") || text::same_text(
                code.as_str(),
                "NoSuchBucket",
            )
        },
        OssError::StatusError { status, message: _ } => *status == 404,
        _ => false,
    }
}

/// The delay after attempt number `attempt`, counted from 0: the base delay
/// doubled once more than there were attempts before, but never more than the
/// longest delay.
pub open spec fn delay_after(attempt: nat) -> int {
    let doubled = BASE_DELAY_MS * power2::pow2(attempt + 1);
    if doubled > MAX_DELAY_MS {
        MAX_DELAY_MS as int
    } else {
        doubled
    }
}

/// The delay, in milliseconds, after attempt number `attempt`.
pub fn calculate_retry_delay(attempt: u32) -> (delay_ms: u64)
    requires
        attempt <= LAST_BACKOFF_ATTEMPT,
    ensures
        delay_ms == delay_after(attempt as nat),
{
    let mut power: u64 = 1;
    let mut i: u32 = 0;
    proof {
        power2::lemma2_to64();
        power2::lemma2_to64_rest();
    }
    while i < attempt + 1
        invariant
            attempt <= 56,
            i <= attempt + 1,
            power == power2::pow2(i as nat),
            power <= power2::pow2(57),
            power2::pow2(57) == 0x200000000000000,
        decreases attempt + 1 - i,
    {
        proof {
            power2::lemma_pow2_unfold((i + 1) as nat);
            if i + 1 < 57 {
                power2::lemma_pow2_strictly_increases((i + 1) as nat, 57);
            }
        }
        power = 2 * power;
        i = i + 1;
    }
    let mut delay: u64 = BASE_DELAY_MS * power;
    if delay > MAX_DELAY_MS {
        delay = MAX_DELAY_MS;
    }
    delay
}

/// How one attempt of an operation ended: `None` where it succeeded.
pub open spec fn failure_of<T>(outcome: Result<T, OssError>) -> Option<OssErrorView> {
    match outcome {
        Ok(_) => None,
        Err(error) => Some(error@),
    }
}

/// Whether attempt number `attempt` is the last one, given how it ended.
pub open spec fn ends_retrying(
    failure: Option<OssErrorView>,
    attempt: nat,
    max_retries: nat,
) -> bool {
    match failure {
        None => true,
        Some(error) => !retryable(error) || attempt >= max_retries,
    }
}

/// The number of the last attempt that is made of an operation whose attempt
/// number `n` ends in `failures(n)`, from attempt number `attempt` on.
pub open spec fn last_attempt(
    failures: spec_fn(nat) -> Option<OssErrorView>,
    attempt: nat,
    max_retries: nat,
) -> nat
    decreases max_retries - attempt,
{
    if ends_retrying(failures(attempt), attempt, max_retries) {
        attempt
    } else {
        last_attempt(failures, attempt + 1, max_retries)
    }
}

/// What to do after an attempt.
#[derive(Debug)]
pub enum RetryDecision<T> {
    /// Hand this back to the caller.
    Return(Result<T, OssError>),
    /// Wait, then make another attempt. The error is the one that was seen.
    RetryAfter { delay_ms: u64, error: OssError },
}

/// The attempts of one operation so far.
#[derive(Debug)]
pub struct RetryState {
    attempt: u32,
    max_retries: u32,
}

impl RetryState {
    /// The number of the attempt that is being made, counted from 0.
    pub closed spec fn attempt(self) -> nat {
        self.attempt as nat
    }

    /// How many attempts may follow the first.
    pub closed spec fn max_retries(self) -> nat {
        self.max_retries as nat
    }

    /// No more attempts have been made than are allowed.
    pub closed spec fn wf(self) -> bool {
        self.attempt <= self.max_retries
    }

    /// Before the first attempt of an operation.
    pub fn new(max_retries: u32) -> (state: Self)
        ensures
            state.wf(),
            state.attempt() == 0,
            state.max_retries() == max_retries,
    {
        RetryState { attempt: 0, max_retries }
    }

    /// The number of the attempt that is being made, counted from 0.
    pub fn current_attempt(&self) -> (attempt: u32)
        ensures
            attempt == self.attempt(),
    {
        self.attempt
    }

    /// Whether there is a delay to wait after an attempt that ended in `outcome`, or
    /// none is needed.
    pub open spec fn can_step<T>(self, outcome: Result<T, OssError>) -> bool {
        ||| ends_retrying(failure_of(outcome), self.attempt(), self.max_retries())
        ||| self.attempt() <= LAST_BACKOFF_ATTEMPT
    }

    /// Whether `decision` and the state `after` follow an attempt that ended in
    /// `outcome`: a success, a failure that is not worth another attempt and the
    /// failure of the last attempt are handed back; after any other failure the next
    /// attempt is made, once the delay has passed.
    pub open spec fn steps_to<T>(
        self,
        outcome: Result<T, OssError>,
        after: RetryState,
        decision: RetryDecision<T>,
    ) -> bool {
        &&& after.wf()
        &&& after.max_retries() == self.max_retries()
        &&& if ends_retrying(failure_of(outcome), self.attempt(), self.max_retries()) {
            &&& decision == RetryDecision::<T>::Return(outcome)
            &&& after.attempt() == self.attempt()
        } else {
            &&& outcome matches Err(seen)
            &&& decision matches RetryDecision::RetryAfter { delay_ms, error }
            &&& error == seen
            &&& delay_ms == delay_after(self.attempt())
            &&& after.attempt() == self.attempt() + 1
        }
    }

    /// Decides what follows an attempt that ended in `outcome`.
    pub fn step<T>(&mut self, outcome: Result<T, OssError>) -> (decision: RetryDecision<T>)
        requires
            old(self).wf(),
            old(self).can_step(outcome),
        ensures
            old(self).steps_to(outcome, *final(self), decision),
    {
        match outcome {
            Ok(value) => RetryDecision::Return(Ok(value)),
            Err(error) => {
                if is_retryable_error(&error) && self.attempt < self.max_retries {
                    let delay_ms: u64 = calculate_retry_delay(self.attempt);
                    self.attempt = self.attempt + 1;
                    RetryDecision::RetryAfter { delay_ms, error }
                } else {
                    RetryDecision::Return(Err(error))
                }
            },
        }
    }

    /// Decides what follows an attempt that ended in `outcome`, or gives the outcome
    /// back where the doubled delay does not fit in 64 bits.
    pub fn try_step<T>(&mut self, outcome: Result<T, OssError>) -> (decision: Result<
        RetryDecision<T>,
        Result<T, OssError>,
    >)
        requires
            old(self).wf(),
        ensures
            old(self).can_step(outcome) ==> {
                &&& decision matches Ok(decided)
                &&& old(self).steps_to(outcome, *final(self), decided)
            },
            !old(self).can_step(outcome) ==> {
                &&& decision == Err::<RetryDecision<T>, Result<T, OssError>>(outcome)
                &&& *final(self) == *old(self)
            },
    {
        let retries = match &outcome {
            Ok(_) => false,
            Err(error) => is_retryable_error(error) && self.attempt < self.max_retries,
        };
        if retries && self.attempt > LAST_BACKOFF_ATTEMPT {
            Err(outcome)
        } else {
            Ok(self.step(outcome))
        }
    }
}

/// No operation is attempted more often than its retries and the first attempt
/// allow. What is handed back is a success, a failure that is not worth another
/// attempt, or the failure of the last attempt that is allowed; every attempt
/// before it failed in a way that is worth another one.
pub proof fn law_attempts_are_bounded(
    failures: spec_fn(nat) -> Option<OssErrorView>,
    attempt: nat,
    max_retries: nat,
)
    requires
        attempt <= max_retries,
    ensures
        ({
            let last = last_attempt(failures, attempt, max_retries);
            &&& attempt <= last <= max_retries
            &&& ends_retrying(failures(last), last, max_retries)
            &&& forall|n: nat|
                attempt <= n < last ==> (#[trigger] failures(n) matches Some(error) && retryable(
                    error,
                ))
        }),
    decreases max_retries - attempt,
{
    if ends_retrying(failures(attempt), attempt, max_retries) {
    } else {
        law_attempts_are_bounded(failures, attempt + 1, max_retries);
    }
}

/// Whether `states`, `outcomes` and `decisions` are those of one operation from its
/// first attempt to the decision to hand a result back.
pub open spec fn is_run<T>(
    states: Seq<RetryState>,
    outcomes: Seq<Result<T, OssError>>,
    decisions: Seq<RetryDecision<T>>,
    max_retries: nat,
) -> bool {
    &&& outcomes.len() > 0
    &&& decisions.len() == outcomes.len()
    &&& states.len() == outcomes.len() + 1
    &&& states[0].attempt() == 0
    &&& states[0].max_retries() == max_retries
    &&& forall|i: int|
        0 <= i < outcomes.len() ==> #[trigger] states[i].steps_to(
            outcomes[i],
            states[i + 1],
            decisions[i],
        )
    &&& forall|i: int| 0 <= i < outcomes.len() ==> ((#[trigger] decisions[i]) is Return <==> i
        == outcomes.len() - 1)
}

/// What is handed back at the end of an operation is how its last attempt ended,
/// which is attempt number [`last_attempt`]; after each attempt before it the delay
/// for that attempt was waited.
pub proof fn law_run_ends_with_the_last_attempt<T>(
    states: Seq<RetryState>,
    outcomes: Seq<Result<T, OssError>>,
    decisions: Seq<RetryDecision<T>>,
    max_retries: nat,
)
    requires
        is_run(states, outcomes, decisions, max_retries),
    ensures
        ({
            let last = last_attempt(
                |n: nat| failure_of(outcomes[n as int]),
                0,
                max_retries,
            );
            &&& outcomes.len() == last + 1
            &&& outcomes.len() <= max_retries + 1
            &&& decisions.last() == RetryDecision::<T>::Return(outcomes.last())
            &&& forall|i: int|
                0 <= i < last ==> ((#[trigger] decisions[i]) matches RetryDecision::RetryAfter {
                    delay_ms,
                    error,
                } && delay_ms == delay_after(i as nat))
        }),
{
    let failures = |n: nat| failure_of(outcomes[n as int]);
    let end = outcomes.len() - 1;
    lemma_run_attempts(states, outcomes, decisions, max_retries, end);
    assert forall|i: int| 0 <= i < end implies ((#[trigger] decisions[i])
        matches RetryDecision::RetryAfter { delay_ms, error } && delay_ms == delay_after(
        i as nat,
    )) by {
        lemma_run_attempts(states, outcomes, decisions, max_retries, i);
        assert(states[i].steps_to(outcomes[i], states[i + 1], decisions[i]));
    }
    assert(states[end].steps_to(outcomes[end], states[end + 1], decisions[end]));
    lemma_run_last(states, outcomes, decisions, max_retries, 0);
    law_attempts_are_bounded(failures, 0, max_retries);
}

/// The attempts of an operation are counted from 0.
proof fn lemma_run_attempts<T>(
    states: Seq<RetryState>,
    outcomes: Seq<Result<T, OssError>>,
    decisions: Seq<RetryDecision<T>>,
    max_retries: nat,
    i: int,
)
    requires
        is_run(states, outcomes, decisions, max_retries),
        0 <= i < outcomes.len(),
    ensures
        states[i].attempt() == i,
        states[i].max_retries() == max_retries,
    decreases i,
{
    if i > 0 {
        let before = i - 1;
        lemma_run_attempts(states, outcomes, decisions, max_retries, before);
        assert(states[before].steps_to(
            outcomes[before],
            states[before + 1],
            decisions[before],
        ));
        assert(decisions[before] !is Return);
    }
}

/// From any of its attempts on, the last attempt of an operation is the one that
/// something is handed back after.
proof fn lemma_run_last<T>(
    states: Seq<RetryState>,
    outcomes: Seq<Result<T, OssError>>,
    decisions: Seq<RetryDecision<T>>,
    max_retries: nat,
    i: int,
)
    requires
        is_run(states, outcomes, decisions, max_retries),
        0 <= i < outcomes.len(),
    ensures
        last_attempt(|n: nat| failure_of(outcomes[n as int]), i as nat, max_retries)
            == outcomes.len() - 1,
    decreases outcomes.len() - i,
{
    lemma_run_attempts(states, outcomes, decisions, max_retries, i);
    assert(states[i].steps_to(outcomes[i], states[i + 1], decisions[i]));
    if i < outcomes.len() - 1 {
        assert(decisions[i] !is Return);
        lemma_run_last(states, outcomes, decisions, max_retries, i + 1);
    } else {
        assert(decisions[i] is Return);
    }
}

/// An operation that is never worth another attempt, or that has no retries, is
/// attempted once.
pub proof fn law_no_retry_without_cause(
    failures: spec_fn(nat) -> Option<OssErrorView>,
    max_retries: nat,
)
    requires
        max_retries == 0 || !(failures(0) matches Some(error) && retryable(error)),
    ensures
        last_attempt(failures, 0, max_retries) == 0,
{
}

/// The delay starts at twice the base delay, never shrinks from one attempt to
/// the next, and never exceeds the longest delay.
pub proof fn law_delays_grow(attempt: nat)
    ensures
        delay_after(0) == 2 * BASE_DELAY_MS,
        delay_after(0) <= delay_after(attempt) <= MAX_DELAY_MS,
        delay_after(attempt) <= delay_after(attempt + 1),
{
    power2::lemma2_to64();
    power2::lemma_pow2_unfold(attempt + 2);
    if attempt > 0 {
        power2::lemma_pow2_strictly_increases(1, attempt + 1);
    }
}

/// A failure that says that the object is missing is never retried.
pub proof fn law_not_found_is_final(error: OssErrorView)
    requires
        says_not_found(error),
    ensures
        !retryable(error),
{
    reveal_strlit("NoSuchKey");
    reveal_strlit("NoSuchBucket");
    reveal_strlit("InternalError");
    reveal_strlit("ServiceUnavailable");
    reveal_strlit("RequestTimeTooSkewed");
    reveal_strlit("Throttling");
    if let OssErrorView::ApiError { code, message } = error {
        assert(code[0] == 'N');
        assert("InternalError"@[0] == 'I');
        assert("ServiceUnavailable"@[0] == 'S');
        assert("RequestTimeTooSkewed"@[0] == 'R');
        assert("Throttling"@[0] == 'T');
    }
}

/// Whether `text` holds `needle`, which is in lower case, from `at` on, its letters in
/// either case.
pub open spec fn holds_in_any_case(text: Seq<char>, needle: Seq<char>, at: int) -> bool {
    &&& 0 <= at <= text.len() - needle.len()
    &&& forall|i: int|
        0 <= i < needle.len() ==> {
            let c = text[at + i];
            if 'A' <= c <= 'Z' {
                #[trigger] needle[i] as int == c as int + 32
            } else {
                needle[i] == c
            }
        }
}

/// Whether `needle` stands anywhere in `text`, its letters in either case.
pub open spec fn mentions(text: Seq<char>, needle: Seq<char>) -> bool {
    exists|at: int| #[trigger] holds_in_any_case(text, needle, at)
}

proof fn lemma_mentions(text: Seq<char>, needle: Seq<char>)
    ensures
        mentions(text, needle) <==> text::contains_text(text::ascii_lowercase(text), needle),
{
    let lower = text::ascii_lowercase(text);
    assert forall|at: int| #[trigger] holds_in_any_case(text, needle, at)
        <==> #[trigger] text::occurs_at(lower, needle, at) by {
        text::law_occurrences_hold_the_characters(lower, needle, at);
        if holds_in_any_case(text, needle, at) {
            assert forall|i: int| 0 <= i < needle.len() implies #[trigger] needle[i] == lower[at
                + i] by {
                text::law_ascii_cases(text, at + i);
                assert(needle[i] as int == lower[at + i] as int);
            }
            assert(text::holds_at(lower, needle, at));
        }
        if text::holds_at(lower, needle, at) {
            assert forall|i: int| 0 <= i < needle.len() implies {
                let c = text[at + i];
                if 'A' <= c <= 'Z' {
                    #[trigger] needle[i] as int == c as int + 32
                } else {
                    needle[i] == c
                }
            } by {
                text::law_ascii_cases(text, at + i);
                assert(needle[i] == lower[at + i]);
            }
        }
    }
    if mentions(text, needle) {
        let at = choose|at: int| #[trigger] holds_in_any_case(text, needle, at);
        assert(text::occurs_at(lower, needle, at));
    }
    if text::contains_text(lower, needle) {
        let at = choose|at: int| text::occurs_at(lower, needle, at);
        assert(holds_in_any_case(text, needle, at));
    }
}

/// A failed connection and a failed transfer are worth another attempt; so is every bare
/// status from 500 on, 429 and 408, and no other; so are four error codes, and no other; so
/// is any other failure whose ASCII message mentions a timeout, a broken pipe or
/// throttling. An answer that is malformed is not.
pub proof fn law_what_is_worth_another_attempt(error: OssError, yes: bool)
    requires
        call_ensures(is_retryable_error, (&error,), yes),
    ensures
        match error {
            OssError::ReqwestError(_) => yes,
            OssError::IoError(_) => yes,
            OssError::StatusError { status, message } => yes <==> (status >= 500 || status == 429
                || status == 408),
            OssError::ApiError { code, message } => yes <==> (code@ == "InternalError"@ || code@
                == "ServiceUnavailable"@ || code@ == "RequestTimeTooSkewed"@ || code@
                == "Throttling"@),
            OssError::Other(message) => vstd::utf8::is_ascii_chars(message@) ==> (yes <==> (
            mentions(message@, "timeout"@) || mentions(message@, "broken pipe"@) || mentions(
                message@,
                "throttl"@,
            ))),
            OssError::Malformed(_) => !yes,
        },
{
    if let OssError::Other(message) = error {
        lemma_mentions(message@, "timeout"@);
        lemma_mentions(message@, "broken pipe"@);
        lemma_mentions(message@, "throttl"@);
    }
}

/// Any other failure is worth another attempt exactly where its message, in lower case,
/// tells of a passing condition, and a message does so exactly where it holds one of three
/// texts.
pub proof fn law_messages_that_tell_of_passing_conditions(
    message: String,
    yes: bool,
    lower: &str,
    passing: bool,
)
    requires
        call_ensures(is_retryable_error, (&OssError::Other(message),), yes),
        call_ensures(is_passing_message, (lower,), passing),
    ensures
        lower@ == text::lowercase(message@) ==> yes == passing,
        passing <==> {
            ||| exists|at: int| #[trigger] text::holds_at(lower@, "timeout"@, at)
            ||| exists|at: int| #[trigger] text::holds_at(lower@, "broken pipe"@, at)
            ||| exists|at: int| #[trigger] text::holds_at(lower@, "throttl"@, at)
        },
{
    lemma_contains(lower@, "timeout"@);
    lemma_contains(lower@, "broken pipe"@);
    lemma_contains(lower@, "throttl"@);
}

proof fn lemma_contains(haystack: Seq<char>, needle: Seq<char>)
    ensures
        text::contains_text(haystack, needle) <==> exists|at: int| #[trigger]
            text::holds_at(haystack, needle, at),
{
    assert forall|at: int| #[trigger] text::occurs_at(haystack, needle, at) <==> #[trigger]
        text::holds_at(haystack, needle, at) by {
        text::law_occurrences_hold_the_characters(haystack, needle, at);
    }
    if text::contains_text(haystack, needle) {
        let at = choose|at: int| text::occurs_at(haystack, needle, at);
        assert(text::holds_at(haystack, needle, at));
    }
    if exists|at: int| #[trigger] text::holds_at(haystack, needle, at) {
        let at = choose|at: int| #[trigger] text::holds_at(haystack, needle, at);
        assert(text::occurs_at(haystack, needle, at));
    }
}

/// An object or its bucket is missing exactly where the service says so, by one of two
/// codes or by the status 404.
pub proof fn law_what_says_that_an_object_is_missing(error: OssError, yes: bool)
    requires
        call_ensures(is_not_found_error, (&error,), yes),
    ensures
        match error {
            OssError::StatusError { status, message } => yes <==> status == 404,
            OssError::ApiError { code, message } => yes <==> (code@ == "NoSuchKey"@ || code@
                == "NoSuchBucket"@),
            _ => !yes,
        },
        yes == says_not_found(error@),
{
}

/// The delay after the first attempt is 200 ms; after each attempt it is twice the delay
/// after the one before, but no more than 10 s.
pub proof fn law_delays_double(attempt: u32, delay_ms: u64, next_ms: u64)
    requires
        attempt < LAST_BACKOFF_ATTEMPT,
        call_ensures(calculate_retry_delay, (attempt,), delay_ms),
        call_ensures(calculate_retry_delay, ((attempt + 1) as u32,), next_ms),
    ensures
        attempt == 0 ==> delay_ms == 200,
        delay_ms <= 10_000,
        2 * delay_ms <= 10_000 ==> next_ms == 2 * delay_ms,
        2 * delay_ms > 10_000 ==> next_ms == 10_000,
{
    power2::lemma2_to64();
    power2::lemma_pow2_unfold((attempt + 2) as nat);
}

/// After an attempt a success is handed back as it is, and so is a failure that is not
/// worth another attempt, or for which none is left. Any other failure is kept, and the
/// next attempt is made after the delay for the one that failed.
pub proof fn law_step_retries_what_is_worth_it<T>(
    state: &mut RetryState,
    outcome: Result<T, OssError>,
    decision: RetryDecision<T>,
    yes: bool,
    attempt: u32,
    delay: u64,
)
    requires
        call_ensures(RetryState::step::<T>, (state, outcome), decision),
        outcome matches Err(error) ==> call_ensures(is_retryable_error, (&error,), yes),
        call_ensures(RetryState::current_attempt, (&*old(state),), attempt),
        call_ensures(calculate_retry_delay, (attempt,), delay),
    ensures
        final(state).max_retries() == old(state).max_retries(),
        match outcome {
            Ok(value) => decision == RetryDecision::<T>::Return(Ok(value)) && final(state).attempt()
                == attempt,
            Err(error) => if yes && attempt < old(state).max_retries() {
                &&& decision == (RetryDecision::<T>::RetryAfter { delay_ms: delay, error })
                &&& final(state).attempt() == attempt + 1
            } else {
                &&& decision == RetryDecision::<T>::Return(Err(error))
                &&& final(state).attempt() == attempt
            },
        },
{
}

/// A step that is tried is the step, unless another attempt is due after so many that its
/// delay cannot be told: then the outcome is given back and nothing has changed.
pub proof fn law_tried_step_is_the_step<T>(
    state: &mut RetryState,
    outcome: Result<T, OssError>,
    decision: Result<RetryDecision<T>, Result<T, OssError>>,
    yes: bool,
    attempt: u32,
    delay: u64,
)
    requires
        call_ensures(RetryState::try_step::<T>, (state, outcome), decision),
        outcome matches Err(error) ==> call_ensures(is_retryable_error, (&error,), yes),
        call_ensures(RetryState::current_attempt, (&*old(state),), attempt),
        call_ensures(calculate_retry_delay, (attempt,), delay),
    ensures
        final(state).max_retries() == old(state).max_retries(),
        match outcome {
            Ok(value) => decision == Ok::<RetryDecision<T>, Result<T, OssError>>(
                RetryDecision::Return(Ok(value)),
            ) && final(state).attempt() == attempt,
            Err(error) => if yes && attempt < old(state).max_retries() {
                if attempt <= 56 {
                    &&& decision == Ok::<RetryDecision<T>, Result<T, OssError>>(
                        RetryDecision::RetryAfter { delay_ms: delay, error },
                    )
                    &&& final(state).attempt() == attempt + 1
                } else {
                    &&& decision == Err::<RetryDecision<T>, Result<T, OssError>>(outcome)
                    &&& final(state).attempt() == attempt
                }
            } else {
                &&& decision == Ok::<RetryDecision<T>, Result<T, OssError>>(
                    RetryDecision::Return(Err(error)),
                )
                &&& final(state).attempt() == attempt
            },
        },
{
}

/// An operation starts with its first attempt, and may be retried as often as is allowed:
/// so many failures in a row that are worth another attempt are retried, and no more.
/// `first` is the state that it starts in, and `state` the one after `failures` failures.
pub proof fn law_retries_are_as_many_as_allowed<T>(
    max_retries: u32,
    first: RetryState,
    state: &mut RetryState,
    failures: nat,
    error: OssError,
    decision: RetryDecision<T>,
)
    requires
        call_ensures(RetryState::new, (max_retries,), first),
        old(state).max_retries() == first.max_retries(),
        old(state).attempt() == first.attempt() + failures,
        call_ensures(is_retryable_error, (&error,), true),
        call_ensures(RetryState::step::<T>, (state, Err(error)), decision),
    ensures
        first.wf(),
        decision is RetryAfter <==> failures < max_retries,
        decision is Return <==> failures >= max_retries,
{
}

/// An operation that may be retried and whose first attempt fails with a server error, or
/// with the statuses 429 or 408, is attempted again after 200 ms; one that fails with
/// another status is not.
pub proof fn law_first_server_error_is_retried<T>(
    state: &mut RetryState,
    max_retries: u32,
    status: u16,
    message: String,
    decision: RetryDecision<T>,
)
    requires
        call_ensures(RetryState::new, (max_retries,), *old(state)),
        max_retries > 0,
        call_ensures(
            RetryState::step::<T>,
            (state, Err(OssError::StatusError { status, message })),
            decision,
        ),
    ensures
        status >= 500 || status == 429 || status == 408 ==> decision
            == (RetryDecision::<T>::RetryAfter {
            delay_ms: 200,
            error: OssError::StatusError { status, message },
        }),
        status < 500 && status != 429 && status != 408 ==> decision == RetryDecision::<T>::Return(
            Err(OssError::StatusError { status, message }),
        ),
{
    power2::lemma2_to64();
}

} // verus!
