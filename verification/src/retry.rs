//! When a request is sent to the upstream again, and when the proxy gives up.

use crate::proxy;
use crate::proxy::{error_response, Reply, ReplyView};
use crate::text::concat;
use vstd::prelude::*;

verus! {

/// How often a request is sent at most, and how long the proxy waits for it in
/// all. A wait of 0 is without limit.
#[derive(Debug, Clone, Copy)]
pub struct RetryLimits {
    pub max_retries: u32,
    pub max_total_wait_ms: u64,
}

/// How often the request was sent again, and how long the proxy has waited.
#[derive(Debug, Clone, Copy)]
pub struct RetryState {
    pub attempt: u32,
    pub total_wait_ms: u64,
}

/// What happened to a request.
#[derive(Debug)]
pub enum RetryEvent {
    /// It is to be sent, for the first time or after a wait.
    Ready,
    /// The upstream answered. The delay is for an answer that calls for a retry.
    Answered { retryable: bool, delay_ms: u64 },
    /// The upstream could not be reached.
    Unreachable { backoff_ms: u64, message: String },
    /// The client is gone.
    Disconnected,
}

/// What is done next.
#[derive(Debug)]
pub enum RetryAction {
    /// Send the request.
    Send,
    /// Pass the upstream's answer on.
    PassOn,
    /// Wait so many milliseconds.
    Wait(u64),
    /// Give up, and answer this.
    GiveUp(Reply),
}

pub enum RetryEventView {
    Ready,
    Answered { retryable: bool, delay_ms: u64 },
    Unreachable { backoff_ms: u64, message: Seq<char> },
    Disconnected,
}

pub enum RetryActionView {
    Send,
    PassOn,
    Wait(u64),
    GiveUp(ReplyView),
}

impl View for RetryEvent {
    type V = RetryEventView;

    open spec fn view(&self) -> RetryEventView {
        match *self {
            RetryEvent::Ready => RetryEventView::Ready,
            RetryEvent::Answered { retryable, delay_ms } => RetryEventView::Answered {
                retryable,
                delay_ms,
            },
            RetryEvent::Unreachable { backoff_ms, message } => RetryEventView::Unreachable {
                backoff_ms,
                message: message@,
            },
            RetryEvent::Disconnected => RetryEventView::Disconnected,
        }
    }
}

impl View for RetryAction {
    type V = RetryActionView;

    open spec fn view(&self) -> RetryActionView {
        match *self {
            RetryAction::Send => RetryActionView::Send,
            RetryAction::PassOn => RetryActionView::PassOn,
            RetryAction::Wait(ms) => RetryActionView::Wait(ms),
            RetryAction::GiveUp(reply) => RetryActionView::GiveUp(reply@),
        }
    }
}

pub open spec fn upstream_failed(message: Seq<char>) -> RetryActionView {
    RetryActionView::GiveUp(proxy::error_reply(502, message, "upstream_failed"@))
}

impl RetryState {
    /// The state before the request was sent.
    pub open spec fn initial() -> RetryState {
        RetryState { attempt: 0, total_wait_ms: 0 }
    }

    /// Whether a wait takes longer than the proxy may wait in all.
    pub open spec fn exceeds(self, limits: RetryLimits, delay_ms: u64) -> bool {
        limits.max_total_wait_ms > 0 && self.total_wait_ms + delay_ms > limits.max_total_wait_ms
    }

    /// The state after a wait, and the wait; or the end, where it takes too long.
    pub open spec fn wait(self, limits: RetryLimits, delay_ms: u64) -> (
        RetryState,
        RetryActionView,
    ) {
        if self.exceeds(limits, delay_ms) {
            (self, upstream_failed("upstream request failed (budget exceeded)"@))
        } else {
            (
                RetryState {
                    attempt: (self.attempt + 1) as u32,
                    total_wait_ms: self.total_wait_ms.saturating_add(delay_ms),
                },
                RetryActionView::Wait(delay_ms),
            )
        }
    }

    /// The state after an event, and what is done next.
    pub open spec fn after(self, limits: RetryLimits, event: RetryEventView) -> (
        RetryState,
        RetryActionView,
    ) {
        match event {
            RetryEventView::Ready => if self.attempt >= limits.max_retries {
                (self, upstream_failed("upstream request failed (max retries exceeded)"@))
            } else if limits.max_total_wait_ms > 0 && self.total_wait_ms
                >= limits.max_total_wait_ms {
                (self, upstream_failed("upstream request failed (total wait exceeded)"@))
            } else {
                (self, RetryActionView::Send)
            },
            RetryEventView::Answered { retryable, delay_ms } => if retryable && self.attempt
                < limits.max_retries {
                self.wait(limits, delay_ms)
            } else {
                (self, RetryActionView::PassOn)
            },
            RetryEventView::Unreachable { backoff_ms, message } => if self.attempt
                >= limits.max_retries {
                (self, upstream_failed("upstream request failed: "@ + message))
            } else {
                self.wait(limits, backoff_ms)
            },
            RetryEventView::Disconnected => (
                self,
                RetryActionView::GiveUp(
                    proxy::error_reply(499, "client disconnected"@, "client_disconnected"@),
                ),
            ),
        }
    }

    pub fn new() -> (r: RetryState)
        ensures
            r == RetryState::initial(),
    {
        RetryState { attempt: 0, total_wait_ms: 0 }
    }

    fn fail(message: &str) -> (r: RetryAction)
        ensures
            r@ == upstream_failed(message@),
    {
        RetryAction::GiveUp(error_response(502, message, "upstream_failed"))
    }

    fn start_wait(&mut self, limits: &RetryLimits, delay_ms: u64) -> (r: RetryAction)
        requires
            old(self).attempt < limits.max_retries,
        ensures
            (*final(self), r@) == old(self).wait(*limits, delay_ms),
    {
        let too_long = self.total_wait_ms > limits.max_total_wait_ms || delay_ms
            > limits.max_total_wait_ms - self.total_wait_ms;
        if limits.max_total_wait_ms > 0 && too_long {
            return RetryState::fail("upstream request failed (budget exceeded)");
        }
        self.attempt = self.attempt + 1;
        self.total_wait_ms = self.total_wait_ms.saturating_add(delay_ms);
        RetryAction::Wait(delay_ms)
    }

    /// Takes note of an event and says what is done next.
    pub fn next(&mut self, limits: &RetryLimits, event: RetryEvent) -> (r: RetryAction)
        ensures
            (*final(self), r@) == old(self).after(*limits, event@),
    {
        match event {
            RetryEvent::Ready => if self.attempt >= limits.max_retries {
                RetryState::fail("upstream request failed (max retries exceeded)")
            } else if limits.max_total_wait_ms > 0 && self.total_wait_ms
                >= limits.max_total_wait_ms {
                RetryState::fail("upstream request failed (total wait exceeded)")
            } else {
                RetryAction::Send
            },
            RetryEvent::Answered { retryable, delay_ms } => if retryable && self.attempt
                < limits.max_retries {
                self.start_wait(limits, delay_ms)
            } else {
                RetryAction::PassOn
            },
            RetryEvent::Unreachable { backoff_ms, message } => if self.attempt
                >= limits.max_retries {
                RetryState::fail(
                    concat("upstream request failed: ", message.as_str()).as_str(),
                )
            } else {
                self.start_wait(limits, backoff_ms)
            },
            RetryEvent::Disconnected => RetryAction::GiveUp(
                error_response(499, "client disconnected", "client_disconnected"),
            ),
        }
    }
}

/// The number of retries never passes the limit.
pub proof fn lemma_attempts_bounded(
    state: RetryState,
    limits: RetryLimits,
    event: RetryEventView,
)
    requires
        state.attempt <= limits.max_retries,
    ensures
        state.after(limits, event).0.attempt <= limits.max_retries,
        state.after(limits, event).0.attempt == state.attempt + (if state.after(
            limits,
            event,
        ).1 is Wait {
            1int
        } else {
            0int
        }),
{
}

/// Where the wait is limited, the proxy never waits longer in all: each wait
/// counts in full, and nothing is sent once the limit is reached.
pub proof fn lemma_wait_bounded(state: RetryState, limits: RetryLimits, event: RetryEventView)
    requires
        limits.max_total_wait_ms > 0,
        state.total_wait_ms <= limits.max_total_wait_ms,
    ensures
        state.after(limits, event).0.total_wait_ms <= limits.max_total_wait_ms,
        state.after(limits, event).1 matches RetryActionView::Wait(delay_ms) ==> state.after(
            limits,
            event,
        ).0.total_wait_ms == state.total_wait_ms + delay_ms,
        state.after(limits, event).1 is Send ==> state.total_wait_ms < limits.max_total_wait_ms,
{
}

/// A client that is gone is never waited for: the proxy gives up at once.
pub proof fn lemma_disconnect_ends(state: RetryState, limits: RetryLimits)
    ensures
        state.after(limits, RetryEventView::Disconnected).1 is GiveUp,
{
}

/// An answer that calls for no retry is passed on, whatever happened before.
pub proof fn lemma_answer_passed_on(state: RetryState, limits: RetryLimits, delay_ms: u64)
    ensures
        state.after(limits, RetryEventView::Answered { retryable: false, delay_ms }) == (
            state,
            RetryActionView::PassOn,
        ),
{
}

/// Without a limit on the wait, a request is sent again until it has been sent
/// as often as it may be: each answer that calls for a retry, and each failure to
/// reach the upstream, leads to a wait, and each wait to another attempt.
pub proof fn lemma_unlimited_wait_retries(
    state: RetryState,
    limits: RetryLimits,
    delay_ms: u64,
    message: Seq<char>,
)
    requires
        limits.max_total_wait_ms == 0,
        state.attempt < limits.max_retries,
    ensures
        state.after(limits, RetryEventView::Ready).1 is Send,
        state.after(limits, RetryEventView::Answered { retryable: true, delay_ms }).1
            == RetryActionView::Wait(delay_ms),
        state.after(limits, RetryEventView::Unreachable { backoff_ms: delay_ms, message }).1
            == RetryActionView::Wait(delay_ms),
{
}

/// A request that may still be sent is sent: it was sent again fewer times than it
/// may be, and the wait is without limit or not used up. Nothing else is sent.
pub proof fn lemma_sent_within_limits(state: RetryState, limits: RetryLimits)
    ensures
        state.after(limits, RetryEventView::Ready).0 == state,
        state.after(limits, RetryEventView::Ready).1 is Send <==> state.attempt
            < limits.max_retries && (limits.max_total_wait_ms == 0 || state.total_wait_ms
            < limits.max_total_wait_ms),
        state.after(limits, RetryEventView::Ready).1 is Send || state.after(
            limits,
            RetryEventView::Ready,
        ).1 is GiveUp,
{
}

/// Whether the proxy waits so long and counts it.
pub open spec fn waits(
    before: RetryState,
    after: (RetryState, RetryActionView),
    delay_ms: u64,
) -> bool {
    &&& after.1 == RetryActionView::Wait(delay_ms)
    &&& after.0.attempt == before.attempt + 1
    &&& after.0.total_wait_ms == if before.total_wait_ms + delay_ms <= u64::MAX {
        before.total_wait_ms + delay_ms
    } else {
        u64::MAX as int
    }
}

/// Where there are retries left and the wait fits in what the proxy may wait in
/// all, an answer that calls for a retry and a failure to reach the upstream lead
/// to that wait, which counts.
pub proof fn lemma_waits_within_limits(
    state: RetryState,
    limits: RetryLimits,
    delay_ms: u64,
    message: Seq<char>,
)
    requires
        state.attempt < limits.max_retries,
        limits.max_total_wait_ms == 0 || state.total_wait_ms + delay_ms
            <= limits.max_total_wait_ms,
    ensures
        waits(
            state,
            state.after(limits, RetryEventView::Answered { retryable: true, delay_ms }),
            delay_ms,
        ),
        waits(
            state,
            state.after(limits, RetryEventView::Unreachable { backoff_ms: delay_ms, message }),
            delay_ms,
        ),
{
}

/// A request that may be sent again, and whose wait does not use up what the proxy
/// may wait in all, is sent after the wait.
pub proof fn lemma_sent_after_wait(state: RetryState, limits: RetryLimits, delay_ms: u64)
    requires
        state.attempt + 1 < limits.max_retries,
        limits.max_total_wait_ms == 0 || state.total_wait_ms + delay_ms < limits.max_total_wait_ms,
    ensures
        state.after(limits, RetryEventView::Answered { retryable: true, delay_ms }).0.after(
            limits,
            RetryEventView::Ready,
        ).1 is Send,
{
}

/// Whether the proxy gives up and answers an error.
pub open spec fn gives_up(
    after: (RetryState, RetryActionView),
    status: u16,
    message: Seq<char>,
    kind: Seq<char>,
) -> bool {
    after.1 matches RetryActionView::GiveUp(reply) && proxy::tells_error(
        reply,
        status,
        message,
        kind,
    )
}

/// Where the retries are used up, the last answer is passed on, and a failure to
/// reach the upstream is told to the client, as is the end of the wait; a client
/// that is gone gets a status of its own.
pub proof fn lemma_gives_up(
    state: RetryState,
    limits: RetryLimits,
    delay_ms: u64,
    message: Seq<char>,
)
    ensures
        state.attempt >= limits.max_retries ==> {
            &&& state.after(limits, RetryEventView::Answered { retryable: true, delay_ms }).1
                is PassOn
            &&& gives_up(
                state.after(limits, RetryEventView::Unreachable { backoff_ms: delay_ms, message }),
                502,
                "upstream request failed: "@ + message,
                "upstream_failed"@,
            )
            &&& gives_up(
                state.after(limits, RetryEventView::Ready),
                502,
                "upstream request failed (max retries exceeded)"@,
                "upstream_failed"@,
            )
        },
        state.attempt < limits.max_retries && 0 < limits.max_total_wait_ms < state.total_wait_ms
            + delay_ms ==> {
            &&& gives_up(
                state.after(limits, RetryEventView::Answered { retryable: true, delay_ms }),
                502,
                "upstream request failed (budget exceeded)"@,
                "upstream_failed"@,
            )
            &&& gives_up(
                state.after(limits, RetryEventView::Unreachable { backoff_ms: delay_ms, message }),
                502,
                "upstream request failed (budget exceeded)"@,
                "upstream_failed"@,
            )
        },
        state.attempt < limits.max_retries && 0 < limits.max_total_wait_ms <= state.total_wait_ms
            ==> gives_up(
            state.after(limits, RetryEventView::Ready),
            502,
            "upstream request failed (total wait exceeded)"@,
            "upstream_failed"@,
        ),
        gives_up(
            state.after(limits, RetryEventView::Disconnected),
            499,
            "client disconnected"@,
            "client_disconnected"@,
        ),
{
    proxy::lemma_error_reply(502, "upstream request failed: "@ + message, "upstream_failed"@);
    proxy::lemma_error_reply(
        502,
        "upstream request failed (max retries exceeded)"@,
        "upstream_failed"@,
    );
    proxy::lemma_error_reply(502, "upstream request failed (budget exceeded)"@, "upstream_failed"@);
    proxy::lemma_error_reply(
        502,
        "upstream request failed (total wait exceeded)"@,
        "upstream_failed"@,
    );
    proxy::lemma_error_reply(499, "client disconnected"@, "client_disconnected"@);
}

/// What events and actions are: each stands for its own.
pub proof fn lemma_retry_views(retryable: bool, ms: u64, message: String, reply: Reply)
    ensures
        RetryEvent::Ready@ == RetryEventView::Ready,
        (RetryEvent::Answered { retryable, delay_ms: ms })@ == (RetryEventView::Answered {
            retryable,
            delay_ms: ms,
        }),
        (RetryEvent::Unreachable { backoff_ms: ms, message })@ == (RetryEventView::Unreachable {
            backoff_ms: ms,
            message: message@,
        }),
        RetryEvent::Disconnected@ == RetryEventView::Disconnected,
        RetryAction::Send@ == RetryActionView::Send,
        RetryAction::PassOn@ == RetryActionView::PassOn,
        RetryAction::Wait(ms)@ == RetryActionView::Wait(ms),
        RetryAction::GiveUp(reply)@ == RetryActionView::GiveUp(reply@),
{
}

/// Before the first attempt nothing was sent again and nothing was waited for.
pub proof fn lemma_initial()
    ensures
        RetryState::initial().attempt == 0,
        RetryState::initial().total_wait_ms == 0,
{
}

} // verus!
