//! Browser-navigation state machine.
//!
//! One navigation attempt walks fixed phases: load the URL, give the page a
//! pacing delay, poll document readiness, then check for the site's anti-bot
//! interstitial; a detected challenge is waited out in bounded one-second
//! ticks for a bounded number of rounds. The machine here only decides: the
//! application crate performs each requested [`NavAction`] against the real
//! browser page and feeds the outcome back as a [`NavEvent`]. Every
//! transition, and the bound on challenge rounds, is verified.

use vstd::prelude::*;

use crate::error::IherbError;
use crate::text::{spec_contains, str_contains};

verus! {

/// Challenge rounds allowed before the attempt fails as blocked.
pub const MAX_CLOUDFLARE_RETRIES: u32 = 3;

/// Seconds (one-second ticks) a detected challenge is given to clear, per round.
pub const CLOUDFLARE_WAIT_SECS: u32 = 12;

/// Readiness polls after the initial load delay, 500 ms apart (ten seconds).
pub const READY_POLLS: u32 = 20;

/// Milliseconds between readiness polls.
pub const READY_POLL_MS: u64 = 500;

/// Milliseconds between challenge-wait ticks.
pub const CHALLENGE_TICK_MS: u64 = 1000;

pub struct Navigator {
    /// Pacing delay after each page load, and between sibling fetches.
    pub delay_ms: u64,
}

/// Title markers of the anti-bot interstitial.
pub open spec fn spec_is_challenge_title(title: Seq<char>) -> bool {
    spec_contains(title, "Just a moment"@) || spec_contains(title, "Attention Required"@)
}

/// Whether a document title marks the anti-bot interstitial.
pub fn is_cloudflare_challenge(title: &str) -> (r: bool)
    ensures
        r == spec_is_challenge_title(title@),
{
    str_contains(title, "Just a moment") || str_contains(title, "Attention Required")
}

/// Where one navigation attempt stands.
#[derive(Debug, Clone, PartialEq, Eq)]
pub enum NavPhase {
    /// The URL has been requested; its outcome is pending.
    Loading,
    /// Waiting for `document.readyState` to report complete.
    Stabilizing { polls_left: u32 },
    /// About to inspect the title for the challenge, in round `round`.
    ChallengeCheck { round: u32 },
    /// A challenge was seen in round `round`; waiting for it to clear.
    ChallengeWait { round: u32, ticks_left: u32 },
    /// Challenge clear; the rendered HTML is being read.
    Fetching,
    /// The attempt succeeded with the rendered HTML.
    Done { html: String },
    /// The attempt failed.
    Failed { err: IherbError },
}

/// What the driver must do next.
#[derive(Debug, Clone, PartialEq, Eq)]
pub enum NavAction {
    /// Request the URL; report `GotoOk` or `GotoFailed`.
    Goto,
    /// Sleep `sleep_ms`, then evaluate readiness; report `ReadyState`.
    SleepThenPollReady { sleep_ms: u64 },
    /// Evaluate the document title; report `TitleIs`.
    CheckTitle,
    /// Best-effort click of the challenge widget (failure is deliberately
    /// ignored), sleep one tick, then report the title as `TitleIs`.
    ClickThenWaitTick,
    /// Sleep one tick, then report the title as `TitleIs`.
    SleepThenWaitTick { sleep_ms: u64 },
    /// Read the rendered HTML; report `Content` or `ContentFailed`.
    FetchContent,
    /// The attempt is over; stop driving it.
    Stop,
}

/// What the driver observed.
#[derive(Debug, Clone, PartialEq, Eq)]
pub enum NavEvent {
    GotoOk,
    GotoFailed { msg: String },
    ReadyState { complete: bool },
    TitleIs { title: String },
    Content { html: String },
    ContentFailed { msg: String },
}

/// Counters stay inside their bounds in every reachable phase.
pub open spec fn nav_inv(phase: NavPhase) -> bool {
    match phase {
        NavPhase::Stabilizing { polls_left } => 1 <= polls_left <= READY_POLLS,
        NavPhase::ChallengeCheck { round } => 1 <= round <= MAX_CLOUDFLARE_RETRIES,
        NavPhase::ChallengeWait { round, ticks_left } => 1 <= round < MAX_CLOUDFLARE_RETRIES && 1
            <= ticks_left <= CLOUDFLARE_WAIT_SECS,
        _ => true,
    }
}

/// The transition relation of one navigation attempt: the next phase and the
/// action the driver must perform, or `None` when the event cannot answer
/// the phase (a driver defect).
pub open spec fn spec_nav_step(delay_ms: u64, phase: NavPhase, event: NavEvent) -> Option<
    (NavPhase, NavAction),
> {
    match (phase, event) {
        (NavPhase::Loading, NavEvent::GotoOk) => Some(
            (
                NavPhase::Stabilizing { polls_left: READY_POLLS },
                NavAction::SleepThenPollReady { sleep_ms: delay_ms },
            ),
        ),
        (NavPhase::Loading, NavEvent::GotoFailed { msg }) => Some(
            (NavPhase::Failed { err: IherbError::Navigation(msg) }, NavAction::Stop),
        ),
        (NavPhase::Stabilizing { polls_left }, NavEvent::ReadyState { complete }) => {
            if complete || polls_left <= 1 {
                Some((NavPhase::ChallengeCheck { round: 1 }, NavAction::CheckTitle))
            } else {
                Some(
                    (
                        NavPhase::Stabilizing { polls_left: (polls_left - 1) as u32 },
                        NavAction::SleepThenPollReady { sleep_ms: READY_POLL_MS },
                    ),
                )
            }
        },
        (NavPhase::ChallengeCheck { round }, NavEvent::TitleIs { title }) => {
            if !spec_is_challenge_title(title@) {
                Some((NavPhase::Fetching, NavAction::FetchContent))
            } else if round >= MAX_CLOUDFLARE_RETRIES {
                Some(
                    (
                        NavPhase::Failed {
                            err: IherbError::CloudflareBlocked(MAX_CLOUDFLARE_RETRIES),
                        },
                        NavAction::Stop,
                    ),
                )
            } else {
                Some(
                    (
                        NavPhase::ChallengeWait { round, ticks_left: CLOUDFLARE_WAIT_SECS },
                        NavAction::ClickThenWaitTick,
                    ),
                )
            }
        },
        (NavPhase::ChallengeWait { round, ticks_left }, NavEvent::TitleIs { title }) => {
            if spec_is_challenge_title(title@) && ticks_left > 1 {
                Some(
                    (
                        NavPhase::ChallengeWait { round, ticks_left: (ticks_left - 1) as u32 },
                        NavAction::SleepThenWaitTick { sleep_ms: CHALLENGE_TICK_MS },
                    ),
                )
            } else {
                // Cleared early, or the ticks for this round are spent:
                // either way the next round re-checks the title.
                Some(
                    (
                        NavPhase::ChallengeCheck {
                            round: if round < u32::MAX {
                                (round + 1) as u32
                            } else {
                                round
                            },
                        },
                        NavAction::CheckTitle,
                    ),
                )
            }
        },
        (NavPhase::Fetching, NavEvent::Content { html }) => Some(
            (NavPhase::Done { html }, NavAction::Stop),
        ),
        (NavPhase::Fetching, NavEvent::ContentFailed { msg }) => Some(
            (NavPhase::Failed { err: IherbError::Navigation(msg) }, NavAction::Stop),
        ),
        (NavPhase::Done { html }, _) => Some((NavPhase::Done { html }, NavAction::Stop)),
        (NavPhase::Failed { err }, _) => Some((NavPhase::Failed { err }, NavAction::Stop)),
        _ => None,
    }
}

/// Every reachable phase keeps its counters in bounds.
pub proof fn lemma_nav_step_preserves_inv(delay_ms: u64, phase: NavPhase, event: NavEvent)
    requires
        nav_inv(phase),
        spec_nav_step(delay_ms, phase, event) is Some,
    ensures
        ({
            let t = spec_nav_step(delay_ms, phase, event)->0;
            nav_inv(t.0)
        }),
{
}

/// A blocked failure arises only at the round cap: the machine reports
/// `CloudflareBlocked` exactly with the configured round count, and only
/// from a challenge check in the final round that still saw the challenge.
pub proof fn lemma_blocked_only_at_cap(delay_ms: u64, phase: NavPhase, event: NavEvent)
    requires
        nav_inv(phase),
        !(phase matches NavPhase::Failed { err: IherbError::CloudflareBlocked(_) }),
        spec_nav_step(delay_ms, phase, event) matches Some((p2, _)) && p2 matches
            NavPhase::Failed { err: IherbError::CloudflareBlocked(n) },
    ensures
        ({
            let t = spec_nav_step(delay_ms, phase, event)->0;
            &&& t.0 matches NavPhase::Failed { err: IherbError::CloudflareBlocked(n) } && n
                == MAX_CLOUDFLARE_RETRIES
            &&& phase matches NavPhase::ChallengeCheck { round: r } && r
                == MAX_CLOUDFLARE_RETRIES
            &&& event matches NavEvent::TitleIs { title } && spec_is_challenge_title(title@)
        }),
{
}

/// A challenge that stays present keeps the machine waiting: from a wait
/// phase with ticks to spare, a still-challenged title leads back to the
/// same round's wait with one tick fewer, never to success.
pub proof fn lemma_challenge_keeps_waiting(
    delay_ms: u64,
    round: u32,
    ticks_left: u32,
    event: NavEvent,
)
    requires
        nav_inv(NavPhase::ChallengeWait { round, ticks_left }),
        ticks_left > 1,
        event matches NavEvent::TitleIs { title } && spec_is_challenge_title(title@),
    ensures
        spec_nav_step(delay_ms, NavPhase::ChallengeWait { round, ticks_left }, event) == Some(
            (
                NavPhase::ChallengeWait { round, ticks_left: (ticks_left - 1) as u32 },
                NavAction::SleepThenWaitTick { sleep_ms: CHALLENGE_TICK_MS },
            ),
        ),
{
}

impl Navigator {
    pub fn new(delay_ms: u64) -> (r: Self)
        ensures
            r.delay_ms == delay_ms,
    {
        Navigator { delay_ms }
    }

    /// Begin one navigation attempt: the driver must request the URL.
    pub fn start(&self) -> (r: (NavPhase, NavAction))
        ensures
            r.0 is Loading,
            r.1 is Goto,
            nav_inv(r.0),
    {
        (NavPhase::Loading, NavAction::Goto)
    }

    /// Advance one navigation attempt by one observed event.
    pub fn step(&self, phase: NavPhase, event: NavEvent) -> (r: (NavPhase, NavAction))
        ensures
            match spec_nav_step(self.delay_ms, phase, event) {
                Option::Some(t) => r == t,
                Option::None => r.0 matches NavPhase::Failed { err } && err is Navigation && r.1
                    is Stop,
            },
            nav_inv(phase) && spec_nav_step(self.delay_ms, phase, event) is Some ==> nav_inv(r.0),
    {
        let r = match (phase, event) {
            (NavPhase::Loading, NavEvent::GotoOk) => (
                NavPhase::Stabilizing { polls_left: READY_POLLS },
                NavAction::SleepThenPollReady { sleep_ms: self.delay_ms },
            ),
            (NavPhase::Loading, NavEvent::GotoFailed { msg }) => (
                NavPhase::Failed { err: IherbError::Navigation(msg) },
                NavAction::Stop,
            ),
            (NavPhase::Stabilizing { polls_left }, NavEvent::ReadyState { complete }) => {
                if complete || polls_left <= 1 {
                    (NavPhase::ChallengeCheck { round: 1 }, NavAction::CheckTitle)
                } else {
                    (
                        NavPhase::Stabilizing { polls_left: polls_left - 1 },
                        NavAction::SleepThenPollReady { sleep_ms: READY_POLL_MS },
                    )
                }
            },
            (NavPhase::ChallengeCheck { round }, NavEvent::TitleIs { title }) => {
                if !is_cloudflare_challenge(title.as_str()) {
                    (NavPhase::Fetching, NavAction::FetchContent)
                } else if round >= MAX_CLOUDFLARE_RETRIES {
                    (
                        NavPhase::Failed {
                            err: IherbError::CloudflareBlocked(MAX_CLOUDFLARE_RETRIES),
                        },
                        NavAction::Stop,
                    )
                } else {
                    (
                        NavPhase::ChallengeWait { round, ticks_left: CLOUDFLARE_WAIT_SECS },
                        NavAction::ClickThenWaitTick,
                    )
                }
            },
            (NavPhase::ChallengeWait { round, ticks_left }, NavEvent::TitleIs { title }) => {
                if is_cloudflare_challenge(title.as_str()) && ticks_left > 1 {
                    (
                        NavPhase::ChallengeWait { round, ticks_left: ticks_left - 1 },
                        NavAction::SleepThenWaitTick { sleep_ms: CHALLENGE_TICK_MS },
                    )
                } else {
                    if round < u32::MAX {
                        (NavPhase::ChallengeCheck { round: round + 1 }, NavAction::CheckTitle)
                    } else {
                        (NavPhase::ChallengeCheck { round }, NavAction::CheckTitle)
                    }
                }
            },
            (NavPhase::Fetching, NavEvent::Content { html }) => (
                NavPhase::Done { html },
                NavAction::Stop,
            ),
            (NavPhase::Fetching, NavEvent::ContentFailed { msg }) => (
                NavPhase::Failed { err: IherbError::Navigation(msg) },
                NavAction::Stop,
            ),
            (NavPhase::Done { html }, _) => (NavPhase::Done { html }, NavAction::Stop),
            (NavPhase::Failed { err }, _) => (NavPhase::Failed { err }, NavAction::Stop),
            _ => (
                NavPhase::Failed {
                    err: IherbError::Navigation(
                        String::from_str("navigation driver answered with an unexpected event"),
                    ),
                },
                NavAction::Stop,
            ),
        };
        r
    }
}

/// Two to the power `n`.
pub open spec fn pow2(n: nat) -> nat
    decreases n,
{
    if n == 0 {
        1
    } else {
        2 * pow2((n - 1) as nat)
    }
}

/// What the retry driver must do after a failed attempt.
#[derive(Debug, Clone, Copy, PartialEq, Eq)]
pub enum RetryDecision {
    /// Wait this many seconds (exponential backoff), then try again.
    RetryAfter { wait_secs: u64 },
    /// All attempts are spent; surface the last error.
    GiveUp,
}

/// Decide after failed attempt `attempt` (1-based) whether to retry.
/// Attempt `n` waits `2^(n-1)` seconds. `max_retries` is the number of
/// retries after the first attempt, so `max_retries + 1` attempts run in all;
/// it must leave the backoff within a `u64` (a machine limit).
pub fn retry_decision(attempt: u32, max_retries: u32) -> (r: RetryDecision)
    requires
        1 <= attempt,
        max_retries < 64,
        attempt <= max_retries + 1,
    ensures
        attempt <= max_retries ==> r == (RetryDecision::RetryAfter {
            wait_secs: pow2((attempt - 1) as nat) as u64,
        }),
        attempt > max_retries ==> r is GiveUp,
{
    if attempt <= max_retries {
        let e: u32 = attempt - 1;
        let w: u64 = 1u64 << (e as u64);
        proof {
            lemma_pow2_shift(e as nat);
            assert(e < 63);
        }
        RetryDecision::RetryAfter { wait_secs: w }
    } else {
        RetryDecision::GiveUp
    }
}

proof fn lemma_pow2_shift(n: nat)
    requires
        n < 64,
    ensures
        (1u64 << (n as u64)) == pow2(n),
    decreases n,
{
    if n == 0 {
        assert((1u64 << 0u64) == 1) by (bit_vector);
    } else {
        lemma_pow2_shift((n - 1) as nat);
        let m: u64 = (n - 1) as u64;
        assert(m < 63 ==> (1u64 << (m + 1)) == 2 * (1u64 << m)) by (bit_vector);
        assert(pow2(n) == 2 * pow2((n - 1) as nat));
    }
}

} // verus!
