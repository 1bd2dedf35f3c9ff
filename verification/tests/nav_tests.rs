use iherb_cli::error::IherbError;
use iherb_cli::navigation::{
    is_cloudflare_challenge, retry_decision, NavAction, NavEvent, NavPhase, Navigator,
    RetryDecision, CLOUDFLARE_WAIT_SECS, MAX_CLOUDFLARE_RETRIES, READY_POLLS,
};

fn challenge_title() -> String {
    String::from("Just a moment...")
}

fn clear_title() -> String {
    String::from("Vitamin C, 1,000 mg - Store")
}

#[test]
fn challenge_markers_are_detected() {
    assert!(is_cloudflare_challenge("Just a moment..."));
    assert!(is_cloudflare_challenge("Attention Required! | Cloudflare"));
    assert!(!is_cloudflare_challenge("Vitamin C, 1,000 mg"));
    assert!(!is_cloudflare_challenge(""));
}

#[test]
fn happy_path_reaches_done() {
    let nav = Navigator::new(2000);
    let (phase, action) = nav.start();
    assert!(matches!(action, NavAction::Goto));
    let (phase, action) = nav.step(phase, NavEvent::GotoOk);
    assert!(matches!(action, NavAction::SleepThenPollReady { sleep_ms: 2000 }));
    assert!(matches!(phase, NavPhase::Stabilizing { polls_left } if polls_left == READY_POLLS));
    let (phase, action) = nav.step(phase, NavEvent::ReadyState { complete: true });
    assert!(matches!(action, NavAction::CheckTitle));
    let (phase, action) = nav.step(phase, NavEvent::TitleIs { title: clear_title() });
    assert!(matches!(action, NavAction::FetchContent));
    let (phase, action) = nav.step(phase, NavEvent::Content { html: String::from("<html></html>") });
    assert!(matches!(action, NavAction::Stop));
    match phase {
        NavPhase::Done { html } => assert_eq!(html, "<html></html>"),
        _ => panic!("expected a successful attempt"),
    }
}

#[test]
fn readiness_polls_are_bounded() {
    let nav = Navigator::new(10);
    let (mut phase, _) = nav.start();
    let r = nav.step(phase, NavEvent::GotoOk);
    phase = r.0;
    let mut polls = 0u32;
    loop {
        let r = nav.step(phase, NavEvent::ReadyState { complete: false });
        phase = r.0;
        polls += 1;
        match phase {
            NavPhase::Stabilizing { .. } => {
                assert!(matches!(r.1, NavAction::SleepThenPollReady { sleep_ms: 500 }));
            }
            NavPhase::ChallengeCheck { round } => {
                assert_eq!(round, 1);
                break;
            }
            _ => panic!("unexpected phase while stabilizing"),
        }
        assert!(polls <= READY_POLLS);
    }
    assert_eq!(polls, READY_POLLS);
}

#[test]
fn persistent_challenge_blocks_after_three_rounds() {
    let nav = Navigator::new(0);
    let (phase, _) = nav.start();
    let (phase, _) = nav.step(phase, NavEvent::GotoOk);
    let (mut phase, _) = nav.step(phase, NavEvent::ReadyState { complete: true });
    let mut steps = 0u32;
    loop {
        let (next, action) = nav.step(phase, NavEvent::TitleIs { title: challenge_title() });
        phase = next;
        steps += 1;
        match &phase {
            NavPhase::ChallengeCheck { .. } | NavPhase::ChallengeWait { .. } => {}
            NavPhase::Failed { err } => {
                assert_eq!(*err, IherbError::CloudflareBlocked(MAX_CLOUDFLARE_RETRIES));
                assert!(matches!(action, NavAction::Stop));
                break;
            }
            _ => panic!("a persistent challenge must never reach fetching"),
        }
        // Two full waited-out rounds plus the final check:
        // each round is 1 check + 12 ticks.
        assert!(steps <= 2 * (1 + CLOUDFLARE_WAIT_SECS) + 1);
    }
    assert_eq!(steps, 2 * (1 + CLOUDFLARE_WAIT_SECS) + 1);
}

#[test]
fn challenge_clearing_early_resumes() {
    let nav = Navigator::new(0);
    let (phase, _) = nav.start();
    let (phase, _) = nav.step(phase, NavEvent::GotoOk);
    let (phase, _) = nav.step(phase, NavEvent::ReadyState { complete: true });
    // Round one sees the challenge and starts waiting.
    let (phase, action) = nav.step(phase, NavEvent::TitleIs { title: challenge_title() });
    assert!(matches!(action, NavAction::ClickThenWaitTick));
    assert!(matches!(phase, NavPhase::ChallengeWait { round: 1, .. }));
    // One tick still challenged, then it clears.
    let (phase, _) = nav.step(phase, NavEvent::TitleIs { title: challenge_title() });
    assert!(matches!(phase, NavPhase::ChallengeWait { round: 1, .. }));
    let (phase, _) = nav.step(phase, NavEvent::TitleIs { title: clear_title() });
    assert!(matches!(phase, NavPhase::ChallengeCheck { round: 2 }));
    let (phase, action) = nav.step(phase, NavEvent::TitleIs { title: clear_title() });
    assert!(matches!(phase, NavPhase::Fetching));
    assert!(matches!(action, NavAction::FetchContent));
}

#[test]
fn navigation_failure_surfaces_the_message() {
    let nav = Navigator::new(0);
    let (phase, _) = nav.start();
    let (phase, action) = nav.step(
        phase,
        NavEvent::GotoFailed { msg: String::from("connection reset") },
    );
    assert!(matches!(action, NavAction::Stop));
    match phase {
        NavPhase::Failed { err } => {
            assert_eq!(err, IherbError::Navigation(String::from("connection reset")));
        }
        _ => panic!("expected a failed attempt"),
    }
}

#[test]
fn backoff_doubles_per_attempt() {
    assert_eq!(
        retry_decision(1, 2),
        RetryDecision::RetryAfter { wait_secs: 1 }
    );
    assert_eq!(
        retry_decision(2, 2),
        RetryDecision::RetryAfter { wait_secs: 2 }
    );
    assert!(matches!(retry_decision(3, 2), RetryDecision::GiveUp));
    assert_eq!(
        retry_decision(4, 5),
        RetryDecision::RetryAfter { wait_secs: 8 }
    );
}

#[test]
fn error_messages_render() {
    let e = IherbError::CloudflareBlocked(3);
    assert_eq!(
        e.message(),
        "Cloudflare challenge could not be solved after 3 attempts"
    );
    let e = IherbError::ProductNotFound(String::from("12345"));
    assert_eq!(e.message(), "Product not found: 12345");
}
