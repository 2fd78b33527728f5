use scrollshot::compare::Score;
use scrollshot::{AppendResult, ScrollConfig, ScrollSession, ScrollSessionState, SkipReason, StopReason};

#[test]
fn session_defaults_are_expected() {
    let session = ScrollSession::new(ScrollConfig::default());
    assert_eq!(session.progress().frames, 0);
    assert_eq!(session.progress().captured_height_px, 0);
    assert_eq!(session.progress().state, ScrollSessionState::Ready);
}

#[test]
fn accepted_frame_updates_progress() {
    let mut session = ScrollSession::new(ScrollConfig::default());
    session.mark_capturing();
    // a mean difference of 0.93 per channel
    let result = session.append_accepted(320, Score { total: 279, samples: 100 });
    assert!(matches!(result, AppendResult::Accepted { dy: 320, score: _ }));
    assert_eq!(session.progress().frames, 1);
    assert_eq!(session.progress().captured_height_px, 320);
    assert_eq!(session.progress().state, ScrollSessionState::Capturing);
}

#[test]
fn consecutive_failures_auto_stop_session() {
    let mut session = ScrollSession::new(ScrollConfig {
        max_consecutive_failures: 2,
        ..ScrollConfig::default()
    });
    assert!(matches!(session.append_failed(), AppendResult::Skipped(SkipReason::MatchFailed)));
    assert!(matches!(
        session.append_failed(),
        AppendResult::AutoStopped(StopReason::ConsecutiveFailures)
    ));
    assert_eq!(session.progress().state, ScrollSessionState::Error);
}

#[test]
fn first_failure_leaves_state_unchanged() {
    let mut session = ScrollSession::new(ScrollConfig {
        max_consecutive_failures: 2,
        ..ScrollConfig::default()
    });
    session.mark_capturing();
    assert_eq!(session.append_failed(), AppendResult::Skipped(SkipReason::MatchFailed));
    assert_eq!(session.progress().state, ScrollSessionState::Capturing);
    assert_eq!(session.append_failed(), AppendResult::AutoStopped(StopReason::ConsecutiveFailures));
    assert_eq!(session.progress().state, ScrollSessionState::Error);
}

#[test]
fn max_height_stops_session() {
    let mut session = ScrollSession::new(ScrollConfig {
        max_height_px: 500,
        ..ScrollConfig::default()
    });
    let score = Score { total: 3, samples: 1 };
    assert_eq!(session.append_accepted(320, score), AppendResult::Accepted { dy: 320, score });
    assert_eq!(session.progress().captured_height_px, 320);
    assert_eq!(session.progress().state, ScrollSessionState::Capturing);
    assert_eq!(session.append_accepted(320, score), AppendResult::AutoStopped(StopReason::ReachedMaxHeight));
    assert_eq!(session.progress().captured_height_px, 640);
    assert_eq!(session.progress().state, ScrollSessionState::Done);
}

#[test]
fn max_frames_stops_session() {
    let mut session = ScrollSession::new(ScrollConfig {
        max_frames: 2,
        ..ScrollConfig::default()
    });
    let score = Score { total: 0, samples: 1 };
    assert!(matches!(session.append_accepted(10, score), AppendResult::Accepted { .. }));
    assert_eq!(session.append_accepted(10, score), AppendResult::AutoStopped(StopReason::ReachedMaxHeight));
    assert_eq!(session.progress().frames, 2);
}

#[test]
fn terminal_session_ignores_appends() {
    let mut session = ScrollSession::new(ScrollConfig::default());
    session.cancel();
    assert_eq!(session.progress().state, ScrollSessionState::Done);
    let score = Score { total: 0, samples: 1 };
    assert_eq!(session.append_accepted(100, score), AppendResult::AutoStopped(StopReason::User));
    assert_eq!(session.append_failed(), AppendResult::AutoStopped(StopReason::User));
    assert_eq!(session.progress().frames, 0);
    assert_eq!(session.progress().captured_height_px, 0);
    session.mark_capturing();
    assert_eq!(session.progress().state, ScrollSessionState::Done);
}

#[test]
fn accepted_append_resets_failures_and_saturates_height() {
    let mut session = ScrollSession::new(ScrollConfig {
        max_height_px: u32::MAX,
        max_consecutive_failures: 5,
        ..ScrollConfig::default()
    });
    session.append_failed();
    assert_eq!(session.consecutive_failures, 1);
    let score = Score { total: 0, samples: 1 };
    session.append_accepted(u32::MAX - 1, score);
    assert_eq!(session.consecutive_failures, 0);
    assert_eq!(session.append_accepted(10, score), AppendResult::AutoStopped(StopReason::ReachedMaxHeight));
    assert_eq!(session.progress().captured_height_px, u32::MAX);
}

#[test]
fn pause_and_resume() {
    let mut session = ScrollSession::new(ScrollConfig::default());
    session.pause();
    assert_eq!(session.progress().state, ScrollSessionState::Ready);
    session.mark_capturing();
    session.pause();
    assert_eq!(session.progress().state, ScrollSessionState::Paused);
    session.mark_capturing();
    assert_eq!(session.progress().state, ScrollSessionState::Capturing);
}
