use vstd::prelude::*;

use crate::compare::Score;

verus! {

/// The life cycle of a scroll-capture session.
#[derive(Debug, Clone, Copy, PartialEq, Eq, Structural)]
pub enum ScrollSessionState {
    Ready,
    Capturing,
    Paused,
    Done,
    Error,
}

/// Why a frame did not contribute to the capture.
#[derive(Debug, Clone, Copy, PartialEq, Eq, Structural)]
pub enum SkipReason {
    Duplicate,
    TooSmallDelta,
    MatchFailed,
}

/// Why a session stopped.
#[derive(Debug, Clone, Copy, PartialEq, Eq, Structural)]
pub enum StopReason {
    User,
    Timeout,
    ReachedMaxHeight,
    NoNewContent,
    ConsecutiveFailures,
}

/// The outcome of offering one frame to a session.
#[derive(Debug, Clone, Copy, PartialEq, Eq, Structural)]
pub enum AppendResult {
    Accepted { dy: u32, score: Score },
    Skipped(SkipReason),
    AutoStopped(StopReason),
}

/// Limits of a session; fixed once the session is created.
#[derive(Debug, Clone, Copy, PartialEq, Eq, Structural)]
pub struct ScrollConfig {
    pub max_height_px: u32,
    pub max_frames: usize,
    /// Advisory poll cadence for the caller, in milliseconds.
    pub throttle_ms: u64,
    pub max_consecutive_failures: u8,
}

impl Default for ScrollConfig {
    fn default() -> (r: ScrollConfig)
        ensures
            r.max_height_px == 20_000,
            r.max_frames == 300,
            r.throttle_ms == 100,
            r.max_consecutive_failures == 3,
    {
        ScrollConfig {
            max_height_px: 20_000,
            max_frames: 300,
            throttle_ms: 100,
            max_consecutive_failures: 3,
        }
    }
}

/// A read-only snapshot of a session.
#[derive(Debug, Clone, Copy, PartialEq, Eq, Structural)]
pub struct ScrollProgress {
    pub frames: usize,
    pub captured_height_px: u32,
    pub state: ScrollSessionState,
}

pub open spec fn is_terminal(s: ScrollSessionState) -> bool {
    s == ScrollSessionState::Done || s == ScrollSessionState::Error
}

/// A bounded scroll-capture session. Done and Error are terminal: once
/// there, the appends leave every field as it is and report the stop again.
#[derive(Debug, Clone)]
pub struct ScrollSession {
    pub state: ScrollSessionState,
    pub config: ScrollConfig,
    pub frames: usize,
    pub captured_height_px: u32,
    pub consecutive_failures: u8,
    /// Set exactly when the session is in a terminal state.
    pub stop_reason: Option<StopReason>,
}

impl ScrollSession {
    /// A terminal state carries its stop reason, and only a terminal state does.
    pub open spec fn wf(&self) -> bool {
        &&& is_terminal(self.state) <==> self.stop_reason.is_some()
        &&& !is_terminal(self.state) ==> self.frames == 0 || self.frames < self.config.max_frames
    }

    pub fn new(config: ScrollConfig) -> (r: ScrollSession)
        ensures
            r.wf(),
            r.state == ScrollSessionState::Ready,
            r.config == config,
            r.frames == 0,
            r.captured_height_px == 0,
            r.consecutive_failures == 0,
    {
        ScrollSession {
            state: ScrollSessionState::Ready,
            config,
            frames: 0,
            captured_height_px: 0,
            consecutive_failures: 0,
            stop_reason: None,
        }
    }

    /// Ready or Paused become Capturing; every other state is kept.
    pub fn mark_capturing(&mut self)
        requires
            old(self).wf(),
        ensures
            final(self).wf(),
            final(self).state == (if old(self).state == ScrollSessionState::Ready
                || old(self).state == ScrollSessionState::Paused {
                ScrollSessionState::Capturing
            } else {
                old(self).state
            }),
            final(self).config == old(self).config,
            final(self).frames == old(self).frames,
            final(self).captured_height_px == old(self).captured_height_px,
            final(self).consecutive_failures == old(self).consecutive_failures,
            final(self).stop_reason == old(self).stop_reason,
    {
        if self.state == ScrollSessionState::Ready || self.state == ScrollSessionState::Paused {
            self.state = ScrollSessionState::Capturing;
        }
    }

    /// An outside pause request: Capturing becomes Paused; every other state is kept.
    pub fn pause(&mut self)
        requires
            old(self).wf(),
        ensures
            final(self).wf(),
            final(self).state == (if old(self).state == ScrollSessionState::Capturing {
                ScrollSessionState::Paused
            } else {
                old(self).state
            }),
            final(self).config == old(self).config,
            final(self).frames == old(self).frames,
            final(self).captured_height_px == old(self).captured_height_px,
            final(self).consecutive_failures == old(self).consecutive_failures,
            final(self).stop_reason == old(self).stop_reason,
    {
        if self.state == ScrollSessionState::Capturing {
            self.state = ScrollSessionState::Paused;
        }
    }

    /// Records an accepted frame that added `added_height` rows.
    pub fn append_accepted(&mut self, added_height: u32, score: Score) -> (r: AppendResult)
        requires
            old(self).wf(),
        ensures
            final(self).wf(),
            final(self).config == old(self).config,
            is_terminal(old(self).state) ==> *final(self) == *old(self)
                && r == AppendResult::AutoStopped(old(self).stop_reason.unwrap()),
            !is_terminal(old(self).state) ==> {
                let frames = old(self).frames + 1;
                let height = if old(self).captured_height_px + added_height > u32::MAX {
                    u32::MAX as int
                } else {
                    old(self).captured_height_px + added_height
                };
                let stop = height >= old(self).config.max_height_px
                    || frames >= old(self).config.max_frames;
                &&& final(self).frames == frames
                &&& final(self).captured_height_px == height
                &&& final(self).consecutive_failures == 0
                &&& stop ==> final(self).state == ScrollSessionState::Done
                    && final(self).stop_reason == Some(StopReason::ReachedMaxHeight)
                    && r == AppendResult::AutoStopped(StopReason::ReachedMaxHeight)
                &&& !stop ==> final(self).state == ScrollSessionState::Capturing
                    && r == (AppendResult::Accepted { dy: added_height, score })
            },
    {
        if self.state == ScrollSessionState::Done || self.state == ScrollSessionState::Error {
            let reason = match self.stop_reason {
                Some(reason) => reason,
                None => StopReason::User,
            };
            return AppendResult::AutoStopped(reason);
        }
        self.frames = self.frames + 1;
        self.captured_height_px = self.captured_height_px.saturating_add(added_height);
        self.consecutive_failures = 0;

        if self.captured_height_px >= self.config.max_height_px
            || self.frames >= self.config.max_frames {
            self.state = ScrollSessionState::Done;
            self.stop_reason = Some(StopReason::ReachedMaxHeight);
            return AppendResult::AutoStopped(StopReason::ReachedMaxHeight);
        }
        self.state = ScrollSessionState::Capturing;
        AppendResult::Accepted { dy: added_height, score }
    }

    /// Records a frame that could not be matched.
    pub fn append_failed(&mut self) -> (r: AppendResult)
        requires
            old(self).wf(),
        ensures
            final(self).wf(),
            final(self).config == old(self).config,
            final(self).frames == old(self).frames,
            final(self).captured_height_px == old(self).captured_height_px,
            is_terminal(old(self).state) ==> *final(self) == *old(self)
                && r == AppendResult::AutoStopped(old(self).stop_reason.unwrap()),
            !is_terminal(old(self).state) ==> {
                let failures = if old(self).consecutive_failures < u8::MAX {
                    old(self).consecutive_failures + 1
                } else {
                    u8::MAX as int
                };
                &&& final(self).consecutive_failures == failures
                &&& failures >= old(self).config.max_consecutive_failures ==> final(self).state
                    == ScrollSessionState::Error && final(self).stop_reason == Some(
                    StopReason::ConsecutiveFailures,
                ) && r == AppendResult::AutoStopped(StopReason::ConsecutiveFailures)
                &&& failures < old(self).config.max_consecutive_failures ==> final(self).state
                    == old(self).state && final(self).stop_reason == old(self).stop_reason
                    && r == AppendResult::Skipped(SkipReason::MatchFailed)
            },
    {
        if self.state == ScrollSessionState::Done || self.state == ScrollSessionState::Error {
            let reason = match self.stop_reason {
                Some(reason) => reason,
                None => StopReason::User,
            };
            return AppendResult::AutoStopped(reason);
        }
        self.consecutive_failures = self.consecutive_failures.saturating_add(1);
        if self.consecutive_failures >= self.config.max_consecutive_failures {
            self.state = ScrollSessionState::Error;
            self.stop_reason = Some(StopReason::ConsecutiveFailures);
            return AppendResult::AutoStopped(StopReason::ConsecutiveFailures);
        }
        AppendResult::Skipped(SkipReason::MatchFailed)
    }

    /// Stops the session from any state. A session that had already
    /// stopped keeps its first stop reason.
    pub fn cancel(&mut self)
        requires
            old(self).wf(),
        ensures
            final(self).wf(),
            final(self).state == ScrollSessionState::Done,
            final(self).stop_reason == (if old(self).stop_reason.is_some() {
                old(self).stop_reason
            } else {
                Some(StopReason::User)
            }),
            final(self).config == old(self).config,
            final(self).frames == old(self).frames,
            final(self).captured_height_px == old(self).captured_height_px,
            final(self).consecutive_failures == old(self).consecutive_failures,
    {
        self.state = ScrollSessionState::Done;
        if self.stop_reason.is_none() {
            self.stop_reason = Some(StopReason::User);
        }
    }

    pub fn progress(&self) -> (r: ScrollProgress)
        ensures
            r.frames == self.frames,
            r.captured_height_px == self.captured_height_px,
            r.state == self.state,
    {
        ScrollProgress {
            frames: self.frames,
            captured_height_px: self.captured_height_px,
            state: self.state,
        }
    }
}

} // verus!
