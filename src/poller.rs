use vstd::prelude::*;

use crate::bitmap::Bitmap;
use crate::compare::{CHANGE_THRESHOLD_CENTI, difference, score_at_least, spec_at_least, spec_difference};

verus! {

/// How a live poll classifies the latest frame.
#[derive(Debug, Clone, Copy, PartialEq, Eq, Structural)]
pub enum PollState {
    /// Nothing moved since the last poll.
    Unchanged,
    /// The content is moving.
    Scrolling,
    /// The content came to rest (or this is the first frame): keep this frame.
    Captured,
}

#[derive(Debug, Clone, Copy, PartialEq, Eq, Structural)]
pub struct ScrollPollResult {
    pub state: PollState,
    pub frame_count: usize,
}

/// Watches a scrolling region poll by poll and says when to keep a frame.
#[derive(Debug, Clone)]
pub struct ScrollPoller {
    pub prev_frame: Option<Bitmap>,
    pub was_scrolling: bool,
    pub stable_count: u32,
    pub frame_count: usize,
    /// Mean difference, in hundredths, at which two polls count as changed.
    pub threshold_centi: u32,
}

/// Two frames differ enough to count as movement; frames of different
/// sizes always do.
pub open spec fn spec_moved(prev: Bitmap, current: Bitmap, threshold_centi: int) -> bool {
    prev.width != current.width || prev.height != current.height || spec_at_least(
        spec_difference(prev, current),
        threshold_centi,
    )
}

impl ScrollPoller {
    pub open spec fn wf(&self) -> bool {
        self.prev_frame matches Some(p) ==> p.wf()
    }

    pub open spec fn is_reset(&self) -> bool {
        &&& self.prev_frame is None
        &&& !self.was_scrolling
        &&& self.stable_count == 0
        &&& self.frame_count == 0
    }

    /// A fresh poller with the standard threshold of 1.8.
    pub fn new() -> (r: ScrollPoller)
        ensures
            r.wf(),
            r.is_reset(),
            r.threshold_centi == CHANGE_THRESHOLD_CENTI,
    {
        ScrollPoller {
            prev_frame: None,
            was_scrolling: false,
            stable_count: 0,
            frame_count: 0,
            threshold_centi: CHANGE_THRESHOLD_CENTI,
        }
    }

    /// Forgets everything but the threshold; call at the start of a session.
    pub fn reset(&mut self)
        ensures
            final(self).wf(),
            final(self).is_reset(),
            final(self).threshold_centi == old(self).threshold_centi,
    {
        self.prev_frame = None;
        self.was_scrolling = false;
        self.stable_count = 0;
        self.frame_count = 0;
    }

    /// Classifies `current` against the previous poll.
    pub fn poll(&mut self, current: Bitmap) -> (r: ScrollPollResult)
        requires
            old(self).wf(),
            current.wf(),
        ensures
            final(self).wf(),
            final(self).threshold_centi == old(self).threshold_centi,
            r.frame_count == final(self).frame_count,
            match old(self).prev_frame {
                None => {
                    &&& r.state == PollState::Captured
                    &&& final(self).frame_count == 1
                    &&& final(self).prev_frame == Some(current)
                    &&& final(self).was_scrolling == old(self).was_scrolling
                    &&& final(self).stable_count == old(self).stable_count
                },
                Some(prev) => if spec_moved(prev, current, old(self).threshold_centi as int) {
                    &&& r.state == PollState::Scrolling
                    &&& final(self).was_scrolling
                    &&& final(self).stable_count == 0
                    &&& final(self).prev_frame == Some(current)
                    &&& final(self).frame_count == old(self).frame_count
                } else if old(self).was_scrolling {
                    &&& r.state == PollState::Captured
                    &&& !final(self).was_scrolling
                    &&& final(self).stable_count == 0
                    &&& final(self).prev_frame == Some(current)
                    &&& final(self).frame_count == (if old(self).frame_count < usize::MAX {
                        old(self).frame_count + 1
                    } else {
                        old(self).frame_count as int
                    })
                } else {
                    &&& r.state == PollState::Unchanged
                    &&& *final(self) == *old(self)
                },
            },
    {
        let moved = match &self.prev_frame {
            None => {
                self.prev_frame = Some(current);
                self.frame_count = 1;
                return ScrollPollResult { state: PollState::Captured, frame_count: 1 };
            },
            Some(prev) => match difference(prev, &current) {
                Ok(score) => score_at_least(score, self.threshold_centi),
                Err(_) => true,
            },
        };
        if moved {
            self.was_scrolling = true;
            self.stable_count = 0;
            self.prev_frame = Some(current);
            ScrollPollResult { state: PollState::Scrolling, frame_count: self.frame_count }
        } else if self.was_scrolling {
            self.was_scrolling = false;
            self.stable_count = 0;
            self.prev_frame = Some(current);
            self.frame_count = if self.frame_count < usize::MAX {
                self.frame_count + 1
            } else {
                self.frame_count
            };
            ScrollPollResult { state: PollState::Captured, frame_count: self.frame_count }
        } else {
            ScrollPollResult { state: PollState::Unchanged, frame_count: self.frame_count }
        }
    }
}

} // verus!
