//! The course of a frame: when to simulate, when to draw, and when the swapchain, the window's set
//! of images, has to be made anew.

use vstd::prelude::*;

verus! {

/// What the frames so far have left behind.
#[derive(Clone, Copy, Debug, PartialEq, Eq)]
pub struct FrameState {
    /// There is a window to draw in.
    pub ready: bool,
    /// The swapchain no longer fits the window.
    pub recreate_swapchain: bool,
    /// When the last frame began, in nanoseconds on the clock of the game.
    pub last_frame: Option<u128>,
}

/// What to draw in a frame.
#[derive(Clone, Copy, Debug, PartialEq, Eq, Structural)]
pub enum Plan {
    /// Nothing: the window has no area.
    Skip,
    /// The scene.
    Draw,
    /// The scene, after making the swapchain anew.
    RecreateAndDraw,
}

/// How asking for the next image of the swapchain went.
#[derive(Clone, Copy, Debug, PartialEq, Eq, Structural)]
pub enum Acquisition {
    /// There is an image that fits the window.
    Optimal,
    /// There is an image that can be drawn in but no longer fits the window.
    Suboptimal,
    /// The swapchain can no longer be used.
    OutOfDate,
    /// It failed for another reason.
    Failed,
}

/// What to do with the image asked for.
#[derive(Clone, Copy, Debug, PartialEq, Eq, Structural)]
pub enum Recording {
    /// Draw in it.
    Record,
    /// Give this frame up.
    Abandon,
    /// Give the game up.
    Fail,
}

/// How handing over the finished frame went.
#[derive(Clone, Copy, Debug, PartialEq, Eq, Structural)]
pub enum Presentation {
    Done,
    OutOfDate,
    Failed,
}

/// What the next frame has to wait for.
#[derive(Clone, Copy, Debug, PartialEq, Eq, Structural)]
pub enum Previous {
    /// This frame.
    ThisFrame,
    /// Nothing.
    Nothing,
    /// Nothing, and the failure is reported.
    ReportedFailure,
}

/// What can happen to a [`FrameState`].
pub enum FrameEvent {
    Resumed { now: u128 },
    Resized,
    Begun { now: u128 },
    Planned { width: u32, height: u32 },
    Acquired(Acquisition),
    Presented(Presentation),
}

/// Nanoseconds from the last frame to `now`: none for the first frame or a clock that went back,
/// and modulo 2 to the 64.
pub open spec fn elapsed(last: Option<u128>, now: u128) -> int {
    match last {
        Some(then) if then < now => (now - then) % 0x1_0000_0000_0000_0000,
        _ => 0,
    }
}

impl FrameState {
    /// The state after an event.
    pub open spec fn after(self, event: FrameEvent) -> FrameState {
        match event {
            FrameEvent::Resumed { now } => FrameState {
                ready: true,
                recreate_swapchain: false,
                last_frame: Some(now),
            },
            FrameEvent::Resized => FrameState {
                recreate_swapchain: self.recreate_swapchain || self.ready,
                ..self
            },
            FrameEvent::Begun { now } => FrameState {
                last_frame: if self.ready {
                    Some(now)
                } else {
                    self.last_frame
                },
                ..self
            },
            FrameEvent::Planned { width, height } => FrameState {
                recreate_swapchain: self.recreate_swapchain && (width == 0 || height == 0),
                ..self
            },
            FrameEvent::Acquired(outcome) => FrameState {
                recreate_swapchain: self.recreate_swapchain || outcome == Acquisition::Suboptimal
                    || outcome == Acquisition::OutOfDate,
                ..self
            },
            FrameEvent::Presented(outcome) => FrameState {
                recreate_swapchain: self.recreate_swapchain || outcome == Presentation::OutOfDate,
                ..self
            },
        }
    }

    /// The state before there is a window.
    pub fn new() -> (s: FrameState)
        ensures
            s == (FrameState { ready: false, recreate_swapchain: false, last_frame: None }),
    {
        FrameState { ready: false, recreate_swapchain: false, last_frame: None }
    }

    /// A window and a swapchain that fits it have been made.
    pub fn resumed(&mut self, now: u128)
        ensures
            *final(self) == old(self).after(FrameEvent::Resumed { now }),
    {
        self.ready = true;
        self.recreate_swapchain = false;
        self.last_frame = Some(now);
    }

    /// The window's size has changed.
    pub fn resized(&mut self)
        ensures
            *final(self) == old(self).after(FrameEvent::Resized),
    {
        if self.ready {
            self.recreate_swapchain = true;
        }
    }

    /// Begins a frame. Returns how many nanoseconds to simulate, or `None` when there is no window.
    pub fn begin(&mut self, now: u128) -> (dt_ns: Option<u64>)
        ensures
            *final(self) == old(self).after(FrameEvent::Begun { now }),
            dt_ns is Some <==> old(self).ready,
            dt_ns matches Some(dt) ==> dt == elapsed(old(self).last_frame, now),
    {
        if !self.ready {
            return None;
        }
        let then: u128 = match self.last_frame {
            Some(then) => then,
            None => now,
        };
        let passed: u128 = if then < now {
            now - then
        } else {
            0
        };
        self.last_frame = Some(now);
        Some((passed % 0x1_0000_0000_0000_0000) as u64)
    }

    /// Plans the frame for a window of the given size.
    pub fn plan(&mut self, width: u32, height: u32) -> (p: Plan)
        requires
            old(self).ready,
        ensures
            *final(self) == old(self).after(FrameEvent::Planned { width, height }),
            p == Plan::Skip <==> width == 0 || height == 0,
            p == Plan::RecreateAndDraw <==> width != 0 && height != 0 && old(self).recreate_swapchain,
    {
        if width == 0 || height == 0 {
            return Plan::Skip;
        }
        if self.recreate_swapchain {
            self.recreate_swapchain = false;
            Plan::RecreateAndDraw
        } else {
            Plan::Draw
        }
    }

    /// Decides what to do with the image asked for.
    pub fn acquired(&mut self, outcome: Acquisition) -> (r: Recording)
        requires
            old(self).ready,
        ensures
            *final(self) == old(self).after(FrameEvent::Acquired(outcome)),
            r == Recording::Record <==> outcome == Acquisition::Optimal || outcome
                == Acquisition::Suboptimal,
            r == Recording::Abandon <==> outcome == Acquisition::OutOfDate,
            r == Recording::Fail <==> outcome == Acquisition::Failed,
    {
        match outcome {
            Acquisition::Optimal => Recording::Record,
            Acquisition::Suboptimal => {
                self.recreate_swapchain = true;
                Recording::Record
            },
            Acquisition::OutOfDate => {
                self.recreate_swapchain = true;
                Recording::Abandon
            },
            Acquisition::Failed => Recording::Fail,
        }
    }

    /// Decides what the next frame has to wait for.
    pub fn presented(&mut self, outcome: Presentation) -> (r: Previous)
        requires
            old(self).ready,
        ensures
            *final(self) == old(self).after(FrameEvent::Presented(outcome)),
            r == Previous::ThisFrame <==> outcome == Presentation::Done,
            r == Previous::Nothing <==> outcome == Presentation::OutOfDate,
            r == Previous::ReportedFailure <==> outcome == Presentation::Failed,
    {
        match outcome {
            Presentation::Done => Previous::ThisFrame,
            Presentation::OutOfDate => {
                self.recreate_swapchain = true;
                Previous::Nothing
            },
            Presentation::Failed => Previous::ReportedFailure,
        }
    }
}

/// The state after a series of events.
pub open spec fn after_all(state: FrameState, events: Seq<FrameEvent>) -> FrameState
    decreases events.len(),
{
    if events.len() == 0 {
        state
    } else {
        after_all(state, events.drop_last()).after(events.last())
    }
}

/// Whether an event replaces the swapchain by one that fits, when it has to be replaced.
pub open spec fn replaces_swapchain(event: FrameEvent) -> bool {
    match event {
        FrameEvent::Resumed { .. } => true,
        FrameEvent::Planned { width, height } => width != 0 && height != 0,
        _ => false,
    }
}

/// A swapchain that no longer fits is not forgotten: whatever happens, it stays marked until it is
/// replaced.
pub proof fn law_misfit_is_not_forgotten(state: FrameState, events: Seq<FrameEvent>)
    requires
        state.recreate_swapchain,
        forall|i: int| 0 <= i < events.len() ==> !replaces_swapchain(#[trigger] events[i]),
    ensures
        after_all(state, events).recreate_swapchain,
    decreases events.len(),
{
    if events.len() > 0 {
        law_misfit_is_not_forgotten(state, events.drop_last());
    }
}

/// A window, once there, stays: only the first `Resumed` makes the game ready, and nothing undoes
/// it.
pub proof fn law_ready_is_for_good(state: FrameState, event: FrameEvent)
    ensures
        state.after(event).ready <==> state.ready || event is Resumed,
{
}

/// Two frames in a row account for all the time between the first and the second, short of 2 to
/// the 64 nanoseconds.
pub proof fn law_no_time_is_lost(state: FrameState, a: u128, b: u128)
    requires
        state.ready,
        a <= b,
        b - a < 0x1_0000_0000_0000_0000,
    ensures
        elapsed(state.after(FrameEvent::Begun { now: a }).last_frame, b) == b - a,
{
}

/// Before there is a window nothing is ready, nothing misfits and no frame has begun.
pub proof fn law_new_frame_state_is_blank(s: FrameState)
    requires
        call_ensures(FrameState::new, (), s),
    ensures
        !s.ready,
        !s.recreate_swapchain,
        s.last_frame is None,
{
}

/// With a new window the game is ready, its swapchain fits, and time counts from now.
pub proof fn law_resuming_starts_afresh(s: &mut FrameState, now: u128)
    requires
        call_ensures(FrameState::resumed, (s, now), ()),
    ensures
        final(s).ready,
        !final(s).recreate_swapchain,
        final(s).last_frame == Some(now),
{
}

/// A new size makes the swapchain misfit as soon as there is one, and changes nothing else.
pub proof fn law_resizing_marks_the_swapchain(s: &mut FrameState)
    requires
        call_ensures(FrameState::resized, (s,), ()),
    ensures
        old(s).ready ==> final(s).recreate_swapchain,
        !old(s).ready ==> final(s).recreate_swapchain == old(s).recreate_swapchain,
        final(s).ready == old(s).ready,
        final(s).last_frame == old(s).last_frame,
{
}

/// A frame simulates the time since the one before it, modulo 2 to the 64 nanoseconds: none if
/// there was none or if the clock went back. Without a window no frame begins and nothing changes.
pub proof fn law_frame_simulates_the_time_passed(s: &mut FrameState, now: u128, dt: Option<u64>)
    requires
        call_ensures(FrameState::begin, (s, now), dt),
    ensures
        dt is Some <==> old(s).ready,
        final(s).last_frame == (if old(s).ready {
            Some(now)
        } else {
            old(s).last_frame
        }),
        final(s).ready == old(s).ready,
        final(s).recreate_swapchain == old(s).recreate_swapchain,
        dt matches Some(ns) ==> (old(s).last_frame matches Some(then) ==> {
            &&& then <= now ==> (now - then - ns) % 0x1_0000_0000_0000_0000 == 0
            &&& then > now ==> ns == 0
        }),
        dt matches Some(ns) ==> old(s).last_frame is None ==> ns == 0,
{
}

/// Every window that has an area is drawn, after a new swapchain if the old one misfits, which then
/// fits; a window without area is skipped and leaves everything as it was.
pub proof fn law_plan_follows_the_window(s: &mut FrameState, width: u32, height: u32, p: Plan)
    requires
        call_ensures(FrameState::plan, (s, width, height), p),
    ensures
        p == Plan::Skip <==> width == 0 || height == 0,
        p == Plan::RecreateAndDraw <==> width > 0 && height > 0 && old(s).recreate_swapchain,
        p == Plan::Draw <==> width > 0 && height > 0 && !old(s).recreate_swapchain,
        final(s).recreate_swapchain <==> p == Plan::Skip && old(s).recreate_swapchain,
        final(s).ready == old(s).ready,
        final(s).last_frame == old(s).last_frame,
{
}

/// An image that came is drawn in; one that misfits or that the swapchain could not give marks the
/// swapchain; only a failure of another kind ends the game.
pub proof fn law_acquisition_is_answered(s: &mut FrameState, outcome: Acquisition, r: Recording)
    requires
        call_ensures(FrameState::acquired, (s, outcome), r),
    ensures
        r == Recording::Record <==> outcome == Acquisition::Optimal || outcome
            == Acquisition::Suboptimal,
        r == Recording::Abandon <==> outcome == Acquisition::OutOfDate,
        outcome == Acquisition::Suboptimal || outcome == Acquisition::OutOfDate
            ==> final(s).recreate_swapchain,
        outcome == Acquisition::Optimal || outcome == Acquisition::Failed
            ==> final(s).recreate_swapchain == old(s).recreate_swapchain,
        final(s).ready == old(s).ready,
        final(s).last_frame == old(s).last_frame,
{
}

/// The next frame waits for one that was handed over, and for nothing otherwise; only a swapchain
/// that is out of date is marked, and only another failure is reported.
pub proof fn law_presentation_is_answered(s: &mut FrameState, outcome: Presentation, r: Previous)
    requires
        call_ensures(FrameState::presented, (s, outcome), r),
    ensures
        r == Previous::ThisFrame <==> outcome == Presentation::Done,
        r == Previous::Nothing <==> outcome == Presentation::OutOfDate,
        outcome == Presentation::OutOfDate ==> final(s).recreate_swapchain,
        outcome != Presentation::OutOfDate ==> final(s).recreate_swapchain
            == old(s).recreate_swapchain,
        final(s).ready == old(s).ready,
        final(s).last_frame == old(s).last_frame,
{
}

} // verus!
