//! Frame timing: the time between frames, the frame count, and a
//! frames-per-second figure recomputed once per second of frames.
//!
//! Times are whole nanoseconds since the clock was started or reset.
use vstd::prelude::*;

verus! {

/// Nanoseconds in one second: the length of an FPS window.
pub const NANOS_PER_SEC: u64 = 1_000_000_000;

#[verifier::external_type_specification]
#[verifier::external_body]
pub struct ExInstant(std::time::Instant);

/// Relies on std::time::Instant::now: a reading of the monotonic clock.
#[verifier::external_body]
pub(crate) fn instant_now() -> std::time::Instant {
    std::time::Instant::now()
}

/// Relies on std::time::Instant::elapsed: whole nanoseconds since `start`.
#[verifier::external_body]
pub(crate) fn nanos_since(start: &std::time::Instant) -> u64 {
    start.elapsed().as_nanos() as u64
}

/// What a clock is, as far as its users can tell.
pub struct ClockView {
    /// Time of the last update.
    pub last_frame: u64,
    /// Time between the last two updates.
    pub delta: u64,
    /// Updates since the start.
    pub frame_count: u64,
    /// Frames counted in the last completed FPS window.
    pub fps_frames: u32,
    /// Length of the last completed FPS window; zero before the first one.
    pub fps_window: u64,
    /// Time accumulated in the current window.
    pub window_time: u64,
    /// Frames counted in the current window.
    pub window_frames: u32,
}

impl ClockView {
    /// A clock just started: everything zero.
    pub open spec fn started() -> Self {
        ClockView {
            last_frame: 0,
            delta: 0,
            frame_count: 0,
            fps_frames: 0,
            fps_window: 0,
            window_time: 0,
            window_frames: 0,
        }
    }

    /// The time since the last update, if the clock reads `now`; a reading
    /// earlier than the last one counts as no time.
    pub open spec fn delta_to(self, now: u64) -> u64 {
        if now >= self.last_frame {
            (now - self.last_frame) as u64
        } else {
            0
        }
    }

    /// The clock after an update that reads `now`. Once the window holds a
    /// second or more, its frames and length become the FPS figure and the
    /// window starts again; the window's sums stop at their type's maximum.
    pub open spec fn tick(self, now: u64) -> Self {
        let delta = self.delta_to(now);
        let time = if self.window_time + delta <= u64::MAX {
            (self.window_time + delta) as u64
        } else {
            u64::MAX
        };
        let frames = if self.window_frames < u32::MAX {
            (self.window_frames + 1) as u32
        } else {
            u32::MAX
        };
        if time >= NANOS_PER_SEC {
            ClockView {
                last_frame: now,
                delta,
                frame_count: (self.frame_count + 1) as u64,
                fps_frames: frames,
                fps_window: time,
                window_time: 0,
                window_frames: 0,
            }
        } else {
            ClockView {
                last_frame: now,
                delta,
                frame_count: (self.frame_count + 1) as u64,
                fps_frames: self.fps_frames,
                fps_window: self.fps_window,
                window_time: time,
                window_frames: frames,
            }
        }
    }
}

/// An update `d` nanoseconds after the last one reports a delta of `d` and
/// counts exactly one more frame.
pub proof fn lemma_tick_delta(c: ClockView, d: u64)
    requires
        c.last_frame + d <= u64::MAX,
        c.frame_count < u64::MAX,
    ensures
        c.tick((c.last_frame + d) as u64).delta == d,
        c.tick((c.last_frame + d) as u64).frame_count == c.frame_count + 1,
{
}

/// Tracks frame time, frame count and frames per second.
pub struct TimeManager {
    start: std::time::Instant,
    last_frame: u64,
    delta: u64,
    frame_count: u64,
    fps_frames: u32,
    fps_window: u64,
    window_time: u64,
    window_frames: u32,
}

impl View for TimeManager {
    type V = ClockView;

    closed spec fn view(&self) -> ClockView {
        ClockView {
            last_frame: self.last_frame,
            delta: self.delta,
            frame_count: self.frame_count,
            fps_frames: self.fps_frames,
            fps_window: self.fps_window,
            window_time: self.window_time,
            window_frames: self.window_frames,
        }
    }
}

impl TimeManager {
    /// A clock anchored at the current time.
    pub fn new() -> (r: Self)
        ensures
            r@ == ClockView::started(),
    {
        TimeManager {
            start: instant_now(),
            last_frame: 0,
            delta: 0,
            frame_count: 0,
            fps_frames: 0,
            fps_window: 0,
            window_time: 0,
            window_frames: 0,
        }
    }

    /// Updates the clock with a reading of `now` nanoseconds since its anchor.
    pub fn tick(&mut self, now: u64)
        requires
            old(self)@.frame_count < u64::MAX,
        ensures
            final(self)@ == old(self)@.tick(now),
    {
        let delta = now.saturating_sub(self.last_frame);
        self.delta = delta;
        self.last_frame = now;
        self.frame_count = self.frame_count + 1;
        self.window_time = self.window_time.saturating_add(delta);
        self.window_frames = self.window_frames.saturating_add(1);
        if self.window_time >= NANOS_PER_SEC {
            self.fps_frames = self.window_frames;
            self.fps_window = self.window_time;
            self.window_time = 0;
            self.window_frames = 0;
        }
    }

    /// Updates the clock from the current time; call once per frame.
    pub fn update(&mut self)
        requires
            old(self)@.frame_count < u64::MAX,
        ensures
            final(self)@ == old(self)@.tick(final(self)@.last_frame),
    {
        let now = nanos_since(&self.start);
        self.tick(now);
    }

    /// Nanoseconds between the last two updates.
    pub fn delta_nanos(&self) -> (r: u64)
        ensures
            r == self@.delta,
    {
        self.delta
    }

    /// Nanoseconds since the clock was started or reset.
    pub fn elapsed_nanos(&self) -> u64 {
        nanos_since(&self.start)
    }

    /// The last completed FPS window: frames counted and its length in
    /// nanoseconds; `(0, 0)` before the first window completes.
    pub fn fps_window(&self) -> (r: (u32, u64))
        ensures
            r == (self@.fps_frames, self@.fps_window),
    {
        (self.fps_frames, self.fps_window)
    }

    pub fn frame_count(&self) -> (r: u64)
        ensures
            r == self@.frame_count,
    {
        self.frame_count
    }

    /// Starts the clock again from the current time.
    pub fn reset(&mut self)
        ensures
            final(self)@ == ClockView::started(),
    {
        self.start = instant_now();
        self.last_frame = 0;
        self.delta = 0;
        self.frame_count = 0;
        self.fps_frames = 0;
        self.fps_window = 0;
        self.window_time = 0;
        self.window_frames = 0;
    }
}

impl Default for TimeManager {
    fn default() -> (r: Self)
        ensures
            r@ == ClockView::started(),
    {
        TimeManager::new()
    }
}

} // verus!
