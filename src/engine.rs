//! The frame state machine that drives a scene.
//!
//! The host runs the platform's event pump. It hands each event to
//! `handle_event` and performs the action that comes back. On `RunFrame` it
//! goes through the phases of a frame in order: `begin_frame` (clock),
//! the simulation callback on `frame_parts`, `after_callback` with the
//! callback's answer, rendering where that says so, and `finish_frame`
//! (input edges reset).
use vstd::prelude::*;

use crate::config::WindowConfig;
use crate::ecs::Scene;
use crate::input::{Button, ElementState, InputManager, InputView, Key, MouseButton};
use crate::time::{ClockView, TimeManager};

verus! {

/// Where the engine is in its life.
#[derive(Clone, Copy, Debug, PartialEq, Eq, Structural)]
pub enum LoopState {
    Uninitialized,
    Running,
    Terminated,
}

/// A platform event, as far as the engine decides on it.
#[derive(Clone, Copy, Debug, PartialEq, Eq, Structural)]
pub enum PlatformEvent {
    CloseRequested,
    Resized(u32, u32),
    Keyboard(Key, ElementState),
    MouseInput(MouseButton, ElementState),
    RedrawRequested,
    AboutToWait,
}

/// What the host does after an event.
#[derive(Clone, Copy, Debug, PartialEq, Eq, Structural)]
pub enum LoopAction {
    /// Nothing more to do.
    Nothing,
    /// Leave the event pump.
    Exit,
    /// Reconfigure the render surface to this size.
    ResizeSurface(u32, u32),
    /// Run the phases of one frame.
    RunFrame,
    /// Ask the window for a redraw.
    RequestRedraw,
}

/// How a frame goes on after the simulation callback.
#[derive(Clone, Copy, Debug, PartialEq, Eq, Structural)]
pub enum FrameStep {
    /// The callback asked to stop: the engine has terminated.
    Stop,
    /// Render and present the frame; refresh the title when `show_title` is set.
    Present { show_title: bool },
}

/// Where the engine is within a frame. A frame goes from `Idle` through
/// `Clocked` (clock updated, callback to run) and `Presenting` (callback
/// done, frame to render) back to `Idle`.
#[derive(Clone, Copy, Debug, PartialEq, Eq, Structural)]
pub enum FramePhase {
    Idle,
    Clocked,
    Presenting,
}

/// Why the engine could not start.
#[derive(Clone, Copy, Debug, PartialEq, Eq, Structural)]
pub enum StartError {
    /// The engine has already been started once.
    AlreadyStarted,
}

/// The state after `ev` arrives in state `s`.
pub open spec fn next_state(s: LoopState, ev: PlatformEvent) -> LoopState {
    match s {
        LoopState::Running => match ev {
            PlatformEvent::CloseRequested => LoopState::Terminated,
            _ => LoopState::Running,
        },
        _ => s,
    }
}

/// The action for `ev` arriving in state `s`: events outside the running state
/// are ignored.
pub open spec fn action_for(s: LoopState, ev: PlatformEvent) -> LoopAction {
    match s {
        LoopState::Running => match ev {
            PlatformEvent::CloseRequested => LoopAction::Exit,
            PlatformEvent::Resized(w, h) => LoopAction::ResizeSurface(w, h),
            PlatformEvent::Keyboard(_, _) => LoopAction::Nothing,
            PlatformEvent::MouseInput(_, _) => LoopAction::Nothing,
            PlatformEvent::RedrawRequested => LoopAction::RunFrame,
            PlatformEvent::AboutToWait => LoopAction::RequestRedraw,
        },
        _ => LoopAction::Nothing,
    }
}

/// The input state after `ev` arrives in state `s`.
pub open spec fn input_after(s: LoopState, i: InputView, ev: PlatformEvent) -> InputView {
    match s {
        LoopState::Running => match ev {
            PlatformEvent::Keyboard(k, st) => i.event(Button::Key(k), st),
            PlatformEvent::MouseInput(b, st) => i.event(Button::Mouse(b), st),
            _ => i,
        },
        _ => i,
    }
}

/// The state after the events `evs`, in turn.
pub open spec fn state_after(s: LoopState, evs: Seq<PlatformEvent>) -> LoopState
    decreases evs.len(),
{
    if evs.len() == 0 {
        s
    } else {
        state_after(next_state(s, evs[0]), evs.drop_first())
    }
}

/// Once terminated, the engine stays terminated and asks for no frame, nor
/// anything else, whatever events follow.
pub proof fn lemma_terminated_is_final(evs: Seq<PlatformEvent>)
    ensures
        state_after(LoopState::Terminated, evs) == LoopState::Terminated,
        forall|i: int|
            0 <= i < evs.len() ==> action_for(
                state_after(LoopState::Terminated, evs.take(i)),
                #[trigger] evs[i],
            ) == LoopAction::Nothing,
    decreases evs.len(),
{
    if evs.len() > 0 {
        lemma_terminated_is_final(evs.drop_first());
        assert forall|i: int| 0 <= i < evs.len() implies state_after(
            LoopState::Terminated,
            evs.take(i),
        ) == LoopState::Terminated by {
            lemma_terminated_prefix(evs, i);
        }
    }
}

/// While running, a press of a key that was up shows as just pressed to the
/// next frame's callback; a callback that answers `false` to it ends the
/// engine (`after_callback`), and no frame follows.
pub proof fn lemma_key_press_seen(i: InputView, k: Key)
    requires
        !i.pressed.contains(Button::Key(k)),
    ensures
        input_after(LoopState::Running, i, PlatformEvent::Keyboard(k, ElementState::Pressed)).just_pressed.contains(
            Button::Key(k),
        ),
        next_state(LoopState::Running, PlatformEvent::Keyboard(k, ElementState::Pressed))
            == LoopState::Running,
        action_for(LoopState::Terminated, PlatformEvent::RedrawRequested) == LoopAction::Nothing,
{
}

proof fn lemma_terminated_prefix(evs: Seq<PlatformEvent>, i: int)
    requires
        0 <= i <= evs.len(),
    ensures
        state_after(LoopState::Terminated, evs.take(i)) == LoopState::Terminated,
    decreases i,
{
    if i > 0 {
        lemma_terminated_prefix(evs.drop_first(), i - 1);
        assert(evs.take(i).drop_first() == evs.drop_first().take(i - 1));
    }
}

/// Owns the scene, the input state and the clock, and sequences the frames.
pub struct Engine<C> {
    window: WindowConfig,
    state: LoopState,
    phase: FramePhase,
    scene: Scene<C>,
    input: InputManager,
    time: TimeManager,
    show_debug: bool,
}

impl<C> Engine<C> {
    /// The engine's internal consistency, which all its methods keep.
    pub closed spec fn wf(&self) -> bool {
        self.scene.wf() && self.input.wf()
    }

    pub closed spec fn loop_state(&self) -> LoopState {
        self.state
    }

    pub closed spec fn frame_phase(&self) -> FramePhase {
        self.phase
    }

    pub closed spec fn scene_spec(&self) -> Scene<C> {
        self.scene
    }

    pub closed spec fn input_spec(&self) -> InputView {
        self.input@
    }

    pub closed spec fn clock_spec(&self) -> ClockView {
        self.time@
    }

    pub closed spec fn debug_spec(&self) -> bool {
        self.show_debug
    }

    pub closed spec fn window_spec(&self) -> WindowConfig {
        self.window
    }

    /// A new engine, not yet running, over an empty scene.
    pub fn new(window: WindowConfig) -> (r: Self)
        ensures
            r.wf(),
            r.loop_state() == LoopState::Uninitialized,
            r.frame_phase() == FramePhase::Idle,
            r.scene_spec()@.entities.len() == 0,
            r.scene_spec()@.next_id == 0,
            r.scene_spec()@.name == "Default Scene"@,
            r.input_spec() == InputView::empty(),
            r.clock_spec() == ClockView::started(),
            r.debug_spec(),
            r.window_spec() == window,
    {
        Engine {
            window,
            state: LoopState::Uninitialized,
            phase: FramePhase::Idle,
            scene: Scene::default(),
            input: InputManager::new(),
            time: TimeManager::new(),
            show_debug: true,
        }
    }

    pub fn state(&self) -> (r: LoopState)
        ensures
            r == self.loop_state(),
    {
        self.state
    }

    pub fn window_config(&self) -> (r: &WindowConfig)
        ensures
            *r == self.window_spec(),
    {
        &self.window
    }

    pub fn scene(&self) -> (r: &Scene<C>)
        ensures
            *r == self.scene_spec(),
    {
        &self.scene
    }

    /// The scene, to change in place; the engine stays well-formed as long as the scene does.
    pub fn scene_mut(&mut self) -> (r: &mut Scene<C>)
        ensures
            *r == old(self).scene_spec(),
            final(self).scene_spec() == *final(r),
            final(self).loop_state() == old(self).loop_state(),
            final(self).input_spec() == old(self).input_spec(),
            final(self).clock_spec() == old(self).clock_spec(),
            final(self).debug_spec() == old(self).debug_spec(),
            final(self).window_spec() == old(self).window_spec(),
            final(self).frame_phase() == old(self).frame_phase(),
            old(self).wf() && final(r).wf() ==> final(self).wf(),
    {
        &mut self.scene
    }

    pub fn input(&self) -> (r: &InputManager)
        ensures
            r@ == self.input_spec(),
            self.wf() ==> r.wf(),
    {
        &self.input
    }

    pub fn time(&self) -> (r: &TimeManager)
        ensures
            r@ == self.clock_spec(),
    {
        &self.time
    }

    pub fn show_debug(&self) -> (r: bool)
        ensures
            r == self.debug_spec(),
    {
        self.show_debug
    }

    /// Turns the FPS figure in the window title on or off.
    pub fn set_show_debug(&mut self, show: bool)
        ensures
            final(self).debug_spec() == show,
            final(self).loop_state() == old(self).loop_state(),
            final(self).scene_spec() == old(self).scene_spec(),
            final(self).input_spec() == old(self).input_spec(),
            final(self).clock_spec() == old(self).clock_spec(),
            final(self).window_spec() == old(self).window_spec(),
            final(self).frame_phase() == old(self).frame_phase(),
            final(self).wf() == old(self).wf(),
    {
        self.show_debug = show;
    }

    /// Enters the running state, once: the host calls this when its window
    /// and renderer are up and it enters the event pump.
    pub fn start(&mut self) -> (r: Result<(), StartError>)
        ensures
            r is Ok <==> old(self).loop_state() == LoopState::Uninitialized,
            r is Ok ==> final(self).loop_state() == LoopState::Running,
            r is Err ==> r == Err::<(), StartError>(StartError::AlreadyStarted)
                && final(self).loop_state() == old(self).loop_state(),
            final(self).scene_spec() == old(self).scene_spec(),
            final(self).input_spec() == old(self).input_spec(),
            final(self).clock_spec() == old(self).clock_spec(),
            final(self).debug_spec() == old(self).debug_spec(),
            final(self).window_spec() == old(self).window_spec(),
            final(self).frame_phase() == old(self).frame_phase(),
            final(self).wf() == old(self).wf(),
    {
        match self.state {
            LoopState::Uninitialized => {
                self.state = LoopState::Running;
                Ok(())
            },
            _ => Err(StartError::AlreadyStarted),
        }
    }

    /// Applies a platform event and says what the host does next. Key and
    /// button events go to the input state at once; a close request ends the
    /// engine; outside the running state every event is ignored.
    pub fn handle_event(&mut self, ev: PlatformEvent) -> (r: LoopAction)
        requires
            old(self).frame_phase() == FramePhase::Idle,
            old(self).wf(),
        ensures
            final(self).wf(),
            r == action_for(old(self).loop_state(), ev),
            final(self).loop_state() == next_state(old(self).loop_state(), ev),
            final(self).input_spec() == input_after(old(self).loop_state(), old(self).input_spec(), ev),
            final(self).scene_spec() == old(self).scene_spec(),
            final(self).clock_spec() == old(self).clock_spec(),
            final(self).debug_spec() == old(self).debug_spec(),
            final(self).window_spec() == old(self).window_spec(),
            final(self).frame_phase() == old(self).frame_phase(),
    {
        match self.state {
            LoopState::Running => {},
            _ => {
                return LoopAction::Nothing;
            },
        }
        match ev {
            PlatformEvent::CloseRequested => {
                self.state = LoopState::Terminated;
                LoopAction::Exit
            },
            PlatformEvent::Resized(w, h) => LoopAction::ResizeSurface(w, h),
            PlatformEvent::Keyboard(k, st) => {
                self.input.handle_keyboard_input(k, st);
                LoopAction::Nothing
            },
            PlatformEvent::MouseInput(b, st) => {
                self.input.handle_mouse_button(b, st);
                LoopAction::Nothing
            },
            PlatformEvent::RedrawRequested => LoopAction::RunFrame,
            PlatformEvent::AboutToWait => LoopAction::RequestRedraw,
        }
    }

    /// First phase of a frame: updates the clock and returns the delta in nanoseconds.
    pub fn begin_frame(&mut self) -> (r: u64)
        requires
            old(self).frame_phase() == FramePhase::Idle,
            old(self).loop_state() == LoopState::Running,
            old(self).clock_spec().frame_count < u64::MAX,
        ensures
            final(self).clock_spec() == old(self).clock_spec().tick(final(self).clock_spec().last_frame),
            r == final(self).clock_spec().delta,
            final(self).loop_state() == old(self).loop_state(),
            final(self).scene_spec() == old(self).scene_spec(),
            final(self).input_spec() == old(self).input_spec(),
            final(self).debug_spec() == old(self).debug_spec(),
            final(self).window_spec() == old(self).window_spec(),
            final(self).frame_phase() == FramePhase::Clocked,
            final(self).wf() == old(self).wf(),
    {
        self.time.update();
        self.phase = FramePhase::Clocked;
        self.time.delta_nanos()
    }

    /// What the simulation callback works on: the scene, to change, and the
    /// input state, to read.
    pub fn frame_parts(&mut self) -> (r: (&mut Scene<C>, &InputManager))
        requires
            old(self).frame_phase() == FramePhase::Clocked,
        ensures
            *r.0 == old(self).scene_spec(),
            r.1@ == old(self).input_spec(),
            old(self).wf() ==> r.1.wf(),
            final(self).scene_spec() == *final(r.0),
            final(self).loop_state() == old(self).loop_state(),
            final(self).input_spec() == old(self).input_spec(),
            final(self).clock_spec() == old(self).clock_spec(),
            final(self).debug_spec() == old(self).debug_spec(),
            final(self).window_spec() == old(self).window_spec(),
            final(self).frame_phase() == old(self).frame_phase(),
            old(self).wf() && final(r.0).wf() ==> final(self).wf(),
    {
        (&mut self.scene, &self.input)
    }

    /// Takes the callback's answer: `false` terminates the engine, and no
    /// further frame runs; `true` goes on to rendering.
    pub fn after_callback(&mut self, keep_going: bool) -> (r: FrameStep)
        requires
            old(self).frame_phase() == FramePhase::Clocked,
            old(self).loop_state() == LoopState::Running,
        ensures
            !keep_going ==> r == FrameStep::Stop && final(self).loop_state() == LoopState::Terminated,
            keep_going ==> r == (FrameStep::Present { show_title: old(self).debug_spec() })
                && final(self).loop_state() == LoopState::Running,
            final(self).scene_spec() == old(self).scene_spec(),
            final(self).input_spec() == old(self).input_spec(),
            final(self).clock_spec() == old(self).clock_spec(),
            final(self).debug_spec() == old(self).debug_spec(),
            final(self).window_spec() == old(self).window_spec(),
            keep_going ==> final(self).frame_phase() == FramePhase::Presenting,
            !keep_going ==> final(self).frame_phase() == FramePhase::Idle,
            final(self).wf() == old(self).wf(),
    {
        if keep_going {
            self.phase = FramePhase::Presenting;
            FrameStep::Present { show_title: self.show_debug }
        } else {
            self.state = LoopState::Terminated;
            self.phase = FramePhase::Idle;
            FrameStep::Stop
        }
    }

    /// Last phase of a frame: clears the input edges for the next frame.
    pub fn finish_frame(&mut self)
        requires
            old(self).frame_phase() == FramePhase::Presenting,
            old(self).wf(),
        ensures
            final(self).wf(),
            final(self).input_spec() == old(self).input_spec().next_frame(),
            final(self).loop_state() == old(self).loop_state(),
            final(self).scene_spec() == old(self).scene_spec(),
            final(self).clock_spec() == old(self).clock_spec(),
            final(self).debug_spec() == old(self).debug_spec(),
            final(self).window_spec() == old(self).window_spec(),
            final(self).frame_phase() == FramePhase::Idle,
    {
        self.input.update();
        self.phase = FramePhase::Idle;
    }
}

} // verus!
