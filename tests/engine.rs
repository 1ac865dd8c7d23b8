use my_engine::config::WindowConfig;
use my_engine::engine::{Engine, FrameStep, LoopAction, LoopState, PlatformEvent, StartError};
use my_engine::input::{ElementState, Key, MouseButton};

#[derive(Debug)]
struct NoComponents;

fn window() -> WindowConfig {
    WindowConfig {
        title: "Test".to_string(),
        width: 1280,
        height: 720,
        fullscreen: false,
        resizable: true,
        vsync: true,
    }
}

/// Runs the phases of one frame with `callback`; returns whether the frame was presented.
fn run_frame(
    engine: &mut Engine<NoComponents>,
    callback: &mut dyn FnMut(&mut my_engine::ecs::Scene<NoComponents>, &my_engine::input::InputManager, u64) -> bool,
) -> bool {
    let delta = engine.begin_frame();
    let keep_going = {
        let (scene, input) = engine.frame_parts();
        callback(scene, input, delta)
    };
    match engine.after_callback(keep_going) {
        FrameStep::Stop => false,
        FrameStep::Present { .. } => {
            engine.finish_frame();
            true
        }
    }
}

#[test]
fn escape_stops_the_loop() {
    let mut engine: Engine<NoComponents> = Engine::new(window());
    assert_eq!(engine.state(), LoopState::Uninitialized);
    assert_eq!(engine.scene().name(), "Default Scene");
    assert_eq!(engine.scene().entity_count(), 0);
    assert_eq!(engine.start(), Ok(()));
    let mut calls = 0;
    let mut callback = |_scene: &mut my_engine::ecs::Scene<NoComponents>,
                        input: &my_engine::input::InputManager,
                        _delta: u64| {
        calls += 1;
        !input.key_just_pressed(Key::Escape)
    };
    assert_eq!(engine.handle_event(PlatformEvent::RedrawRequested), LoopAction::RunFrame);
    assert!(run_frame(&mut engine, &mut callback));
    engine.handle_event(PlatformEvent::Keyboard(Key::Escape, ElementState::Pressed));
    assert_eq!(engine.handle_event(PlatformEvent::RedrawRequested), LoopAction::RunFrame);
    assert!(!run_frame(&mut engine, &mut callback));
    assert_eq!(engine.state(), LoopState::Terminated);
    assert_eq!(engine.handle_event(PlatformEvent::RedrawRequested), LoopAction::Nothing);
    assert_eq!(engine.handle_event(PlatformEvent::AboutToWait), LoopAction::Nothing);
    assert_eq!(calls, 2);
}

#[test]
fn start_only_once() {
    let mut engine: Engine<NoComponents> = Engine::new(window());
    assert_eq!(engine.handle_event(PlatformEvent::RedrawRequested), LoopAction::Nothing);
    assert_eq!(engine.start(), Ok(()));
    assert_eq!(engine.start(), Err(StartError::AlreadyStarted));
    assert_eq!(engine.state(), LoopState::Running);
}

#[test]
fn events_become_actions() {
    let mut engine: Engine<NoComponents> = Engine::new(window());
    engine.start().unwrap();
    assert_eq!(engine.handle_event(PlatformEvent::Resized(800, 600)), LoopAction::ResizeSurface(800, 600));
    assert_eq!(engine.handle_event(PlatformEvent::AboutToWait), LoopAction::RequestRedraw);
    assert_eq!(
        engine.handle_event(PlatformEvent::MouseInput(MouseButton::Left, ElementState::Pressed)),
        LoopAction::Nothing
    );
    assert!(engine.input().mouse_button_just_pressed(MouseButton::Left));
    assert_eq!(engine.handle_event(PlatformEvent::CloseRequested), LoopAction::Exit);
    assert_eq!(engine.state(), LoopState::Terminated);
}

#[test]
fn frame_phases_clear_edges_and_count_frames() {
    let mut engine: Engine<NoComponents> = Engine::new(window());
    engine.start().unwrap();
    engine.set_show_debug(false);
    assert!(!engine.show_debug());
    engine.handle_event(PlatformEvent::Keyboard(Key::KeyD, ElementState::Pressed));
    engine.begin_frame();
    let keep_going = {
        let (scene, input) = engine.frame_parts();
        scene.create_entity("spawned".to_string());
        input.key_just_pressed(Key::KeyD)
    };
    assert_eq!(engine.after_callback(keep_going), FrameStep::Present { show_title: false });
    engine.finish_frame();
    assert!(!engine.input().key_just_pressed(Key::KeyD));
    assert!(engine.input().key_pressed(Key::KeyD));
    assert_eq!(engine.time().frame_count(), 1);
    assert_eq!(engine.scene().entity_count(), 1);
    assert_eq!(engine.window_config().title, "Test");
    assert_eq!(engine.scene_mut().create_entity("more".to_string()), 1);
}
