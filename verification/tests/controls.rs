use r_flightsim::controls::{key_axis, key_command, ControlKey, FlyingKey, HeldKeys, KeyCommand};
use r_flightsim::tts::{assignment_for, build_assignments, clamp_voice, queue_clip, VoiceAssignment};
use std::collections::VecDeque;

#[test]
fn flying_keys_dispatch() {
    assert_eq!(key_command(FlyingKey::Escape, true), KeyCommand::ReturnToMenu);
    assert_eq!(key_command(FlyingKey::F11, true), KeyCommand::ToggleFullscreen);
    assert_eq!(key_command(FlyingKey::KeyC, true), KeyCommand::CenterView);
    assert_eq!(key_command(FlyingKey::KeyP, true), KeyCommand::CycleStars);
    assert_eq!(
        key_command(FlyingKey::Control(ControlKey::KeyB), true),
        KeyCommand::Hold(ControlKey::KeyB)
    );
    assert_eq!(
        key_command(FlyingKey::Control(ControlKey::KeyB), false),
        KeyCommand::Release(ControlKey::KeyB)
    );
    assert_eq!(key_command(FlyingKey::Escape, false), KeyCommand::Ignore);
    assert_eq!(key_command(FlyingKey::Other, true), KeyCommand::Ignore);
}

#[test]
fn held_keys_give_control_input() {
    let mut held = HeldKeys::new();
    let c = held.control_input();
    assert_eq!((c.elevator, c.aileron, c.rudder), (0, 0, 0));
    assert!(!c.throttle_up && !c.throttle_down && !c.brakes);

    held.key_down(ControlKey::ArrowUp);
    held.key_down(ControlKey::ArrowLeft);
    held.key_down(ControlKey::ShiftLeft);
    held.key_down(ControlKey::KeyB);
    held.key_down(ControlKey::KeyB);
    let c = held.control_input();
    assert_eq!(c.elevator, 1);
    assert_eq!(c.aileron, -1);
    assert_eq!(c.rudder, 0);
    assert!(c.throttle_up && !c.throttle_down && c.brakes);

    // Both arrows cancel out.
    held.key_down(ControlKey::ArrowDown);
    assert_eq!(held.control_input().elevator, 0);

    held.key_up(ControlKey::KeyB);
    assert!(!held.is_held(ControlKey::KeyB));
    assert!(!held.control_input().brakes);
    held.key_up(ControlKey::KeyZ);
    assert!(held.is_held(ControlKey::ArrowUp));
}

#[test]
fn axis_values() {
    assert_eq!(key_axis(true, false), 1);
    assert_eq!(key_axis(false, true), -1);
    assert_eq!(key_axis(true, true), 0);
    assert_eq!(key_axis(false, false), 0);
}

#[test]
fn voice_lookup_and_clamp() {
    let m = build_assignments(3);
    assert_eq!(
        assignment_for(&m, 101),
        Some(VoiceAssignment { voice_index: 1, speed_milli: 1230 })
    );
    assert_eq!(assignment_for(&m, 150), None);
    assert_eq!(clamp_voice(7, 3), 2);
    assert_eq!(clamp_voice(1, 3), 1);
    assert_eq!(clamp_voice(0, 1), 0);
}

#[test]
fn clip_queue_drops_oldest() {
    let mut q: VecDeque<u32> = VecDeque::new();
    for i in 0..10 {
        queue_clip(&mut q, i);
        assert!(q.len() <= 6);
    }
    assert_eq!(q.iter().copied().collect::<Vec<_>>(), vec![4, 5, 6, 7, 8, 9]);
}
