use nes::input::{Input, InputEvent, InputResult, Key, StrobeState};
use nes::mem::Mem;

#[test]
fn keys_move_the_pad() {
    let mut input = Input::new();
    assert!(input.handle_event(InputEvent::KeyDown(Key::Z)).is_none());
    assert!(input.gamepad_0.a);
    assert!(input.handle_event(InputEvent::KeyDown(Key::Return)).is_none());
    assert!(input.gamepad_0.start);
    assert!(input.handle_event(InputEvent::KeyDown(Key::RShift)).is_none());
    assert!(input.gamepad_0.select);
    assert!(input.handle_event(InputEvent::KeyDown(Key::Left)).is_none());
    assert!(input.gamepad_0.left);
    assert!(input.handle_event(InputEvent::KeyUp(Key::Z)).is_none());
    assert!(!input.gamepad_0.a);
    assert!(input.handle_event(InputEvent::KeyDown(Key::Other)).is_none());
    assert!(input.handle_event(InputEvent::Other).is_none());
}

#[test]
fn documented_controls() {
    let mut input = Input::new();
    for key in [Key::Z, Key::X, Key::Return, Key::RShift, Key::Up, Key::Down, Key::Left, Key::Right] {
        assert!(input.handle_event(InputEvent::KeyDown(key)).is_none());
    }
    let g = input.gamepad_0;
    assert!(g.a && g.b && g.start && g.select && g.up && g.down && g.left && g.right);
    for key in [Key::Z, Key::X, Key::Return, Key::RShift, Key::Up, Key::Down, Key::Left, Key::Right] {
        input.handle_event(InputEvent::KeyUp(key));
    }
    let g = input.gamepad_0;
    assert!(!(g.a || g.b || g.start || g.select || g.up || g.down || g.left || g.right));
}

#[test]
fn control_keys() {
    let mut input = Input::new();
    assert!(input.handle_event(InputEvent::KeyDown(Key::Escape)) == Some(InputResult::Quit));
    assert!(input.handle_event(InputEvent::KeyDown(Key::S)) == Some(InputResult::SaveState));
    assert!(input.handle_event(InputEvent::KeyDown(Key::L)) == Some(InputResult::LoadState));
    assert!(input.handle_event(InputEvent::Quit) == Some(InputResult::Quit));
    // A key release of a control key is ignored.
    assert!(input.handle_event(InputEvent::KeyUp(Key::Escape)).is_none());
}

#[test]
fn strobe_reads_buttons_in_order() {
    let mut input = Input::new();
    input.gamepad_0.a = true;
    input.gamepad_0.start = true;
    input.gamepad_0.down = true;
    input.gamepad_0.right = true;
    input.storeb(0x4016, 1);
    let reads: Vec<u8> = (0..8).map(|_| input.loadb(0x4016)).collect();
    assert_eq!(reads, vec![1, 0, 0, 1, 0, 1, 0, 1]);
    // The ninth read starts over at A.
    assert_eq!(input.loadb(0x4016), 1);
}

#[test]
fn strobe_resets_mid_sequence() {
    let mut input = Input::new();
    input.gamepad_0.a = true;
    input.loadb(0x4016);
    input.loadb(0x4016);
    input.storeb(0x4016, 0);
    assert_eq!(input.loadb(0x4016), 1);
}

#[test]
fn other_addresses_read_zero() {
    let mut input = Input::new();
    input.gamepad_0.a = true;
    assert_eq!(input.loadb(0x4017), 0);
    assert_eq!(input.gamepad_0.strobe_state.val, 0);
}

#[test]
fn strobe_state_cycles() {
    let mut s = StrobeState { val: 7 };
    s.next();
    assert_eq!(s.val, 0);
    s.next();
    assert_eq!(s.val, 1);
    s.reset();
    assert_eq!(s.val, 0);
}
