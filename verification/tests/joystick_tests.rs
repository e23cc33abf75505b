use pijoy::config::parse_config;
use pijoy::errors::JoyError;
use pijoy::joystick::{Joystick, JoystickState, Step};
use pijoy::keys::{translate, Button, KeyEvent, Level};

#[test]
fn startup_claims_all_pins_in_order() {
    let mut j = Joystick::new([2, 3, 4, 5, 6, 12, 13, 16]);
    assert_eq!(j.init(), Ok(()));
    assert_eq!(j.pins, vec![2, 3, 4, 5, 6, 12, 13, 16]);
    assert_eq!(j.callbacks, vec![0, 1, 2, 3, 4, 5, 6, 7]);
    assert!(j.gpio);
    assert!(j.vdevice);
}

#[test]
fn startup_duplicate_pin_fails() {
    let mut j = Joystick::new([2, 3, 4, 5, 6, 12, 13, 2]);
    assert_eq!(j.init(), Err(JoyError::PinClaimError));
    assert!(j.pins.is_empty());
    assert!(j.callbacks.is_empty());
    assert!(!j.gpio);
    assert!(!j.vdevice);
}

#[test]
fn shutdown_without_startup_is_harmless() {
    let mut j = Joystick::new([2, 3, 4, 5, 6, 12, 13, 16]);
    j.deinit();
    j.deinit();
    assert!(j.pins.is_empty());
    assert!(j.callbacks.is_empty());
    assert!(!j.gpio);
    assert!(!j.vdevice);
    assert_eq!(j.buttons, [2, 3, 4, 5, 6, 12, 13, 16]);
}

#[test]
fn shutdown_after_startup_releases_everything() {
    let mut j = Joystick::new([2, 3, 4, 5, 6, 12, 13, 16]);
    assert_eq!(j.init(), Ok(()));
    j.deinit();
    assert!(j.pins.is_empty());
    assert!(j.callbacks.is_empty());
    assert!(!j.gpio);
    assert!(!j.vdevice);
}

#[test]
fn translator_emits_the_configured_codes() {
    let codes: [u16; 8] = [0x220, 0x222, 0x221, 0x223, 0x131, 0x130, 0x13b, 0x13a];
    for i in 0..8 {
        let pressed = translate(i, Level::Low);
        assert_eq!(pressed.code, codes[i]);
        assert_eq!(pressed.value, 1);
        let released = translate(i, Level::High);
        assert_eq!(released.code, codes[i]);
        assert_eq!(released.value, 0);
    }
}

#[test]
fn button_table_order_and_codes() {
    assert_eq!(Button::at(0), Button::DpadUp);
    assert_eq!(Button::at(1), Button::DpadLeft);
    assert_eq!(Button::at(2), Button::DpadDown);
    assert_eq!(Button::at(3), Button::DpadRight);
    assert_eq!(Button::at(4), Button::East);
    assert_eq!(Button::at(5), Button::South);
    assert_eq!(Button::at(6), Button::Start);
    assert_eq!(Button::at(7), Button::Select);
    assert_eq!(Button::DpadUp.code(), 0x220);
    assert_eq!(Button::Select.code(), 0x13a);
}

#[test]
fn end_to_end_press_and_release_on_first_button() {
    let text: Vec<u8> = b"buttons = [2,3,4,5,6,12,13,16]".to_vec();
    let mut j = parse_config(&text).expect("config should parse");
    assert_eq!(j.init(), Ok(()));
    j.handle_edge(0, Level::Low);
    j.handle_edge(0, Level::High);
    assert_eq!(
        j.emitted,
        vec![
            KeyEvent { code: 0x220, value: 1 },
            KeyEvent { code: 0x220, value: 0 },
        ]
    );
    for ev in &j.emitted {
        assert_eq!(ev.code, 0x220);
    }
}

#[test]
fn simultaneous_edges_on_two_pins_one_order() {
    let mut j = Joystick::new([2, 3, 4, 5, 6, 12, 13, 16]);
    assert_eq!(j.init(), Ok(()));
    let edges: Vec<(usize, Level)> =
        vec![(0, Level::Low), (3, Level::Low), (0, Level::High), (3, Level::High)];
    j.handle_edges(&edges);
    assert_eq!(
        j.emitted,
        vec![
            KeyEvent { code: 0x220, value: 1 },
            KeyEvent { code: 0x223, value: 1 },
            KeyEvent { code: 0x220, value: 0 },
            KeyEvent { code: 0x223, value: 0 },
        ]
    );
}

#[test]
fn simultaneous_edges_on_two_pins_other_order() {
    let mut j = Joystick::new([2, 3, 4, 5, 6, 12, 13, 16]);
    assert_eq!(j.init(), Ok(()));
    let edges: Vec<(usize, Level)> =
        vec![(3, Level::Low), (0, Level::Low), (3, Level::High), (0, Level::High)];
    j.handle_edges(&edges);
    assert_eq!(
        j.emitted,
        vec![
            KeyEvent { code: 0x223, value: 1 },
            KeyEvent { code: 0x220, value: 1 },
            KeyEvent { code: 0x223, value: 0 },
            KeyEvent { code: 0x220, value: 0 },
        ]
    );
    let pair_up: Vec<&KeyEvent> = j.emitted.iter().filter(|e| e.code == 0x220).collect();
    let pair_right: Vec<&KeyEvent> = j.emitted.iter().filter(|e| e.code == 0x223).collect();
    assert_eq!(pair_up.len(), 2);
    assert_eq!(pair_right.len(), 2);
    assert!(pair_up[0].value == 1 && pair_up[1].value == 0);
    assert!(pair_right[0].value == 1 && pair_right[1].value == 0);
}

#[test]
fn default_state_has_all_buttons_released() {
    let s = JoystickState::default();
    assert_eq!(s.buttons, [false; 8]);
}

#[test]
fn startup_steps_follow_the_strict_order() {
    let j = Joystick::new([2, 3, 4, 5, 6, 12, 13, 16]);
    let steps = j.startup_steps();
    assert_eq!(steps.len(), 18);
    assert_eq!(steps[0], Step::OpenGpio);
    assert_eq!(steps[1], Step::CreateDevice);
    let pins = [2u8, 3, 4, 5, 6, 12, 13, 16];
    for i in 0..8 {
        assert_eq!(steps[2 + 2 * i], Step::ClaimPin { index: i, pin: pins[i] });
        assert_eq!(steps[3 + 2 * i], Step::AttachInterrupt { index: i });
    }
}

#[test]
fn shutdown_steps_with_nothing_attached() {
    let j = Joystick::new([2, 3, 4, 5, 6, 12, 13, 16]);
    let steps = j.shutdown_steps();
    assert_eq!(steps, vec![Step::ReleasePins, Step::ReleaseGpio, Step::ReleaseDevice]);
}

#[test]
fn shutdown_steps_after_startup() {
    let mut j = Joystick::new([2, 3, 4, 5, 6, 12, 13, 16]);
    assert_eq!(j.init(), Ok(()));
    let steps = j.shutdown_steps();
    assert_eq!(steps.len(), 11);
    for i in 0..8 {
        assert_eq!(steps[i], Step::DetachInterrupt { index: i });
    }
    assert_eq!(steps[8], Step::ReleasePins);
    assert_eq!(steps[9], Step::ReleaseGpio);
    assert_eq!(steps[10], Step::ReleaseDevice);
}
