use chip8::{keypad_key, keypad_state, pixel_color};

#[test]
fn keypad_layout() {
    let host = "1234QWERASDFZXCV";
    let pad = [0x1, 0x2, 0x3, 0xC, 0x4, 0x5, 0x6, 0xD, 0x7, 0x8, 0x9, 0xE, 0xA, 0x0, 0xB, 0xF];
    for (c, k) in host.chars().zip(pad.iter()) {
        assert_eq!(keypad_key(c), Some(*k));
    }
    assert_eq!(keypad_key('5'), None);
    assert_eq!(keypad_key('G'), None);
}

#[test]
fn keypad_state_from_pressed_keys() {
    let keys = keypad_state(&['X', 'V', 'P', 'X']);
    for k in 0..16 {
        assert_eq!(keys[k], k == 0x0 || k == 0xF);
    }
    assert_eq!(keypad_state(&[]), [false; 16]);
}

#[test]
fn pixel_colors() {
    assert_eq!(pixel_color(0), (0, 0, 0));
    assert_eq!(pixel_color(1), (255, 255, 255));
}
