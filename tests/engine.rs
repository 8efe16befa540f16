use fix_niri_altdrag::event::{AbsType, InputEvent, KeyAction, MscType, SynType, Timestamp};
use fix_niri_altdrag::muxer::{KEYBOARD_TAG, MOUSE_TAG};
use fix_niri_altdrag::process::{
    process, Key, Remapper, BTN_LEFT, BTN_RIGHT, KEY_LEFTALT, KEY_LEFTMETA,
};

const T: Timestamp = Timestamp { sec: 100, usec: 5 };

fn key(tag: u8, code: u16, action: KeyAction) -> InputEvent {
    InputEvent::Key { tag, timestamp: T, key_code: code, action }
}

fn abs(ty: AbsType, value: i32) -> InputEvent {
    InputEvent::Abs { tag: MOUSE_TAG, timestamp: T, ty, value }
}

fn set(keys: &[Key]) -> Vec<Key> {
    let mut v = keys.to_vec();
    v.sort_by_key(|k| (k.tag, k.code));
    v
}

const ALT: Key = Key { tag: KEYBOARD_TAG, code: KEY_LEFTALT };
const SUPER: Key = Key { tag: KEYBOARD_TAG, code: KEY_LEFTMETA };
const PRIMARY: Key = Key { tag: MOUSE_TAG, code: BTN_LEFT };
const SECONDARY: Key = Key { tag: MOUSE_TAG, code: BTN_RIGHT };

#[test]
fn scenario_a_pass_through() {
    let mut r = Remapper::new(false);
    let e = key(KEYBOARD_TAG, KEY_LEFTALT, KeyAction::Press);
    let out = process(&mut r, &e);
    assert_eq!(out, vec![e]);
    assert_eq!(set(r.actual()), vec![ALT]);
    assert_eq!(set(r.desired()), vec![ALT]);
    assert_eq!(set(r.simulated()), vec![ALT]);
}

#[test]
fn scenario_b_override_remaps() {
    let mut r = Remapper::new(false);
    let a = process(&mut r, &key(KEYBOARD_TAG, KEY_LEFTALT, KeyAction::Press));
    assert_eq!(a.len(), 1);
    let s = process(&mut r, &key(KEYBOARD_TAG, KEY_LEFTMETA, KeyAction::Press));
    assert_eq!(s, vec![key(KEYBOARD_TAG, KEY_LEFTMETA, KeyAction::Press)]);
    let out = process(&mut r, &key(MOUSE_TAG, BTN_LEFT, KeyAction::Press));
    assert_eq!(set(r.actual()), set(&[ALT, SUPER, PRIMARY]));
    assert_eq!(set(r.desired()), set(&[SUPER, SECONDARY]));
    assert_eq!(set(r.simulated()), set(&[SUPER, SECONDARY]));
    // The primary press is absorbed; the secondary button is pressed and left Alt let go.
    assert_eq!(
        out,
        vec![
            key(MOUSE_TAG, BTN_RIGHT, KeyAction::Press),
            key(KEYBOARD_TAG, KEY_LEFTALT, KeyAction::Release),
        ]
    );
}

#[test]
fn scenario_c_chord_release() {
    let mut r = Remapper::new(false);
    process(&mut r, &key(KEYBOARD_TAG, KEY_LEFTALT, KeyAction::Press));
    process(&mut r, &key(KEYBOARD_TAG, KEY_LEFTMETA, KeyAction::Press));
    process(&mut r, &key(MOUSE_TAG, BTN_LEFT, KeyAction::Press));
    let out = process(&mut r, &key(MOUSE_TAG, BTN_LEFT, KeyAction::Release));
    assert_eq!(set(r.actual()), set(&[ALT, SUPER]));
    assert_eq!(set(r.desired()), set(&[ALT, SUPER]));
    assert_eq!(set(r.simulated()), set(&[ALT, SUPER]));
    // The release of the absorbed press is still forwarded, as documented.
    assert_eq!(
        out,
        vec![
            key(MOUSE_TAG, BTN_LEFT, KeyAction::Release),
            key(KEYBOARD_TAG, KEY_LEFTALT, KeyAction::Press),
            key(MOUSE_TAG, BTN_RIGHT, KeyAction::Release),
        ]
    );
}

#[test]
fn scenario_d_touchpad_emulation() {
    let mut r = Remapper::new(true);
    assert!(r.emulates_touchpad());
    process(&mut r, &key(KEYBOARD_TAG, KEY_LEFTALT, KeyAction::Press));
    process(&mut r, &key(KEYBOARD_TAG, KEY_LEFTMETA, KeyAction::Press));
    let out = process(&mut r, &key(MOUSE_TAG, BTN_LEFT, KeyAction::Press));
    assert_eq!(set(r.desired()), set(&[SUPER, PRIMARY, SECONDARY]));
    assert_eq!(set(r.simulated()), set(&[SUPER, PRIMARY, SECONDARY]));
    assert_eq!(
        out,
        vec![
            key(MOUSE_TAG, BTN_LEFT, KeyAction::Press),
            abs(AbsType::MultitouchSlot, 255),
            abs(AbsType::MultitouchTrackingId, 0),
            abs(AbsType::MultitouchPosX, 1320),
            abs(AbsType::MultitouchPosY, 860),
            key(KEYBOARD_TAG, KEY_LEFTALT, KeyAction::Release),
        ]
    );
    // Letting go of left Super ends the chord: the finger lifts and left Alt comes back.
    let out = process(&mut r, &key(KEYBOARD_TAG, KEY_LEFTMETA, KeyAction::Release));
    assert_eq!(
        out,
        vec![
            key(KEYBOARD_TAG, KEY_LEFTMETA, KeyAction::Release),
            key(KEYBOARD_TAG, KEY_LEFTALT, KeyAction::Press),
            abs(AbsType::MultitouchSlot, 255),
            abs(AbsType::MultitouchTrackingId, -1),
        ]
    );
    assert_eq!(set(r.simulated()), set(&[ALT, PRIMARY]));
}

#[test]
fn scan_codes_are_dropped() {
    let mut r = Remapper::new(false);
    process(&mut r, &key(KEYBOARD_TAG, KEY_LEFTALT, KeyAction::Press));
    let scan = InputEvent::Msc { tag: KEYBOARD_TAG, timestamp: T, ty: MscType::Scan, value: 56 };
    assert_eq!(process(&mut r, &scan), vec![]);
    assert_eq!(set(r.actual()), vec![ALT]);
    let other = InputEvent::Msc { tag: KEYBOARD_TAG, timestamp: T, ty: MscType::Other(5), value: 1 };
    assert_eq!(process(&mut r, &other), vec![other]);
}

#[test]
fn other_events_pass_through() {
    let mut r = Remapper::new(false);
    let syn = InputEvent::Syn { tag: MOUSE_TAG, timestamp: T, ty: SynType::Sync, value: 0 };
    assert_eq!(process(&mut r, &syn), vec![syn]);
    let repeat = key(KEYBOARD_TAG, 30, KeyAction::Autorepeat);
    assert_eq!(process(&mut r, &repeat), vec![repeat]);
    assert!(r.actual().is_empty());
    assert!(r.simulated().is_empty());
}

#[test]
fn same_code_on_two_tags_are_two_keys() {
    let mut r = Remapper::new(false);
    process(&mut r, &key(KEYBOARD_TAG, 56, KeyAction::Press));
    process(&mut r, &key(MOUSE_TAG, 56, KeyAction::Press));
    assert_eq!(r.actual().len(), 2);
    process(&mut r, &key(MOUSE_TAG, 56, KeyAction::Release));
    assert_eq!(set(r.actual()), vec![ALT]);
}

#[test]
fn repeated_press_is_one_key() {
    let mut r = Remapper::new(false);
    process(&mut r, &key(KEYBOARD_TAG, 30, KeyAction::Press));
    process(&mut r, &key(KEYBOARD_TAG, 30, KeyAction::Press));
    assert_eq!(r.actual().len(), 1);
    assert_eq!(r.simulated().len(), 1);
}

/// Replays the written key events and finger contacts, and compares them with what the
/// engine believes it presents as held.
#[test]
fn press_release_balance_on_a_long_sequence() {
    for touchpad in [false, true] {
        let mut r = Remapper::new(touchpad);
        let mut held: Vec<Key> = Vec::new();
        let codes: [(u8, u16); 4] =
            [(KEYBOARD_TAG, KEY_LEFTALT), (KEYBOARD_TAG, KEY_LEFTMETA), (MOUSE_TAG, BTN_LEFT), (KEYBOARD_TAG, 30)];
        let mut seed: u32 = 12345;
        for _ in 0..400 {
            seed = seed.wrapping_mul(1103515245).wrapping_add(12345);
            let (tag, code) = codes[((seed >> 16) % 4) as usize];
            let action = if (seed >> 8) % 2 == 0 { KeyAction::Press } else { KeyAction::Release };
            let out = process(&mut r, &key(tag, code, action));
            let mut finger_slot = false;
            for e in out {
                match e {
                    InputEvent::Key { tag, key_code, action, .. } => {
                        let k = Key { tag, code: key_code };
                        if action == KeyAction::Press && !held.contains(&k) {
                            held.push(k);
                        } else if action == KeyAction::Release {
                            held.retain(|h| *h != k);
                        }
                    }
                    InputEvent::Abs { ty: AbsType::MultitouchSlot, value, .. } => {
                        finger_slot = value == 255;
                    }
                    InputEvent::Abs { ty: AbsType::MultitouchTrackingId, value, .. } if finger_slot => {
                        if value == 0 {
                            held.push(SECONDARY);
                        } else {
                            held.retain(|h| *h != SECONDARY);
                        }
                    }
                    _ => {}
                }
            }
            assert_eq!(set(&held), set(r.simulated()));
            assert_eq!(set(r.simulated()), set(r.desired()));
        }
    }
}
