use fix_niri_altdrag::muxer::{get_tag_from_name, OutputRegistry, KEYBOARD_TAG, MOUSE_TAG};

#[test]
fn tag_names() {
    assert_eq!(get_tag_from_name("kbd"), Some(KEYBOARD_TAG));
    assert_eq!(get_tag_from_name("mouse"), Some(MOUSE_TAG));
    assert_eq!(get_tag_from_name("Kbd"), None);
    assert_eq!(get_tag_from_name("mouse "), None);
    assert_eq!(get_tag_from_name(""), None);
    assert_eq!(get_tag_from_name("touchpad"), None);
}

#[test]
fn registration_opens_one_channel_per_tag() {
    let mut reg = OutputRegistry::new();
    assert_eq!(reg.route(MOUSE_TAG), None);
    assert_eq!(reg.register(MOUSE_TAG), Some(0));
    assert_eq!(reg.register(MOUSE_TAG), None);
    assert_eq!(reg.register(KEYBOARD_TAG), Some(1));
    assert_eq!(reg.len(), 2);
    assert_eq!(reg.route(MOUSE_TAG), Some(0));
    assert_eq!(reg.route(KEYBOARD_TAG), Some(1));
    assert_eq!(reg.route(7), None);
}
