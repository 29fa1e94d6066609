use xr3wm::events::Keystroke;
use xr3wm::events::{
    RawEvent, XlibEvent, CONFIGURE_REQUEST, DESTROY, DETAIL_GRAB, DETAIL_INFERIOR, ENTER_NOTIFY,
    FOCUS_OUT, KEY_PRESS, MAP_REQUEST,
};

fn raw(evt_type: i32, window: u64, detail: u32) -> RawEvent {
    RawEvent {
        evt_type,
        window,
        x: 0,
        y: 0,
        width: 0,
        height: 0,
        border_width: 0,
        above: 0,
        detail,
        value_mask: 0,
        state: 0,
        keycode: 0,
    }
}

#[test]
fn map_request_normalizes_to_map_request() {
    let e = XlibEvent::normalize(&raw(MAP_REQUEST, 77, 0), String::new());
    assert!(matches!(e, XlibEvent::XMapRequest(77)));
}

#[test]
fn destroy_normalizes_to_destroy() {
    let e = XlibEvent::normalize(&raw(DESTROY, 9, 0), String::new());
    assert!(matches!(e, XlibEvent::XDestroy(9)));
}

#[test]
fn configure_request_carries_geometry_and_mask() {
    let mut r = raw(CONFIGURE_REQUEST, 5, 4);
    r.x = 10;
    r.y = 20;
    r.width = 300;
    r.height = 200;
    r.border_width = 2;
    r.above = 8;
    r.value_mask = 0b1111;
    match XlibEvent::normalize(&r, String::new()) {
        XlibEvent::XConfigurationRequest(window, changes, mask) => {
            assert_eq!(window, 5);
            assert_eq!(mask, 0b1111);
            assert_eq!(changes.x, 10);
            assert_eq!(changes.y, 20);
            assert_eq!(changes.width, 300);
            assert_eq!(changes.height, 200);
            assert_eq!(changes.border_width, 2);
            assert_eq!(changes.sibling, 8);
            assert_eq!(changes.stack_mode, 4);
        },
        _ => panic!("wrong semantic event"),
    }
}

#[test]
fn enter_notify_via_inferior_is_ignored() {
    let e = XlibEvent::normalize(&raw(ENTER_NOTIFY, 12, DETAIL_INFERIOR), String::new());
    assert!(matches!(e, XlibEvent::Ignored));
}

#[test]
fn enter_notify_other_details_pass_through() {
    for detail in [0u32, 1, 3, 4, 5, 99] {
        let e = XlibEvent::normalize(&raw(ENTER_NOTIFY, 12, detail), String::new());
        assert!(matches!(e, XlibEvent::XEnterNotify(12)));
    }
}

#[test]
fn focus_out_from_grab_is_ignored() {
    let e = XlibEvent::normalize(&raw(FOCUS_OUT, 4, DETAIL_GRAB), String::new());
    assert!(matches!(e, XlibEvent::Ignored));
}

#[test]
fn focus_out_other_details_pass_through() {
    for detail in [0u32, 1, 2, 3, 4, 6, 250] {
        let e = XlibEvent::normalize(&raw(FOCUS_OUT, 4, detail), String::new());
        assert!(matches!(e, XlibEvent::XFocusOut(4)));
    }
}

#[test]
fn key_press_builds_keystroke_from_state_and_name() {
    let mut r = raw(KEY_PRESS, 30, 0);
    r.state = 0x14d; // only the low byte is a modifier mask
    r.keycode = 38;
    match XlibEvent::normalize(&r, String::from("a")) {
        XlibEvent::XKeyPress(window, ks) => {
            assert_eq!(window, 30);
            assert_eq!(ks.mods, 0x4d);
            assert_eq!(ks.key, "a");
        },
        _ => panic!("wrong semantic event"),
    }
}

#[test]
fn unrecognized_tags_are_ignored() {
    for tag in [0i32, 1, 3, 6, 8, 9, 11, 16, 18, 19, 21, 22, 24, 35, -1] {
        let e = XlibEvent::normalize(&raw(tag, 99, 0), String::new());
        assert!(matches!(e, XlibEvent::Ignored), "tag {tag} must be ignored");
    }
}

#[test]
fn keystrokes_compare_by_mask_and_name() {
    let a = Keystroke { mods: 0x40, key: String::from("j") };
    let b = Keystroke { mods: 0x40, key: String::from("j") };
    let c = Keystroke { mods: 0x41, key: String::from("j") };
    let d = Keystroke { mods: 0x40, key: String::from("k") };
    assert!(a == b);
    assert!(a != c);
    assert!(a != d);
}
