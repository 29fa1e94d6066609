//! Event normalization: classifying one raw display-server event record
//! into a small closed set of semantic events, with suppression of the
//! spurious notifications that would otherwise cause focus storms.

use vstd::prelude::*;

verus! {

/// An opaque, comparable window handle owned by the display server; the
/// core never allocates or frees one, it only holds and compares them.
pub type Window = u64;

/// Numeric type tags of the raw display-server events the core acts on.
pub const KEY_PRESS: i32 = 2;

pub const ENTER_NOTIFY: i32 = 7;

pub const FOCUS_OUT: i32 = 10;

pub const DESTROY: i32 = 17;

pub const MAP_REQUEST: i32 = 20;

pub const CONFIGURE_REQUEST: i32 = 23;

/// Detail code of an EnterNotify fired because the pointer left through
/// an inferior window: suppressed, or destroying a window under the
/// cursor would set off a focus-follows-pointer storm.
pub const DETAIL_INFERIOR: u32 = 2;

/// Detail code of a FocusOut fired by an input grab: suppressed, or a
/// modifier-key grab would spuriously unfocus the active window.
pub const DETAIL_GRAB: u32 = 5;

/// Identity under which a key binding is looked up: a modifier bitmask
/// plus the backend's name for the key.
pub struct Keystroke {
    pub mods: u8,
    pub key: String,
}

impl PartialEq for Keystroke {
    /// Two keystrokes are the same binding identity when the masks and
    /// the key names agree.
    fn eq(&self, other: &Keystroke) -> (r: bool) {
        self.mods == other.mods && self.key == other.key
    }
}

impl vstd::std_specs::cmp::PartialEqSpecImpl for Keystroke {
    open spec fn obeys_eq_spec() -> bool {
        true
    }

    open spec fn eq_spec(&self, other: &Keystroke) -> bool {
        self.mods == other.mods && self.key@ == other.key@
    }
}

/// A client-requested geometry change, paired by its event with a
/// bitmask saying which fields are meaningful. Constructed from one
/// event, consumed by one reconfiguration call, then discarded.
#[derive(Clone, Copy, PartialEq, Eq, Structural, Debug)]
pub struct WindowChanges {
    pub x: u32,
    pub y: u32,
    pub width: u32,
    pub height: u32,
    pub border_width: u32,
    pub sibling: Window,
    pub stack_mode: u32,
}

/// The fields of one raw display-server event record, read out of the
/// backend's union representation: the numeric type tag plus every field
/// any classification arm looks at.
#[derive(Clone, Copy, PartialEq, Eq, Structural, Debug)]
pub struct RawEvent {
    pub evt_type: i32,
    pub window: Window,
    pub x: u32,
    pub y: u32,
    pub width: u32,
    pub height: u32,
    pub border_width: u32,
    pub above: Window,
    pub detail: u32,
    pub value_mask: u64,
    pub state: u32,
    pub keycode: u32,
}

/// The closed set of semantic events: exactly one is produced per raw
/// event, and `Ignored` carries no payload and triggers no dispatch.
pub enum XlibEvent {
    XMapRequest(Window),
    XConfigurationRequest(Window, WindowChanges, u64),
    XDestroy(Window),
    XEnterNotify(Window),
    XFocusOut(Window),
    XKeyPress(Window, Keystroke),
    Ignored,
}

/// The geometry-change payload a ConfigureRequest record carries.
pub open spec fn spec_changes_of(raw: RawEvent) -> WindowChanges {
    WindowChanges {
        x: raw.x,
        y: raw.y,
        width: raw.width,
        height: raw.height,
        border_width: raw.border_width,
        sibling: raw.above,
        stack_mode: raw.detail,
    }
}

/// One of the six recognized type tags; every other raw event becomes
/// `Ignored`.
pub open spec fn recognized(t: i32) -> bool {
    t == MAP_REQUEST || t == CONFIGURE_REQUEST || t == DESTROY || t == ENTER_NOTIFY || t
        == FOCUS_OUT || t == KEY_PRESS
}

impl XlibEvent {
    /// Classifies one raw record: a total, exhaustive mapping from the
    /// numeric type tag to the matching semantic event, with the two
    /// mandatory duplicate-suppression rules. `key_name` is the
    /// backend's name for `raw.keycode` and is consumed only by the
    /// KeyPress arm. Registering a newly mapped window for further
    /// event classes is the caller's side effect and must happen before
    /// the returned value is acted on.
    pub fn normalize(raw: &RawEvent, key_name: String) -> (r: XlibEvent)
        ensures
            raw.evt_type == MAP_REQUEST ==> r == XlibEvent::XMapRequest(raw.window),
            raw.evt_type == CONFIGURE_REQUEST ==> r == XlibEvent::XConfigurationRequest(
                raw.window,
                spec_changes_of(*raw),
                raw.value_mask,
            ),
            raw.evt_type == DESTROY ==> r == XlibEvent::XDestroy(raw.window),
            raw.evt_type == ENTER_NOTIFY && raw.detail == DETAIL_INFERIOR ==> r
                == XlibEvent::Ignored,
            raw.evt_type == ENTER_NOTIFY && raw.detail != DETAIL_INFERIOR ==> r
                == XlibEvent::XEnterNotify(raw.window),
            raw.evt_type == FOCUS_OUT && raw.detail == DETAIL_GRAB ==> r == XlibEvent::Ignored,
            raw.evt_type == FOCUS_OUT && raw.detail != DETAIL_GRAB ==> r == XlibEvent::XFocusOut(
                raw.window,
            ),
            raw.evt_type == KEY_PRESS ==> (r matches XlibEvent::XKeyPress(win, ks) && win
                == raw.window && ks.mods == (raw.state & 0xff) as u8 && ks.key@ == key_name@),
            !recognized(raw.evt_type) ==> r == XlibEvent::Ignored,
    {
        if raw.evt_type == MAP_REQUEST {
            XlibEvent::XMapRequest(raw.window)
        } else if raw.evt_type == CONFIGURE_REQUEST {
            let changes = WindowChanges {
                x: raw.x,
                y: raw.y,
                width: raw.width,
                height: raw.height,
                border_width: raw.border_width,
                sibling: raw.above,
                stack_mode: raw.detail,
            };
            XlibEvent::XConfigurationRequest(raw.window, changes, raw.value_mask)
        } else if raw.evt_type == DESTROY {
            XlibEvent::XDestroy(raw.window)
        } else if raw.evt_type == ENTER_NOTIFY {
            if raw.detail != DETAIL_INFERIOR {
                XlibEvent::XEnterNotify(raw.window)
            } else {
                XlibEvent::Ignored
            }
        } else if raw.evt_type == FOCUS_OUT {
            if raw.detail != DETAIL_GRAB {
                XlibEvent::XFocusOut(raw.window)
            } else {
                XlibEvent::Ignored
            }
        } else if raw.evt_type == KEY_PRESS {
            let mods: u8 = (raw.state & 0xff) as u8;
            XlibEvent::XKeyPress(raw.window, Keystroke { mods, key: key_name })
        } else {
            XlibEvent::Ignored
        }
    }
}

} // verus!
