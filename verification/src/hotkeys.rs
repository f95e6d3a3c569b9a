//! Virtual-key codes of the hotkeys and the rules read from their states.
use vstd::prelude::*;

verus! {

pub const VK_ESCAPE: u16 = 0x1B;
pub const VK_F1: u16 = 0x70;
pub const VK_F2: u16 = 0x71;
pub const VK_F3: u16 = 0x72;
pub const VK_F5: u16 = 0x74;
pub const VK_F6: u16 = 0x75;
pub const VK_F7: u16 = 0x76;
pub const VK_F8: u16 = 0x77;
pub const VK_F9: u16 = 0x78;
pub const VK_LBUTTON: u16 = 0x01;
pub const VK_RBUTTON: u16 = 0x02;
pub const VK_CONTROL: u16 = 0x11;
/// Alt.
pub const VK_MENU: u16 = 0x12;
pub const VK_S: u16 = 0x53;

/// How often a held key is polled while waiting for its release, in ms.
pub const RELEASE_POLL_MILLIS: u64 = 20;

/// Whether a key state reads as "down": the most significant bit of the
/// state word that `GetAsyncKeyState` returns.
pub fn key_down(state: u16) -> (r: bool)
    ensures
        r == (state >= 0x8000),
{
    state >= 0x8000
}

/// The Ctrl+Alt+S emergency-stop chord, from the states of its three keys.
pub fn emergency_stop_pressed(ctrl: bool, alt: bool, s: bool) -> (r: bool)
    ensures
        r == (ctrl && alt && s),
{
    ctrl && alt && s
}

/// Whether to keep waiting for a key's release: it is still down and the
/// wait so far is under the cap.
pub fn keep_waiting(pressed: bool, waited_millis: u64, max_millis: u64) -> (r: bool)
    ensures
        r == (pressed && waited_millis < max_millis),
{
    pressed && waited_millis < max_millis
}

} // verus!
