//! The menu-bar shortcut shown for a chord: a parsed hotkey chord turned
//! into accelerator modifiers and key.

use vstd::prelude::*;
use vstd::string::*;

use crate::hotkey::{chord_of, parse_hotkey, CMD_KEY, CONTROL_KEY, OPTION_KEY, SHIFT_KEY};

verus! {

/// The modifiers of a menu accelerator.
#[derive(Clone, Copy, PartialEq, Eq, Debug, Structural)]
pub struct MenuModifiers {
    pub super_key: bool,
    pub shift: bool,
    pub alt: bool,
    pub control: bool,
}

/// The physical keys a menu accelerator can name.
#[derive(Clone, Copy, PartialEq, Eq, Debug, Structural)]
pub enum MenuKey {
    KeyA,
    KeyS,
    KeyD,
    KeyF,
    KeyH,
    KeyG,
    KeyZ,
    KeyX,
    KeyC,
    KeyV,
    KeyB,
    KeyQ,
    KeyW,
    KeyE,
    KeyR,
    KeyY,
    KeyT,
    Digit1,
    Digit2,
    Digit3,
    Digit4,
    Digit6,
    Digit5,
    Equal,
    Digit9,
    Digit7,
    Minus,
    Digit8,
    Digit0,
    BracketRight,
    KeyO,
    KeyU,
    BracketLeft,
    KeyI,
    KeyP,
    KeyL,
    KeyJ,
    KeyK,
    Semicolon,
    Backslash,
    IntlYen,
    IntlRo,
    Comma,
    Slash,
    KeyN,
    KeyM,
    Period,
    Backquote,
    Enter,
    Tab,
    Space,
    Escape,
}

/// The accelerator modifiers a Carbon modifier mask holds.
pub open spec fn modifiers_of(mask: u32) -> MenuModifiers {
    MenuModifiers {
        super_key: mask & CMD_KEY != 0,
        shift: mask & SHIFT_KEY != 0,
        alt: mask & OPTION_KEY != 0,
        control: mask & CONTROL_KEY != 0,
    }
}

/// The accelerator key of a Carbon virtual keycode, for the keys a menu
/// shortcut can show.
pub open spec fn menu_key_of(k: u32) -> Option<MenuKey> {
    if k == 0x00 {
        Some(MenuKey::KeyA)
    } else if k == 0x01 {
        Some(MenuKey::KeyS)
    } else if k == 0x02 {
        Some(MenuKey::KeyD)
    } else if k == 0x03 {
        Some(MenuKey::KeyF)
    } else if k == 0x04 {
        Some(MenuKey::KeyH)
    } else if k == 0x05 {
        Some(MenuKey::KeyG)
    } else if k == 0x06 {
        Some(MenuKey::KeyZ)
    } else if k == 0x07 {
        Some(MenuKey::KeyX)
    } else if k == 0x08 {
        Some(MenuKey::KeyC)
    } else if k == 0x09 {
        Some(MenuKey::KeyV)
    } else if k == 0x0B {
        Some(MenuKey::KeyB)
    } else if k == 0x0C {
        Some(MenuKey::KeyQ)
    } else if k == 0x0D {
        Some(MenuKey::KeyW)
    } else if k == 0x0E {
        Some(MenuKey::KeyE)
    } else if k == 0x0F {
        Some(MenuKey::KeyR)
    } else if k == 0x10 {
        Some(MenuKey::KeyY)
    } else if k == 0x11 {
        Some(MenuKey::KeyT)
    } else if k == 0x12 {
        Some(MenuKey::Digit1)
    } else if k == 0x13 {
        Some(MenuKey::Digit2)
    } else if k == 0x14 {
        Some(MenuKey::Digit3)
    } else if k == 0x15 {
        Some(MenuKey::Digit4)
    } else if k == 0x16 {
        Some(MenuKey::Digit6)
    } else if k == 0x17 {
        Some(MenuKey::Digit5)
    } else if k == 0x18 {
        Some(MenuKey::Equal)
    } else if k == 0x19 {
        Some(MenuKey::Digit9)
    } else if k == 0x1A {
        Some(MenuKey::Digit7)
    } else if k == 0x1B {
        Some(MenuKey::Minus)
    } else if k == 0x1C {
        Some(MenuKey::Digit8)
    } else if k == 0x1D {
        Some(MenuKey::Digit0)
    } else if k == 0x1E {
        Some(MenuKey::BracketRight)
    } else if k == 0x1F {
        Some(MenuKey::KeyO)
    } else if k == 0x20 {
        Some(MenuKey::KeyU)
    } else if k == 0x21 {
        Some(MenuKey::BracketLeft)
    } else if k == 0x22 {
        Some(MenuKey::KeyI)
    } else if k == 0x23 {
        Some(MenuKey::KeyP)
    } else if k == 0x25 {
        Some(MenuKey::KeyL)
    } else if k == 0x26 {
        Some(MenuKey::KeyJ)
    } else if k == 0x28 {
        Some(MenuKey::KeyK)
    } else if k == 0x29 {
        Some(MenuKey::Semicolon)
    } else if k == 0x2A {
        Some(MenuKey::Backslash)
    } else if k == 0x5D {
        Some(MenuKey::IntlYen)
    } else if k == 0x5E {
        Some(MenuKey::IntlRo)
    } else if k == 0x2B {
        Some(MenuKey::Comma)
    } else if k == 0x2C {
        Some(MenuKey::Slash)
    } else if k == 0x2D {
        Some(MenuKey::KeyN)
    } else if k == 0x2E {
        Some(MenuKey::KeyM)
    } else if k == 0x2F {
        Some(MenuKey::Period)
    } else if k == 0x32 {
        Some(MenuKey::Backquote)
    } else if k == 0x24 {
        Some(MenuKey::Enter)
    } else if k == 0x30 {
        Some(MenuKey::Tab)
    } else if k == 0x31 {
        Some(MenuKey::Space)
    } else if k == 0x35 {
        Some(MenuKey::Escape)
    } else {
        None
    }
}

/// Translate a Carbon modifier mask into accelerator modifiers.
pub fn accelerator_modifiers(carbon_modifiers: u32) -> (m: MenuModifiers)
    ensures
        m == modifiers_of(carbon_modifiers),
{
    MenuModifiers {
        super_key: carbon_modifiers & CMD_KEY != 0,
        shift: carbon_modifiers & SHIFT_KEY != 0,
        alt: carbon_modifiers & OPTION_KEY != 0,
        control: carbon_modifiers & CONTROL_KEY != 0,
    }
}

/// Translate a Carbon virtual keycode into an accelerator key.
pub fn accelerator_code(carbon_keycode: u32) -> (r: Option<MenuKey>)
    ensures
        r == menu_key_of(carbon_keycode),
{
    let k = carbon_keycode;
    if k == 0x00 {
        Some(MenuKey::KeyA)
    } else if k == 0x01 {
        Some(MenuKey::KeyS)
    } else if k == 0x02 {
        Some(MenuKey::KeyD)
    } else if k == 0x03 {
        Some(MenuKey::KeyF)
    } else if k == 0x04 {
        Some(MenuKey::KeyH)
    } else if k == 0x05 {
        Some(MenuKey::KeyG)
    } else if k == 0x06 {
        Some(MenuKey::KeyZ)
    } else if k == 0x07 {
        Some(MenuKey::KeyX)
    } else if k == 0x08 {
        Some(MenuKey::KeyC)
    } else if k == 0x09 {
        Some(MenuKey::KeyV)
    } else if k == 0x0B {
        Some(MenuKey::KeyB)
    } else if k == 0x0C {
        Some(MenuKey::KeyQ)
    } else if k == 0x0D {
        Some(MenuKey::KeyW)
    } else if k == 0x0E {
        Some(MenuKey::KeyE)
    } else if k == 0x0F {
        Some(MenuKey::KeyR)
    } else if k == 0x10 {
        Some(MenuKey::KeyY)
    } else if k == 0x11 {
        Some(MenuKey::KeyT)
    } else if k == 0x12 {
        Some(MenuKey::Digit1)
    } else if k == 0x13 {
        Some(MenuKey::Digit2)
    } else if k == 0x14 {
        Some(MenuKey::Digit3)
    } else if k == 0x15 {
        Some(MenuKey::Digit4)
    } else if k == 0x16 {
        Some(MenuKey::Digit6)
    } else if k == 0x17 {
        Some(MenuKey::Digit5)
    } else if k == 0x18 {
        Some(MenuKey::Equal)
    } else if k == 0x19 {
        Some(MenuKey::Digit9)
    } else if k == 0x1A {
        Some(MenuKey::Digit7)
    } else if k == 0x1B {
        Some(MenuKey::Minus)
    } else if k == 0x1C {
        Some(MenuKey::Digit8)
    } else if k == 0x1D {
        Some(MenuKey::Digit0)
    } else if k == 0x1E {
        Some(MenuKey::BracketRight)
    } else if k == 0x1F {
        Some(MenuKey::KeyO)
    } else if k == 0x20 {
        Some(MenuKey::KeyU)
    } else if k == 0x21 {
        Some(MenuKey::BracketLeft)
    } else if k == 0x22 {
        Some(MenuKey::KeyI)
    } else if k == 0x23 {
        Some(MenuKey::KeyP)
    } else if k == 0x25 {
        Some(MenuKey::KeyL)
    } else if k == 0x26 {
        Some(MenuKey::KeyJ)
    } else if k == 0x28 {
        Some(MenuKey::KeyK)
    } else if k == 0x29 {
        Some(MenuKey::Semicolon)
    } else if k == 0x2A {
        Some(MenuKey::Backslash)
    } else if k == 0x5D {
        Some(MenuKey::IntlYen)
    } else if k == 0x5E {
        Some(MenuKey::IntlRo)
    } else if k == 0x2B {
        Some(MenuKey::Comma)
    } else if k == 0x2C {
        Some(MenuKey::Slash)
    } else if k == 0x2D {
        Some(MenuKey::KeyN)
    } else if k == 0x2E {
        Some(MenuKey::KeyM)
    } else if k == 0x2F {
        Some(MenuKey::Period)
    } else if k == 0x32 {
        Some(MenuKey::Backquote)
    } else if k == 0x24 {
        Some(MenuKey::Enter)
    } else if k == 0x30 {
        Some(MenuKey::Tab)
    } else if k == 0x31 {
        Some(MenuKey::Space)
    } else if k == 0x35 {
        Some(MenuKey::Escape)
    } else {
        None
    }
}

/// The accelerator a hotkey chord string shows as: its modifiers and key,
/// when it parses and its key has a menu form.
pub open spec fn accelerator_of(hotkey: Seq<char>) -> Option<(MenuModifiers, MenuKey)> {
    match chord_of(hotkey) {
        Some(c) => match menu_key_of(c.keycode) {
            Some(k) => Some((modifiers_of(c.modifiers), k)),
            None => None,
        },
        None => None,
    }
}

/// The accelerator for a chord string, or `None` when it does not parse or
/// its key cannot be shown.
pub fn accelerator_from_hotkey(hotkey: &str) -> (r: Option<(MenuModifiers, MenuKey)>)
    ensures
        r == accelerator_of(hotkey@),
{
    let chord = match parse_hotkey(hotkey) {
        Some(c) => c,
        None => return None,
    };
    match accelerator_code(chord.keycode) {
        Some(k) => Some((accelerator_modifiers(chord.modifiers), k)),
        None => None,
    }
}

/// The accelerator of an optional (possibly unbound) chord: none when
/// unbound or not representable.
pub fn chord_accelerator(chord: Option<&str>) -> (r: Option<(MenuModifiers, MenuKey)>)
    ensures
        r == match chord {
            Some(c) => accelerator_of(c@),
            None => None,
        },
{
    match chord {
        Some(c) => accelerator_from_hotkey(c),
        None => None,
    }
}

/// The auto-approve menu item's label for its current state.
pub fn auto_approve_menu_label(enabled: bool) -> (label: &'static str)
    ensures
        label@ == (if enabled {
            "Auto Approve: On"@
        } else {
            "Auto Approve: Off"@
        }),
{
    if enabled {
        "Auto Approve: On"
    } else {
        "Auto Approve: Off"
    }
}

} // verus!
