//! Kitty keyboard protocol encoding (progressive enhancement flags).

use vstd::prelude::*;
use vstd::string::*;

use crate::bytes::{dec, push_all, push_decimal};
use crate::keyboard::{single_char, single_char_of, Key, KeyCode, Modifiers, NamedKey, ESC};

verus! {

/// Disambiguate escape codes.
pub const KITTY_DISAMBIGUATE: u8 = 1;

/// Report key repeat and release events.
pub const KITTY_REPORT_EVENT_TYPES: u8 = 2;

/// Report the shifted alternate key code.
pub const KITTY_REPORT_ALTERNATE_KEYS: u8 = 4;

/// Report every key, text-producing ones included, as escape codes.
pub const KITTY_REPORT_ALL_KEYS: u8 = 8;

/// Report the text a key produces as code points.
pub const KITTY_REPORT_ASSOCIATED_TEXT: u8 = 16;

/// What the Kitty encoder decided for one key event.
pub enum KittyOutcome {
    /// A complete escape sequence to send.
    Escape(Vec<u8>),
    /// The key keeps its legacy encoding under the active flags.
    Legacy,
    /// Nothing is sent.
    Ignore,
}

/// The mathematical counterpart of [`KittyOutcome`].
pub enum KittyPlan {
    Escape(Seq<u8>),
    Legacy,
    Ignore,
}

impl KittyOutcome {
    pub open spec fn plan(&self) -> KittyPlan {
        match self {
            KittyOutcome::Escape(v) => KittyPlan::Escape(v@),
            KittyOutcome::Legacy => KittyPlan::Legacy,
            KittyOutcome::Ignore => KittyPlan::Ignore,
        }
    }
}

/// How a key maps into the Kitty CSI form.
pub enum KeyClass {
    /// Escape-encode with this number, final byte and shifted alternate.
    Encode(u32, u8, Option<u32>),
    /// Legacy for a press or repeat, nothing for a release.
    LegacyOrIgnore,
    /// Nothing is sent.
    Ignore,
}

/// The characters of an optional `&str`.
pub open spec fn opt_chars(text: Option<&str>) -> Option<Seq<char>> {
    match text {
        Some(t) => Some(t@),
        None => None,
    }
}

/// The event type: 3 for a release, 2 for a reported repeat, 1 otherwise.
pub open spec fn kitty_event(pressed: bool, repeat: bool, report_events: bool) -> u8 {
    if !pressed {
        3
    } else if repeat && report_events {
        2
    } else {
        1
    }
}

/// The Kitty modifier value: `1 + shift + 2·alt + 4·ctrl + 8·super`.
pub open spec fn kitty_mods(m: Modifiers) -> u32 {
    (1 + (if m.shift { 1int } else { 0 }) + (if m.alt { 2int } else { 0 }) + (if m.control {
        4int
    } else {
        0
    }) + (if m.super_key { 8int } else { 0 })) as u32
}

/// A modifier other than Shift is held.
pub open spec fn has_non_shift(m: Modifiers) -> bool {
    m.control || m.alt || m.super_key
}

/// The Kitty functional-key table: `(number, final byte)`.
pub open spec fn functional_key(named: NamedKey) -> Option<(u32, u8)> {
    match named {
        NamedKey::ArrowUp => Some((1u32, 0x41u8)),
        NamedKey::ArrowDown => Some((1u32, 0x42u8)),
        NamedKey::ArrowRight => Some((1u32, 0x43u8)),
        NamedKey::ArrowLeft => Some((1u32, 0x44u8)),
        NamedKey::Home => Some((1u32, 0x48u8)),
        NamedKey::End => Some((1u32, 0x46u8)),
        NamedKey::Insert => Some((2u32, 0x7eu8)),
        NamedKey::Delete => Some((3u32, 0x7eu8)),
        NamedKey::PageUp => Some((5u32, 0x7eu8)),
        NamedKey::PageDown => Some((6u32, 0x7eu8)),
        NamedKey::F1 => Some((1u32, 0x50u8)),
        NamedKey::F2 => Some((1u32, 0x51u8)),
        NamedKey::F3 => Some((13u32, 0x7eu8)),
        NamedKey::F4 => Some((1u32, 0x53u8)),
        NamedKey::F5 => Some((15u32, 0x7eu8)),
        NamedKey::F6 => Some((17u32, 0x7eu8)),
        NamedKey::F7 => Some((18u32, 0x7eu8)),
        NamedKey::F8 => Some((19u32, 0x7eu8)),
        NamedKey::F9 => Some((20u32, 0x7eu8)),
        NamedKey::F10 => Some((21u32, 0x7eu8)),
        NamedKey::F11 => Some((23u32, 0x7eu8)),
        NamedKey::F12 => Some((24u32, 0x7eu8)),
        NamedKey::CapsLock => Some((57358u32, 0x75u8)),
        NamedKey::ScrollLock => Some((57359u32, 0x75u8)),
        NamedKey::NumLock => Some((57360u32, 0x75u8)),
        NamedKey::PrintScreen => Some((57361u32, 0x75u8)),
        NamedKey::Pause => Some((57362u32, 0x75u8)),
        NamedKey::ContextMenu => Some((57363u32, 0x75u8)),
        _ => None,
    }
}

/// Kitty code points of modifier keys pressed alone, by physical side.
pub open spec fn modifier_key_number(physical: Option<KeyCode>) -> Option<u32> {
    match physical {
        Some(KeyCode::ShiftLeft) => Some(57441u32),
        Some(KeyCode::ControlLeft) => Some(57442u32),
        Some(KeyCode::AltLeft) => Some(57443u32),
        Some(KeyCode::SuperLeft) => Some(57444u32),
        Some(KeyCode::ShiftRight) => Some(57447u32),
        Some(KeyCode::ControlRight) => Some(57448u32),
        Some(KeyCode::AltRight) => Some(57449u32),
        Some(KeyCode::SuperRight) => Some(57450u32),
        _ => None,
    }
}

/// Kitty dedicated keypad code points (`KP_0` = 57399 ...).
pub open spec fn keypad_key_number(physical: Option<KeyCode>) -> Option<u32> {
    match physical {
        Some(KeyCode::Numpad0) => Some(57399u32),
        Some(KeyCode::Numpad1) => Some(57400u32),
        Some(KeyCode::Numpad2) => Some(57401u32),
        Some(KeyCode::Numpad3) => Some(57402u32),
        Some(KeyCode::Numpad4) => Some(57403u32),
        Some(KeyCode::Numpad5) => Some(57404u32),
        Some(KeyCode::Numpad6) => Some(57405u32),
        Some(KeyCode::Numpad7) => Some(57406u32),
        Some(KeyCode::Numpad8) => Some(57407u32),
        Some(KeyCode::Numpad9) => Some(57408u32),
        Some(KeyCode::NumpadDecimal) => Some(57409u32),
        Some(KeyCode::NumpadDivide) => Some(57410u32),
        Some(KeyCode::NumpadMultiply) => Some(57411u32),
        Some(KeyCode::NumpadSubtract) => Some(57412u32),
        Some(KeyCode::NumpadAdd) => Some(57413u32),
        Some(KeyCode::NumpadEnter) => Some(57414u32),
        Some(KeyCode::NumpadEqual) => Some(57415u32),
        _ => None,
    }
}

/// The first character of the Unicode lowercase mapping of `c`
/// (`char::to_lowercase`).
pub uninterp spec fn char_lowercase_first(c: char) -> char;

/// The first character `std`'s `char::to_lowercase` yields for `c`. The
/// contract names that result and states only its ASCII behavior, which
/// `std` documents: `A`..`Z` map to `a`..`z` and every other ASCII character
/// maps to itself. What it yields outside ASCII (the Unicode case tables) is
/// left unsaid.
#[verifier::external_body]
fn lowercase_first(c: char) -> (r: char)
    ensures
        r == char_lowercase_first(c),
        'A' <= c <= 'Z' ==> r as u32 == c as u32 + 32,
        (c as u32) < 128 && !('A' <= c <= 'Z') ==> r == c,
{
    c.to_lowercase().next().unwrap_or(c)
}

/// The code of `c` lowercased: `A`..`Z` become `a`..`z` and every other
/// ASCII character stays itself; beyond ASCII it is the first character of
/// the Unicode lowercase mapping.
pub open spec fn lower_code(c: char) -> u32 {
    if 'A' <= c && c <= 'Z' {
        (c as u32 + 32) as u32
    } else if (c as u32) < 128 {
        c as u32
    } else {
        char_lowercase_first(c) as u32
    }
}

/// The code of `c` lowercased; ASCII is handled here, the rest by `std`'s
/// Unicode case tables.
fn lower_code_of(c: char) -> (r: u32)
    ensures
        r == lower_code(c),
{
    if 'A' <= c && c <= 'Z' {
        c as u32 + 32
    } else if (c as u32) < 128 {
        c as u32
    } else {
        lowercase_first(c) as u32
    }
}

/// Base (unshifted) and shifted key codes of a character key: the base is the
/// lowercased unmodified key (or the produced character when there is none);
/// the shifted alternate is reported only when Shift changed the character.
pub open spec fn character_codes(s: Seq<char>, unmodified_key: Option<Key>, mods: Modifiers) -> Option<
    (u32, Option<u32>),
> {
    match single_char(s) {
        None => None,
        Some(c) => {
            let base_char = match unmodified_key {
                Some(Key::Character(u)) => match single_char(u@) {
                    Some(b) => b,
                    None => c,
                },
                _ => c,
            };
            let base = lower_code(base_char);
            Some(
                (
                    base,
                    if mods.shift && c as u32 != base {
                        Some(c as u32)
                    } else {
                        None
                    },
                ),
            )
        },
    }
}

/// A C0 or C1 control character (general category Cc).
pub open spec fn is_control_char(c: char) -> bool {
    (c as u32) < 0x20 || (0x7f <= (c as u32) && (c as u32) <= 0x9f)
}

/// Decimal code points of `s` joined by `:`.
pub open spec fn joined_codepoints(s: Seq<char>) -> Seq<u8>
    decreases s.len(),
{
    if s.len() == 0 {
        Seq::empty()
    } else if s.len() == 1 {
        dec(s[0] as nat)
    } else {
        joined_codepoints(s.drop_last()) + seq![0x3au8] + dec(s.last() as nat)
    }
}

/// The associated-text field for genuinely printable text.
pub open spec fn assoc_text(text: Option<Seq<char>>) -> Option<Seq<u8>> {
    match text {
        None => None,
        Some(t) => if t.len() == 0 || exists|i: int| 0 <= i < t.len() && is_control_char(t[i]) {
            None
        } else {
            Some(joined_codepoints(t))
        },
    }
}

/// `CSI number[:shifted] [; mods[:event]] [; text] suffix`, collapsing a
/// letter-final key with number 1 and nothing else to `CSI <letter>`.
pub open spec fn kitty_sequence(
    number: u32,
    suffix: u8,
    shifted: Option<u32>,
    mods_value: u32,
    event: u8,
    report_alt: bool,
    assoc: Option<Seq<u8>>,
) -> Seq<u8> {
    let with_shift = report_alt && shifted is Some;
    let number_field = if with_shift {
        dec(number as nat) + seq![0x3au8] + dec(shifted->0 as nat)
    } else {
        dec(number as nat)
    };
    let mods_needed = mods_value > 1 || event != 1;
    let mods_field = if mods_needed {
        if event != 1 {
            dec(mods_value as nat) + seq![0x3au8] + dec(event as nat)
        } else {
            dec(mods_value as nat)
        }
    } else {
        Seq::empty()
    };
    let letter_suffix = suffix != 0x75 && suffix != 0x7e;
    if letter_suffix && number == 1 && !with_shift && !mods_needed && assoc is None {
        seq![ESC, 0x5bu8, suffix]
    } else {
        let tail = if mods_needed || assoc is Some {
            seq![0x3bu8] + mods_field + match assoc {
                Some(t) => seq![0x3bu8] + t,
                None => Seq::empty(),
            }
        } else {
            Seq::empty()
        };
        seq![ESC, 0x5bu8] + number_field + tail + seq![suffix]
    }
}

/// How a key maps into the Kitty form under the active flags.
pub open spec fn kitty_key_class(
    key: Key,
    unmodified_key: Option<Key>,
    physical: Option<KeyCode>,
    mods: Modifiers,
    report_all: bool,
) -> KeyClass {
    let plain = kitty_mods(mods) == 1;
    match key {
        Key::Named(NamedKey::Escape) => KeyClass::Encode(27, 0x75, None),
        Key::Named(NamedKey::Enter) => if plain && !report_all {
            KeyClass::LegacyOrIgnore
        } else {
            KeyClass::Encode(13, 0x75, None)
        },
        Key::Named(NamedKey::Tab) => if plain && !report_all {
            KeyClass::LegacyOrIgnore
        } else {
            KeyClass::Encode(9, 0x75, None)
        },
        Key::Named(NamedKey::Backspace) => if plain && !report_all {
            KeyClass::LegacyOrIgnore
        } else {
            KeyClass::Encode(127, 0x75, None)
        },
        Key::Named(NamedKey::Space) => if !report_all && !has_non_shift(mods) {
            KeyClass::LegacyOrIgnore
        } else {
            KeyClass::Encode(32, 0x75, None)
        },
        Key::Named(named) => match functional_key(named) {
            Some((n, s)) => KeyClass::Encode(n, s, None),
            None => match modifier_key_number(physical) {
                Some(n) => if report_all {
                    KeyClass::Encode(n, 0x75, None)
                } else {
                    KeyClass::Ignore
                },
                None => KeyClass::Ignore,
            },
        },
        Key::Character(s) => if report_all && keypad_key_number(physical) is Some {
            KeyClass::Encode(keypad_key_number(physical)->0, 0x75, None)
        } else {
            match character_codes(s@, unmodified_key, mods) {
                None => KeyClass::LegacyOrIgnore,
                Some((base, shifted)) => if !report_all && !has_non_shift(mods) {
                    KeyClass::LegacyOrIgnore
                } else {
                    KeyClass::Encode(base, 0x75, shifted)
                },
            }
        },
        Key::Unidentified => KeyClass::LegacyOrIgnore,
    }
}

/// The Kitty encoder's decision for one key event.
pub open spec fn kitty_plan(
    key: Key,
    unmodified_key: Option<Key>,
    physical: Option<KeyCode>,
    text: Option<&str>,
    mods: Modifiers,
    flags: u8,
    pressed: bool,
    repeat: bool,
) -> KittyPlan {
    let report_events = flags & KITTY_REPORT_EVENT_TYPES != 0;
    let report_all = flags & KITTY_REPORT_ALL_KEYS != 0;
    let report_alt = flags & KITTY_REPORT_ALTERNATE_KEYS != 0;
    let report_text = flags & KITTY_REPORT_ASSOCIATED_TEXT != 0;
    if !pressed && !report_events {
        KittyPlan::Ignore
    } else {
        let event = kitty_event(pressed, repeat, report_events);
        match kitty_key_class(key, unmodified_key, physical, mods, report_all) {
            KeyClass::Ignore => KittyPlan::Ignore,
            KeyClass::LegacyOrIgnore => if event == 3 {
                KittyPlan::Ignore
            } else {
                KittyPlan::Legacy
            },
            KeyClass::Encode(n, s, shifted) => {
                let assoc = if report_text && event != 3 && !has_non_shift(mods) {
                    assoc_text(opt_chars(text))
                } else {
                    None
                };
                KittyPlan::Escape(
                    kitty_sequence(n, s, shifted, kitty_mods(mods), event, report_alt, assoc),
                )
            },
        }
    }
}

/// An unmodified Enter press is never dropped by the Kitty encoder.
pub proof fn lemma_enter_press_never_ignored(flags: u8)
    ensures
        !(kitty_plan(
            Key::Named(NamedKey::Enter),
            None,
            None,
            None,
            Modifiers { shift: false, control: false, alt: false, super_key: false },
            flags,
            true,
            false,
        ) is Ignore),
{
}

/// Under any Kitty flags, an unmodified PageUp press reports `CSI 5 ~` and
/// an unmodified PageDown press reports `CSI 6 ~`: the numbers their legacy
/// xterm encodings carry.
pub proof fn lemma_page_keys_report_their_xterm_numbers(
    unmodified_key: Option<Key>,
    physical: Option<KeyCode>,
    flags: u8,
)
    ensures
        kitty_plan(
            Key::Named(NamedKey::PageUp),
            unmodified_key,
            physical,
            None,
            Modifiers { shift: false, control: false, alt: false, super_key: false },
            flags,
            true,
            false,
        ) == KittyPlan::Escape(seq![ESC, 0x5bu8, 0x35u8, 0x7eu8]),
        kitty_plan(
            Key::Named(NamedKey::PageDown),
            unmodified_key,
            physical,
            None,
            Modifiers { shift: false, control: false, alt: false, super_key: false },
            flags,
            true,
            false,
        ) == KittyPlan::Escape(seq![ESC, 0x5bu8, 0x36u8, 0x7eu8]),
{
    let none = Modifiers { shift: false, control: false, alt: false, super_key: false };
    assert(kitty_mods(none) == 1);
    assert(dec(5) =~= seq![0x35u8]);
    assert(dec(6) =~= seq![0x36u8]);
    assert(kitty_sequence(5, 0x7e, None, 1, 1, flags & KITTY_REPORT_ALTERNATE_KEYS != 0, None)
        =~= seq![ESC, 0x5bu8, 0x35u8, 0x7eu8]);
    assert(kitty_sequence(6, 0x7e, None, 1, 1, flags & KITTY_REPORT_ALTERNATE_KEYS != 0, None)
        =~= seq![ESC, 0x5bu8, 0x36u8, 0x7eu8]);
}

/// When event types are reported, Escape reports its Kitty number 27 with the
/// modifier value `1 + shift + 2·alt + 4·ctrl + 8·super` and, after a colon,
/// event 3 for a release and 2 for a repeat: `CSI 27 ; m : e u`.
pub proof fn lemma_escape_reports_release_and_repeat(
    unmodified_key: Option<Key>,
    physical: Option<KeyCode>,
    mods: Modifiers,
    flags: u8,
)
    requires
        flags & KITTY_REPORT_EVENT_TYPES != 0,
    ensures
        ({
            let m: nat = 1 + (if mods.shift { 1nat } else { 0nat }) + (if mods.alt {
                2nat
            } else {
                0nat
            }) + (if mods.control { 4nat } else { 0nat }) + (if mods.super_key {
                8nat
            } else {
                0nat
            });
            let head = seq![ESC, 0x5bu8, 0x32u8, 0x37u8, 0x3bu8] + dec(m) + seq![0x3au8];
            &&& kitty_plan(
                Key::Named(NamedKey::Escape),
                unmodified_key,
                physical,
                None,
                mods,
                flags,
                false,
                false,
            ) == KittyPlan::Escape(head + seq![0x33u8, 0x75u8])
            &&& kitty_plan(
                Key::Named(NamedKey::Escape),
                unmodified_key,
                physical,
                None,
                mods,
                flags,
                true,
                true,
            ) == KittyPlan::Escape(head + seq![0x32u8, 0x75u8])
        }),
{
    let m = kitty_mods(mods);
    assert(dec(27) =~= seq![0x32u8, 0x37u8]) by {
        assert(dec(2) =~= seq![0x32u8]);
    }
    assert(dec(3) =~= seq![0x33u8]);
    assert(dec(2) =~= seq![0x32u8]);
    let report_alt = flags & KITTY_REPORT_ALTERNATE_KEYS != 0;
    let head = seq![ESC, 0x5bu8, 0x32u8, 0x37u8, 0x3bu8] + dec(m as nat) + seq![0x3au8];
    assert(kitty_sequence(27, 0x75, None, m, 3, report_alt, None) =~= head + seq![0x33u8, 0x75u8]);
    assert(kitty_sequence(27, 0x75, None, m, 2, report_alt, None) =~= head + seq![0x32u8, 0x75u8]);
}

/// The Kitty modifier value of `mods`.
pub fn kitty_modifier_value(mods: Modifiers) -> (res: u32)
    ensures
        res == kitty_mods(mods),
{
    let mut value: u32 = 1;
    if mods.shift {
        value += 1;
    }
    if mods.alt {
        value += 2;
    }
    if mods.control {
        value += 4;
    }
    if mods.super_key {
        value += 8;
    }
    value
}

/// The Kitty functional-key table.
fn functional_key_code(named: NamedKey) -> (res: Option<(u32, u8)>)
    ensures
        res == functional_key(named),
{
    match named {
        NamedKey::ArrowUp => Some((1u32, 0x41u8)),
        NamedKey::ArrowDown => Some((1u32, 0x42u8)),
        NamedKey::ArrowRight => Some((1u32, 0x43u8)),
        NamedKey::ArrowLeft => Some((1u32, 0x44u8)),
        NamedKey::Home => Some((1u32, 0x48u8)),
        NamedKey::End => Some((1u32, 0x46u8)),
        NamedKey::Insert => Some((2u32, 0x7eu8)),
        NamedKey::Delete => Some((3u32, 0x7eu8)),
        NamedKey::PageUp => Some((5u32, 0x7eu8)),
        NamedKey::PageDown => Some((6u32, 0x7eu8)),
        NamedKey::F1 => Some((1u32, 0x50u8)),
        NamedKey::F2 => Some((1u32, 0x51u8)),
        NamedKey::F3 => Some((13u32, 0x7eu8)),
        NamedKey::F4 => Some((1u32, 0x53u8)),
        NamedKey::F5 => Some((15u32, 0x7eu8)),
        NamedKey::F6 => Some((17u32, 0x7eu8)),
        NamedKey::F7 => Some((18u32, 0x7eu8)),
        NamedKey::F8 => Some((19u32, 0x7eu8)),
        NamedKey::F9 => Some((20u32, 0x7eu8)),
        NamedKey::F10 => Some((21u32, 0x7eu8)),
        NamedKey::F11 => Some((23u32, 0x7eu8)),
        NamedKey::F12 => Some((24u32, 0x7eu8)),
        NamedKey::CapsLock => Some((57358u32, 0x75u8)),
        NamedKey::ScrollLock => Some((57359u32, 0x75u8)),
        NamedKey::NumLock => Some((57360u32, 0x75u8)),
        NamedKey::PrintScreen => Some((57361u32, 0x75u8)),
        NamedKey::Pause => Some((57362u32, 0x75u8)),
        NamedKey::ContextMenu => Some((57363u32, 0x75u8)),
        _ => None,
    }
}

/// Kitty code points of modifier keys pressed alone.
fn modifier_key_code(physical: Option<KeyCode>) -> (res: Option<u32>)
    ensures
        res == modifier_key_number(physical),
{
    match physical {
        Some(KeyCode::ShiftLeft) => Some(57441u32),
        Some(KeyCode::ControlLeft) => Some(57442u32),
        Some(KeyCode::AltLeft) => Some(57443u32),
        Some(KeyCode::SuperLeft) => Some(57444u32),
        Some(KeyCode::ShiftRight) => Some(57447u32),
        Some(KeyCode::ControlRight) => Some(57448u32),
        Some(KeyCode::AltRight) => Some(57449u32),
        Some(KeyCode::SuperRight) => Some(57450u32),
        _ => None,
    }
}

/// Kitty dedicated keypad code points.
fn keypad_key_code(physical: Option<KeyCode>) -> (res: Option<u32>)
    ensures
        res == keypad_key_number(physical),
{
    match physical {
        Some(KeyCode::Numpad0) => Some(57399u32),
        Some(KeyCode::Numpad1) => Some(57400u32),
        Some(KeyCode::Numpad2) => Some(57401u32),
        Some(KeyCode::Numpad3) => Some(57402u32),
        Some(KeyCode::Numpad4) => Some(57403u32),
        Some(KeyCode::Numpad5) => Some(57404u32),
        Some(KeyCode::Numpad6) => Some(57405u32),
        Some(KeyCode::Numpad7) => Some(57406u32),
        Some(KeyCode::Numpad8) => Some(57407u32),
        Some(KeyCode::Numpad9) => Some(57408u32),
        Some(KeyCode::NumpadDecimal) => Some(57409u32),
        Some(KeyCode::NumpadDivide) => Some(57410u32),
        Some(KeyCode::NumpadMultiply) => Some(57411u32),
        Some(KeyCode::NumpadSubtract) => Some(57412u32),
        Some(KeyCode::NumpadAdd) => Some(57413u32),
        Some(KeyCode::NumpadEnter) => Some(57414u32),
        Some(KeyCode::NumpadEqual) => Some(57415u32),
        _ => None,
    }
}

/// Base and shifted key codes of a character key.
fn character_key_codes(s: &str, unmodified_key: Option<&Key>, mods: Modifiers) -> (res: Option<
    (u32, Option<u32>),
>)
    ensures
        res == character_codes(
            s@,
            match unmodified_key {
                Some(k) => Some(*k),
                None => None,
            },
            mods,
        ),
{
    let c = match single_char_of(s) {
        Some(c) => c,
        None => {
            return None;
        },
    };
    let base_char = match unmodified_key {
        Some(Key::Character(u)) => match single_char_of(u.as_str()) {
            Some(b) => b,
            None => c,
        },
        _ => c,
    };
    let base = lower_code_of(base_char);
    let shifted = if mods.shift && c as u32 != base {
        Some(c as u32)
    } else {
        None
    };
    Some((base, shifted))
}

/// Decimal code points of `text` joined by `:`, for genuinely printable
/// text.
fn associated_text_codepoints(text: Option<&str>) -> (res: Option<Vec<u8>>)
    ensures
        crate::paste::opt_bytes(res) == assoc_text(opt_chars(text)),
{
    let t = match text {
        Some(t) => t,
        None => {
            return None;
        },
    };
    let n = t.unicode_len();
    if n == 0 {
        return None;
    }
    let mut out: Vec<u8> = Vec::new();
    let mut i: usize = 0;
    while i < n
        invariant
            n == t@.len(),
            text == Some(t),
            n > 0,
            i <= n,
            forall|j: int| 0 <= j < i ==> !is_control_char(#[trigger] t@[j]),
            out@ == joined_codepoints(t@.take(i as int)),
        decreases n - i,
    {
        let c = t.get_char(i);
        let cp = c as u32;
        if cp < 0x20 || (0x7f <= cp && cp <= 0x9f) {
            proof {
                assert(is_control_char(t@[i as int]));
            }
            return None;
        }
        let ghost before = out@;
        if i > 0 {
            out.push(0x3au8);
        }
        push_decimal(&mut out, cp as u64);
        proof {
            let s = t@.take(i + 1);
            assert(s.drop_last() =~= t@.take(i as int));
            assert(s.last() == c);
            if i == 0 {
                assert(t@.take(0) =~= Seq::<char>::empty());
                assert(out@ =~= dec(c as nat));
            } else {
                assert(out@ =~= joined_codepoints(s.drop_last()) + seq![0x3au8] + dec(
                    s.last() as nat,
                ));
            }
        }
        i += 1;
    }
    proof {
        assert(t@.take(n as int) =~= t@);
    }
    Some(out)
}

/// How a key maps into the Kitty CSI form.
struct KittyKey {
    number: u32,
    suffix: u8,
    shifted: Option<u32>,
}

/// Assemble `CSI number[:shifted] [; mods[:event]] [; text] suffix`.
#[verifier::rlimit(40)]
fn assemble_kitty(
    key: &KittyKey,
    mods_value: u32,
    event: u8,
    report_alt: bool,
    assoc_text: Option<Vec<u8>>,
) -> (res: Vec<u8>)
    ensures
        res@ == kitty_sequence(
            key.number,
            key.suffix,
            key.shifted,
            mods_value,
            event,
            report_alt,
            crate::paste::opt_bytes(assoc_text),
        ),
{
    let with_shift = report_alt && key.shifted.is_some();
    let mods_needed = mods_value > 1 || event != 1;
    let letter_suffix = key.suffix != 0x75 && key.suffix != 0x7e;
    if letter_suffix && key.number == 1 && !with_shift && !mods_needed && assoc_text.is_none() {
        return vec![ESC, 0x5bu8, key.suffix];
    }
    let mut seq: Vec<u8> = vec![ESC, 0x5bu8];
    push_decimal(&mut seq, key.number as u64);
    let ghost after_number = seq@;
    if with_shift {
        seq.push(0x3au8);
        match key.shifted {
            Some(sh) => push_decimal(&mut seq, sh as u64),
            None => {},
        }
    }
    let ghost after_field = seq@;
    let has_text = assoc_text.is_some();
    if mods_needed || has_text {
        seq.push(0x3bu8);
        if mods_needed {
            push_decimal(&mut seq, mods_value as u64);
            if event != 1 {
                seq.push(0x3au8);
                push_decimal(&mut seq, event as u64);
            }
        }
        match assoc_text {
            Some(t) => {
                seq.push(0x3bu8);
                push_all(&mut seq, t.as_slice());
            },
            None => {},
        }
    }
    seq.push(key.suffix);
    proof {
        let number_field = if with_shift {
            dec(key.number as nat) + seq![0x3au8] + dec(key.shifted->0 as nat)
        } else {
            dec(key.number as nat)
        };
        assert(after_field =~= seq![ESC, 0x5bu8] + number_field);
        assert(seq@ =~= kitty_sequence(
            key.number,
            key.suffix,
            key.shifted,
            mods_value,
            event,
            report_alt,
            crate::paste::opt_bytes(assoc_text),
        ));
    }
    seq
}

/// Encode one key event under the active Kitty flags.
pub fn encode_kitty(
    logical_key: &Key,
    unmodified_key: Option<&Key>,
    physical_key: Option<KeyCode>,
    text: Option<&str>,
    mods: Modifiers,
    flags: u8,
    pressed: bool,
    repeat: bool,
) -> (res: KittyOutcome)
    ensures
        res.plan() == kitty_plan(
            *logical_key,
            match unmodified_key {
                Some(k) => Some(*k),
                None => None,
            },
            physical_key,
            text,
            mods,
            flags,
            pressed,
            repeat,
        ),
{
    let report_events = flags & KITTY_REPORT_EVENT_TYPES != 0;
    let report_all = flags & KITTY_REPORT_ALL_KEYS != 0;
    let report_alt = flags & KITTY_REPORT_ALTERNATE_KEYS != 0;
    let report_text = flags & KITTY_REPORT_ASSOCIATED_TEXT != 0;
    if !pressed && !report_events {
        return KittyOutcome::Ignore;
    }
    let event: u8 = if !pressed {
        3
    } else if repeat && report_events {
        2
    } else {
        1
    };
    let mods_value = kitty_modifier_value(mods);
    let non_shift = mods.control || mods.alt || mods.super_key;
    let plain = mods_value == 1;
    let key: KittyKey = match logical_key {
        Key::Named(NamedKey::Escape) => KittyKey { number: 27, suffix: 0x75, shifted: None },
        Key::Named(NamedKey::Enter) => {
            if plain && !report_all {
                return legacy_or_ignore(event);
            }
            KittyKey { number: 13, suffix: 0x75, shifted: None }
        },
        Key::Named(NamedKey::Tab) => {
            if plain && !report_all {
                return legacy_or_ignore(event);
            }
            KittyKey { number: 9, suffix: 0x75, shifted: None }
        },
        Key::Named(NamedKey::Backspace) => {
            if plain && !report_all {
                return legacy_or_ignore(event);
            }
            KittyKey { number: 127, suffix: 0x75, shifted: None }
        },
        Key::Named(NamedKey::Space) => {
            if !report_all && !non_shift {
                return legacy_or_ignore(event);
            }
            KittyKey { number: 32, suffix: 0x75, shifted: None }
        },
        Key::Named(named) => match functional_key_code(*named) {
            Some((number, suffix)) => KittyKey { number, suffix, shifted: None },
            None => match modifier_key_code(physical_key) {
                Some(number) => {
                    if !report_all {
                        return KittyOutcome::Ignore;
                    }
                    KittyKey { number, suffix: 0x75, shifted: None }
                },
                None => {
                    return KittyOutcome::Ignore;
                },
            },
        },
        Key::Character(s) => {
            let keypad = if report_all {
                keypad_key_code(physical_key)
            } else {
                None
            };
            match keypad {
                Some(number) => KittyKey { number, suffix: 0x75, shifted: None },
                None => {
                    match character_key_codes(s.as_str(), unmodified_key, mods) {
                        None => {
                            return legacy_or_ignore(event);
                        },
                        Some((base, shifted)) => {
                            if !report_all && !non_shift {
                                return legacy_or_ignore(event);
                            }
                            KittyKey { number: base, suffix: 0x75, shifted }
                        },
                    }
                },
            }
        },
        Key::Unidentified => {
            return legacy_or_ignore(event);
        },
    };
    let assoc = if report_text && event != 3 && !non_shift {
        associated_text_codepoints(text)
    } else {
        None
    };
    KittyOutcome::Escape(assemble_kitty(&key, mods_value, event, report_alt, assoc))
}

/// A press or repeat falls back to the legacy encoding; a release of a
/// legacy key is dropped.
fn legacy_or_ignore(event: u8) -> (res: KittyOutcome)
    ensures
        res.plan() == (if event == 3 {
            KittyPlan::Ignore
        } else {
            KittyPlan::Legacy
        }),
{
    if event == 3 {
        KittyOutcome::Ignore
    } else {
        KittyOutcome::Legacy
    }
}

} // verus!
