//! Legacy (xterm-style) key encoding for the pty, and the key model the
//! encoders read: logical keys, physical key codes and modifier state.

use std::collections::HashMap;

use vstd::prelude::*;
use vstd::string::*;

use crate::bytes::{dec, lemma_dec_injective, lemma_dec_reads_back, push_all, push_decimal};
use crate::kitty::{encode_kitty, functional_key, kitty_mods, kitty_plan, KittyOutcome};

verus! {

/// The modifier keys held during a key event.
#[derive(Clone, Copy, PartialEq, Eq, Debug)]
pub struct Modifiers {
    pub shift: bool,
    pub control: bool,
    pub alt: bool,
    pub super_key: bool,
}

impl Modifiers {
    /// No modifier held.
    pub fn empty() -> (m: Modifiers)
        ensures
            !m.shift && !m.control && !m.alt && !m.super_key,
    {
        Modifiers { shift: false, control: false, alt: false, super_key: false }
    }
}

/// The named (non-character) logical keys the encoders distinguish. Every
/// other named key is `Other`.
#[derive(Clone, Copy, PartialEq, Eq, Debug)]
pub enum NamedKey {
    Enter,
    Tab,
    Backspace,
    Escape,
    Space,
    ArrowUp,
    ArrowDown,
    ArrowLeft,
    ArrowRight,
    Home,
    End,
    Insert,
    Delete,
    PageUp,
    PageDown,
    F1,
    F2,
    F3,
    F4,
    F5,
    F6,
    F7,
    F8,
    F9,
    F10,
    F11,
    F12,
    CapsLock,
    ScrollLock,
    NumLock,
    PrintScreen,
    Pause,
    ContextMenu,
    Shift,
    Control,
    Alt,
    Super,
    Other,
}

/// The physical key positions the encoders distinguish. Every other position
/// is `Other`.
#[derive(Clone, Copy, PartialEq, Eq, Debug)]
pub enum KeyCode {
    Numpad0,
    Numpad1,
    Numpad2,
    Numpad3,
    Numpad4,
    Numpad5,
    Numpad6,
    Numpad7,
    Numpad8,
    Numpad9,
    NumpadDecimal,
    NumpadAdd,
    NumpadSubtract,
    NumpadMultiply,
    NumpadDivide,
    NumpadEnter,
    NumpadEqual,
    ShiftLeft,
    ControlLeft,
    AltLeft,
    SuperLeft,
    ShiftRight,
    ControlRight,
    AltRight,
    SuperRight,
    Other,
}

/// A logical key: a named key, the text a character key produces, or a key
/// the platform could not identify.
#[derive(Clone, Debug)]
pub enum Key {
    Named(NamedKey),
    Character(String),
    Unidentified,
}

pub const ESC: u8 = 0x1b;

/// The bytes of an optional `&str`.
pub open spec fn opt_text(text: Option<&str>) -> Option<Seq<u8>> {
    match text {
        Some(t) => Some(t.spec_bytes()),
        None => None,
    }
}

/// The only character of `s`, when it has exactly one.
pub open spec fn single_char(s: Seq<char>) -> Option<char> {
    if s.len() == 1 {
        Some(s[0])
    } else {
        None
    }
}

/// ASCII lowercasing: `A`..`Z` map to `a`..`z`, everything else is kept.
pub open spec fn ascii_lower(c: char) -> char {
    if 'A' <= c <= 'Z' {
        ((c as u32) + 32) as char
    } else {
        c
    }
}

/// The C0 byte Ctrl+`c` sends: letters map to 0x01..0x1a, plus the xterm
/// symbol and digit column (`@`/`2`/space = NUL, `[`/`3` = ESC, ...).
pub open spec fn ctrl_c0(c: char) -> Option<u8> {
    let l = ascii_lower(c);
    if 'a' <= l <= 'z' {
        Some(((l as u32) - 96) as u8)
    } else if l == ' ' || l == '@' || l == '2' {
        Some(0x00)
    } else if l == '[' || l == '3' {
        Some(0x1b)
    } else if l == '\\' || l == '4' {
        Some(0x1c)
    } else if l == ']' || l == '5' {
        Some(0x1d)
    } else if l == '^' || l == '6' {
        Some(0x1e)
    } else if l == '_' || l == '7' || l == '/' || l == '-' {
        Some(0x1f)
    } else if l == '8' || l == '?' {
        Some(0x7f)
    } else {
        None
    }
}

/// The xterm modifier parameter for a legacy special key: `1 + shift + 2·alt
/// + 4·ctrl`, present only when some modifier is held (super is ignored).
pub open spec fn legacy_modifier(m: Modifiers) -> Option<u8> {
    let v = 1 + (if m.shift { 1int } else { 0 }) + (if m.alt { 2int } else { 0 }) + (if m.control {
        4int
    } else {
        0
    });
    if v > 1 {
        Some(v as u8)
    } else {
        None
    }
}

/// A letter-final key: `CSI 1 ; m <f>` when modified, else `SS3 <f>` or
/// `CSI <f>`.
pub open spec fn final_key_seq(final_byte: u8, modifier: Option<u8>, ss3_unmodified: bool) -> Seq<
    u8,
> {
    match modifier {
        Some(m) => seq![ESC, 0x5bu8, 0x31u8, 0x3bu8] + dec(m as nat) + seq![final_byte],
        None => if ss3_unmodified {
            seq![ESC, 0x4fu8, final_byte]
        } else {
            seq![ESC, 0x5bu8, final_byte]
        },
    }
}

/// A tilde-final key: `CSI <code> ~`, or `CSI <code> ; m ~` when modified.
pub open spec fn tilde_key_seq(code: u8, modifier: Option<u8>) -> Seq<u8> {
    match modifier {
        Some(m) => seq![ESC, 0x5bu8] + dec(code as nat) + seq![0x3bu8] + dec(m as nat) + seq![
            0x7eu8,
        ],
        None => seq![ESC, 0x5bu8] + dec(code as nat) + seq![0x7eu8],
    }
}

/// Only Alt held.
pub open spec fn only_alt(m: Modifiers) -> bool {
    m.alt && !m.shift && !m.control && !m.super_key
}

/// The legacy bytes of a cursor, editing or function key. With
/// `alt_word_motion`, bare Alt+Left/Right send the readline `ESC b`/`ESC f`.
pub open spec fn special_key_seq(
    named: NamedKey,
    mods: Modifiers,
    app_cursor_keys: bool,
    alt_word_motion: bool,
) -> Option<Seq<u8>> {
    let m = legacy_modifier(mods);
    if alt_word_motion && only_alt(mods) && named == NamedKey::ArrowLeft {
        Some(seq![ESC, 0x62u8])
    } else if alt_word_motion && only_alt(mods) && named == NamedKey::ArrowRight {
        Some(seq![ESC, 0x66u8])
    } else {
        match named {
            NamedKey::ArrowUp => Some(final_key_seq(0x41, m, app_cursor_keys)),
            NamedKey::ArrowDown => Some(final_key_seq(0x42, m, app_cursor_keys)),
            NamedKey::ArrowRight => Some(final_key_seq(0x43, m, app_cursor_keys)),
            NamedKey::ArrowLeft => Some(final_key_seq(0x44, m, app_cursor_keys)),
            NamedKey::Home => Some(final_key_seq(0x48, m, false)),
            NamedKey::End => Some(final_key_seq(0x46, m, false)),
            NamedKey::Insert => Some(tilde_key_seq(2, m)),
            NamedKey::Delete => Some(tilde_key_seq(3, m)),
            NamedKey::PageUp => Some(tilde_key_seq(5, m)),
            NamedKey::PageDown => Some(tilde_key_seq(6, m)),
            NamedKey::F1 => Some(final_key_seq(0x50, m, true)),
            NamedKey::F2 => Some(final_key_seq(0x51, m, true)),
            NamedKey::F3 => Some(final_key_seq(0x52, m, true)),
            NamedKey::F4 => Some(final_key_seq(0x53, m, true)),
            NamedKey::F5 => Some(tilde_key_seq(15, m)),
            NamedKey::F6 => Some(tilde_key_seq(17, m)),
            NamedKey::F7 => Some(tilde_key_seq(18, m)),
            NamedKey::F8 => Some(tilde_key_seq(19, m)),
            NamedKey::F9 => Some(tilde_key_seq(20, m)),
            NamedKey::F10 => Some(tilde_key_seq(21, m)),
            NamedKey::F11 => Some(tilde_key_seq(23, m)),
            NamedKey::F12 => Some(tilde_key_seq(24, m)),
            _ => None,
        }
    }
}

/// The SS3 final byte of a numeric-keypad key in application keypad mode.
pub open spec fn keypad_final(physical: Option<KeyCode>) -> Option<u8> {
    match physical {
        Some(KeyCode::Numpad0) => Some(0x70u8),
        Some(KeyCode::Numpad1) => Some(0x71u8),
        Some(KeyCode::Numpad2) => Some(0x72u8),
        Some(KeyCode::Numpad3) => Some(0x73u8),
        Some(KeyCode::Numpad4) => Some(0x74u8),
        Some(KeyCode::Numpad5) => Some(0x75u8),
        Some(KeyCode::Numpad6) => Some(0x76u8),
        Some(KeyCode::Numpad7) => Some(0x77u8),
        Some(KeyCode::Numpad8) => Some(0x78u8),
        Some(KeyCode::Numpad9) => Some(0x79u8),
        Some(KeyCode::NumpadDecimal) => Some(0x6eu8),
        Some(KeyCode::NumpadAdd) => Some(0x6bu8),
        Some(KeyCode::NumpadSubtract) => Some(0x6du8),
        Some(KeyCode::NumpadMultiply) => Some(0x6au8),
        Some(KeyCode::NumpadDivide) => Some(0x6fu8),
        Some(KeyCode::NumpadEnter) => Some(0x4du8),
        Some(KeyCode::NumpadEqual) => Some(0x58u8),
        _ => None,
    }
}

/// `ESC`-prefix `bytes` when `prefix` holds.
pub open spec fn esc_if(prefix: bool, bytes: Seq<u8>) -> Seq<u8> {
    if prefix {
        seq![ESC] + bytes
    } else {
        bytes
    }
}

/// The produced text, `ESC`-prefixed when Alt acts as a modifier; `None`
/// when there is no text.
pub open spec fn key_text_seq(text: Option<Seq<u8>>, mods: Modifiers, alt_sends_esc: bool) -> Option<
    Seq<u8>,
> {
    match text {
        Some(t) => if t.len() == 0 {
            None
        } else {
            Some(esc_if(mods.alt && alt_sends_esc, t))
        },
        None => None,
    }
}

/// The code point a character key reports under modifyOtherKeys.
pub open spec fn other_keys_codepoint(key: Key) -> Option<u32> {
    match key {
        Key::Character(s) => match single_char(s@) {
            Some(c) => Some(c as u32),
            None => None,
        },
        Key::Named(NamedKey::Space) => Some(32),
        _ => None,
    }
}

/// xterm modifyOtherKeys level 2: `CSI 27 ; m ; codepoint ~` for a character
/// (or Space) key held with Ctrl, Alt-as-modifier or Super.
pub open spec fn modify_other_keys_seq(key: Key, mods: Modifiers, alt_sends_esc: bool) -> Option<
    Seq<u8>,
> {
    let alt = mods.alt && alt_sends_esc;
    let v = 1 + (if mods.shift { 1int } else { 0 }) + (if alt { 2int } else { 0 }) + (
    if mods.control {
        4int
    } else {
        0
    }) + (if mods.super_key { 8int } else { 0 });
    if !(mods.control || alt || mods.super_key) {
        None
    } else {
        match other_keys_codepoint(key) {
            Some(cp) => Some(
                seq![ESC, 0x5bu8, 0x32u8, 0x37u8, 0x3bu8] + dec(v as nat) + seq![0x3bu8] + dec(
                    cp as nat,
                ) + seq![0x7eu8],
            ),
            None => None,
        }
    }
}

/// The C0 byte Ctrl sends for this key, if any (Ctrl+Space is NUL).
pub open spec fn ctrl_key_byte(key: Key) -> Option<u8> {
    match key {
        Key::Character(s) => match single_char(s@) {
            Some(c) => ctrl_c0(c),
            None => None,
        },
        Key::Named(NamedKey::Space) => Some(0),
        _ => None,
    }
}

/// The legacy encoding of a key press or repeat.
pub open spec fn legacy_encoding(
    key: Key,
    physical: Option<KeyCode>,
    text: Option<Seq<u8>>,
    mods: Modifiers,
    alt_sends_esc: bool,
    app_cursor_keys: bool,
    app_keypad: bool,
    modify_other_keys: bool,
    alt_word_motion: bool,
) -> Option<Seq<u8>> {
    if modify_other_keys && modify_other_keys_seq(key, mods, alt_sends_esc) is Some {
        modify_other_keys_seq(key, mods, alt_sends_esc)
    } else if mods.control && ctrl_key_byte(key) is Some {
        Some(seq![ctrl_key_byte(key)->0])
    } else if app_keypad && legacy_modifier(mods) is None && keypad_final(physical) is Some {
        Some(seq![ESC, 0x4fu8, keypad_final(physical)->0])
    } else {
        match key {
            Key::Named(NamedKey::Enter) => if mods.shift && !mods.control && !mods.alt {
                Some(seq![ESC, 0x0du8])
            } else {
                Some(esc_if(mods.alt, seq![0x0du8]))
            },
            Key::Named(NamedKey::Backspace) => Some(
                esc_if(
                    mods.alt,
                    seq![
                        if mods.control {
                            0x08u8
                        } else {
                            0x7fu8
                        },
                    ],
                ),
            ),
            Key::Named(NamedKey::Tab) => if mods.shift {
                Some(seq![ESC, 0x5bu8, 0x5au8])
            } else {
                Some(seq![0x09u8])
            },
            Key::Named(NamedKey::Escape) => Some(seq![ESC]),
            Key::Named(named) => match special_key_seq(
                named,
                mods,
                app_cursor_keys,
                alt_word_motion,
            ) {
                Some(s) => Some(s),
                None => key_text_seq(text, mods, alt_sends_esc),
            },
            _ => key_text_seq(text, mods, alt_sends_esc),
        }
    }
}

/// The full key encoding: the Kitty keyboard protocol governs whenever one
/// of its flags is set (delegating the keys it keeps legacy), a release
/// never produces legacy bytes, and everything else is the legacy encoding.
pub open spec fn key_encoding(
    key: Key,
    unmodified_key: Option<Key>,
    physical: Option<KeyCode>,
    text: Option<&str>,
    mods: Modifiers,
    alt_sends_esc: bool,
    app_cursor_keys: bool,
    app_keypad: bool,
    kitty_flags: u8,
    modify_other_keys: bool,
    pressed: bool,
    repeat: bool,
    alt_word_motion: bool,
) -> Option<Seq<u8>> {
    let plan = kitty_plan(key, unmodified_key, physical, text, mods, kitty_flags, pressed, repeat);
    if kitty_flags != 0 && plan is Escape {
        Some(plan->Escape_0)
    } else if kitty_flags != 0 && plan is Ignore {
        None
    } else if !pressed {
        None
    } else {
        legacy_encoding(
            key,
            physical,
            opt_text(text),
            mods,
            alt_sends_esc,
            app_cursor_keys,
            app_keypad,
            modify_other_keys,
            alt_word_motion,
        )
    }
}

/// What one key event does to the per-key Option/Alt classification and
/// what it reports: a press records the event's own classification (a repeat
/// keeps the one its press recorded), a release reports what was recorded
/// for the key and forgets it.
pub open spec fn alt_step(m: Map<u64, bool>, key: u64, pressed: bool, repeat: bool, event: bool) -> (
    Map<u64, bool>,
    bool,
) {
    if !pressed {
        (m.remove(key), if m.contains_key(key) { m[key] } else { event })
    } else if !repeat {
        (m.insert(key, event), event)
    } else if m.contains_key(key) {
        (m, m[key])
    } else {
        (m.insert(key, event), event)
    }
}

/// Whether Option/Alt acts as a modifier (sending ESC) belongs to a physical
/// key press, its repeats and its release; release events carry no composed
/// text to decide it again. Keys are identified by a number per physical key.
pub struct KeyModifierState {
    alt_by_key: HashMap<u64, bool>,
}

impl View for KeyModifierState {
    type V = Map<u64, bool>;

    closed spec fn view(&self) -> Map<u64, bool> {
        self.alt_by_key@
    }
}

impl KeyModifierState {
    /// No key held.
    pub fn new() -> (s: KeyModifierState)
        ensures
            s@ == Map::<u64, bool>::empty(),
    {
        KeyModifierState { alt_by_key: HashMap::new() }
    }

    /// Record one key event and return whether Option/Alt sends ESC for it.
    pub fn alt_sends_esc(&mut self, key: u64, pressed: bool, repeat: bool, event_alt_sends_esc: bool) -> (r: bool)
        ensures
            (final(self)@, r) == alt_step(old(self)@, key, pressed, repeat, event_alt_sends_esc),
    {
        broadcast use vstd::std_specs::hash::group_hash_axioms;

        if !pressed {
            return match self.alt_by_key.remove(&key) {
                Some(v) => v,
                None => event_alt_sends_esc,
            };
        }
        if !repeat {
            self.alt_by_key.insert(key, event_alt_sends_esc);
            return event_alt_sends_esc;
        }
        match self.alt_by_key.get(&key) {
            Some(v) => *v,
            None => {
                self.alt_by_key.insert(key, event_alt_sends_esc);
                event_alt_sends_esc
            },
        }
    }

    /// Forget every key (focus loss).
    pub fn clear(&mut self)
        ensures
            final(self)@ == Map::<u64, bool>::empty(),
    {
        self.alt_by_key.clear();
    }
}

impl Default for KeyModifierState {
    fn default() -> (s: KeyModifierState)
        ensures
            s@ == Map::<u64, bool>::empty(),
    {
        KeyModifierState::new()
    }
}

/// A release reports what the key's press decided, whatever the release
/// event itself says, and however many repeats came between.
pub proof fn lemma_release_reports_the_press(
    m: Map<u64, bool>,
    key: u64,
    at_press: bool,
    at_repeats: Seq<bool>,
    at_release: bool,
)
    ensures
        ({
            let held = repeat_all(alt_step(m, key, true, false, at_press).0, key, at_repeats);
            &&& held.1 == at_press
            &&& alt_step(held.0, key, false, false, at_release).1 == at_press
            &&& !alt_step(held.0, key, false, false, at_release).0.contains_key(key)
        }),
{
    lemma_repeats_keep(alt_step(m, key, true, false, at_press).0, key, at_press, at_repeats);
}

/// The state after `events` repeats of `key`, and what the last reported
/// (the recorded value when there were none).
pub open spec fn repeat_all(m: Map<u64, bool>, key: u64, events: Seq<bool>) -> (Map<u64, bool>, bool)
    decreases events.len(),
{
    if events.len() == 0 {
        (m, if m.contains_key(key) { m[key] } else { false })
    } else {
        let prev = repeat_all(m, key, events.drop_last());
        let step = alt_step(prev.0, key, true, true, events.last());
        step
    }
}

proof fn lemma_repeats_keep(m: Map<u64, bool>, key: u64, v: bool, events: Seq<bool>)
    requires
        m.contains_key(key),
        m[key] == v,
    ensures
        repeat_all(m, key, events).0 == m,
        repeat_all(m, key, events).1 == v,
    decreases events.len(),
{
    if events.len() > 0 {
        lemma_repeats_keep(m, key, v, events.drop_last());
    }
}

/// A key whose unmodified legacy encoding is `CSI n ~` reports the same
/// number `n`, with the same `~` final, under the Kitty protocol.
pub proof fn lemma_kitty_tilde_keys_keep_their_xterm_numbers(
    named: NamedKey,
    app_cursor_keys: bool,
    n: nat,
)
    requires
        special_key_seq(
            named,
            Modifiers { shift: false, control: false, alt: false, super_key: false },
            app_cursor_keys,
            false,
        ) == Some(seq![ESC, 0x5bu8] + dec(n) + seq![0x7eu8]),
    ensures
        functional_key(named) matches Some((number, final_byte)) && number == n && final_byte
            == 0x7eu8,
{
    lemma_dec_reads_back(n);
    let none = Modifiers { shift: false, control: false, alt: false, super_key: false };
    assert(legacy_modifier(none) is None);
    match named {
        NamedKey::Insert => lemma_tilde_code(2, n),
        NamedKey::Delete => lemma_tilde_code(3, n),
        NamedKey::PageUp => lemma_tilde_code(5, n),
        NamedKey::PageDown => lemma_tilde_code(6, n),
        NamedKey::F5 => lemma_tilde_code(15, n),
        NamedKey::F6 => lemma_tilde_code(17, n),
        NamedKey::F7 => lemma_tilde_code(18, n),
        NamedKey::F8 => lemma_tilde_code(19, n),
        NamedKey::F9 => lemma_tilde_code(20, n),
        NamedKey::F10 => lemma_tilde_code(21, n),
        NamedKey::F11 => lemma_tilde_code(23, n),
        NamedKey::F12 => lemma_tilde_code(24, n),
        _ => {},
    }
}

/// A cursor or editing key whose unmodified legacy encoding is `CSI f`
/// reports number 1 with the same final `f` under the Kitty protocol, and
/// so does a function key whose legacy encoding is `SS3 f`, except F3, whose
/// `R` final would read as a cursor-position report.
pub proof fn lemma_kitty_letter_keys_keep_their_xterm_finals(named: NamedKey, f: u8)
    requires
        special_key_seq(
            named,
            Modifiers { shift: false, control: false, alt: false, super_key: false },
            false,
            false,
        ) == Some(seq![ESC, 0x5bu8, f]) || (special_key_seq(
            named,
            Modifiers { shift: false, control: false, alt: false, super_key: false },
            false,
            false,
        ) == Some(seq![ESC, 0x4fu8, f]) && f != 0x52u8),
    ensures
        functional_key(named) == Some((1u32, f)),
{
    let none = Modifiers { shift: false, control: false, alt: false, super_key: false };
    assert(legacy_modifier(none) is None);
    let sq = special_key_seq(named, none, false, false);
    assert(sq is Some ==> sq->0.len() >= 3);
    match named {
        NamedKey::Insert => lemma_tilde_not_letter(2, f),
        NamedKey::Delete => lemma_tilde_not_letter(3, f),
        NamedKey::PageUp => lemma_tilde_not_letter(5, f),
        NamedKey::PageDown => lemma_tilde_not_letter(6, f),
        NamedKey::F5 => lemma_tilde_not_letter(15, f),
        NamedKey::F6 => lemma_tilde_not_letter(17, f),
        NamedKey::F7 => lemma_tilde_not_letter(18, f),
        NamedKey::F8 => lemma_tilde_not_letter(19, f),
        NamedKey::F9 => lemma_tilde_not_letter(20, f),
        NamedKey::F10 => lemma_tilde_not_letter(21, f),
        NamedKey::F11 => lemma_tilde_not_letter(23, f),
        NamedKey::F12 => lemma_tilde_not_letter(24, f),
        _ => {
            if sq is Some {
                assert(sq->0[2] == f);
            }
        },
    }
}

proof fn lemma_tilde_not_letter(code: u8, f: u8)
    ensures
        tilde_key_seq(code, None) != seq![ESC, 0x5bu8, f],
        tilde_key_seq(code, None) != seq![ESC, 0x4fu8, f],
{
    lemma_dec_reads_back(code as nat);
    assert(tilde_key_seq(code, None).len() >= 4);
}

/// The Kitty modifier value extends the xterm modifier parameter of the
/// legacy encoding: without Super they are the same number (the legacy
/// encoding leaves it out when it is 1), and Super adds 8.
pub proof fn lemma_kitty_modifiers_extend_xterm(m: Modifiers)
    ensures
        !m.super_key ==> (legacy_modifier(m) is None <==> kitty_mods(m) == 1),
        !m.super_key ==> (legacy_modifier(m) matches Some(v) ==> v as u32 == kitty_mods(m)),
        m.super_key ==> kitty_mods(m) == kitty_mods(Modifiers { super_key: false, ..m }) + 8,
{
}

proof fn lemma_tilde_code(code: u8, n: nat)
    requires
        tilde_key_seq(code, None) == seq![ESC, 0x5bu8] + dec(n) + seq![0x7eu8],
    ensures
        code == n,
{
    let a = seq![ESC, 0x5bu8] + dec(code as nat) + seq![0x7eu8];
    let b = seq![ESC, 0x5bu8] + dec(n) + seq![0x7eu8];
    assert(a == b);
    assert(dec(code as nat) =~= a.subrange(2, a.len() - 1));
    assert(dec(n) =~= b.subrange(2, b.len() - 1));
    lemma_dec_injective(code as nat, n);
}

/// Under modifyOtherKeys and no Kitty flags, pressing a one-character key
/// with Ctrl, Alt (when it acts as a modifier) or Super sends
/// `CSI 27 ; m ; c ~`: `m` the modifier value `1 + shift + 2·alt + 4·ctrl +
/// 8·super`, `c` the character's code point, both in decimal.
pub proof fn lemma_modify_other_keys_fields(
    key: Key,
    unmodified_key: Option<Key>,
    physical: Option<KeyCode>,
    text: Option<&str>,
    mods: Modifiers,
    alt_sends_esc: bool,
    app_cursor_keys: bool,
    app_keypad: bool,
    repeat: bool,
    alt_word_motion: bool,
)
    requires
        key is Character,
        key->Character_0@.len() == 1,
        mods.control || (mods.alt && alt_sends_esc) || mods.super_key,
    ensures
        key_encoding(
            key,
            unmodified_key,
            physical,
            text,
            mods,
            alt_sends_esc,
            app_cursor_keys,
            app_keypad,
            0,
            true,
            true,
            repeat,
            alt_word_motion,
        ) == Some(
            seq![ESC, 0x5bu8, 0x32u8, 0x37u8, 0x3bu8] + dec(
                (1 + (if mods.shift { 1nat } else { 0nat }) + (if mods.alt && alt_sends_esc {
                    2nat
                } else {
                    0nat
                }) + (if mods.control { 4nat } else { 0nat }) + (if mods.super_key {
                    8nat
                } else {
                    0nat
                })) as nat,
            ) + seq![0x3bu8] + dec((key->Character_0@[0] as u32) as nat) + seq![0x7eu8],
        ),
{
}

/// The only character of `s`, when it has exactly one.
pub fn single_char_of(s: &str) -> (res: Option<char>)
    ensures
        res == single_char(s@),
{
    if s.unicode_len() == 1 {
        Some(s.get_char(0))
    } else {
        None
    }
}

/// The C0 byte Ctrl+`c` sends under the legacy encoding.
pub fn ctrl_c0_byte(c: char) -> (res: Option<u8>)
    ensures
        res == ctrl_c0(c),
{
    let l = if 'A' <= c && c <= 'Z' {
        ((c as u32) + 32) as u8 as char
    } else {
        c
    };
    assert(l == ascii_lower(c));
    if 'a' <= l && l <= 'z' {
        Some(((l as u32) - 96) as u8)
    } else if l == ' ' || l == '@' || l == '2' {
        Some(0x00)
    } else if l == '[' || l == '3' {
        Some(0x1b)
    } else if l == '\\' || l == '4' {
        Some(0x1c)
    } else if l == ']' || l == '5' {
        Some(0x1d)
    } else if l == '^' || l == '6' {
        Some(0x1e)
    } else if l == '_' || l == '7' || l == '/' || l == '-' {
        Some(0x1f)
    } else if l == '8' || l == '?' {
        Some(0x7f)
    } else {
        None
    }
}

/// The xterm modifier parameter of a legacy special key.
pub fn modifier_value(mods: Modifiers) -> (res: Option<u8>)
    ensures
        res == legacy_modifier(mods),
{
    let mut value: u8 = 1;
    if mods.shift {
        value += 1;
    }
    if mods.alt {
        value += 2;
    }
    if mods.control {
        value += 4;
    }
    if value > 1 {
        Some(value)
    } else {
        None
    }
}

/// The bytes of a letter-final special key.
pub fn final_key_bytes(final_byte: u8, modifier: Option<u8>, ss3_unmodified: bool) -> (res: Vec<
    u8,
>)
    ensures
        res@ == final_key_seq(final_byte, modifier, ss3_unmodified),
{
    match modifier {
        Some(m) => {
            let mut v: Vec<u8> = vec![ESC, 0x5bu8, 0x31u8, 0x3bu8];
            push_decimal(&mut v, m as u64);
            v.push(final_byte);
            v
        },
        None => if ss3_unmodified {
            vec![ESC, 0x4fu8, final_byte]
        } else {
            vec![ESC, 0x5bu8, final_byte]
        },
    }
}

/// The bytes of a tilde-final special key.
pub fn tilde_key_bytes(code: u8, modifier: Option<u8>) -> (res: Vec<u8>)
    ensures
        res@ == tilde_key_seq(code, modifier),
{
    let mut v: Vec<u8> = vec![ESC, 0x5bu8];
    push_decimal(&mut v, code as u64);
    match modifier {
        Some(m) => {
            v.push(0x3bu8);
            push_decimal(&mut v, m as u64);
        },
        None => {},
    }
    v.push(0x7eu8);
    v
}

/// The legacy bytes of a cursor, editing or function key.
pub fn special_key_bytes(
    named: NamedKey,
    mods: Modifiers,
    app_cursor_keys: bool,
    alt_word_motion: bool,
) -> (res: Option<Vec<u8>>)
    ensures
        crate::paste::opt_bytes(res) == special_key_seq(named, mods, app_cursor_keys, alt_word_motion),
{
    let alt_only = mods.alt && !mods.shift && !mods.control && !mods.super_key;
    if alt_word_motion && alt_only {
        match named {
            NamedKey::ArrowLeft => {
                return Some(vec![ESC, 0x62u8]);
            },
            NamedKey::ArrowRight => {
                return Some(vec![ESC, 0x66u8]);
            },
            _ => {},
        }
    }
    let m = modifier_value(mods);
    match named {
        NamedKey::ArrowUp => Some(final_key_bytes(0x41, m, app_cursor_keys)),
        NamedKey::ArrowDown => Some(final_key_bytes(0x42, m, app_cursor_keys)),
        NamedKey::ArrowRight => Some(final_key_bytes(0x43, m, app_cursor_keys)),
        NamedKey::ArrowLeft => Some(final_key_bytes(0x44, m, app_cursor_keys)),
        NamedKey::Home => Some(final_key_bytes(0x48, m, false)),
        NamedKey::End => Some(final_key_bytes(0x46, m, false)),
        NamedKey::Insert => Some(tilde_key_bytes(2, m)),
        NamedKey::Delete => Some(tilde_key_bytes(3, m)),
        NamedKey::PageUp => Some(tilde_key_bytes(5, m)),
        NamedKey::PageDown => Some(tilde_key_bytes(6, m)),
        NamedKey::F1 => Some(final_key_bytes(0x50, m, true)),
        NamedKey::F2 => Some(final_key_bytes(0x51, m, true)),
        NamedKey::F3 => Some(final_key_bytes(0x52, m, true)),
        NamedKey::F4 => Some(final_key_bytes(0x53, m, true)),
        NamedKey::F5 => Some(tilde_key_bytes(15, m)),
        NamedKey::F6 => Some(tilde_key_bytes(17, m)),
        NamedKey::F7 => Some(tilde_key_bytes(18, m)),
        NamedKey::F8 => Some(tilde_key_bytes(19, m)),
        NamedKey::F9 => Some(tilde_key_bytes(20, m)),
        NamedKey::F10 => Some(tilde_key_bytes(21, m)),
        NamedKey::F11 => Some(tilde_key_bytes(23, m)),
        NamedKey::F12 => Some(tilde_key_bytes(24, m)),
        _ => None,
    }
}

/// `ESC O <f>` for a numeric-keypad key in application keypad mode.
pub fn application_keypad_bytes(physical: Option<KeyCode>) -> (res: Option<Vec<u8>>)
    ensures
        crate::paste::opt_bytes(res) == (match keypad_final(physical) {
            Some(f) => Some(seq![ESC, 0x4fu8, f]),
            None => None::<Seq<u8>>,
        }),
{
    let f: u8 = match physical {
        Some(KeyCode::Numpad0) => 0x70u8,
        Some(KeyCode::Numpad1) => 0x71u8,
        Some(KeyCode::Numpad2) => 0x72u8,
        Some(KeyCode::Numpad3) => 0x73u8,
        Some(KeyCode::Numpad4) => 0x74u8,
        Some(KeyCode::Numpad5) => 0x75u8,
        Some(KeyCode::Numpad6) => 0x76u8,
        Some(KeyCode::Numpad7) => 0x77u8,
        Some(KeyCode::Numpad8) => 0x78u8,
        Some(KeyCode::Numpad9) => 0x79u8,
        Some(KeyCode::NumpadDecimal) => 0x6eu8,
        Some(KeyCode::NumpadAdd) => 0x6bu8,
        Some(KeyCode::NumpadSubtract) => 0x6du8,
        Some(KeyCode::NumpadMultiply) => 0x6au8,
        Some(KeyCode::NumpadDivide) => 0x6fu8,
        Some(KeyCode::NumpadEnter) => 0x4du8,
        Some(KeyCode::NumpadEqual) => 0x58u8,
        _ => {
            return None;
        },
    };
    Some(vec![ESC, 0x4fu8, f])
}

/// The produced text, `ESC`-prefixed when Alt acts as a modifier.
pub fn encode_key_text(text: Option<&str>, mods: Modifiers, alt_sends_esc: bool) -> (res: Option<
    Vec<u8>,
>)
    ensures
        crate::paste::opt_bytes(res) == key_text_seq(opt_text(text), mods, alt_sends_esc),
{
    let t = match text {
        Some(t) => t,
        None => {
            return None;
        },
    };
    let b = t.as_bytes();
    if b.len() == 0 {
        return None;
    }
    let mut out: Vec<u8> = Vec::new();
    if mods.alt && alt_sends_esc {
        out.push(ESC);
    }
    push_all(&mut out, b);
    proof {
        assert(out@ =~= esc_if(mods.alt && alt_sends_esc, t.spec_bytes()));
    }
    Some(out)
}

/// The code point a character (or Space) key reports under modifyOtherKeys.
fn other_keys_code(key: &Key) -> (res: Option<u32>)
    ensures
        res == other_keys_codepoint(*key),
{
    match key {
        Key::Character(s) => match single_char_of(s.as_str()) {
            Some(c) => Some(c as u32),
            None => None,
        },
        Key::Named(NamedKey::Space) => Some(32),
        _ => None,
    }
}

/// xterm modifyOtherKeys level 2 bytes for a character key held with Ctrl,
/// Alt-as-modifier or Super.
pub fn modify_other_keys_bytes(key: &Key, mods: Modifiers, alt_sends_esc: bool) -> (res: Option<
    Vec<u8>,
>)
    ensures
        crate::paste::opt_bytes(res) == modify_other_keys_seq(*key, mods, alt_sends_esc),
{
    let alt = mods.alt && alt_sends_esc;
    if !(mods.control || alt || mods.super_key) {
        return None;
    }
    let codepoint = match other_keys_code(key) {
        Some(cp) => cp,
        None => {
            return None;
        },
    };
    let mut value: u8 = 1;
    if mods.shift {
        value += 1;
    }
    if alt {
        value += 2;
    }
    if mods.control {
        value += 4;
    }
    if mods.super_key {
        value += 8;
    }
    let mut v: Vec<u8> = vec![ESC, 0x5bu8, 0x32u8, 0x37u8, 0x3bu8];
    push_decimal(&mut v, value as u64);
    v.push(0x3bu8);
    push_decimal(&mut v, codepoint as u64);
    v.push(0x7eu8);
    Some(v)
}

/// The C0 byte Ctrl sends for this key, if any.
fn ctrl_byte(key: &Key) -> (res: Option<u8>)
    ensures
        res == ctrl_key_byte(*key),
{
    match key {
        Key::Character(s) => match single_char_of(s.as_str()) {
            Some(c) => ctrl_c0_byte(c),
            None => None,
        },
        Key::Named(NamedKey::Space) => Some(0),
        _ => None,
    }
}

/// The legacy encoding of a key press or repeat.
pub fn legacy_key_bytes(
    key: &Key,
    physical: Option<KeyCode>,
    text: Option<&str>,
    mods: Modifiers,
    alt_sends_esc: bool,
    app_cursor_keys: bool,
    app_keypad: bool,
    modify_other_keys: bool,
    alt_word_motion: bool,
) -> (res: Option<Vec<u8>>)
    ensures
        crate::paste::opt_bytes(res) == legacy_encoding(
            *key,
            physical,
            opt_text(text),
            mods,
            alt_sends_esc,
            app_cursor_keys,
            app_keypad,
            modify_other_keys,
            alt_word_motion,
        ),
{
    if modify_other_keys {
        match modify_other_keys_bytes(key, mods, alt_sends_esc) {
            Some(bytes) => {
                return Some(bytes);
            },
            None => {},
        }
    }
    if mods.control {
        match ctrl_byte(key) {
            Some(b) => {
                return Some(vec![b]);
            },
            None => {},
        }
    }
    if app_keypad && modifier_value(mods).is_none() {
        match application_keypad_bytes(physical) {
            Some(bytes) => {
                return Some(bytes);
            },
            None => {},
        }
    }
    match key {
        Key::Named(NamedKey::Enter) => {
            if mods.shift && !mods.control && !mods.alt {
                Some(vec![ESC, 0x0du8])
            } else if mods.alt {
                Some(vec![ESC, 0x0du8])
            } else {
                Some(vec![0x0du8])
            }
        },
        Key::Named(NamedKey::Backspace) => {
            let byte: u8 = if mods.control {
                0x08
            } else {
                0x7f
            };
            if mods.alt {
                Some(vec![ESC, byte])
            } else {
                Some(vec![byte])
            }
        },
        Key::Named(NamedKey::Tab) => {
            if mods.shift {
                Some(vec![ESC, 0x5bu8, 0x5au8])
            } else {
                Some(vec![0x09u8])
            }
        },
        Key::Named(NamedKey::Escape) => Some(vec![ESC]),
        Key::Named(named) => match special_key_bytes(
            *named,
            mods,
            app_cursor_keys,
            alt_word_motion,
        ) {
            Some(bytes) => Some(bytes),
            None => encode_key_text(text, mods, alt_sends_esc),
        },
        _ => encode_key_text(text, mods, alt_sends_esc),
    }
}

/// Encode a key event for the pty. `kitty_flags` are the active Kitty
/// keyboard progressive-enhancement flags (0 selects the legacy encoding);
/// `unmodified_key` is the key the same press produces with no modifier
/// held; `modify_other_keys` mirrors xterm `CSI > 4 ; 2 m`; `alt_sends_esc`
/// says whether Alt prefixes produced text with `ESC` rather than composing
/// it; `alt_word_motion` turns bare Alt+Left/Right into readline word motion
/// (the macOS binding).
pub fn encode_key_with_modes(
    logical_key: &Key,
    unmodified_key: Option<&Key>,
    physical_key: Option<KeyCode>,
    text: Option<&str>,
    mods: Modifiers,
    alt_sends_esc: bool,
    app_cursor_keys: bool,
    app_keypad: bool,
    kitty_flags: u8,
    modify_other_keys: bool,
    pressed: bool,
    repeat: bool,
    alt_word_motion: bool,
) -> (res: Option<Vec<u8>>)
    ensures
        crate::paste::opt_bytes(res) == key_encoding(
            *logical_key,
            match unmodified_key {
                Some(k) => Some(*k),
                None => None,
            },
            physical_key,
            text,
            mods,
            alt_sends_esc,
            app_cursor_keys,
            app_keypad,
            kitty_flags,
            modify_other_keys,
            pressed,
            repeat,
            alt_word_motion,
        ),
{
    if kitty_flags != 0 {
        match encode_kitty(
            logical_key,
            unmodified_key,
            physical_key,
            text,
            mods,
            kitty_flags,
            pressed,
            repeat,
        ) {
            KittyOutcome::Escape(bytes) => {
                return Some(bytes);
            },
            KittyOutcome::Ignore => {
                return None;
            },
            KittyOutcome::Legacy => {},
        }
    }
    if !pressed {
        return None;
    }
    legacy_key_bytes(
        logical_key,
        physical_key,
        text,
        mods,
        alt_sends_esc,
        app_cursor_keys,
        app_keypad,
        modify_other_keys,
        alt_word_motion,
    )
}

/// Encode a pressed key with the legacy encoding and no Kitty flags, text
/// Alt-prefixed, and no Option word-motion binding.
pub fn encode_key(logical_key: &Key, text: Option<&str>, mods: Modifiers, app_cursor_keys: bool) -> (res:
    Option<Vec<u8>>)
    ensures
        crate::paste::opt_bytes(res) == legacy_encoding(
            *logical_key,
            None,
            opt_text(text),
            mods,
            true,
            app_cursor_keys,
            false,
            false,
            false,
        ),
{
    encode_key_with_modes(
        logical_key,
        None,
        None,
        text,
        mods,
        true,
        app_cursor_keys,
        false,
        0,
        false,
        true,
        false,
        false,
    )
}

/// The bytes an unmodified Enter press writes under the given Kitty flags:
/// `CSI 13 u` once report-all-keys is in effect, a carriage return
/// otherwise.
pub fn encode_enter_key(kitty_flags: u8) -> (res: Vec<u8>)
    ensures
        Some(res@) == key_encoding(
            Key::Named(NamedKey::Enter),
            None,
            None,
            None,
            Modifiers { shift: false, control: false, alt: false, super_key: false },
            true,
            false,
            false,
            kitty_flags,
            false,
            true,
            false,
            false,
        ),
{
    let key = Key::Named(NamedKey::Enter);
    let r = encode_key_with_modes(
        &key,
        None,
        None,
        None,
        Modifiers::empty(),
        true,
        false,
        false,
        kitty_flags,
        false,
        true,
        false,
        false,
    );
    proof {
        crate::kitty::lemma_enter_press_never_ignored(kitty_flags);
    }
    match r {
        Some(v) => v,
        None => Vec::new(),
    }
}

} // verus!
