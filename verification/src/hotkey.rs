//! Parsing of the global hotkey chord (`cmd+grave`, `ctrl+shift+t`, ...)
//! into a Carbon virtual keycode and modifier mask.

use vstd::prelude::*;
use vstd::string::*;

use crate::keyboard::ascii_lower;

verus! {

/// Carbon modifier mask of the Command key.
pub const CMD_KEY: u32 = 0x0100;

/// Carbon modifier mask of the Shift key.
pub const SHIFT_KEY: u32 = 0x0200;

/// Carbon modifier mask of the Option key.
pub const OPTION_KEY: u32 = 0x0800;

/// Carbon modifier mask of the Control key.
pub const CONTROL_KEY: u32 = 0x1000;

/// A parsed hotkey chord: a Carbon virtual keycode and modifier mask.
#[derive(Debug, Clone, Copy, PartialEq, Eq, Structural)]
pub struct HotkeyChord {
    pub keycode: u32,
    pub modifiers: u32,
}

/// The two coexisting global hotkeys; each filters the shared Carbon
/// hotkey-pressed event on its own id.
#[derive(Debug, Clone, Copy, PartialEq, Eq, Structural)]
pub enum HotkeyAction {
    QuickTerminal,
    Sidebar,
}

impl HotkeyAction {
    /// The Carbon hotkey id registered for this action.
    pub fn id(self) -> (id: u32)
        ensures
            id == (match self {
                HotkeyAction::QuickTerminal => 1u32,
                HotkeyAction::Sidebar => 2u32,
            }),
    {
        match self {
            HotkeyAction::QuickTerminal => 1,
            HotkeyAction::Sidebar => 2,
        }
    }
}

/// The Carbon hotkey signature of the app's hotkeys: `noaq`, big-endian.
pub const HOTKEY_SIGNATURE: u32 = 0x6e6f6171;

/// Whether a fired Carbon hotkey event is this handler's: it read cleanly
/// (`status` 0) and carries the app's signature and the action's id. Every
/// handler sees every app hotkey, so each forwards only its own.
pub fn hotkey_event_matches(status: i32, signature: u32, fired_id: u32, action: HotkeyAction) -> (r: bool)
    ensures
        r == (status == 0 && signature == HOTKEY_SIGNATURE && fired_id == (match action {
            HotkeyAction::QuickTerminal => 1u32,
            HotkeyAction::Sidebar => 2u32,
        })),
{
    status == 0 && signature == HOTKEY_SIGNATURE && fired_id == action.id()
}

/// Unicode `White_Space`, the set `str::trim` strips.
pub open spec fn is_white_space(c: char) -> bool {
    ||| '\u{9}' <= c <= '\u{d}'
    ||| c == ' '
    ||| c == '\u{85}'
    ||| c == '\u{a0}'
    ||| c == '\u{1680}'
    ||| '\u{2000}' <= c <= '\u{200a}'
    ||| c == '\u{2028}'
    ||| c == '\u{2029}'
    ||| c == '\u{202f}'
    ||| c == '\u{205f}'
    ||| c == '\u{3000}'
}

/// `t` without its leading white space.
pub open spec fn trim_start(t: Seq<char>) -> Seq<char>
    decreases t.len(),
{
    if t.len() > 0 && is_white_space(t[0]) {
        trim_start(t.drop_first())
    } else {
        t
    }
}

/// `t` without its trailing white space.
pub open spec fn trim_end(t: Seq<char>) -> Seq<char>
    decreases t.len(),
{
    if t.len() > 0 && is_white_space(t.last()) {
        trim_end(t.drop_last())
    } else {
        t
    }
}

/// `t` with white space stripped from both ends.
pub open spec fn trim(t: Seq<char>) -> Seq<char> {
    trim_end(trim_start(t))
}

/// `t` with ASCII upper-case letters lowered.
pub open spec fn lower(t: Seq<char>) -> Seq<char> {
    t.map_values(|c: char| ascii_lower(c))
}

/// The pieces of `s` between `+` separators (one more than there are `+`).
pub open spec fn pieces(s: Seq<char>) -> Seq<Seq<char>>
    decreases s.len(),
{
    if s.len() == 0 {
        seq![Seq::empty()]
    } else {
        let p = pieces(s.drop_last());
        if s.last() == '+' {
            p.push(Seq::empty())
        } else {
            p.update(p.len() - 1, p.last().push(s.last()))
        }
    }
}

/// The modifier mask a (trimmed, lowered) token names, if it names one.
pub open spec fn modifier_of(t: Seq<char>) -> Option<u32> {
    if t == "cmd"@ || t == "command"@ || t == "super"@ || t == "meta"@ {
        Some(CMD_KEY)
    } else if t == "ctrl"@ || t == "control"@ {
        Some(CONTROL_KEY)
    } else if t == "alt"@ || t == "option"@ {
        Some(OPTION_KEY)
    } else if t == "shift"@ {
        Some(SHIFT_KEY)
    } else {
        None
    }
}

/// The Carbon virtual keycode (`kVK_ANSI_*` / `kVK_*`) a (trimmed, lowered)
/// key token names, if it names one.
pub open spec fn carbon_code(t: Seq<char>) -> Option<u32> {
    if t == "a"@ {
        Some(0x00u32)
    } else if t == "s"@ {
        Some(0x01u32)
    } else if t == "d"@ {
        Some(0x02u32)
    } else if t == "f"@ {
        Some(0x03u32)
    } else if t == "h"@ {
        Some(0x04u32)
    } else if t == "g"@ {
        Some(0x05u32)
    } else if t == "z"@ {
        Some(0x06u32)
    } else if t == "x"@ {
        Some(0x07u32)
    } else if t == "c"@ {
        Some(0x08u32)
    } else if t == "v"@ {
        Some(0x09u32)
    } else if t == "b"@ {
        Some(0x0bu32)
    } else if t == "q"@ {
        Some(0x0cu32)
    } else if t == "w"@ {
        Some(0x0du32)
    } else if t == "e"@ {
        Some(0x0eu32)
    } else if t == "r"@ {
        Some(0x0fu32)
    } else if t == "y"@ {
        Some(0x10u32)
    } else if t == "t"@ {
        Some(0x11u32)
    } else if t == "1"@ {
        Some(0x12u32)
    } else if t == "2"@ {
        Some(0x13u32)
    } else if t == "3"@ {
        Some(0x14u32)
    } else if t == "4"@ {
        Some(0x15u32)
    } else if t == "6"@ {
        Some(0x16u32)
    } else if t == "5"@ {
        Some(0x17u32)
    } else if t == "="@ || t == "equal"@ {
        Some(0x18u32)
    } else if t == "9"@ {
        Some(0x19u32)
    } else if t == "7"@ {
        Some(0x1au32)
    } else if t == "-"@ || t == "minus"@ {
        Some(0x1bu32)
    } else if t == "8"@ {
        Some(0x1cu32)
    } else if t == "0"@ {
        Some(0x1du32)
    } else if t == "]"@ || t == "rightbracket"@ {
        Some(0x1eu32)
    } else if t == "o"@ {
        Some(0x1fu32)
    } else if t == "u"@ {
        Some(0x20u32)
    } else if t == "["@ || t == "leftbracket"@ {
        Some(0x21u32)
    } else if t == "i"@ {
        Some(0x22u32)
    } else if t == "p"@ {
        Some(0x23u32)
    } else if t == "l"@ {
        Some(0x25u32)
    } else if t == "j"@ {
        Some(0x26u32)
    } else if t == "k"@ {
        Some(0x28u32)
    } else if t == ";"@ || t == "semicolon"@ {
        Some(0x29u32)
    } else if t == "\\"@ || t == "backslash"@ {
        Some(0x2au32)
    } else if t == ","@ || t == "comma"@ {
        Some(0x2bu32)
    } else if t == "/"@ || t == "slash"@ {
        Some(0x2cu32)
    } else if t == "n"@ {
        Some(0x2du32)
    } else if t == "m"@ {
        Some(0x2eu32)
    } else if t == "."@ || t == "period"@ {
        Some(0x2fu32)
    } else if t == "`"@ || t == "grave"@ || t == "backtick"@ {
        Some(0x32u32)
    } else if t == "enter"@ || t == "return"@ {
        Some(0x24u32)
    } else if t == "tab"@ {
        Some(0x30u32)
    } else if t == "space"@ {
        Some(0x31u32)
    } else if t == "escape"@ || t == "esc"@ {
        Some(0x35u32)
    } else {
        None
    }
}

/// The parse state after one more piece: the key found so far and the
/// modifiers accumulated, or `None` once the chord is rejected (an unknown
/// key, or a second key).
pub open spec fn step(st: Option<(Option<u32>, u32)>, piece: Seq<char>) -> Option<(Option<u32>, u32)> {
    match st {
        None => None,
        Some((k, m)) => {
            let t = lower(trim(piece));
            if t.len() == 0 {
                st
            } else {
                match modifier_of(t) {
                    Some(bit) => Some((k, m | bit)),
                    None => if k is Some {
                        None
                    } else {
                        match carbon_code(t) {
                            Some(c) => Some((Some(c), m)),
                            None => None,
                        }
                    },
                }
            }
        }
    }
}

/// The parse state after all of `ps`, left to right.
pub open spec fn fold_steps(ps: Seq<Seq<char>>) -> Option<(Option<u32>, u32)>
    decreases ps.len(),
{
    if ps.len() == 0 {
        Some((None, 0u32))
    } else {
        step(fold_steps(ps.drop_last()), ps.last())
    }
}

/// The chord `s` names: exactly one known key, any number of modifiers.
pub open spec fn chord_of(s: Seq<char>) -> Option<HotkeyChord> {
    match fold_steps(pieces(s)) {
        Some((Some(k), m)) => Some(HotkeyChord { keycode: k, modifiers: m }),
        _ => None,
    }
}

/// Whether the characters `v` spell out `lit`.
fn is_lit(v: &[char], lit: &str) -> (b: bool)
    ensures
        b == (v@ == lit@),
{
    let n = lit.unicode_len();
    if v.len() != n {
        return false;
    }
    let mut i: usize = 0;
    while i < n
        invariant
            n == lit@.len(),
            v@.len() == n,
            i <= n,
            forall|j: int| 0 <= j < i ==> v@[j] == lit@[j],
        decreases n - i,
    {
        if v[i] != lit.get_char(i) {
            return false;
        }
        i = i + 1;
    }
    assert(v@ =~= lit@);
    true
}

pub(crate) fn white_space(c: char) -> (b: bool)
    ensures
        b == is_white_space(c),
{
    ('\u{9}' <= c && c <= '\u{d}') || c == ' ' || c == '\u{85}' || c == '\u{a0}' || c == '\u{1680}'
        || ('\u{2000}' <= c && c <= '\u{200a}') || c == '\u{2028}' || c == '\u{2029}'
        || c == '\u{202f}' || c == '\u{205f}' || c == '\u{3000}'
}

pub(crate) proof fn lemma_trim_start_skip(t: Seq<char>, a: int)
    requires
        0 <= a < t.len(),
        is_white_space(t[a]),
    ensures
        trim_start(t.subrange(a, t.len() as int)) == trim_start(t.subrange(a + 1, t.len() as int)),
{
    assert(t.subrange(a, t.len() as int).drop_first() =~= t.subrange(a + 1, t.len() as int));
}

pub(crate) proof fn lemma_trim_end_take(u: Seq<char>, b: int)
    requires
        0 < b <= u.len(),
        is_white_space(u[b - 1]),
    ensures
        trim_end(u.subrange(0, b)) == trim_end(u.subrange(0, b - 1)),
{
    assert(u.subrange(0, b).drop_last() =~= u.subrange(0, b - 1));
}

/// The piece `p`, trimmed and lowered.
fn normalize(p: &Vec<char>) -> (t: Vec<char>)
    ensures
        t@ == lower(trim(p@)),
{
    let n = p.len();
    let mut a: usize = 0;
    assert(p@.subrange(0, n as int) =~= p@);
    while a < n && white_space(p[a])
        invariant
            n == p@.len(),
            a <= n,
            trim_start(p@) == trim_start(p@.subrange(a as int, n as int)),
        decreases n - a,
    {
        proof {
            lemma_trim_start_skip(p@, a as int);
        }
        a = a + 1;
    }
    let ghost u = p@.subrange(a as int, n as int);
    assert(trim_start(p@) == u);
    let mut b: usize = n;
    assert(u.subrange(0, n - a) =~= u);
    while b > a && white_space(p[b - 1])
        invariant
            n == p@.len(),
            a <= b <= n,
            u == p@.subrange(a as int, n as int),
            trim_end(u) == trim_end(u.subrange(0, b - a)),
        decreases b,
    {
        proof {
            lemma_trim_end_take(u, (b - a) as int);
        }
        b = b - 1;
    }
    assert(trim_end(u) == u.subrange(0, b - a));
    let mut t: Vec<char> = Vec::new();
    let mut i: usize = a;
    while i < b
        invariant
            n == p@.len(),
            a <= i <= b <= n,
            u == p@.subrange(a as int, n as int),
            t@ == lower(u.subrange(0, i - a)),
        decreases b - i,
    {
        let c = p[i];
        let l = if 'A' <= c && c <= 'Z' {
            ((c as u32) + 32) as u8 as char
        } else {
            c
        };
        assert(l == ascii_lower(c));
        t.push(l);
        assert(lower(u.subrange(0, i + 1 - a)) =~= lower(u.subrange(0, i - a)).push(l));
        i = i + 1;
    }
    t
}

/// The modifier mask a token names.
fn modifier_mask(t: &[char]) -> (r: Option<u32>)
    ensures
        r == modifier_of(t@),
{
    if is_lit(t, "cmd") || is_lit(t, "command") || is_lit(t, "super") || is_lit(t, "meta") {
        Some(CMD_KEY)
    } else if is_lit(t, "ctrl") || is_lit(t, "control") {
        Some(CONTROL_KEY)
    } else if is_lit(t, "alt") || is_lit(t, "option") {
        Some(OPTION_KEY)
    } else if is_lit(t, "shift") {
        Some(SHIFT_KEY)
    } else {
        None
    }
}

/// Map a key token to its Carbon virtual keycode; unknown tokens give `None`.
fn carbon_keycode(t: &[char]) -> (r: Option<u32>)
    ensures
        r == carbon_code(t@),
{
    if is_lit(t, "a") {
        Some(0x00)
    } else if is_lit(t, "s") {
        Some(0x01)
    } else if is_lit(t, "d") {
        Some(0x02)
    } else if is_lit(t, "f") {
        Some(0x03)
    } else if is_lit(t, "h") {
        Some(0x04)
    } else if is_lit(t, "g") {
        Some(0x05)
    } else if is_lit(t, "z") {
        Some(0x06)
    } else if is_lit(t, "x") {
        Some(0x07)
    } else if is_lit(t, "c") {
        Some(0x08)
    } else if is_lit(t, "v") {
        Some(0x09)
    } else if is_lit(t, "b") {
        Some(0x0b)
    } else if is_lit(t, "q") {
        Some(0x0c)
    } else if is_lit(t, "w") {
        Some(0x0d)
    } else if is_lit(t, "e") {
        Some(0x0e)
    } else if is_lit(t, "r") {
        Some(0x0f)
    } else if is_lit(t, "y") {
        Some(0x10)
    } else if is_lit(t, "t") {
        Some(0x11)
    } else if is_lit(t, "1") {
        Some(0x12)
    } else if is_lit(t, "2") {
        Some(0x13)
    } else if is_lit(t, "3") {
        Some(0x14)
    } else if is_lit(t, "4") {
        Some(0x15)
    } else if is_lit(t, "6") {
        Some(0x16)
    } else if is_lit(t, "5") {
        Some(0x17)
    } else if is_lit(t, "=") || is_lit(t, "equal") {
        Some(0x18)
    } else if is_lit(t, "9") {
        Some(0x19)
    } else if is_lit(t, "7") {
        Some(0x1a)
    } else if is_lit(t, "-") || is_lit(t, "minus") {
        Some(0x1b)
    } else if is_lit(t, "8") {
        Some(0x1c)
    } else if is_lit(t, "0") {
        Some(0x1d)
    } else if is_lit(t, "]") || is_lit(t, "rightbracket") {
        Some(0x1e)
    } else if is_lit(t, "o") {
        Some(0x1f)
    } else if is_lit(t, "u") {
        Some(0x20)
    } else if is_lit(t, "[") || is_lit(t, "leftbracket") {
        Some(0x21)
    } else if is_lit(t, "i") {
        Some(0x22)
    } else if is_lit(t, "p") {
        Some(0x23)
    } else if is_lit(t, "l") {
        Some(0x25)
    } else if is_lit(t, "j") {
        Some(0x26)
    } else if is_lit(t, "k") {
        Some(0x28)
    } else if is_lit(t, ";") || is_lit(t, "semicolon") {
        Some(0x29)
    } else if is_lit(t, "\\") || is_lit(t, "backslash") {
        Some(0x2a)
    } else if is_lit(t, ",") || is_lit(t, "comma") {
        Some(0x2b)
    } else if is_lit(t, "/") || is_lit(t, "slash") {
        Some(0x2c)
    } else if is_lit(t, "n") {
        Some(0x2d)
    } else if is_lit(t, "m") {
        Some(0x2e)
    } else if is_lit(t, ".") || is_lit(t, "period") {
        Some(0x2f)
    } else if is_lit(t, "`") || is_lit(t, "grave") || is_lit(t, "backtick") {
        Some(0x32)
    } else if is_lit(t, "enter") || is_lit(t, "return") {
        Some(0x24)
    } else if is_lit(t, "tab") {
        Some(0x30)
    } else if is_lit(t, "space") {
        Some(0x31)
    } else if is_lit(t, "escape") || is_lit(t, "esc") {
        Some(0x35)
    } else {
        None
    }
}

fn apply_piece(st: Option<(Option<u32>, u32)>, piece: &Vec<char>) -> (r: Option<(Option<u32>, u32)>)
    ensures
        r == step(st, piece@),
{
    match st {
        None => None,
        Some((k, m)) => {
            let t = normalize(piece);
            if t.len() == 0 {
                st
            } else {
                match modifier_mask(t.as_slice()) {
                    Some(bit) => Some((k, m | bit)),
                    None => if k.is_some() {
                        None
                    } else {
                        match carbon_keycode(t.as_slice()) {
                            Some(c) => Some((Some(c), m)),
                            None => None,
                        }
                    },
                }
            }
        }
    }
}

/// Parse a config chord (`cmd+grave`, `ctrl+shift+t`, ...) into a Carbon
/// keycode and modifier mask. Tokens are split on `+`, trimmed, lowered
/// (ASCII) and empty ones skipped; modifier aliases are `cmd`/`command`/
/// `super`/`meta`, `ctrl`/`control`, `alt`/`option` and `shift`. `None` for
/// a chord with no key, an unknown key, or more than one key.
pub fn parse_hotkey(spec: &str) -> (res: Option<HotkeyChord>)
    ensures
        res == chord_of(spec@),
{
    let n = spec.unicode_len();
    let mut st: Option<(Option<u32>, u32)> = Some((None, 0));
    let mut cur: Vec<char> = Vec::new();
    let mut i: usize = 0;
    while i < n
        invariant
            n == spec@.len(),
            i <= n,
            pieces(spec@.subrange(0, i as int)).len() > 0,
            pieces(spec@.subrange(0, i as int)).last() == cur@,
            st == fold_steps(pieces(spec@.subrange(0, i as int)).drop_last()),
        decreases n - i,
    {
        let c = spec.get_char(i);
        let ghost s0 = spec@.subrange(0, i as int);
        let ghost s1 = spec@.subrange(0, i + 1);
        assert(s1.drop_last() =~= s0);
        assert(s1.last() == c);
        if c == '+' {
            let ghost p0 = pieces(s0);
            st = apply_piece(st, &cur);
            assert(p0 =~= p0.drop_last().push(p0.last()));
            assert(pieces(s1).drop_last() =~= p0);
            cur = Vec::new();
        } else {
            cur.push(c);
            let ghost p0 = pieces(s0);
            assert(pieces(s1).drop_last() =~= p0.drop_last());
        }
        i = i + 1;
    }
    assert(spec@.subrange(0, n as int) =~= spec@);
    let ghost ps = pieces(spec@);
    assert(ps =~= ps.drop_last().push(ps.last()));
    st = apply_piece(st, &cur);
    match st {
        Some((Some(k), m)) => Some(HotkeyChord { keycode: k, modifiers: m }),
        _ => None,
    }
}

} // verus!
