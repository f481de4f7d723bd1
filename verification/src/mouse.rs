//! Mouse reporting to the pty (the xterm mouse protocols) and the click and
//! drag gestures of local selection.

use vstd::prelude::*;

use crate::bytes::{dec, push_decimal};
use crate::keyboard::Modifiers;
use crate::paste::opt_bytes;

verus! {

/// A grid cell: column `x`, row `y`, both 0-based.
#[derive(Clone, Copy, PartialEq, Eq, Debug, Structural)]
pub struct Point {
    pub x: u16,
    pub y: u16,
}

/// The mouse report encoding the application selected.
#[derive(Clone, Copy, PartialEq, Eq, Debug, Structural)]
pub enum MouseFormat {
    /// Raw bytes (`CSI M` with byte-sized fields).
    Legacy,
    /// SGR (`CSI < b ; x ; y M/m`).
    Sgr,
    /// Legacy fields written as UTF-8 code points.
    Utf8,
    /// urxvt (`CSI b ; x ; y M`, decimal).
    Urxvt,
}

/// Which mouse events the application asked to have reported.
#[derive(Clone, Copy, PartialEq, Eq, Debug, Structural)]
pub enum MouseTracking {
    Off,
    /// X10 compatibility (DECSET 9): presses only, no modifiers.
    X10,
    Press,
    ButtonMotion,
    AnyMotion,
}

/// A mouse button.
#[derive(Clone, Copy, PartialEq, Eq, Debug, Structural)]
pub enum MouseButton {
    Left,
    Right,
    Middle,
    Back,
    Forward,
    Other(u16),
}

/// Whether a button went down or up.
#[derive(Clone, Copy, PartialEq, Eq, Debug, Structural)]
pub enum ElementState {
    Pressed,
    Released,
}

/// The report value of a button, for the three buttons the protocols name.
pub open spec fn button_value(b: MouseButton) -> Option<nat> {
    match b {
        MouseButton::Left => Some(0),
        MouseButton::Middle => Some(1),
        MouseButton::Right => Some(2),
        _ => None,
    }
}

/// The modifier bits of a report: Shift 4, Alt 8, Control 16.
pub open spec fn modifier_value(m: Modifiers) -> nat {
    (if m.shift {
        4nat
    } else {
        0nat
    }) + (if m.alt {
        8nat
    } else {
        0nat
    }) + (if m.control {
        16nat
    } else {
        0nat
    })
}

/// The UTF-8 encoding of a code point below 2048.
pub open spec fn utf8_small(v: nat) -> Seq<u8> {
    if v < 128 {
        seq![v as u8]
    } else {
        seq![(192 + v / 64) as u8, (128 + v % 64) as u8]
    }
}

/// The SGR report `ESC [ < code ; x+1 ; y+1 final`.
pub open spec fn sgr_report(code: nat, cell: Point, final_byte: u8) -> Seq<u8> {
    seq![27u8, 91u8, 60u8] + dec(code) + seq![59u8] + dec((cell.x + 1) as nat) + seq![59u8]
        + dec((cell.y + 1) as nat) + seq![final_byte]
}

/// One mouse report in `format`, where `code` is the button value
/// (button, modifier and motion bits) without the +32 bias and `release`
/// picks SGR's final byte. Coordinates are 1-based. Legacy fields are one
/// byte each, so a coordinate past 223 drops the report; UTF-8 fields reach
/// 2015; SGR and urxvt have no ceiling. Only SGR can tell a release apart.
pub open spec fn report(format: MouseFormat, code: nat, release: bool, cell: Point) -> Option<Seq<u8>> {
    let cx = cell.x + 1;
    let cy = cell.y + 1;
    match format {
        MouseFormat::Sgr => Some(
            sgr_report(
                code,
                cell,
                if release {
                    109u8
                } else {
                    77u8
                },
            ),
        ),
        MouseFormat::Legacy => if cx > 223 || cy > 223 {
            None
        } else {
            Some(seq![27u8, 91u8, 77u8, (code + 32) as u8, (cx + 32) as u8, (cy + 32) as u8])
        },
        MouseFormat::Utf8 => if cx > 2015 || cy > 2015 {
            None
        } else {
            Some(
                seq![27u8, 91u8, 77u8] + utf8_small(code + 32) + utf8_small((cx + 32) as nat)
                    + utf8_small((cy + 32) as nat),
            )
        },
        MouseFormat::Urxvt => Some(
            seq![27u8, 91u8] + dec(code + 32) + seq![59u8] + dec(cx as nat) + seq![59u8] + dec(
                cy as nat,
            ) + seq![77u8],
        ),
    }
}

/// What a button press or release reports: nothing for an unnamed button;
/// under X10 only presses, without modifier bits; otherwise presses with
/// modifiers, and releases as the button itself under SGR and as value 3
/// under the other formats.
pub open spec fn mouse_input_report(
    format: MouseFormat,
    tracking: MouseTracking,
    button: MouseButton,
    state: ElementState,
    cell: Point,
    mods: Modifiers,
) -> Option<Seq<u8>> {
    match button_value(button) {
        None => None,
        Some(b) => if tracking == MouseTracking::X10 {
            match state {
                ElementState::Pressed => report(format, b, false, cell),
                ElementState::Released => None,
            }
        } else {
            match state {
                ElementState::Pressed => report(format, b + modifier_value(mods), false, cell),
                ElementState::Released => report(
                    format,
                    (if format == MouseFormat::Sgr {
                        b
                    } else {
                        3nat
                    }) + modifier_value(mods),
                    true,
                    cell,
                ),
            }
        },
    }
}

/// What a motion event reports: nothing unless the application tracks
/// motion; with button motion, only while a named button is held; with any
/// motion, the held button or value 3. The motion bit is 32.
pub open spec fn mouse_motion_report(
    format: MouseFormat,
    tracking: MouseTracking,
    pressed: Option<MouseButton>,
    cell: Point,
    mods: Modifiers,
) -> Option<Seq<u8>> {
    match tracking {
        MouseTracking::ButtonMotion => match pressed {
            Some(b) => match button_value(b) {
                Some(v) => report(format, v + 32 + modifier_value(mods), false, cell),
                None => None,
            },
            None => None,
        },
        MouseTracking::AnyMotion => {
            let v = match pressed {
                Some(b) => match button_value(b) {
                    Some(v) => v,
                    None => 3nat,
                },
                None => 3nat,
            };
            report(format, v + 32 + modifier_value(mods), false, cell)
        },
        _ => None,
    }
}

/// What a wheel event reports: nothing under X10 or for a zero delta;
/// button 64 for a positive vertical delta and 65 for a negative one.
pub open spec fn mouse_wheel_report(
    format: MouseFormat,
    tracking: MouseTracking,
    delta_sign: i8,
    cell: Point,
    mods: Modifiers,
) -> Option<Seq<u8>> {
    if tracking == MouseTracking::X10 || delta_sign == 0 {
        None
    } else {
        report(
            format,
            (if delta_sign > 0 {
                64nat
            } else {
                65nat
            }) + modifier_value(mods),
            false,
            cell,
        )
    }
}

/// Both coordinates of `cell` have a 1-based form in a `u16`.
pub open spec fn cell_fits(cell: Point) -> bool {
    cell.x < 0xffff && cell.y < 0xffff
}

fn button_code(button: MouseButton) -> (r: Option<u16>)
    ensures
        match r {
            Some(v) => button_value(button) == Some(v as nat),
            None => button_value(button) is None,
        },
{
    match button {
        MouseButton::Left => Some(0),
        MouseButton::Middle => Some(1),
        MouseButton::Right => Some(2),
        _ => None,
    }
}

fn modifier_bits(mods: Modifiers) -> (r: u16)
    ensures
        r as nat == modifier_value(mods),
{
    let mut bits: u16 = 0;
    if mods.shift {
        bits = bits + 4;
    }
    if mods.alt {
        bits = bits + 8;
    }
    if mods.control {
        bits = bits + 16;
    }
    bits
}

fn push_utf8(bytes: &mut Vec<u8>, value: u16)
    requires
        value < 2048,
    ensures
        final(bytes)@ == old(bytes)@ + utf8_small(value as nat),
{
    if value < 128 {
        bytes.push(value as u8);
    } else {
        bytes.push((192 + value / 64) as u8);
        bytes.push((128 + value % 64) as u8);
    }
    assert(bytes@ =~= old(bytes)@ + utf8_small(value as nat));
}

fn sgr_mouse_sequence(code: u16, cell: Point, final_byte: u8) -> (v: Vec<u8>)
    requires
        cell_fits(cell),
    ensures
        v@ == sgr_report(code as nat, cell, final_byte),
{
    let mut v: Vec<u8> = vec![27u8, 91u8, 60u8];
    push_decimal(&mut v, code as u64);
    v.push(59u8);
    push_decimal(&mut v, (cell.x + 1) as u64);
    v.push(59u8);
    push_decimal(&mut v, (cell.y + 1) as u64);
    v.push(final_byte);
    assert(v@ =~= sgr_report(code as nat, cell, final_byte));
    v
}

fn encode_mouse_report(format: MouseFormat, code: u16, release: bool, cell: Point) -> (r: Option<
    Vec<u8>,
>)
    requires
        code <= 200,
        cell_fits(cell),
    ensures
        opt_bytes(r) == report(format, code as nat, release, cell),
{
    let cx: u16 = cell.x + 1;
    let cy: u16 = cell.y + 1;
    match format {
        MouseFormat::Sgr => {
            let final_byte: u8 = if release {
                109
            } else {
                77
            };
            Some(sgr_mouse_sequence(code, cell, final_byte))
        },
        MouseFormat::Legacy => {
            if cx > 223 || cy > 223 {
                return None;
            }
            let v = vec![27u8, 91u8, 77u8, (code + 32) as u8, (cx + 32) as u8, (cy + 32) as u8];
            assert(v@ =~= seq![
                27u8,
                91u8,
                77u8,
                (code + 32) as u8,
                (cx + 32) as u8,
                (cy + 32) as u8,
            ]);
            Some(v)
        },
        MouseFormat::Utf8 => {
            if cx > 2015 || cy > 2015 {
                return None;
            }
            let mut bytes = vec![27u8, 91u8, 77u8];
            push_utf8(&mut bytes, code + 32);
            push_utf8(&mut bytes, cx + 32);
            push_utf8(&mut bytes, cy + 32);
            assert(bytes@ =~= seq![27u8, 91u8, 77u8] + utf8_small((code + 32) as nat) + utf8_small(
                (cx + 32) as nat,
            ) + utf8_small((cy + 32) as nat));
            Some(bytes)
        },
        MouseFormat::Urxvt => {
            let mut v: Vec<u8> = vec![27u8, 91u8];
            push_decimal(&mut v, (code + 32) as u64);
            v.push(59u8);
            push_decimal(&mut v, cx as u64);
            v.push(59u8);
            push_decimal(&mut v, cy as u64);
            v.push(77u8);
            assert(v@ =~= seq![27u8, 91u8] + dec((code + 32) as nat) + seq![59u8] + dec(
                cx as nat,
            ) + seq![59u8] + dec(cy as nat) + seq![77u8]);
            Some(v)
        },
    }
}

/// Encode a button press or release for the pty, or `None` when the
/// active tracking and format do not report it.
pub fn encode_mouse_input(
    format: MouseFormat,
    tracking: MouseTracking,
    button: MouseButton,
    state: ElementState,
    cell: Point,
    mods: Modifiers,
) -> (r: Option<Vec<u8>>)
    requires
        cell_fits(cell),
    ensures
        opt_bytes(r) == mouse_input_report(format, tracking, button, state, cell, mods),
{
    let b = match button_code(button) {
        Some(b) => b,
        None => return None,
    };
    if tracking == MouseTracking::X10 {
        return match state {
            ElementState::Pressed => encode_mouse_report(format, b, false, cell),
            ElementState::Released => None,
        };
    }
    match state {
        ElementState::Pressed => encode_mouse_report(format, b + modifier_bits(mods), false, cell),
        ElementState::Released => {
            let code: u16 = if format == MouseFormat::Sgr {
                b
            } else {
                3
            };
            encode_mouse_report(format, code + modifier_bits(mods), true, cell)
        },
    }
}

/// Encode pointer motion for the pty, or `None` when the tracking mode does
/// not report it.
pub fn encode_mouse_motion(
    format: MouseFormat,
    tracking: MouseTracking,
    pressed_button: Option<MouseButton>,
    cell: Point,
    mods: Modifiers,
) -> (r: Option<Vec<u8>>)
    requires
        cell_fits(cell),
    ensures
        opt_bytes(r) == mouse_motion_report(format, tracking, pressed_button, cell, mods),
{
    let b: u16 = match tracking {
        MouseTracking::ButtonMotion => match pressed_button {
            Some(p) => match button_code(p) {
                Some(v) => v,
                None => return None,
            },
            None => return None,
        },
        MouseTracking::AnyMotion => match pressed_button {
            Some(p) => match button_code(p) {
                Some(v) => v,
                None => 3,
            },
            None => 3,
        },
        _ => return None,
    };
    encode_mouse_report(format, b + 32 + modifier_bits(mods), false, cell)
}

/// Encode a wheel event for the pty; `delta_sign` is the sign of the
/// vertical wheel delta (positive, negative, or zero when there is none).
pub fn encode_mouse_wheel(
    format: MouseFormat,
    tracking: MouseTracking,
    delta_sign: i8,
    cell: Point,
    mods: Modifiers,
) -> (r: Option<Vec<u8>>)
    requires
        cell_fits(cell),
    ensures
        opt_bytes(r) == mouse_wheel_report(format, tracking, delta_sign, cell, mods),
{
    if tracking == MouseTracking::X10 {
        return None;
    }
    let b: u16 = if delta_sign > 0 {
        64
    } else if delta_sign < 0 {
        65
    } else {
        return None;
    };
    encode_mouse_report(format, b + modifier_bits(mods), false, cell)
}

/// Where a wheel event goes: the report for the pty, or `None` to scroll
/// the local viewport instead (tracking off, a Shift override, no mouse
/// cell, or a mode that does not report this wheel event).
pub open spec fn wheel_route(
    tracking: MouseTracking,
    format: MouseFormat,
    shift: bool,
    delta_sign: i8,
    cell: Option<Point>,
    mods: Modifiers,
) -> Option<Seq<u8>> {
    if tracking == MouseTracking::Off || shift {
        None
    } else {
        match cell {
            Some(c) => mouse_wheel_report(format, tracking, delta_sign, c, mods),
            None => None,
        }
    }
}

/// Route a wheel event: `Some(bytes)` to report to the pty, `None` to
/// scroll the local viewport instead.
pub fn route_mouse_wheel(
    tracking: MouseTracking,
    format: MouseFormat,
    shift: bool,
    delta_sign: i8,
    cell: Option<Point>,
    mods: Modifiers,
) -> (r: Option<Vec<u8>>)
    requires
        cell matches Some(c) ==> cell_fits(c),
    ensures
        opt_bytes(r) == wheel_route(tracking, format, shift, delta_sign, cell, mods),
{
    if tracking == MouseTracking::Off || shift {
        return None;
    }
    match cell {
        Some(c) => encode_mouse_wheel(format, tracking, delta_sign, c, mods),
        None => None,
    }
}

/// X10 tracking reports button presses only: never a release, motion or a
/// wheel event, whatever the format, button or modifiers.
pub proof fn lemma_x10_reports_presses_only(
    format: MouseFormat,
    button: MouseButton,
    pressed: Option<MouseButton>,
    delta_sign: i8,
    cell: Point,
    mods: Modifiers,
)
    ensures
        mouse_input_report(
            format,
            MouseTracking::X10,
            button,
            ElementState::Released,
            cell,
            mods,
        ) is None,
        mouse_motion_report(format, MouseTracking::X10, pressed, cell, mods) is None,
        mouse_wheel_report(format, MouseTracking::X10, delta_sign, cell, mods) is None,
        mouse_input_report(format, MouseTracking::X10, button, ElementState::Pressed, cell, mods)
            == mouse_input_report(
            format,
            MouseTracking::X10,
            button,
            ElementState::Pressed,
            cell,
            Modifiers { shift: false, control: false, alt: false, super_key: false },
        ),
{
}

/// Under SGR, pressing the left, middle or right button reports button value
/// 0, 1 or 2 respectively, plus the modifier bits (Shift 4, Alt 8, Control
/// 16) whenever tracking is not X10: `ESC [ < b ; x+1 ; y+1 M`.
pub proof fn lemma_sgr_press_reports_the_button(tracking: MouseTracking, cell: Point, mods: Modifiers)
    requires
        tracking != MouseTracking::X10,
    ensures
        ({
            let m: nat = (if mods.shift { 4nat } else { 0nat }) + (if mods.alt {
                8nat
            } else {
                0nat
            }) + (if mods.control { 16nat } else { 0nat });
            let tail = seq![59u8] + dec((cell.x + 1) as nat) + seq![59u8] + dec(
                (cell.y + 1) as nat,
            ) + seq![77u8];
            &&& mouse_input_report(
                MouseFormat::Sgr,
                tracking,
                MouseButton::Left,
                ElementState::Pressed,
                cell,
                mods,
            ) == Some(seq![27u8, 91u8, 60u8] + dec(m) + tail)
            &&& mouse_input_report(
                MouseFormat::Sgr,
                tracking,
                MouseButton::Middle,
                ElementState::Pressed,
                cell,
                mods,
            ) == Some(seq![27u8, 91u8, 60u8] + dec(1 + m) + tail)
            &&& mouse_input_report(
                MouseFormat::Sgr,
                tracking,
                MouseButton::Right,
                ElementState::Pressed,
                cell,
                mods,
            ) == Some(seq![27u8, 91u8, 60u8] + dec(2 + m) + tail)
        }),
{
    let m: nat = modifier_value(mods);
    let tail = seq![59u8] + dec((cell.x + 1) as nat) + seq![59u8] + dec((cell.y + 1) as nat)
        + seq![77u8];
    assert(sgr_report(0 + m, cell, 77u8) =~= seq![27u8, 91u8, 60u8] + dec(m) + tail);
    assert(sgr_report(1 + m, cell, 77u8) =~= seq![27u8, 91u8, 60u8] + dec(1 + m) + tail);
    assert(sgr_report(2 + m, cell, 77u8) =~= seq![27u8, 91u8, 60u8] + dec(2 + m) + tail);
}

/// Outside X10, a wheel step reports button 64 when the delta is positive and
/// 65 when it is negative, plus the modifier bits; motion with no button
/// held under any-motion tracking reports 3 plus the motion bit 32; a
/// release under SGR reports the button itself with the final `m`.
pub proof fn lemma_sgr_wheel_motion_and_release_values(
    tracking: MouseTracking,
    delta_sign: i8,
    button: MouseButton,
    cell: Point,
    mods: Modifiers,
)
    requires
        tracking != MouseTracking::X10,
    ensures
        ({
            let m: nat = (if mods.shift { 4nat } else { 0nat }) + (if mods.alt {
                8nat
            } else {
                0nat
            }) + (if mods.control { 16nat } else { 0nat });
            let coords = seq![59u8] + dec((cell.x + 1) as nat) + seq![59u8] + dec(
                (cell.y + 1) as nat,
            );
            &&& delta_sign > 0 ==> mouse_wheel_report(
                MouseFormat::Sgr,
                tracking,
                delta_sign,
                cell,
                mods,
            ) == Some(seq![27u8, 91u8, 60u8] + dec(64 + m) + coords + seq![77u8])
            &&& delta_sign < 0 ==> mouse_wheel_report(
                MouseFormat::Sgr,
                tracking,
                delta_sign,
                cell,
                mods,
            ) == Some(seq![27u8, 91u8, 60u8] + dec(65 + m) + coords + seq![77u8])
            &&& mouse_motion_report(MouseFormat::Sgr, MouseTracking::AnyMotion, None, cell, mods)
                == Some(seq![27u8, 91u8, 60u8] + dec(35 + m) + coords + seq![77u8])
            &&& button_value(button) matches Some(b) ==> mouse_input_report(
                MouseFormat::Sgr,
                tracking,
                button,
                ElementState::Released,
                cell,
                mods,
            ) == Some(seq![27u8, 91u8, 60u8] + dec(b + m) + coords + seq![109u8])
        }),
{
    let m: nat = modifier_value(mods);
    let coords = seq![59u8] + dec((cell.x + 1) as nat) + seq![59u8] + dec((cell.y + 1) as nat);
    assert(sgr_report(64 + m, cell, 77u8) =~= seq![27u8, 91u8, 60u8] + dec(64 + m) + coords
        + seq![77u8]);
    assert(sgr_report(65 + m, cell, 77u8) =~= seq![27u8, 91u8, 60u8] + dec(65 + m) + coords
        + seq![77u8]);
    assert(sgr_report(3 + 32 + m, cell, 77u8) =~= seq![27u8, 91u8, 60u8] + dec(35 + m) + coords
        + seq![77u8]);
    if button_value(button) is Some {
        let b = button_value(button)->0;
        assert(sgr_report(b + m, cell, 109u8) =~= seq![27u8, 91u8, 60u8] + dec(b + m) + coords
            + seq![109u8]);
    }
}

/// Under the legacy byte format, a press of the left, middle or right
/// button in a cell whose 1-based coordinates fit in a byte sends
/// `ESC [ M` and three bytes: 32 plus the button value (0, 1 or 2) and the
/// modifier bits, then 32 plus each 1-based coordinate.
pub proof fn lemma_legacy_press_bytes(tracking: MouseTracking, button: MouseButton, cell: Point, mods: Modifiers)
    requires
        tracking != MouseTracking::X10,
        cell.x < 223,
        cell.y < 223,
    ensures
        ({
            let m: nat = (if mods.shift { 4nat } else { 0nat }) + (if mods.alt {
                8nat
            } else {
                0nat
            }) + (if mods.control { 16nat } else { 0nat });
            let b: nat = if button == MouseButton::Left {
                0nat
            } else if button == MouseButton::Middle {
                1nat
            } else {
                2nat
            };
            (button == MouseButton::Left || button == MouseButton::Middle || button
                == MouseButton::Right) ==> mouse_input_report(
                MouseFormat::Legacy,
                tracking,
                button,
                ElementState::Pressed,
                cell,
                mods,
            ) == Some(
                seq![
                    27u8,
                    91u8,
                    77u8,
                    (32 + b + m) as u8,
                    (cell.x + 33) as u8,
                    (cell.y + 33) as u8,
                ],
            )
        }),
{
}

/// The three named buttons report distinct values: no two of a left, middle
/// and right press under SGR send the same bytes.
pub proof fn lemma_named_buttons_report_distinct_values(
    tracking: MouseTracking,
    cell: Point,
    mods: Modifiers,
)
    requires
        tracking != MouseTracking::X10,
    ensures
        mouse_input_report(MouseFormat::Sgr, tracking, MouseButton::Left, ElementState::Pressed, cell, mods)
            != mouse_input_report(MouseFormat::Sgr, tracking, MouseButton::Middle, ElementState::Pressed, cell, mods),
        mouse_input_report(MouseFormat::Sgr, tracking, MouseButton::Left, ElementState::Pressed, cell, mods)
            != mouse_input_report(MouseFormat::Sgr, tracking, MouseButton::Right, ElementState::Pressed, cell, mods),
        mouse_input_report(MouseFormat::Sgr, tracking, MouseButton::Middle, ElementState::Pressed, cell, mods)
            != mouse_input_report(MouseFormat::Sgr, tracking, MouseButton::Right, ElementState::Pressed, cell, mods),
{
    lemma_sgr_press_reports_the_button(tracking, cell, mods);
    let m: nat = modifier_value(mods);
    lemma_sgr_code_determines(m, 1 + m, cell);
    lemma_sgr_code_determines(m, 2 + m, cell);
    lemma_sgr_code_determines(1 + m, 2 + m, cell);
}

proof fn lemma_sgr_code_determines(a: nat, b: nat, cell: Point)
    requires
        a != b,
    ensures
        sgr_report(a, cell, 77u8) != sgr_report(b, cell, 77u8),
{
    let tail = seq![59u8] + dec((cell.x + 1) as nat) + seq![59u8] + dec((cell.y + 1) as nat)
        + seq![77u8];
    let sa = seq![27u8, 91u8, 60u8] + dec(a) + tail;
    let sb = seq![27u8, 91u8, 60u8] + dec(b) + tail;
    assert(sgr_report(a, cell, 77u8) =~= sa);
    assert(sgr_report(b, cell, 77u8) =~= sb);
    crate::bytes::lemma_dec_reads_back(a);
    crate::bytes::lemma_dec_reads_back(b);
    crate::bytes::lemma_dec_injective(a, b);
    if sa == sb {
        if dec(a).len() == dec(b).len() {
            assert(dec(a) =~= sa.subrange(3, 3 + dec(a).len() as int));
            assert(dec(b) =~= sb.subrange(3, 3 + dec(b).len() as int));
        } else if dec(a).len() < dec(b).len() {
            let i = 3 + dec(a).len() as int;
            assert(sa[i] == 59u8);
            assert(sb[i] == dec(b)[dec(a).len() as int]);
        } else {
            let i = 3 + dec(b).len() as int;
            assert(sb[i] == 59u8);
            assert(sa[i] == dec(a)[dec(b).len() as int]);
        }
    }
}

/// Where every field fits in one byte below 128, the UTF-8 encoding and the
/// legacy encoding write the same bytes.
pub proof fn lemma_utf8_matches_legacy_below_128(code: nat, release: bool, cell: Point)
    requires
        code + 32 < 128,
        cell.x + 33 < 128,
        cell.y + 33 < 128,
    ensures
        report(MouseFormat::Utf8, code, release, cell) == report(
            MouseFormat::Legacy,
            code,
            release,
            cell,
        ),
{
    assert(seq![27u8, 91u8, 77u8] + utf8_small(code + 32) + utf8_small((cell.x + 1 + 32) as nat)
        + utf8_small((cell.y + 1 + 32) as nat) =~= seq![
        27u8,
        91u8,
        77u8,
        (code + 32) as u8,
        (cell.x + 1 + 32) as u8,
        (cell.y + 1 + 32) as u8,
    ]);
}

/// Presses on the same cell at most this many nanoseconds apart continue a
/// multi-click.
pub const MULTI_CLICK_MAX_DELAY: u64 = 500_000_000;

/// How many presses on the same cell, each in time, a press completes.
#[derive(Clone, Copy, PartialEq, Eq, Debug, Structural)]
pub enum ClickKind {
    Single,
    Double,
    Triple,
}

/// What local selection should do after a mouse event.
#[derive(Clone, Copy, PartialEq, Eq, Debug, Structural)]
pub enum SelectionGesture {
    Nothing,
    Clear,
    Extend { anchor: Point, focus: Point },
    SelectWord(Point),
    SelectLine(Point),
}

/// Counts consecutive presses on one cell within the multi-click delay.
#[derive(Clone, Debug)]
pub struct ClickTracker {
    max_delay: u64,
    last_cell: Option<Point>,
    last_at: Option<u64>,
    count: u8,
}

/// The state of a [`ClickTracker`]; times are nanoseconds on a monotonic
/// clock.
pub struct ClickModel {
    pub max_delay: u64,
    pub last_cell: Option<Point>,
    pub last_at: Option<u64>,
    pub count: u8,
}

impl View for ClickTracker {
    type V = ClickModel;

    closed spec fn view(&self) -> ClickModel {
        ClickModel {
            max_delay: self.max_delay,
            last_cell: self.last_cell,
            last_at: self.last_at,
            count: self.count,
        }
    }
}

/// Whether a press on `cell` at `now` continues the current multi-click:
/// same cell as the last press, at most the delay after it.
pub open spec fn continues_click(t: ClickModel, cell: Point, now: u64) -> bool {
    &&& t.last_cell == Some(cell)
    &&& match t.last_at {
        Some(last) => last <= now && now - last <= t.max_delay,
        None => false,
    }
}

/// The click kind a press count names.
pub open spec fn kind_of(count: u8) -> ClickKind {
    if count == 2 {
        ClickKind::Double
    } else if count == 3 {
        ClickKind::Triple
    } else {
        ClickKind::Single
    }
}

/// The tracker after a press on `cell` at `now`, and the kind it reports:
/// a continuing press cycles the count 1, 2, 3, 1, ...; any other press
/// starts over at 1.
pub open spec fn press_step(t: ClickModel, cell: Point, now: u64) -> (ClickModel, ClickKind) {
    let count: u8 = if continues_click(t, cell, now) {
        (t.count % 3 + 1) as u8
    } else {
        1u8
    };
    (ClickModel { last_cell: Some(cell), last_at: Some(now), count, ..t }, kind_of(count))
}

impl ClickTracker {
    /// A tracker with no press yet.
    pub fn new(max_delay: u64) -> (t: ClickTracker)
        ensures
            t@ == (ClickModel { max_delay, last_cell: None, last_at: None, count: 0 }),
    {
        ClickTracker { max_delay, last_cell: None, last_at: None, count: 0 }
    }

    /// Record a press on `cell` at `now` and report which click it is.
    pub fn record_press(&mut self, cell: Point, now: u64) -> (kind: ClickKind)
        ensures
            (final(self)@, kind) == press_step(old(self)@, cell, now),
    {
        let same_cell = match self.last_cell {
            Some(c) => c == cell,
            None => false,
        };
        let in_time = match self.last_at {
            Some(last) => last <= now && now - last <= self.max_delay,
            None => false,
        };
        self.count = if same_cell && in_time {
            (self.count % 3) + 1
        } else {
            1
        };
        self.last_cell = Some(cell);
        self.last_at = Some(now);
        if self.count == 2 {
            ClickKind::Double
        } else if self.count == 3 {
            ClickKind::Triple
        } else {
            ClickKind::Single
        }
    }
}

/// Pointer and button state of local selection.
#[derive(Clone, Debug)]
pub struct MouseSelectionState {
    last_cell: Option<Point>,
    left_down: bool,
    drag_anchor: Option<Point>,
    drag_started: bool,
    click_tracker: ClickTracker,
}

/// The state of a [`MouseSelectionState`].
pub struct SelectionModel {
    pub last_cell: Option<Point>,
    pub left_down: bool,
    pub drag_anchor: Option<Point>,
    pub drag_started: bool,
    pub clicks: ClickModel,
}

impl View for MouseSelectionState {
    type V = SelectionModel;

    closed spec fn view(&self) -> SelectionModel {
        SelectionModel {
            last_cell: self.last_cell,
            left_down: self.left_down,
            drag_anchor: self.drag_anchor,
            drag_started: self.drag_started,
            clicks: self.click_tracker@,
        }
    }
}

/// The state before any mouse event.
pub open spec fn initial_selection() -> SelectionModel {
    SelectionModel {
        last_cell: None,
        left_down: false,
        drag_anchor: None,
        drag_started: false,
        clicks: ClickModel {
            max_delay: MULTI_CLICK_MAX_DELAY,
            last_cell: None,
            last_at: None,
            count: 0,
        },
    }
}

/// The state after the pointer moved to `cell`, and the gesture: while the
/// left button holds a drag anchor, the drag starts once the pointer leaves
/// the anchor cell and then extends from the anchor to the pointer.
pub open spec fn moved_step(s: SelectionModel, cell: Point) -> (SelectionModel, SelectionGesture) {
    let s1 = SelectionModel { last_cell: Some(cell), ..s };
    if !s.left_down {
        (s1, SelectionGesture::Nothing)
    } else {
        match s.drag_anchor {
            None => (s1, SelectionGesture::Nothing),
            Some(a) => {
                let started = s.drag_started || cell != a;
                (
                    SelectionModel { drag_started: started, ..s1 },
                    if started {
                        SelectionGesture::Extend { anchor: a, focus: cell }
                    } else {
                        SelectionGesture::Nothing
                    },
                )
            },
        }
    }
}

/// The state after the left button went down at `now`, and the gesture: a
/// single click anchors a drag and clears the selection; a double click
/// selects the word and a triple click the line under the pointer, with no
/// drag. Without a known pointer cell nothing happens.
pub open spec fn pressed_step(s: SelectionModel, now: u64) -> (SelectionModel, SelectionGesture) {
    match s.last_cell {
        None => (s, SelectionGesture::Nothing),
        Some(cell) => {
            let (clicks, kind) = press_step(s.clicks, cell, now);
            match kind {
                ClickKind::Single => (
                    SelectionModel {
                        left_down: true,
                        drag_anchor: Some(cell),
                        drag_started: false,
                        clicks,
                        ..s
                    },
                    SelectionGesture::Clear,
                ),
                ClickKind::Double => (
                    SelectionModel {
                        left_down: false,
                        drag_anchor: None,
                        drag_started: false,
                        clicks,
                        ..s
                    },
                    SelectionGesture::SelectWord(cell),
                ),
                ClickKind::Triple => (
                    SelectionModel {
                        left_down: false,
                        drag_anchor: None,
                        drag_started: false,
                        clicks,
                        ..s
                    },
                    SelectionGesture::SelectLine(cell),
                ),
            }
        },
    }
}

/// The state after the left button went up: no drag.
pub open spec fn released_step(s: SelectionModel) -> SelectionModel {
    SelectionModel { left_down: false, drag_anchor: None, drag_started: false, ..s }
}

impl Default for MouseSelectionState {
    fn default() -> (s: MouseSelectionState)
        ensures
            s@ == initial_selection(),
    {
        MouseSelectionState {
            last_cell: None,
            left_down: false,
            drag_anchor: None,
            drag_started: false,
            click_tracker: ClickTracker::new(MULTI_CLICK_MAX_DELAY),
        }
    }
}

impl MouseSelectionState {
    /// The pointer moved to `cell`.
    pub fn cursor_moved(&mut self, cell: Point) -> (g: SelectionGesture)
        ensures
            (final(self)@, g) == moved_step(old(self)@, cell),
    {
        self.last_cell = Some(cell);
        if !self.left_down {
            return SelectionGesture::Nothing;
        }
        let anchor = match self.drag_anchor {
            Some(a) => a,
            None => return SelectionGesture::Nothing,
        };
        if cell != anchor {
            self.drag_started = true;
        }
        if self.drag_started {
            SelectionGesture::Extend { anchor, focus: cell }
        } else {
            SelectionGesture::Nothing
        }
    }

    /// The left button went down at `now`.
    pub fn left_pressed(&mut self, now: u64) -> (g: SelectionGesture)
        ensures
            (final(self)@, g) == pressed_step(old(self)@, now),
    {
        let cell = match self.last_cell {
            Some(c) => c,
            None => return SelectionGesture::Nothing,
        };
        self.left_down = true;
        self.drag_anchor = Some(cell);
        self.drag_started = false;
        match self.click_tracker.record_press(cell, now) {
            ClickKind::Single => SelectionGesture::Clear,
            ClickKind::Double => {
                self.cancel_drag();
                SelectionGesture::SelectWord(cell)
            },
            ClickKind::Triple => {
                self.cancel_drag();
                SelectionGesture::SelectLine(cell)
            },
        }
    }

    /// The left button went up.
    pub fn left_released(&mut self) -> (g: SelectionGesture)
        ensures
            final(self)@ == released_step(old(self)@),
            g == SelectionGesture::Nothing,
    {
        self.cancel_drag();
        SelectionGesture::Nothing
    }

    fn cancel_drag(&mut self)
        ensures
            final(self)@ == released_step(old(self)@),
    {
        self.left_down = false;
        self.drag_anchor = None;
        self.drag_started = false;
    }
}

/// A press on another cell than the last one, or after the delay, is a
/// single click.
pub proof fn lemma_new_cell_or_late_press_is_single(t: ClickModel, cell: Point, now: u64)
    requires
        !continues_click(t, cell, now),
    ensures
        press_step(t, cell, now).1 == ClickKind::Single,
{
}

/// Once the button is released, moving the pointer extends nothing until
/// the next press.
pub proof fn lemma_release_ends_drag(s: SelectionModel, cell: Point)
    ensures
        moved_step(released_step(s), cell).1 == SelectionGesture::Nothing,
        !moved_step(released_step(s), cell).0.left_down,
{
}

} // verus!
