//! The annotation rows a restored pane shows: the record/live separator
//! stamped with the time the history was saved, and the notice for a pane
//! whose layout came back without its contents. Each is a faint label ruled
//! across exactly one grid width, truncated rather than wrapped.

use vstd::prelude::*;
use vstd::string::*;

use crate::bytes::{dec, push_all, push_decimal};
use crate::civil::{civil_at, civil_from_unix_secs, WallClock};
use crate::hotkey::{lemma_trim_end_take, lemma_trim_start_skip, trim, trim_end, trim_start, white_space};
use crate::text::{all_ascii, ascii_chars, lemma_dec_ascii, string_from_ascii};
use crate::wire::{CellFlags, Color, GridCell};

verus! {

/// `n` horizontal rules (U+2500).
pub open spec fn rule(n: nat) -> Seq<char> {
    Seq::new(n, |i: int| '\u{2500}')
}

/// `label`, padded by one space each side and centred between horizontal
/// rules filling `cols` columns; when that leaves fewer than four rule
/// characters, the padded label alone, trimmed.
pub open spec fn ruled_text(label: Seq<char>, cols: u16) -> Seq<char> {
    let padded = seq![' '] + label + seq![' '];
    if padded.len() + 4 > cols {
        trim(padded)
    } else {
        let remaining = (cols - padded.len()) as nat;
        let left = remaining / 2;
        rule(left) + padded + rule((remaining - left) as nat)
    }
}

/// `s` with white space stripped from both ends.
fn trimmed(s: &str) -> (r: String)
    ensures
        r@ == trim(s@),
{
    let n = s.unicode_len();
    let mut a: usize = 0;
    assert(s@.subrange(0, n as int) =~= s@);
    while a < n && white_space(s.get_char(a))
        invariant
            n == s@.len(),
            a <= n,
            trim_start(s@) == trim_start(s@.subrange(a as int, n as int)),
        decreases n - a,
    {
        proof {
            lemma_trim_start_skip(s@, a as int);
        }
        a = a + 1;
    }
    let ghost u = s@.subrange(a as int, n as int);
    let mut b: usize = n;
    assert(u.subrange(0, n - a) =~= u);
    while b > a && white_space(s.get_char(b - 1))
        invariant
            n == s@.len(),
            a <= b <= n,
            u == s@.subrange(a as int, n as int),
            trim_end(u) == trim_end(u.subrange(0, b - a)),
        decreases b,
    {
        proof {
            lemma_trim_end_take(u, (b - a) as int);
        }
        b = b - 1;
    }
    assert(u.subrange(0, b - a) =~= s@.subrange(a as int, b as int));
    s.substring_char(a, b).to_owned()
}

fn push_rules(out: &mut String, n: usize)
    ensures
        final(out)@ == old(out)@ + rule(n as nat),
{
    let bar = "\u{2500}";
    proof {
        reveal_strlit("\u{2500}");
    }
    let mut i: usize = 0;
    while i < n
        invariant
            i <= n,
            out@ == old(out)@ + rule(i as nat),
            bar@ == seq!['\u{2500}'],
        decreases n - i,
    {
        out.append(bar);
        assert(old(out)@ + rule((i + 1) as nat) =~= old(out)@ + rule(i as nat) + seq!['\u{2500}']);
        i = i + 1;
    }
}

/// Pad `label` out to `cols` with a horizontal rule on both sides, so the
/// boundary reads as a line across the pane; a label too wide for that is
/// shown alone, trimmed.
pub fn ruled(label: &str, cols: u16) -> (r: String)
    ensures
        r@ == ruled_text(label@, cols),
{
    let space = " ";
    proof {
        reveal_strlit(" ");
    }
    let mut padded = space.to_owned();
    padded.append(label);
    padded.append(space);
    assert(padded@ =~= seq![' '] + label@ + seq![' ']);
    let width = cols as usize;
    let len = padded.as_str().unicode_len();
    if len >= usize::MAX - 4 || len + 4 > width {
        return trimmed(padded.as_str());
    }
    let remaining = width - len;
    let left = remaining / 2;
    let right = remaining - left;
    let mut out = String::new();
    push_rules(&mut out, left);
    out.append(padded.as_str());
    push_rules(&mut out, right);
    out
}

/// When the label fits, the ruled text fills exactly the pane's width.
pub proof fn lemma_ruled_fills_the_width(label: Seq<char>, cols: u16)
    requires
        label.len() + 6 <= cols,
    ensures
        ruled_text(label, cols).len() == cols,
{
}

/// `n` in decimal, left-padded with zeros to `width` digits.
pub open spec fn zero_pad(n: nat, width: nat) -> Seq<u8> {
    let d = dec(n);
    if d.len() < width {
        Seq::new((width - d.len()) as nat, |i: int| 0x30u8) + d
    } else {
        d
    }
}

/// A year as `{:04}` renders it: four digits at least, and a negative year
/// as a minus sign and three digits at least.
pub open spec fn year_digits(y: int) -> Seq<u8> {
    if y >= 0 {
        zero_pad(y as nat, 4)
    } else {
        seq![0x2du8] + zero_pad((-y) as nat, 3)
    }
}

/// `YYYY-MM-DD hh:mm`.
pub open spec fn stamp_text(c: WallClock) -> Seq<u8> {
    year_digits(c.year as int) + seq![0x2du8] + zero_pad(c.month as nat, 2) + seq![0x2du8]
        + zero_pad(c.day as nat, 2) + seq![0x20u8] + zero_pad(c.hour as nat, 2) + seq![0x3au8]
        + zero_pad(c.minute as nat, 2)
}

/// A `u64` reinterpreted as an `i64` (two's complement).
pub open spec fn wrap_i64(x: u64) -> int {
    if x <= i64::MAX {
        x as int
    } else {
        x - 0x1_0000_0000_0000_0000
    }
}

proof fn lemma_zero_pad_ascii(n: nat, width: nat)
    ensures
        all_ascii(zero_pad(n, width)),
{
    lemma_dec_ascii(n);
}

fn push_zero_pad(out: &mut Vec<u8>, n: u64, width: usize)
    ensures
        final(out)@ == old(out)@ + zero_pad(n as nat, width as nat),
{
    let mut digits: Vec<u8> = Vec::new();
    push_decimal(&mut digits, n);
    assert(digits@ =~= dec(n as nat));
    let len = digits.len();
    if len < width {
        let mut k: usize = 0;
        while k < width - len
            invariant
                len < width,
                k <= width - len,
                out@ == old(out)@ + Seq::new(k as nat, |i: int| 0x30u8),
            decreases width - len - k,
        {
            out.push(0x30u8);
            k = k + 1;
            assert(out@ =~= old(out)@ + Seq::new(k as nat, |i: int| 0x30u8));
        }
    }
    let ghost before = out@;
    push_all(out, digits.as_slice());
    assert(out@ =~= old(out)@ + zero_pad(n as nat, width as nat));
}

/// `YYYY-MM-DD hh:mm` for `saved_at` (Unix seconds) in the viewer's local
/// time, `local_offset_seconds` east of UTC.
pub fn stamp(saved_at: u64, local_offset_seconds: i64) -> (s: String)
    requires
        i64::MIN <= wrap_i64(saved_at) + local_offset_seconds <= i64::MAX,
    ensures
        s@ == ascii_chars(stamp_text(civil_at(wrap_i64(saved_at) + local_offset_seconds))),
{
    let base: i64 = if saved_at <= 9223372036854775807u64 {
        saved_at as i64
    } else {
        ((saved_at - 9223372036854775808u64) as i64) + i64::MIN
    };
    let clock = civil_from_unix_secs(base + local_offset_seconds);
    let mut out: Vec<u8> = Vec::new();
    if clock.year >= 0 {
        push_zero_pad(&mut out, clock.year as u64, 4);
    } else {
        out.push(0x2du8);
        let magnitude: u64 = ((-(clock.year + 1)) as u64) + 1;
        push_zero_pad(&mut out, magnitude, 3);
    }
    out.push(0x2du8);
    push_zero_pad(&mut out, clock.month as u64, 2);
    out.push(0x2du8);
    push_zero_pad(&mut out, clock.day as u64, 2);
    out.push(0x20u8);
    push_zero_pad(&mut out, clock.hour as u64, 2);
    out.push(0x3au8);
    push_zero_pad(&mut out, clock.minute as u64, 2);
    proof {
        let c = clock;
        assert(out@ =~= stamp_text(c));
        lemma_zero_pad_ascii(c.month as nat, 2);
        lemma_zero_pad_ascii(c.day as nat, 2);
        lemma_zero_pad_ascii(c.hour as nat, 2);
        lemma_zero_pad_ascii(c.minute as nat, 2);
        if c.year >= 0 {
            lemma_zero_pad_ascii(c.year as nat, 4);
        } else {
            lemma_zero_pad_ascii((-c.year) as nat, 3);
        }
        assert(all_ascii(out@));
    }
    string_from_ascii(out)
}

/// No rendition flag set.
pub open spec fn plain_flags() -> CellFlags {
    CellFlags {
        bold: false,
        faint: false,
        italic: false,
        underline: false,
        double_underline: false,
        curly_underline: false,
        dotted_underline: false,
        dashed_underline: false,
        blink: false,
        inverse: false,
        invisible: false,
        strikethrough: false,
        overline: false,
        wide_spacer: false,
    }
}

/// Faint only: annotations read as chrome, not program output.
pub open spec fn faint_flags() -> CellFlags {
    CellFlags { faint: true, ..plain_flags() }
}

fn faint() -> (f: CellFlags)
    ensures
        f == faint_flags(),
{
    CellFlags {
        bold: false,
        faint: true,
        italic: false,
        underline: false,
        double_underline: false,
        curly_underline: false,
        dotted_underline: false,
        dashed_underline: false,
        blink: false,
        inverse: false,
        invisible: false,
        strikethrough: false,
        overline: false,
        wide_spacer: false,
    }
}

/// A row of synthetic history: its cells and whether it soft-wraps into
/// the next row.
pub struct AnnotationRow {
    pub cells: Vec<GridCell>,
    pub wrapped: bool,
}

/// A cell's text, colors and flags.
pub open spec fn cell_view(c: GridCell) -> (Seq<char>, Color, Color, CellFlags) {
    (c.text@, c.fg, c.bg, c.flags)
}

/// Cell `i` of an annotation row showing `text` in `flags`: the `i`th
/// character, or a blank default cell past the text.
pub open spec fn annotation_cell(text: Seq<char>, i: int, flags: CellFlags) -> (Seq<char>, Color, Color, CellFlags) {
    if i < text.len() {
        (seq![text[i]], Color::Default, Color::Default, flags)
    } else {
        (seq![' '], Color::Default, Color::Default, plain_flags())
    }
}

/// The row an annotation `text` makes: exactly `cols` cells, never wrapped.
pub open spec fn is_annotation(row: AnnotationRow, text: Seq<char>, cols: u16, flags: CellFlags) -> bool {
    &&& !row.wrapped
    &&& row.cells@.len() == cols
    &&& forall|i: int| 0 <= i < cols ==> cell_view(#[trigger] row.cells@[i]) == annotation_cell(text, i, flags)
}

/// A full-width row of `text`: one character per cell, truncated at `cols`,
/// padded with blank cells, never soft-wrapped (a wrapped annotation would
/// read as two records).
pub fn annotation_row(text: &str, cols: u16, flags: CellFlags) -> (row: AnnotationRow)
    ensures
        is_annotation(row, text@, cols, flags),
{
    let width = cols as usize;
    let n = text.unicode_len();
    let blank = " ";
    proof {
        reveal_strlit(" ");
    }
    let mut cells: Vec<GridCell> = Vec::new();
    let mut i: usize = 0;
    while i < width
        invariant
            width == cols,
            n == text@.len(),
            blank@ == seq![' '],
            i <= width,
            cells@.len() == i,
            forall|j: int| 0 <= j < i ==> cell_view(#[trigger] cells@[j]) == annotation_cell(text@, j, flags),
        decreases width - i,
    {
        if i < n {
            let ch = text.substring_char(i, i + 1).to_owned();
            assert(ch@ =~= seq![text@[i as int]]);
            cells.push(GridCell { text: ch, fg: Color::Default, bg: Color::Default, flags });
        } else {
            let plain = CellFlags {
                bold: false,
                faint: false,
                italic: false,
                underline: false,
                double_underline: false,
                curly_underline: false,
                dotted_underline: false,
                dashed_underline: false,
                blink: false,
                inverse: false,
                invisible: false,
                strikethrough: false,
                overline: false,
                wide_spacer: false,
            };
            cells.push(GridCell { text: blank.to_owned(), fg: Color::Default, bg: Color::Default, flags: plain });
        }
        i = i + 1;
    }
    AnnotationRow { cells, wrapped: false }
}

/// The boundary row between restored history and the live session:
/// `record · saved <stamp> · live below`, ruled across the pane.
pub fn separator_row(saved_at: u64, local_offset_seconds: i64, cols: u16) -> (row: AnnotationRow)
    requires
        i64::MIN <= wrap_i64(saved_at) + local_offset_seconds <= i64::MAX,
    ensures
        is_annotation(
            row,
            ruled_text(
                "record \u{b7} saved "@ + ascii_chars(
                    stamp_text(civil_at(wrap_i64(saved_at) + local_offset_seconds)),
                ) + " \u{b7} live below"@,
                cols,
            ),
            cols,
            faint_flags(),
        ),
{
    let mut label = "record \u{b7} saved ".to_owned();
    let when = stamp(saved_at, local_offset_seconds);
    label.append(when.as_str());
    label.append(" \u{b7} live below");
    let text = ruled(label.as_str(), cols);
    annotation_row(text.as_str(), cols, faint())
}

/// The notice shown in a pane whose layout was restored but whose contents
/// were not; it names the setting that would keep them.
pub fn not_persisted_notice_row(cols: u16) -> (row: AnnotationRow)
    ensures
        is_annotation(
            row,
            ruled_text(
                "layout restored \u{b7} previous output was not saved \u{b7} set scrollback-persist = tail to keep it"@,
                cols,
            ),
            cols,
            faint_flags(),
        ),
{
    let text = ruled(
        "layout restored \u{b7} previous output was not saved \u{b7} set scrollback-persist = tail to keep it",
        cols,
    );
    annotation_row(text.as_str(), cols, faint())
}

} // verus!
