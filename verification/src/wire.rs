//! Terminal rows in the IPC wire form: cells coalesced into runs of one
//! style, the wire attributes of a cell, sidebar preview runs and the plain
//! text of a screen.

use std::collections::hash_map::DefaultHasher;
use std::hash::Hasher;

use vstd::prelude::*;
use vstd::std_specs::hash::DefaultHasherAdditionalSpecFns;
use vstd::string::*;
use vstd::utf8::encode_utf8;

verus! {

/// A cell color.
#[derive(Clone, Copy, Debug, PartialEq, Eq, Structural)]
pub enum Color {
    Default,
    Palette(u8),
    Rgb(u8, u8, u8),
}

/// A color on the wire; the default color is omitted.
#[derive(Clone, Copy, Debug, PartialEq, Eq, Structural)]
pub enum SpanColor {
    Hex(u8, u8, u8),
    Palette(u8),
}

/// The rendition flags of a cell.
#[derive(Clone, Copy, Debug, Default, PartialEq, Eq, Structural)]
pub struct CellFlags {
    pub bold: bool,
    pub faint: bool,
    pub italic: bool,
    pub underline: bool,
    pub double_underline: bool,
    pub curly_underline: bool,
    pub dotted_underline: bool,
    pub dashed_underline: bool,
    pub blink: bool,
    pub inverse: bool,
    pub invisible: bool,
    pub strikethrough: bool,
    pub overline: bool,
    /// The right half of a wide character, which carries no text.
    pub wide_spacer: bool,
}

/// One grid cell: its text (a character plus any combining marks), colors
/// and flags.
#[derive(Clone, Debug)]
pub struct GridCell {
    pub text: String,
    pub fg: Color,
    pub bg: Color,
    pub flags: CellFlags,
}

/// The underline style a cell shows on the wire.
#[derive(Clone, Copy, Debug, PartialEq, Eq, Structural)]
pub enum UnderlineStyle {
    NoUnderline,
    Single,
    Double,
    Curly,
    Dotted,
    Dashed,
}

/// The attributes a cell carries on the wire; one underline style at most.
#[derive(Clone, Copy, Debug, PartialEq, Eq, Structural)]
pub struct WireAttrs {
    pub bold: bool,
    pub faint: bool,
    pub italic: bool,
    pub underline: UnderlineStyle,
    pub blink: bool,
    pub inverse: bool,
    pub invisible: bool,
    pub strikethrough: bool,
    pub overline: bool,
}

/// One wire attribute.
#[derive(Clone, Copy, Debug, PartialEq, Eq, Structural)]
pub enum Attr {
    Bold,
    Faint,
    Italic,
    Underline,
    DoubleUnderline,
    CurlyUnderline,
    DottedUnderline,
    DashedUnderline,
    Blink,
    Inverse,
    Invisible,
    Strikethrough,
    Overline,
}

/// One run of a row in the wire form: its text and the style all of its
/// cells share.
#[derive(Clone, Debug)]
pub struct Span {
    pub text: String,
    pub fg: Option<SpanColor>,
    pub bg: Option<SpanColor>,
    pub attrs: WireAttrs,
}

/// The wire form of a color.
pub open spec fn wire_color_of(c: Color) -> Option<SpanColor> {
    match c {
        Color::Default => None,
        Color::Palette(i) => Some(SpanColor::Palette(i)),
        Color::Rgb(r, g, b) => Some(SpanColor::Hex(r, g, b)),
    }
}

/// The wire attributes of a cell's flags: of several underline styles the
/// double one wins, then curly, dotted, dashed and plain.
pub open spec fn wire_attrs_of(f: CellFlags) -> WireAttrs {
    WireAttrs {
        bold: f.bold,
        faint: f.faint,
        italic: f.italic,
        underline: if f.double_underline {
            UnderlineStyle::Double
        } else if f.curly_underline {
            UnderlineStyle::Curly
        } else if f.dotted_underline {
            UnderlineStyle::Dotted
        } else if f.dashed_underline {
            UnderlineStyle::Dashed
        } else if f.underline {
            UnderlineStyle::Single
        } else {
            UnderlineStyle::NoUnderline
        },
        blink: f.blink,
        inverse: f.inverse,
        invisible: f.invisible,
        strikethrough: f.strikethrough,
        overline: f.overline,
    }
}

/// `s` with `a` appended when `on`.
pub open spec fn push_if(s: Seq<Attr>, on: bool, a: Attr) -> Seq<Attr> {
    if on {
        s.push(a)
    } else {
        s
    }
}

/// The attribute list of the wire form, in its fixed order.
pub open spec fn attr_seq(w: WireAttrs) -> Seq<Attr> {
    let s0 = push_if(push_if(push_if(Seq::empty(), w.bold, Attr::Bold), w.faint, Attr::Faint), w.italic, Attr::Italic);
    let s1 = match w.underline {
        UnderlineStyle::NoUnderline => s0,
        UnderlineStyle::Single => s0.push(Attr::Underline),
        UnderlineStyle::Double => s0.push(Attr::DoubleUnderline),
        UnderlineStyle::Curly => s0.push(Attr::CurlyUnderline),
        UnderlineStyle::Dotted => s0.push(Attr::DottedUnderline),
        UnderlineStyle::Dashed => s0.push(Attr::DashedUnderline),
    };
    push_if(
        push_if(
            push_if(push_if(push_if(s1, w.blink, Attr::Blink), w.inverse, Attr::Inverse), w.invisible, Attr::Invisible),
            w.strikethrough,
            Attr::Strikethrough,
        ),
        w.overline,
        Attr::Overline,
    )
}

/// The wire form of a color.
pub fn wire_color(c: Color) -> (r: Option<SpanColor>)
    ensures
        r == wire_color_of(c),
{
    match c {
        Color::Default => None,
        Color::Palette(i) => Some(SpanColor::Palette(i)),
        Color::Rgb(r, g, b) => Some(SpanColor::Hex(r, g, b)),
    }
}

/// The wire attributes of a cell.
pub fn wire_attrs(flags: CellFlags) -> (r: WireAttrs)
    ensures
        r == wire_attrs_of(flags),
{
    let underline = if flags.double_underline {
        UnderlineStyle::Double
    } else if flags.curly_underline {
        UnderlineStyle::Curly
    } else if flags.dotted_underline {
        UnderlineStyle::Dotted
    } else if flags.dashed_underline {
        UnderlineStyle::Dashed
    } else if flags.underline {
        UnderlineStyle::Single
    } else {
        UnderlineStyle::NoUnderline
    };
    WireAttrs {
        bold: flags.bold,
        faint: flags.faint,
        italic: flags.italic,
        underline,
        blink: flags.blink,
        inverse: flags.inverse,
        invisible: flags.invisible,
        strikethrough: flags.strikethrough,
        overline: flags.overline,
    }
}

fn push_attr(out: &mut Vec<Attr>, on: bool, a: Attr)
    ensures
        final(out)@ == push_if(old(out)@, on, a),
{
    if on {
        out.push(a);
    }
}

/// The attribute list sent on the wire, `None` when it is empty.
pub fn attr_list(w: WireAttrs) -> (r: Option<Vec<Attr>>)
    ensures
        match r {
            Some(v) => v@ == attr_seq(w) && v@.len() > 0,
            None => attr_seq(w).len() == 0,
        },
{
    let mut out: Vec<Attr> = Vec::new();
    push_attr(&mut out, w.bold, Attr::Bold);
    push_attr(&mut out, w.faint, Attr::Faint);
    push_attr(&mut out, w.italic, Attr::Italic);
    match w.underline {
        UnderlineStyle::NoUnderline => {},
        UnderlineStyle::Single => out.push(Attr::Underline),
        UnderlineStyle::Double => out.push(Attr::DoubleUnderline),
        UnderlineStyle::Curly => out.push(Attr::CurlyUnderline),
        UnderlineStyle::Dotted => out.push(Attr::DottedUnderline),
        UnderlineStyle::Dashed => out.push(Attr::DashedUnderline),
    }
    push_attr(&mut out, w.blink, Attr::Blink);
    push_attr(&mut out, w.inverse, Attr::Inverse);
    push_attr(&mut out, w.invisible, Attr::Invisible);
    push_attr(&mut out, w.strikethrough, Attr::Strikethrough);
    push_attr(&mut out, w.overline, Attr::Overline);
    if out.len() == 0 {
        None
    } else {
        Some(out)
    }
}

/// A span's text and style.
pub struct SpanView {
    pub text: Seq<char>,
    pub fg: Option<SpanColor>,
    pub bg: Option<SpanColor>,
    pub attrs: WireAttrs,
}

/// The mathematical value of a [`Span`].
pub open spec fn span_view(s: Span) -> SpanView {
    SpanView { text: s.text@, fg: s.fg, bg: s.bg, attrs: s.attrs }
}

/// The wire runs of a row: cells left to right, wide-character spacers
/// skipped, each cell joining the last run when its colors and attributes
/// match it and starting a new run otherwise.
pub open spec fn spans_of(cells: Seq<GridCell>) -> Seq<SpanView>
    decreases cells.len(),
{
    if cells.len() == 0 {
        Seq::empty()
    } else {
        let prev = spans_of(cells.drop_last());
        let c = cells.last();
        let fg = wire_color_of(c.fg);
        let bg = wire_color_of(c.bg);
        let attrs = wire_attrs_of(c.flags);
        if c.flags.wide_spacer {
            prev
        } else if prev.len() > 0 && prev.last().fg == fg && prev.last().bg == bg && prev.last().attrs
            == attrs {
            prev.update(
                prev.len() - 1,
                SpanView { text: prev.last().text + c.text@, ..prev.last() },
            )
        } else {
            prev.push(SpanView { text: c.text@, fg, bg, attrs })
        }
    }
}

/// Coalesce a row's cells into runs of one color and attribute style.
pub fn row_to_spans(cells: &[GridCell]) -> (spans: Vec<Span>)
    ensures
        spans@.map_values(|s: Span| span_view(s)) == spans_of(cells@),
{
    let mut spans: Vec<Span> = Vec::new();
    let mut i: usize = 0;
    while i < cells.len()
        invariant
            i <= cells@.len(),
            spans@.map_values(|s: Span| span_view(s)) == spans_of(cells@.subrange(0, i as int)),
        decreases cells@.len() - i,
    {
        let ghost before = spans@.map_values(|s: Span| span_view(s));
        let ghost sub = cells@.subrange(0, i + 1);
        assert(sub.drop_last() =~= cells@.subrange(0, i as int));
        assert(sub.last() == cells@[i as int]);
        let cell = &cells[i];
        if !cell.flags.wide_spacer {
            let fg = wire_color(cell.fg);
            let bg = wire_color(cell.bg);
            let attrs = wire_attrs(cell.flags);
            let n = spans.len();
            let same = n > 0 && spans[n - 1].fg == fg && spans[n - 1].bg == bg && spans[n - 1].attrs
                == attrs;
            if same {
                let mut last = spans.pop().unwrap();
                last.text.append(cell.text.as_str());
                let ghost updated = span_view(last);
                spans.push(last);
                assert(spans@.map_values(|s: Span| span_view(s)) =~= before.update(
                    before.len() - 1,
                    updated,
                ));
            } else {
                let text = cell.text.clone();
                spans.push(Span { text, fg, bg, attrs });
                assert(spans@.map_values(|s: Span| span_view(s)) =~= before.push(
                    SpanView { text: cell.text@, fg, bg, attrs },
                ));
            }
        }
        i = i + 1;
    }
    assert(cells@.subrange(0, cells@.len() as int) =~= cells@);
    spans
}

/// The byte that stands for a wire attribute when a row is hashed.
pub open spec fn attr_code(a: Attr) -> u8 {
    match a {
        Attr::Bold => 0,
        Attr::Faint => 1,
        Attr::Italic => 2,
        Attr::Underline => 3,
        Attr::DoubleUnderline => 4,
        Attr::CurlyUnderline => 5,
        Attr::DottedUnderline => 6,
        Attr::DashedUnderline => 7,
        Attr::Blink => 8,
        Attr::Inverse => 9,
        Attr::Invisible => 10,
        Attr::Strikethrough => 11,
        Attr::Overline => 12,
    }
}

/// The writes that hash an optional wire color: a tag byte, then its
/// components.
pub open spec fn color_chunks(c: Option<SpanColor>) -> Seq<Seq<u8>> {
    match c {
        None => seq![seq![0u8]],
        Some(SpanColor::Hex(r, g, b)) => seq![seq![1u8], seq![r], seq![g], seq![b]],
        Some(SpanColor::Palette(p)) => seq![seq![2u8], seq![p]],
    }
}

/// The writes that hash a span's attributes: `0` when it has none, else `1`
/// and then one byte per attribute in wire order.
pub open spec fn attrs_chunks(w: WireAttrs) -> Seq<Seq<u8>> {
    let l = attr_seq(w);
    if l.len() == 0 {
        seq![seq![0u8]]
    } else {
        seq![seq![1u8]] + l.map_values(|a: Attr| seq![attr_code(a)])
    }
}

/// The writes that hash one span: its text's UTF-8 bytes closed by `0xff`,
/// then its foreground, background and attributes.
pub open spec fn span_chunks(s: SpanView) -> Seq<Seq<u8>> {
    seq![encode_utf8(s.text), seq![0xffu8]] + color_chunks(s.fg) + color_chunks(s.bg)
        + attrs_chunks(s.attrs)
}

/// The writes that hash a row's spans, span by span.
pub open spec fn row_chunks(spans: Seq<SpanView>) -> Seq<Seq<u8>>
    decreases spans.len(),
{
    if spans.len() == 0 {
        Seq::empty()
    } else {
        row_chunks(spans.drop_last()) + span_chunks(spans.last())
    }
}

/// The content hash of a wire row.
pub open spec fn row_hash(spans: Seq<SpanView>) -> u64 {
    DefaultHasher::spec_finish(row_chunks(spans))
}

fn attr_byte(a: Attr) -> (b: u8)
    ensures
        b == attr_code(a),
{
    match a {
        Attr::Bold => 0,
        Attr::Faint => 1,
        Attr::Italic => 2,
        Attr::Underline => 3,
        Attr::DoubleUnderline => 4,
        Attr::CurlyUnderline => 5,
        Attr::DottedUnderline => 6,
        Attr::DashedUnderline => 7,
        Attr::Blink => 8,
        Attr::Inverse => 9,
        Attr::Invisible => 10,
        Attr::Strikethrough => 11,
        Attr::Overline => 12,
    }
}

fn write_byte(hasher: &mut DefaultHasher, b: u8)
    ensures
        final(hasher)@ == old(hasher)@.push(seq![b]),
{
    let one = vec![b];
    hasher.write(one.as_slice());
    assert(one@ =~= seq![b]);
}

/// Feed an optional wire color to `hasher`.
fn hash_span_color(color: Option<SpanColor>, hasher: &mut DefaultHasher)
    ensures
        final(hasher)@ == old(hasher)@ + color_chunks(color),
{
    match color {
        None => write_byte(hasher, 0),
        Some(SpanColor::Hex(r, g, b)) => {
            write_byte(hasher, 1);
            write_byte(hasher, r);
            write_byte(hasher, g);
            write_byte(hasher, b);
        },
        Some(SpanColor::Palette(p)) => {
            write_byte(hasher, 2);
            write_byte(hasher, p);
        },
    }
    assert(final(hasher)@ =~= old(hasher)@ + color_chunks(color));
}

fn hash_attrs(w: WireAttrs, hasher: &mut DefaultHasher)
    ensures
        final(hasher)@ == old(hasher)@ + attrs_chunks(w),
{
    match attr_list(w) {
        None => {
            write_byte(hasher, 0);
            assert(final(hasher)@ =~= old(hasher)@ + attrs_chunks(w));
        },
        Some(list) => {
            write_byte(hasher, 1);
            let ghost start = hasher@;
            let ghost codes = list@.map_values(|a: Attr| seq![attr_code(a)]);
            let mut i: usize = 0;
            while i < list.len()
                invariant
                    i <= list@.len(),
                    codes == list@.map_values(|a: Attr| seq![attr_code(a)]),
                    hasher@ == start + codes.subrange(0, i as int),
                decreases list@.len() - i,
            {
                let b = attr_byte(list[i]);
                write_byte(hasher, b);
                assert(codes.subrange(0, i + 1) =~= codes.subrange(0, i as int).push(seq![b]));
                i = i + 1;
            }
            assert(codes.subrange(0, list@.len() as int) =~= codes);
            assert(final(hasher)@ =~= old(hasher)@ + attrs_chunks(w));
        },
    }
}

/// A content hash of one wire row's spans: rows whose spans agree in text,
/// colors and attributes hash alike, so a cache of these can skip resending
/// unchanged rows.
pub fn hash_wire_row_spans(spans: &[Span]) -> (h: u64)
    ensures
        h == row_hash(spans@.map_values(|s: Span| span_view(s))),
{
    let ghost views = spans@.map_values(|s: Span| span_view(s));
    let mut hasher = DefaultHasher::new();
    let mut i: usize = 0;
    while i < spans.len()
        invariant
            i <= spans@.len(),
            views == spans@.map_values(|s: Span| span_view(s)),
            hasher@ == row_chunks(views.subrange(0, i as int)),
        decreases spans@.len() - i,
    {
        let ghost before = hasher@;
        let span = &spans[i];
        hasher.write(span.text.as_str().as_bytes());
        write_byte(&mut hasher, 0xff);
        hash_span_color(span.fg, &mut hasher);
        hash_span_color(span.bg, &mut hasher);
        hash_attrs(span.attrs, &mut hasher);
        let ghost sub = views.subrange(0, i + 1);
        assert(sub.drop_last() =~= views.subrange(0, i as int));
        assert(sub.last() == span_view(*span));
        assert(hasher@ =~= before + span_chunks(span_view(*span)));
        i = i + 1;
    }
    assert(views.subrange(0, spans@.len() as int) =~= views);
    hasher.finish()
}

/// A sidebar preview run: text and foreground color.
#[derive(Clone, Debug)]
pub struct PreviewSpan {
    pub text: String,
    pub fg: Color,
}

/// The preview runs of a row: each cell joins the last run when its
/// foreground color matches it, and starts a new run otherwise.
pub open spec fn preview_of(cells: Seq<GridCell>) -> Seq<(Seq<char>, Color)>
    decreases cells.len(),
{
    if cells.len() == 0 {
        Seq::empty()
    } else {
        let prev = preview_of(cells.drop_last());
        let c = cells.last();
        if prev.len() > 0 && prev.last().1 == c.fg {
            prev.update(prev.len() - 1, (prev.last().0 + c.text@, c.fg))
        } else {
            prev.push((c.text@, c.fg))
        }
    }
}

/// Coalesce a preview row's cells into runs of one foreground color.
pub fn preview_line(cells: &[GridCell]) -> (spans: Vec<PreviewSpan>)
    ensures
        spans@.map_values(|s: PreviewSpan| (s.text@, s.fg)) == preview_of(cells@),
{
    let mut spans: Vec<PreviewSpan> = Vec::new();
    let mut i: usize = 0;
    while i < cells.len()
        invariant
            i <= cells@.len(),
            spans@.map_values(|s: PreviewSpan| (s.text@, s.fg)) == preview_of(
                cells@.subrange(0, i as int),
            ),
        decreases cells@.len() - i,
    {
        let ghost before = spans@.map_values(|s: PreviewSpan| (s.text@, s.fg));
        let ghost sub = cells@.subrange(0, i + 1);
        assert(sub.drop_last() =~= cells@.subrange(0, i as int));
        assert(sub.last() == cells@[i as int]);
        let cell = &cells[i];
        let n = spans.len();
        if n > 0 && spans[n - 1].fg == cell.fg {
            let mut last = spans.pop().unwrap();
            last.text.append(cell.text.as_str());
            let ghost updated = (last.text@, last.fg);
            spans.push(last);
            assert(spans@.map_values(|s: PreviewSpan| (s.text@, s.fg)) =~= before.update(
                before.len() - 1,
                updated,
            ));
        } else {
            spans.push(PreviewSpan { text: cell.text.clone(), fg: cell.fg });
            assert(spans@.map_values(|s: PreviewSpan| (s.text@, s.fg)) =~= before.push(
                (cell.text@, cell.fg),
            ));
        }
        i = i + 1;
    }
    assert(cells@.subrange(0, cells@.len() as int) =~= cells@);
    spans
}

/// `t` without its trailing spaces.
pub open spec fn trim_spaces_end(t: Seq<char>) -> Seq<char>
    decreases t.len(),
{
    if t.len() > 0 && t.last() == ' ' {
        trim_spaces_end(t.drop_last())
    } else {
        t
    }
}

/// The plain text of a screen: each row's text, a row that does not wrap
/// into the next losing its own trailing spaces and ending in a newline.
pub open spec fn screen_text_of(rows: Seq<(Seq<char>, bool)>) -> Seq<char>
    decreases rows.len(),
{
    if rows.len() == 0 {
        Seq::empty()
    } else {
        let prev = screen_text_of(rows.drop_last());
        let (text, wrapped) = rows.last();
        if wrapped {
            prev + text
        } else {
            prev + trim_spaces_end(text) + seq!['\n']
        }
    }
}

/// The plain text of `rows`, each given as its text and whether it wraps
/// into the next row.
pub fn screen_text(rows: &[(String, bool)]) -> (out: String)
    ensures
        out@ == screen_text_of(rows@.map_values(|r: (String, bool)| (r.0@, r.1))),
{
    let ghost views = rows@.map_values(|r: (String, bool)| (r.0@, r.1));
    let mut out = String::new();
    let mut i: usize = 0;
    while i < rows.len()
        invariant
            i <= rows@.len(),
            views == rows@.map_values(|r: (String, bool)| (r.0@, r.1)),
            out@ == screen_text_of(views.subrange(0, i as int)),
        decreases rows@.len() - i,
    {
        let ghost sub = views.subrange(0, i + 1);
        assert(sub.drop_last() =~= views.subrange(0, i as int));
        assert(sub.last() == views[i as int]);
        let text = rows[i].0.as_str();
        if rows[i].1 {
            out.append(text);
        } else {
            let n = text.unicode_len();
            let mut k: usize = n;
            assert(text@.subrange(0, n as int) =~= text@);
            while k > 0 && text.get_char(k - 1) == ' '
                invariant
                    n == text@.len(),
                    k <= n,
                    trim_spaces_end(text@) == trim_spaces_end(text@.subrange(0, k as int)),
                decreases k,
            {
                assert(text@.subrange(0, k as int).drop_last() =~= text@.subrange(0, k - 1));
                k = k - 1;
            }
            out.append(text.substring_char(0, k));
            let newline = "\n";
            proof {
                reveal_strlit("\n");
            }
            out.append(newline);
        }
        i = i + 1;
    }
    assert(views.subrange(0, rows@.len() as int) =~= views);
    out
}

/// Coalescing never loses text: the runs' texts, joined, are the texts of
/// the row's non-spacer cells.
pub open spec fn joined_span_text(spans: Seq<SpanView>) -> Seq<char>
    decreases spans.len(),
{
    if spans.len() == 0 {
        Seq::empty()
    } else {
        joined_span_text(spans.drop_last()) + spans.last().text
    }
}

/// The texts of a row's cells other than wide-character spacers.
pub open spec fn cell_text(cells: Seq<GridCell>) -> Seq<char>
    decreases cells.len(),
{
    if cells.len() == 0 {
        Seq::empty()
    } else if cells.last().flags.wide_spacer {
        cell_text(cells.drop_last())
    } else {
        cell_text(cells.drop_last()) + cells.last().text@
    }
}

proof fn lemma_joined_update(spans: Seq<SpanView>, extra: Seq<char>)
    requires
        spans.len() > 0,
    ensures
        joined_span_text(
            spans.update(
                spans.len() - 1,
                SpanView { text: spans.last().text + extra, ..spans.last() },
            ),
        ) == joined_span_text(spans) + extra,
{
    let u = spans.update(spans.len() - 1, SpanView { text: spans.last().text + extra, ..spans.last() });
    assert(u.drop_last() =~= spans.drop_last());
    assert(joined_span_text(spans.drop_last()) + (spans.last().text + extra) =~= joined_span_text(
        spans.drop_last(),
    ) + spans.last().text + extra);
}

/// The wire runs of a row hold exactly its text, in order.
pub proof fn lemma_spans_keep_the_text(cells: Seq<GridCell>)
    ensures
        joined_span_text(spans_of(cells)) == cell_text(cells),
    decreases cells.len(),
{
    if cells.len() > 0 {
        lemma_spans_keep_the_text(cells.drop_last());
        let prev = spans_of(cells.drop_last());
        let c = cells.last();
        if !c.flags.wide_spacer {
            let fg = wire_color_of(c.fg);
            let bg = wire_color_of(c.bg);
            let attrs = wire_attrs_of(c.flags);
            if prev.len() > 0 && prev.last().fg == fg && prev.last().bg == bg && prev.last().attrs
                == attrs {
                lemma_joined_update(prev, c.text@);
            } else {
                let p = prev.push(SpanView { text: c.text@, fg, bg, attrs });
                assert(p.drop_last() =~= prev);
            }
        }
    }
}

/// One row on the wire: its row index and its runs.
pub struct WireRow {
    pub row: u64,
    pub spans: Vec<Span>,
}

/// No wire attribute.
pub open spec fn no_attrs() -> WireAttrs {
    WireAttrs {
        bold: false,
        faint: false,
        italic: false,
        underline: UnderlineStyle::NoUnderline,
        blink: false,
        inverse: false,
        invisible: false,
        strikethrough: false,
        overline: false,
    }
}

/// The wire run of a preview run: its text and foreground, no background
/// and no attributes.
pub open spec fn preview_span_view(s: PreviewSpan) -> SpanView {
    SpanView { text: s.text@, fg: wire_color_of(s.fg), bg: None, attrs: no_attrs() }
}

/// A card preview line as a wire row; `row` is the line's index within
/// the preview, not an absolute grid row.
pub fn preview_line_to_row(row: u64, line: &[PreviewSpan]) -> (r: WireRow)
    ensures
        r.row == row,
        r.spans@.map_values(|s: Span| span_view(s)) == line@.map_values(|p: PreviewSpan| preview_span_view(p)),
{
    let mut spans: Vec<Span> = Vec::new();
    let mut i: usize = 0;
    while i < line.len()
        invariant
            i <= line@.len(),
            spans@.map_values(|s: Span| span_view(s)) == line@.subrange(0, i as int).map_values(
                |p: PreviewSpan| preview_span_view(p),
            ),
        decreases line@.len() - i,
    {
        let p = &line[i];
        let attrs = WireAttrs {
            bold: false,
            faint: false,
            italic: false,
            underline: UnderlineStyle::NoUnderline,
            blink: false,
            inverse: false,
            invisible: false,
            strikethrough: false,
            overline: false,
        };
        let ghost before = spans@;
        let text = p.text.clone();
        let span = Span { text, fg: wire_color(p.fg), bg: None, attrs };
        assert(span_view(span) == preview_span_view(line@[i as int]));
        spans.push(span);
        assert(spans@ == before.push(span));
        assert(line@.subrange(0, i + 1) =~= line@.subrange(0, i as int).push(line@[i as int]));
        assert(spans@.map_values(|s: Span| span_view(s)) =~= before.map_values(|s: Span| span_view(s)).push(
            span_view(span),
        ));
        assert(line@.subrange(0, i as int).push(line@[i as int]).map_values(|p: PreviewSpan| preview_span_view(p))
            =~= line@.subrange(0, i as int).map_values(|p: PreviewSpan| preview_span_view(p)).push(
            preview_span_view(line@[i as int]),
        ));
        assert(spans@.map_values(|s: Span| span_view(s)) =~= line@.subrange(0, i + 1).map_values(
            |p: PreviewSpan| preview_span_view(p),
        ));
        i = i + 1;
    }
    assert(line@.subrange(0, line@.len() as int) =~= line@);
    WireRow { row, spans }
}

/// A card's whole preview as wire rows numbered from 0.
pub fn preview_to_rows(preview: &[Vec<PreviewSpan>]) -> (rows: Vec<WireRow>)
    ensures
        rows@.len() == preview@.len(),
        forall|k: int|
            0 <= k < rows@.len() ==> (#[trigger] rows@[k]).row == k && rows@[k].spans@.map_values(
                |s: Span| span_view(s),
            ) == preview@[k]@.map_values(|p: PreviewSpan| preview_span_view(p)),
{
    let mut rows: Vec<WireRow> = Vec::new();
    let mut k: usize = 0;
    while k < preview.len()
        invariant
            k <= preview@.len(),
            rows@.len() == k,
            forall|j: int|
                0 <= j < k ==> (#[trigger] rows@[j]).row == j && rows@[j].spans@.map_values(
                    |s: Span| span_view(s),
                ) == preview@[j]@.map_values(|p: PreviewSpan| preview_span_view(p)),
        decreases preview@.len() - k,
    {
        let row = preview_line_to_row(k as u64, preview[k].as_slice());
        rows.push(row);
        k = k + 1;
    }
    rows
}

} // verus!
