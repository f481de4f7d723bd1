use noa_app::wire::{
    preview_to_rows, PreviewSpan, attr_list, preview_line, row_to_spans, screen_text, wire_attrs, wire_color, Attr, CellFlags,
    Color, GridCell, SpanColor, UnderlineStyle,
};

fn cell(ch: char, fg: Color) -> GridCell {
    GridCell { text: ch.to_string(), fg, bg: Color::Default, flags: CellFlags::default() }
}

#[test]
fn row_to_spans_coalesces_same_style_runs() {
    let row = vec![cell('a', Color::Default), cell('b', Color::Default), cell('c', Color::Rgb(255, 0, 0))];
    let spans = row_to_spans(&row);
    assert_eq!(spans.len(), 2, "adjacent same-style cells fold into one span");
    assert_eq!(spans[0].text, "ab");
    assert_eq!(spans[0].fg, None, "Color::Default omits the wire fg field");
    assert_eq!(spans[1].text, "c");
    assert_eq!(spans[1].fg, Some(SpanColor::Hex(255, 0, 0)));
}

#[test]
fn row_to_spans_splits_on_attributes_and_skips_wide_spacers() {
    let mut bold = cell('b', Color::Default);
    bold.flags.bold = true;
    let mut wide = cell('漢', Color::Default);
    wide.flags.bold = true;
    let mut spacer = cell(' ', Color::Default);
    spacer.flags.wide_spacer = true;
    spacer.flags.bold = true;
    let row = vec![cell('a', Color::Default), bold, wide, spacer, cell('z', Color::Default)];
    let spans = row_to_spans(&row);
    let texts: Vec<&str> = spans.iter().map(|s| s.text.as_str()).collect();
    assert_eq!(texts, vec!["a", "b漢", "z"]);
    assert!(spans[1].attrs.bold);
}

#[test]
fn screen_text_preserves_wrapped_row_trailing_spaces() {
    let rows = vec![("a  ".to_string(), true), (" ".to_string(), false)];
    assert_eq!(screen_text(&rows), "a  \n");
}

#[test]
fn screen_text_trims_each_unwrapped_row_and_ends_it() {
    let rows = vec![("ls  ".to_string(), false), ("".to_string(), false), ("x y".to_string(), false)];
    assert_eq!(screen_text(&rows), "ls\n\nx y\n");
}

#[test]
fn wire_color_maps_every_color_variant() {
    assert_eq!(wire_color(Color::Default), None);
    assert_eq!(wire_color(Color::Palette(5)), Some(SpanColor::Palette(5)));
    assert_eq!(wire_color(Color::Rgb(1, 2, 3)), Some(SpanColor::Hex(1, 2, 3)));
}

#[test]
fn wire_attrs_pick_one_underline_and_keep_the_fixed_order() {
    let flags = CellFlags {
        bold: true,
        underline: true,
        curly_underline: true,
        dotted_underline: true,
        overline: true,
        inverse: true,
        ..CellFlags::default()
    };
    let w = wire_attrs(flags);
    assert_eq!(w.underline, UnderlineStyle::Curly);
    assert_eq!(attr_list(w), Some(vec![Attr::Bold, Attr::CurlyUnderline, Attr::Inverse, Attr::Overline]));
    assert_eq!(attr_list(wire_attrs(CellFlags::default())), None);
    let double = CellFlags { double_underline: true, dashed_underline: true, ..CellFlags::default() };
    assert_eq!(attr_list(wire_attrs(double)), Some(vec![Attr::DoubleUnderline]));
}

#[test]
fn preview_runs_coalesce_on_foreground_only() {
    let mut a = cell('a', Color::Palette(1));
    a.bg = Color::Palette(3);
    let row = vec![a, cell('b', Color::Palette(1)), cell('c', Color::Default)];
    let spans = preview_line(&row);
    assert_eq!(spans.len(), 2);
    assert_eq!(spans[0].text, "ab");
    assert_eq!(spans[0].fg, Color::Palette(1));
    assert_eq!(spans[1].text, "c");
}

#[test]
fn card_preview_lines_become_wire_rows_numbered_from_zero() {
    let preview = vec![
        vec![
            PreviewSpan { text: "ok".to_string(), fg: Color::Palette(2) },
            PreviewSpan { text: " done".to_string(), fg: Color::Default },
        ],
        vec![],
        vec![PreviewSpan { text: "$ ".to_string(), fg: Color::Rgb(1, 2, 3) }],
    ];
    let rows = preview_to_rows(&preview);
    assert_eq!(rows.iter().map(|r| r.row).collect::<Vec<_>>(), vec![0, 1, 2]);
    assert_eq!(rows[0].spans.len(), 2);
    assert_eq!(rows[0].spans[0].fg, Some(SpanColor::Palette(2)));
    assert_eq!(rows[0].spans[1].fg, None);
    assert_eq!(rows[0].spans[1].bg, None);
    assert!(attr_list(rows[0].spans[0].attrs).is_none(), "preview runs carry no attributes");
    assert!(rows[1].spans.is_empty());
    assert_eq!(rows[2].spans[0].fg, Some(SpanColor::Hex(1, 2, 3)));
    assert_eq!(rows[2].spans[0].text, "$ ");
}
