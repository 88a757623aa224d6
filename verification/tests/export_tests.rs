use termcard::export::{layout, pty_cols, pty_rows, render_svg};
use termcard::ir::{Capture, Color, Line, Run};
use termcard::theme::{Palette, Theme};

fn sample() -> (Capture, Theme, Palette) {
    let cap = Capture {
        cols: 20,
        rows: 3,
        command_line: "ls".into(),
        lines: vec![
            Line::from_runs(vec![Run {
                text: "src".into(),
                fg: Some(Color::Indexed(1)),
                bg: None,
                bold: true,
                italic: false,
                underline: false,
            }]),
            Line::empty(),
        ],
    };
    (cap, Theme::default(), Palette::default())
}

fn px(centi: u128) -> f64 {
    centi as f64 / 100.0
}

#[test]
fn manual_card_width_is_exact() {
    let (mut cap, mut theme, _palette) = sample();
    theme.card_width = Some(160);
    // 420 floor wins: 160 + 24*2 padding + (8*2+8*2) frame = 240 < 420.
    let l = layout(&cap, &theme);
    assert_eq!(px(l.width_centi), 420.0);
    assert!(px(l.width_centi) > 160.0);
    // Manual beats content: a longer line does not grow the card.
    cap.lines[0].runs[0].text = "x".repeat(400);
    assert_eq!(px(layout(&cap, &theme).width_centi), 420.0);
}

#[test]
fn manual_card_width_above_floor() {
    let (cap, mut theme, _palette) = sample();
    theme.card_width = Some(600);
    // 600 + 24*2 + (8*2 + 8*2) = 680: exact window + frame, no content influence.
    assert_eq!(px(layout(&cap, &theme).width_centi), 680.0);
}

#[test]
fn automatic_width_ignores_manual_setting() {
    let (cap, theme, _palette) = sample();
    assert_eq!(px(layout(&cap, &theme).width_centi), 420.0);
}

#[test]
fn pty_cols_match_card_width() {
    // Auto width keeps the 240-column ceiling.
    assert_eq!(pty_cols(None, 14), 240);
    // 600 px at font 14: 600 / (14 * 0.6) = 71.4 → 71 columns.
    assert_eq!(pty_cols(Some(600), 14), 71);
    // Clamps: a tiny width floors at 20, a huge width caps at 240.
    assert_eq!(pty_cols(Some(100), 32), 20);
    assert_eq!(pty_cols(Some(4096), 8), 240);
}

#[test]
fn pty_rows_keep_cell_budget() {
    assert_eq!(pty_rows(240), 80); // the default size
    assert_eq!(pty_rows(20), 500); // narrow: clamped ceiling
    assert_eq!(pty_rows(71), 270); // 19200 / 71
}

#[test]
fn svg_contains_prompt_and_text() {
    let (cap, theme, palette) = sample();
    let svg = render_svg(&cap, &theme, &palette, 1);
    assert!(svg.contains("ls"));
    assert!(svg.contains("src"));
    assert!(svg.contains("#ff5f57")); // traffic light
}

#[test]
fn svg_escapes_xml() {
    let (mut cap, mut theme, palette) = sample();
    cap.command_line = "echo \"<b>&\">".into();
    // A hostile theme string must not break out of a quoted attribute.
    theme.background = "#1e1e2e\" onload=\"pwn".into();
    let svg = render_svg(&cap, &theme, &palette, 1);
    assert!(svg.contains("&lt;b&gt;&amp;"));
    assert!(!svg.contains("<b>"));
    assert!(svg.contains("&quot;"));
    assert!(!svg.contains("fill=\"#1e1e2e\" onload"));
}
