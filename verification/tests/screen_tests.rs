use termcard::ir::{from_vt100, Capture, Color, Line, Run, VtScreen};

fn parse(input: &[u8], rows: u16, cols: u16) -> VtScreen {
    let mut p = VtScreen::new(rows, cols);
    p.process(input);
    p
}

#[test]
fn plain_text_single_run() {
    let p = parse(b"hello world\n", 24, 80);
    let cap = from_vt100(&p, "hello world".into());
    assert_eq!(cap.lines[0].runs.len(), 1);
    assert_eq!(cap.lines[0].runs[0].text, "hello world");
    assert_eq!(cap.lines[0].runs[0].fg, None);
    assert!(!cap.lines[0].runs[0].bold);
}

#[test]
fn bold_creates_split_runs() {
    let p = parse(b"\x1b[1mbold\x1b[0m normal\n", 24, 80);
    let cap = from_vt100(&p, "cmd".into());
    let runs = &cap.lines[0].runs;
    assert_eq!(runs.len(), 2);
    assert!(runs[0].bold);
    assert_eq!(runs[0].text, "bold");
    assert!(!runs[1].bold);
    assert_eq!(runs[1].text, " normal");
}

#[test]
fn truecolor_preserved() {
    let p = parse(b"\x1b[38;2;255;100;50mrgb\x1b[0m\n", 24, 80);
    let cap = from_vt100(&p, "cmd".into());
    assert_eq!(cap.lines[0].runs[0].fg, Some(Color::Rgb(255, 100, 50)));
}

#[test]
fn indexed_256_preserved() {
    let p = parse(b"\x1b[38;5;196mred\x1b[0m\n", 24, 80);
    let cap = from_vt100(&p, "cmd".into());
    assert_eq!(cap.lines[0].runs[0].fg, Some(Color::Indexed(196)));
}

#[test]
fn background_preserved() {
    let p = parse(b"\x1b[44;37m blue bg \x1b[0m\n", 24, 80);
    let cap = from_vt100(&p, "cmd".into());
    let run = &cap.lines[0].runs[0];
    assert_eq!(run.bg, Some(Color::Indexed(4)));
}

#[test]
fn inverse_swaps_default_colors() {
    let p = parse(b"\x1b[7minv\x1b[0m\n", 24, 80);
    let cap = from_vt100(&p, "cmd".into());
    let run = &cap.lines[0].runs[0];
    assert_eq!(run.fg, Some(Color::DefaultInverted));
    assert_eq!(run.bg, Some(Color::DefaultInverted));
    assert_eq!(run.text, "inv");
}

#[test]
fn empty_row_yields_empty_line() {
    let p = parse(b"a\n\nb\n", 24, 80);
    let cap = from_vt100(&p, "cmd".into());
    assert!(cap.lines[1].runs.is_empty());
    assert_eq!(cap.lines[2].runs[0].text, "b");
}

#[test]
fn command_line_carried() {
    let p = parse(b"out\n", 24, 80);
    let cap = from_vt100(&p, "ls -la".into());
    assert_eq!(cap.command_line, "ls -la");
}

#[test]
fn tab_gap_preserved() {
    let p = parse(b"a\tb\n", 24, 80);
    let cap = from_vt100(&p, "cmd".into());
    let joined = cap.lines[0]
        .runs
        .iter()
        .map(|r| r.text.as_str())
        .collect::<String>();
    // Tab moves the cursor to column 8: 'b' lands after 7 blank columns.
    assert_eq!(joined, format!("a{}b", " ".repeat(7)));
    assert!(cap.lines[0].runs.len() >= 1);
}

#[test]
fn trimmed_counts_wide_char_width() {
    let cap = Capture {
        cols: 80,
        rows: 1,
        command_line: "x".into(),
        lines: vec![Line::from_runs(vec![Run {
            text: "你好".into(),
            fg: None,
            bg: None,
            bold: false,
            italic: false,
            underline: false,
        }])],
    };
    // Two CJK chars occupy 4 columns, plus 1 => 5 (not 3 by char count).
    assert_eq!(cap.trimmed().cols, 5);
}
