use termcard::capture::{finish_capture, ReadAction, ReadEvent, ReadState, MAX_BUFFER};
use termcard::commands::{
    check_png_scale, claim_capture_slot, release_capture_slot,
    decode_png_payload, expand_tilde, export_svg, normalize_cwd, png_export_capture, png_payload,
    preset_theme, pty_size,
};
use termcard::export::{escape_xml, font_css, fits_at_scale, layout, pty_cols, pty_rows, render_svg, try_render_svg, Fonts};
use termcard::ir::{from_vt100, str_width, Capture, Color, Line, Run, VtScreen};
use termcard::redact::{default_rules_from, escape_regex, redact_capture, RedactRule, Redaction};
use termcard::text::decimal;
use termcard::theme::{Palette, Preset, Theme};

fn run(text: &str) -> Run {
    Run {
        text: text.into(),
        fg: None,
        bg: None,
        bold: false,
        italic: false,
        underline: false,
    }
}

fn capture(lines: Vec<Line>) -> Capture {
    Capture {
        cols: 20,
        rows: 3,
        command_line: "ls".into(),
        lines,
    }
}

fn rule(p: &str, r: &str, enabled: bool) -> RedactRule {
    RedactRule {
        pattern: p.into(),
        replacement: r.into(),
        enabled,
        is_default: false,
    }
}

#[test]
fn escape_leaves_no_markup() {
    let e = escape_xml("a\"b'c<d>e&f");
    assert_eq!(e, "a&quot;b&apos;c&lt;d&gt;e&amp;f");
    assert!(!e.contains('"') && !e.contains('\'') && !e.contains('<') && !e.contains('>'));
}

#[test]
fn preset_ids_round_trip() {
    for p in Preset::ALL {
        assert_eq!(Preset::from_id(p.id()), Some(p));
    }
    assert_eq!(Preset::from_id("minimal"), None);
}

#[test]
fn preset_theme_unknown_is_an_error() {
    assert_eq!(preset_theme("minimal").unwrap_err(), "unknown preset: minimal");
    assert_eq!(preset_theme("nord").unwrap().background, "#2e3440");
}

#[test]
fn no_rules_keep_text() {
    let r = Redaction { rules: vec![] };
    assert_eq!(r.apply("anything at all"), "anything at all");
}

#[test]
fn empty_pattern_is_skipped() {
    let r = Redaction {
        rules: vec![rule("", "X", true)],
    };
    assert_eq!(r.apply("abc"), "abc");
    assert!(r.invalid_patterns().is_empty());
}

#[test]
fn invalid_patterns_lists_indices() {
    let r = Redaction {
        rules: vec![rule("ok", "X", true), rule("(bad", "X", true), rule("", "X", true), rule("[", "X", false)],
    };
    assert_eq!(r.invalid_patterns(), vec![1, 3]);
}

#[test]
fn replacement_expands_groups() {
    let r = Redaction {
        rules: vec![rule("(\\w+)@host", "$1@localhost", true)],
    };
    assert_eq!(r.apply("maria@host"), "maria@localhost");
}

#[test]
fn default_rules_are_literal() {
    let rules = default_rules_from(None, "a.b", "mi-pc");
    assert_eq!(rules.len(), 3);
    assert_eq!(rules[0].pattern, "/home/a\\.b");
    assert_eq!(rules[0].replacement, "~");
    assert_eq!(rules[1].pattern, "a\\.b");
    assert_eq!(rules[1].replacement, "usuario");
    assert_eq!(rules[2].pattern, "mi\\-pc");
    assert_eq!(rules[2].replacement, "localhost");
    assert!(rules.iter().all(|r| r.enabled && r.is_default));
    let with_home = default_rules_from(Some("/srv/u".into()), "u", "");
    assert_eq!(with_home[0].pattern, "/srv/u");
    assert_eq!(escape_regex("a+b"), "a\\+b");
    let r = Redaction { rules: with_home };
    assert_eq!(r.apply("cd /srv/u/x"), "cd ~/x");
}

#[test]
fn redaction_covers_command_line_and_runs() {
    let mut cap = capture(vec![Line::from_runs(vec![run("user maria"), run("maria!")]), Line::empty()]);
    cap.command_line = "echo maria".into();
    let r = Redaction {
        rules: vec![rule("maria", "usuario", true)],
    };
    redact_capture(&mut cap, &r);
    assert_eq!(cap.command_line, "echo usuario");
    assert_eq!(cap.lines[0].runs[0].text, "user usuario");
    assert_eq!(cap.lines[0].runs[1].text, "usuario!");
    assert!(cap.lines[1].runs.is_empty());
}

#[test]
fn png_export_is_always_redacted() {
    let mut cap = capture(vec![Line::from_runs(vec![run("secret")])]);
    cap.command_line = "cat secret".into();
    let out = png_export_capture(cap, vec![rule("secret", "X", true)], 2).unwrap();
    assert_eq!(out.command_line, "cat X");
    assert_eq!(out.lines[0].runs[0].text, "X");
}

#[test]
fn png_export_rejects_scale() {
    let cap = capture(vec![]);
    assert_eq!(png_export_capture(cap.clone(), vec![], 5).unwrap_err(), "invalid scale: 5");
    assert_eq!(png_export_capture(cap.clone(), vec![], 1).unwrap_err(), "invalid scale: 1");
    assert!(png_export_capture(cap, vec![], 4).is_ok());
}

#[test]
fn svg_export_redacts_unless_raw() {
    let mut cap = capture(vec![Line::from_runs(vec![run("token-123")])]);
    cap.command_line = "show".into();
    let rules = vec![rule("token-\\d+", "[hidden]", true)];
    let theme = Theme::default();
    let redacted = export_svg(cap.clone(), &theme, rules.clone(), None).unwrap();
    assert!(redacted.contains("[hidden]") && !redacted.contains("token-123"));
    let raw = export_svg(cap.clone(), &theme, rules.clone(), Some(true)).unwrap();
    assert!(raw.contains("token-123"));
    let explicit = export_svg(cap, &theme, rules, Some(false)).unwrap();
    assert_eq!(explicit, redacted);
}

#[test]
fn trimming_drops_trailing_empty_lines() {
    let cap = Capture {
        cols: 80,
        rows: 4,
        command_line: "ls".into(),
        lines: vec![Line::from_runs(vec![run("abc")]), Line::empty(), Line::from_runs(vec![run("de")]), Line::empty()],
    };
    let t = cap.trimmed();
    assert_eq!(t.lines.len(), 3);
    assert_eq!(t.rows, 3);
    assert_eq!(t.cols, 4);
    // Trimming twice changes nothing more.
    let again = t.clone().trimmed();
    assert_eq!(again, t);
}

#[test]
fn trimming_keeps_narrower_cols() {
    let cap = Capture {
        cols: 3,
        rows: 1,
        command_line: "a long command".into(),
        lines: vec![],
    };
    let t = cap.trimmed();
    assert_eq!(t.cols, 3);
    assert_eq!(t.rows, 0);
}

#[test]
fn try_trimmed_refuses_column_overflow() {
    let cap = Capture {
        cols: 80,
        rows: 1,
        command_line: "x".into(),
        lines: vec![Line::from_runs(vec![run(&"x".repeat(65535))])],
    };
    assert!(cap.try_trimmed().is_none());
    let ok = Capture {
        cols: 80,
        rows: 1,
        command_line: "x".into(),
        lines: vec![Line::from_runs(vec![run(&"x".repeat(65534))])],
    };
    assert_eq!(ok.try_trimmed().unwrap().cols, 80);
}

#[test]
fn screen_runs_are_merged() {
    let mut s = VtScreen::new(4, 40);
    s.process(b"\x1b[1ma\x1b[0mb\x1b[1mc\x1b[1md\x1b[0m\n");
    let cap = from_vt100(&s, "x".into());
    let runs = &cap.lines[0].runs;
    assert_eq!(runs.iter().map(|r| r.text.as_str()).collect::<Vec<_>>(), vec!["a", "b", "cd"]);
    for w in runs.windows(2) {
        assert!(w[0].bold != w[1].bold || w[0].fg != w[1].fg || w[0].bg != w[1].bg);
    }
    assert_eq!(cap.rows, 4);
    assert_eq!(cap.cols, 40);
    assert_eq!(cap.lines.len(), 4);
}

#[test]
fn screen_chunks_equal_whole() {
    let mut a = VtScreen::new(3, 20);
    a.process(b"\x1b[31mre");
    a.process(b"d\x1b[0m ok\n");
    let mut b = VtScreen::new(3, 20);
    b.process(b"\x1b[31mred\x1b[0m ok\n");
    assert_eq!(from_vt100(&a, "c".into()), from_vt100(&b, "c".into()));
    assert_eq!(a.size(), (3, 20));
}

#[test]
fn wide_chars_keep_one_cell() {
    let mut s = VtScreen::new(2, 20);
    s.process("你好x\n".as_bytes());
    let cap = from_vt100(&s, "c".into());
    assert_eq!(cap.lines[0].runs.len(), 1);
    assert_eq!(cap.lines[0].runs[0].text, "你好x");
    assert_eq!(str_width("你好x"), 5);
}

#[test]
fn finish_capture_reads_the_output() {
    let out = finish_capture(b"hello\n", "echo hello", 24, 80, Some(0), ReadState::new());
    assert_eq!(out.capture.lines[0].runs[0].text, "hello");
    assert_eq!(out.capture.command_line, "echo hello");
    assert_eq!(out.exit_code, Some(0));
    assert!(!out.truncated && !out.timed_out);
}

#[test]
fn read_loop_caps_the_buffer() {
    let s = ReadState::new();
    let (s, a) = s.step(ReadEvent::Data(MAX_BUFFER - 10));
    assert_eq!(a, ReadAction::Continue { keep: MAX_BUFFER - 10 });
    let (s, a) = s.step(ReadEvent::Data(8192));
    assert_eq!(a, ReadAction::Finish { keep: 10, kill: true });
    assert!(s.truncated);
    assert_eq!(s.buffered, MAX_BUFFER);
}

#[test]
fn read_loop_events() {
    let s = ReadState::new();
    let (s1, a) = s.step(ReadEvent::StopRequested);
    assert_eq!(a, ReadAction::Finish { keep: 0, kill: true });
    assert!(!s1.timed_out);
    assert!(s1.stopped);
    let (s2, a) = s.step(ReadEvent::DeadlinePassed);
    assert_eq!(a, ReadAction::Finish { keep: 0, kill: true });
    assert!(s2.timed_out);
    let (_, a) = s.step(ReadEvent::Data(0));
    assert_eq!(a, ReadAction::Finish { keep: 0, kill: false });
    let (_, a) = s.step(ReadEvent::Interrupted);
    assert_eq!(a, ReadAction::Continue { keep: 0 });
    let (_, a) = s.step(ReadEvent::Failed("boom".into()));
    assert_eq!(a, ReadAction::Fail("boom".into()));
}

#[test]
fn tilde_expansion() {
    assert_eq!(expand_tilde("~".into(), "/home/u".into()), "/home/u");
    assert_eq!(expand_tilde("~/src".into(), "/home/u".into()), "/home/u/src");
    assert_eq!(expand_tilde("~other".into(), "/home/u".into()), "~other");
    assert_eq!(expand_tilde("/tmp".into(), "/home/u".into()), "/tmp");
    assert_eq!(expand_tilde("~/src".into(), "".into()), "~/src");
    assert_eq!(normalize_cwd(Some("".into()), "/home/u".into()), None);
    assert_eq!(normalize_cwd(None, "/home/u".into()), None);
    assert_eq!(normalize_cwd(Some("~/a".into()), "/home/u".into()), Some("/home/u/a".into()));
}

#[test]
fn pty_size_edges() {
    assert_eq!(pty_cols(Some(0), 0), 20);
    assert_eq!(pty_cols(Some(10), 0), 240);
    assert_eq!(pty_cols(Some(84), 14), 20);
    assert_eq!(pty_rows(39), 492);
    assert_eq!(pty_rows(38), 500);
    assert_eq!(pty_size(Some(600), 14), (71, 270));
    assert_eq!(pty_size(None, 14), (240, 80));
}

#[test]
fn layout_exact_height() {
    let cap = capture(vec![Line::from_runs(vec![run("src")]), Line::empty()]);
    let theme = Theme::default();
    let l = layout(&cap, &theme);
    // 24*2 padding + 44 chrome + 3 lines * 16.8 + 32 frame = 174.4 px.
    assert_eq!(l.height_centi, 17440);
    assert_eq!(l.width_centi, 42000);
}

#[test]
fn layout_auto_width_fits_long_line() {
    let cap = capture(vec![Line::from_runs(vec![run(&"x".repeat(100))])]);
    let theme = Theme::default();
    // 24 + 100 * 14 * 0.6 + 24 + 32 = 920 px.
    assert_eq!(layout(&cap, &theme).width_centi, 92000);
}

#[test]
fn svg_header_and_scale() {
    let cap = capture(vec![Line::from_runs(vec![run("src")]), Line::empty()]);
    let theme = Theme::default();
    let p = Palette::default();
    let svg1 = render_svg(&cap, &theme, &p, 1);
    assert!(svg1.starts_with(
        "<svg xmlns=\"http://www.w3.org/2000/svg\" width=\"420\" height=\"174.4\" viewBox=\"0 0 420 174.4\">"
    ));
    assert!(svg1.ends_with("</g></svg>"));
    let svg2 = render_svg(&cap, &theme, &p, 2);
    assert!(svg2.starts_with(
        "<svg xmlns=\"http://www.w3.org/2000/svg\" width=\"840\" height=\"348.8\" viewBox=\"0 0 840 348.8\">"
    ));
}

#[test]
fn svg_run_colors_and_underline() {
    let mut r = run("hi");
    r.fg = Some(Color::Rgb(255, 0, 16));
    r.bg = Some(Color::DefaultInverted);
    r.underline = true;
    let cap = capture(vec![Line::from_runs(vec![r])]);
    let theme = Theme::default();
    let svg = render_svg(&cap, &theme, &Palette::default(), 1);
    assert!(svg.contains("fill=\"#ff0010\""));
    assert!(svg.contains("<rect x=\"40\" y=\"") && svg.contains("fill=\"#1e1e2e\"/>"));
    assert!(svg.contains("<line x1=\"40\""));
    assert!(svg.contains("stroke=\"#ff0010\" stroke-width=\"0.84\"/>"));
}

#[test]
fn svg_without_chrome_or_shadow() {
    let cap = capture(vec![]);
    let mut theme = Theme::default();
    theme.show_traffic_lights = false;
    theme.show_shadow = false;
    let svg = render_svg(&cap, &theme, &Palette::default(), 1);
    assert!(!svg.contains("<circle"));
    assert!(!svg.contains("feGaussianBlur"));
}

#[test]
fn oversized_card_is_refused() {
    let cap = capture(vec![Line::from_runs(vec![run("ab")])]);
    let mut theme = Theme::default();
    theme.font_size = 4_000_000_000;
    assert!(!fits_at_scale(&cap, &theme, 4_000_000_000));
    assert!(try_render_svg(&cap, &theme, &Palette::default(), 4_000_000_000).is_none());
    assert!(try_render_svg(&cap, &Theme::default(), &Palette::default(), 1).is_some());
}

#[test]
fn font_css_embeds_faces() {
    let fonts = Fonts {
        regular: vec![0, 1, 2],
        bold: vec![],
        italic: b"hi".to_vec(),
        bold_italic: vec![255],
    };
    let css = font_css(&fonts);
    assert_eq!(
        css,
        "@font-face { font-family: 'JetBrains Mono'; font-weight: normal; font-style: normal; src: url(data:font/ttf;base64,AAEC) format('truetype'); } \
@font-face { font-family: 'JetBrains Mono'; font-weight: bold; font-style: normal; src: url(data:font/ttf;base64,) format('truetype'); } \
@font-face { font-family: 'JetBrains Mono'; font-weight: normal; font-style: italic; src: url(data:font/ttf;base64,aGk=) format('truetype'); } \
@font-face { font-family: 'JetBrains Mono'; font-weight: bold; font-style: italic; src: url(data:font/ttf;base64,/w==) format('truetype'); }"
    );
}

#[test]
fn png_payload_round_trip() {
    let png = vec![137u8, 80, 78, 71, 0, 255];
    let b64 = png_payload(&png);
    assert_eq!(b64, "iVBORwD/");
    assert_eq!(decode_png_payload(&b64).unwrap(), png);
    let err = decode_png_payload("not base64!").unwrap_err();
    assert!(err.starts_with("invalid base64: "));
}

#[test]
fn decimal_notation() {
    assert_eq!(decimal(0), "0");
    assert_eq!(decimal(1680), "1680");
    assert_eq!(decimal(u128::MAX), u128::MAX.to_string());
}

#[test]
fn one_capture_at_a_time() {
    let mut running = false;
    let mut stop = true;
    assert!(claim_capture_slot(&mut running, &mut stop).is_ok());
    assert!(running);
    assert!(!stop);
    stop = true;
    assert_eq!(claim_capture_slot(&mut running, &mut stop).unwrap_err(), "A capture is already in progress");
    assert!(running);
    assert!(stop);
    release_capture_slot(&mut running);
    assert!(!running);
    assert!(claim_capture_slot(&mut running, &mut stop).is_ok());
}

#[test]
fn pty_columns_fill_the_card() {
    for (w, f) in [(600u32, 14u32), (1000, 14), (333, 9), (800, 20)] {
        let cols = pty_cols(Some(w), f) as u64;
        assert!(cols > 20 && cols < 240);
        assert!(3 * f as u64 * cols <= 5 * w as u64);
        assert!(5 * (w as u64) < 3 * f as u64 * (cols + 1));
    }
}

#[test]
fn killed_run_has_no_exit_code() {
    let (stopped, _) = ReadState::new().step(ReadEvent::StopRequested);
    let out = finish_capture(b"partial", "sleep 60", 24, 80, Some(1), stopped);
    assert_eq!(out.exit_code, None);
    assert!(!out.timed_out);
    let (late, _) = ReadState::new().step(ReadEvent::DeadlinePassed);
    let out = finish_capture(b"", "sleep 200", 24, 80, Some(1), late);
    assert_eq!(out.exit_code, None);
    assert!(out.timed_out);
    let out = finish_capture(b"", "exit 3", 24, 80, Some(3), ReadState::new());
    assert_eq!(out.exit_code, Some(3));
}

#[test]
fn clean_run_keeps_every_byte() {
    let s = ReadState::new();
    let (s, a) = s.step(ReadEvent::Data(100));
    assert_eq!(a, ReadAction::Continue { keep: 100 });
    let (s, a) = s.step(ReadEvent::Data(50));
    assert_eq!(a, ReadAction::Continue { keep: 50 });
    let (s, a) = s.step(ReadEvent::Data(0));
    assert_eq!(a, ReadAction::Finish { keep: 0, kill: false });
    assert_eq!(s.buffered, 150);
    assert!(!s.truncated && !s.timed_out && !s.stopped);
}

#[test]
fn png_scale_check() {
    assert!(check_png_scale(2).is_ok());
    assert!(check_png_scale(4).is_ok());
    assert_eq!(check_png_scale(5).unwrap_err(), "invalid scale: 5");
    assert_eq!(check_png_scale(0).unwrap_err(), "invalid scale: 0");
}

#[test]
fn standard_base64_payload() {
    assert_eq!(png_payload(b"Man"), "TWFu");
    assert_eq!(png_payload(b"Ma"), "TWE=");
    assert_eq!(png_payload(b"M"), "TQ==");
    assert_eq!(png_payload(b""), "");
    assert_eq!(png_payload(&[0xfb, 0xff, 0xbf]), "+/+/");
}

#[test]
fn regex_escape_marks_meta_characters() {
    assert_eq!(escape_regex("\\.+*?()|[]{}^$#&-~"), "\\\\\\.\\+\\*\\?\\(\\)\\|\\[\\]\\{\\}\\^\\$\\#\\&\\-\\~");
    assert_eq!(escape_regex("a/b %\"e"), "a/b %\"e");
}

fn markup(s: &str) -> String {
    s.chars().filter(|c| *c == '<' || *c == '>' || *c == '"').collect()
}

#[test]
fn markup_ignores_string_contents() {
    let mut plain = capture(vec![Line::from_runs(vec![run("hello"), run("world")])]);
    plain.command_line = "ls".into();
    let mut hostile = capture(vec![Line::from_runs(vec![run("<b>&\"x\"</b>"), run("'>\"<")])]);
    hostile.command_line = "echo \"<svg>\"".into();
    let theme = Theme::default();
    let mut odd = Theme::default();
    odd.title = "\"><script>".into();
    odd.background = "#000\" onload=\"x".into();
    odd.prompt_symbol = "<$>".into();
    let a = render_svg(&plain, &theme, &Palette::default(), 1);
    let b = render_svg(&hostile, &odd, &Palette::default(), 3);
    assert_eq!(markup(&a), markup(&b));
    assert!(!a.contains("<style") && !b.contains("<style"));
}

#[test]
fn runs_follow_each_other() {
    let cap = capture(vec![
        Line::from_runs(vec![run("ab"), run("你")]),
        Line::from_runs(vec![run("c")]),
    ]);
    let svg = render_svg(&cap, &Theme::default(), &Palette::default(), 1);
    let title = svg.find(">user@localhost: ~<").unwrap();
    let prompt = svg.find(">❯ ls<").unwrap();
    let ab = svg.find(">ab<").unwrap();
    let ni = svg.find(">你<").unwrap();
    let c = svg.find(">c<").unwrap();
    assert!(title < prompt && prompt < ab && ab < ni && ni < c);
    // Inset 8 + 8 (shadow) + 24 padding = 40 px; "ab" is 2 columns of 8.4 px.
    assert!(svg.contains("x=\"40\" y=\"90.24\""));
    assert!(svg.contains("x=\"56.8\" y=\"90.24\""));
    assert!(svg.contains("x=\"40\" y=\"107.04\""));
}

#[test]
fn overflowing_read_keeps_exactly_the_cap() {
    let (s, a) = ReadState::new().step(ReadEvent::Data(4096));
    assert_eq!(a, ReadAction::Continue { keep: 4096 });
    let (s, a) = s.step(ReadEvent::Data(MAX_BUFFER));
    assert_eq!(a, ReadAction::Finish { keep: MAX_BUFFER - 4096, kill: true });
    assert!(s.truncated);
    assert_eq!(s.buffered, MAX_BUFFER);
}
