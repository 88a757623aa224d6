//! Card geometry and the SVG renderer.
//!
//! Geometry is computed exactly, in hundredths of a pixel: the font's advance
//! width is 0.6 of the font size and its line height 1.2 of it, so every
//! coordinate of the card is a whole number of hundredths. Numbers are
//! written in plain decimal notation (`centi_text`).
use vstd::prelude::*;
use crate::ir::{
    display_width, line_width, line_width_prefix, str_width, widest, widest_bounds_lines, widest_of, Capture,
    CaptureView, Color, Line, Run, RunView,
};
use crate::text::{centi_text, chars_of, push_centi, push_char};
use crate::theme::{palette_color, push_rgb, rgb_text, Palette, PaletteView, Theme, ThemeView};

verus! {

/// PTY columns matching the card's text area: the card width divided by the
/// character advance (`0.6 × font_size`), taken exactly, truncated and clamped
/// to 20..=240; 240 when the width is automatic. A zero font size gives 240
/// (20 when the width is zero too).
pub open spec fn pty_cols_spec(card_width: Option<u32>, font_size: u32) -> u16 {
    match card_width {
        None => 240,
        Some(w) => {
            if font_size == 0 {
                if w == 0 { 20 } else { 240 }
            } else {
                let q = (5 * w) / (3 * font_size as int);
                if q < 20 { 20 } else if q > 240 { 240 } else { q as u16 }
            }
        }
    }
}

/// PTY column count matching the card's text area, so the terminal itself
/// wraps the output at the width the card will show. `None` (auto width)
/// keeps the 240-column ceiling.
pub fn pty_cols(card_width: Option<u32>, font_size: u32) -> (cols: u16)
    ensures
        cols == pty_cols_spec(card_width, font_size),
        20 <= cols <= 240,
        // Within the clamps, the columns at 0.6 font size per column fill the
        // card width without exceeding it.
        card_width is Some && font_size > 0 && 20 < cols < 240 ==> 3 * font_size * cols <= 5
            * card_width->Some_0 < 3 * font_size * (cols + 1),
{
    match card_width {
        None => 240,
        Some(w) => {
            if font_size == 0 {
                if w == 0 { 20 } else { 240 }
            } else {
                let q = (5 * w as u64) / (3 * font_size as u64);
                proof {
                    let d = 3 * font_size as int;
                    let n = 5 * w as int;
                    assert(d * (n / d) <= n < d * (n / d + 1)) by (nonlinear_arith) requires d > 0, n >= 0;
                    assert(d * (n / d) == 3 * font_size * (n / d)) by (nonlinear_arith) requires d == 3 * font_size;
                    assert(d * (n / d + 1) == 3 * font_size * (n / d + 1)) by (nonlinear_arith) requires d == 3 * font_size;
                }
                if q < 20 { 20 } else if q > 240 { 240 } else { q as u16 }
            }
        }
    }
}

/// PTY rows keeping the cell budget of the default 240×80 grid, clamped to
/// 80..=500.
pub open spec fn pty_rows_spec(cols: u16) -> u16 {
    let q = 19200int / (cols as int);
    if q < 80 { 80 } else if q > 500 { 500 } else { q as u16 }
}

/// PTY rows keeping the cell budget of the default 240×80 grid: a narrower
/// PTY wraps the same output into more lines and the grid has no scrollback.
pub fn pty_rows(cols: u16) -> (rows: u16)
    requires
        cols > 0,
    ensures
        rows == pty_rows_spec(cols),
        80 <= rows <= 500,
        // Within the unclamped range the grid holds at most the default
        // budget of cells and wastes less than one row of it.
        39 <= cols <= 240 ==> rows * cols <= 19200 < (rows + 1) * cols,
{
    let q = 19200u32 / (cols as u32);
    let rows: u16 = if q < 80 { 80 } else if q > 500 { 500 } else { q as u16 };
    proof {
        if 39 <= cols <= 240 {
            let c = cols as int;
            assert(19200int / c <= 500) by (nonlinear_arith) requires 39 <= c;
            assert(19200int / c >= 80) by (nonlinear_arith) requires 0 < c <= 240;
            assert((19200int / c) * c <= 19200 < (19200int / c + 1) * c) by (nonlinear_arith) requires c > 0;
        }
    }
    rows
}

/// Name of the font family the card is set in.
pub fn font_family() -> (s: &'static str)
    ensures
        s@ == "JetBrains Mono"@,
{
    "JetBrains Mono"
}

/// XML escape of one character.
pub open spec fn escape_char(c: char) -> Seq<char> {
    if c == '&' {
        "&amp;"@
    } else if c == '<' {
        "&lt;"@
    } else if c == '>' {
        "&gt;"@
    } else if c == '"' {
        "&quot;"@
    } else if c == '\'' {
        "&apos;"@
    } else {
        seq![c]
    }
}

/// XML escape of a text or quoted attribute value: `&`, `<`, `>`, `"` and
/// `'` become entities, everything else is kept.
pub open spec fn escape_text(s: Seq<char>) -> Seq<char>
    decreases s.len(),
{
    if s.len() == 0 {
        Seq::<char>::empty()
    } else {
        escape_text(s.drop_last()) + escape_char(s.last())
    }
}

/// Appends the XML escape of a string.
pub fn push_escaped(out: &mut String, s: &str)
    ensures
        final(out)@ == old(out)@ + escape_text(s@),
{
    let ghost start = out@;
    let cs = chars_of(s);
    let mut i: usize = 0;
    while i < cs.len()
        invariant
            i <= cs@.len(),
            cs@ == s@,
            out@ == start + escape_text(s@.take(i as int)),
        decreases cs@.len() - i,
    {
        let c = cs[i];
        if c == '&' {
            out.append("&amp;");
        } else if c == '<' {
            out.append("&lt;");
        } else if c == '>' {
            out.append("&gt;");
        } else if c == '"' {
            out.append("&quot;");
        } else if c == '\'' {
            out.append("&apos;");
        } else {
            push_char(out, c);
        }
        proof {
            assert(s@.take(i + 1).drop_last() =~= s@.take(i as int));
            assert(out@ =~= start + escape_text(s@.take(i + 1)));
        }
        i = i + 1;
    }
    assert(s@.take(cs@.len() as int) =~= s@);
}

/// Escapes text and quoted-attribute values (`"`/`'` included, so a theme
/// string can never break out of `fill="..."`).
pub fn escape_xml(s: &str) -> (r: String)
    ensures
        r@ == escape_text(s@),
{
    let mut r = String::new();
    push_escaped(&mut r, s);
    assert(r@ =~= escape_text(s@));
    r
}

proof fn escape_char_is_quote_free(c: char)
    ensures
        forall|i: int|
            0 <= i < escape_char(c).len() ==> {
                let e = #[trigger] escape_char(c)[i];
                e != '"' && e != '\'' && e != '<' && e != '>'
            },
{
    reveal_strlit("&amp;");
    reveal_strlit("&lt;");
    reveal_strlit("&gt;");
    reveal_strlit("&quot;");
    reveal_strlit("&apos;");
}

/// The escape of any text holds no quote, apostrophe or angle bracket, so it
/// can neither close a quoted attribute nor open or close an element.
pub proof fn escape_is_markup_free(s: Seq<char>)
    ensures
        forall|i: int|
            0 <= i < escape_text(s).len() ==> {
                let e = #[trigger] escape_text(s)[i];
                e != '"' && e != '\'' && e != '<' && e != '>'
            },
    decreases s.len(),
{
    if s.len() > 0 {
        escape_is_markup_free(s.drop_last());
        escape_char_is_quote_free(s.last());
        let a = escape_text(s.drop_last());
        let b = escape_char(s.last());
        assert forall|i: int| 0 <= i < escape_text(s).len() implies {
            let e = #[trigger] escape_text(s)[i];
            e != '"' && e != '\'' && e != '<' && e != '>'
        } by {
            if i < a.len() {
                assert(escape_text(s)[i] == a[i]);
            } else {
                assert(escape_text(s)[i] == b[i - a.len()]);
            }
        }
    }
}

/// XML unescape: the five entities `escape_char` writes become their
/// characters again, read left to right; every other character is kept.
pub open spec fn unescape_text(s: Seq<char>) -> Seq<char>
    decreases s.len(),
{
    if s.len() == 0 {
        Seq::<char>::empty()
    } else if s.len() >= 5 && s.take(5) == "&amp;"@ {
        seq!['&'] + unescape_text(s.skip(5))
    } else if s.len() >= 4 && s.take(4) == "&lt;"@ {
        seq!['<'] + unescape_text(s.skip(4))
    } else if s.len() >= 4 && s.take(4) == "&gt;"@ {
        seq!['>'] + unescape_text(s.skip(4))
    } else if s.len() >= 6 && s.take(6) == "&quot;"@ {
        seq!['"'] + unescape_text(s.skip(6))
    } else if s.len() >= 6 && s.take(6) == "&apos;"@ {
        seq!['\''] + unescape_text(s.skip(6))
    } else {
        seq![s[0]] + unescape_text(s.skip(1))
    }
}

proof fn escape_text_front(s: Seq<char>)
    requires
        s.len() > 0,
    ensures
        escape_text(s) == escape_char(s[0]) + escape_text(s.skip(1)),
    decreases s.len(),
{
    if s.len() == 1 {
        assert(s.drop_last() =~= Seq::<char>::empty());
        assert(s.skip(1) =~= Seq::<char>::empty());
        assert(escape_text(s) =~= escape_char(s[0]) + escape_text(s.skip(1)));
    } else {
        escape_text_front(s.drop_last());
        assert(s.skip(1).drop_last() =~= s.drop_last().skip(1));
        assert(s.skip(1).last() == s.last());
        assert(escape_text(s) =~= escape_char(s[0]) + escape_text(s.skip(1)));
    }
}

proof fn unescape_entity(c: char, rest: Seq<char>)
    ensures
        unescape_text(escape_char(c) + rest) == seq![c] + unescape_text(rest),
{
    reveal_strlit("&amp;");
    reveal_strlit("&lt;");
    reveal_strlit("&gt;");
    reveal_strlit("&quot;");
    reveal_strlit("&apos;");
    let x = escape_char(c) + rest;
    let e = escape_char(c);
    let k = e.len() as int;
    assert(x.take(k) =~= e);
    assert(x.skip(k) =~= rest);
    assert(x[0] == e[0]);
    if c == '&' {
    } else if c == '<' {
        assert(x.len() >= 5 ==> x.take(5)[1] != "&amp;"@[1]);
    } else if c == '>' {
        assert(x.len() >= 5 ==> x.take(5)[1] != "&amp;"@[1]);
        assert(x.take(4)[1] != "&lt;"@[1]);
    } else if c == '"' {
        assert(x.len() >= 5 ==> x.take(5)[1] != "&amp;"@[1]);
        assert(x.take(4)[1] != "&lt;"@[1]);
        assert(x.take(4)[1] != "&gt;"@[1]);
    } else if c == '\'' {
        assert(x.len() >= 5 ==> x.take(5)[2] != "&amp;"@[2]);
        assert(x.take(4)[1] != "&lt;"@[1]);
        assert(x.take(4)[1] != "&gt;"@[1]);
        assert(x.take(6)[1] != "&quot;"@[1]);
    } else {
        assert(x.len() >= 5 ==> x.take(5)[0] != "&amp;"@[0]);
        assert(x.len() >= 4 ==> x.take(4)[0] != "&lt;"@[0]);
        assert(x.len() >= 4 ==> x.take(4)[0] != "&gt;"@[0]);
        assert(x.len() >= 6 ==> x.take(6)[0] != "&quot;"@[0]);
        assert(x.len() >= 6 ==> x.take(6)[0] != "&apos;"@[0]);
    }
}

/// Escaping loses nothing: unescaping the escape of a text gives the text
/// back, so each character is escaped exactly once.
pub proof fn unescape_escape(s: Seq<char>)
    ensures
        unescape_text(escape_text(s)) == s,
    decreases s.len(),
{
    if s.len() > 0 {
        escape_text_front(s);
        unescape_entity(s[0], escape_text(s.skip(1)));
        unescape_escape(s.skip(1));
        assert(seq![s[0]] + s.skip(1) =~= s);
    }
}

/// Width of the prompt line: the prompt symbol, a space and the command.
pub open spec fn prompt_width(c: CaptureView, t: ThemeView) -> nat {
    (display_width(t.prompt_symbol) + 1 + display_width(c.command_line)) as nat
}

/// Widest line of the card, prompt line included.
pub open spec fn content_width(c: CaptureView, t: ThemeView) -> nat {
    widest(c.lines, prompt_width(c, t))
}

/// Horizontal frame around the window on each axis, in hundredths: the outer
/// margin on both sides plus the 8 px shadow gap on both sides when the shadow
/// is shown.
pub open spec fn frame_centi(t: ThemeView) -> int {
    200 * t.outer_margin + if t.show_shadow { 1600int } else { 0int }
}

/// Height of the window chrome (title bar) in px.
pub open spec fn chrome_px(t: ThemeView) -> int {
    if t.show_traffic_lights { 44 } else { 16 }
}

/// Card width in hundredths of a px: the manual width, or the widest line at
/// `0.6 × font_size` per column, plus padding and frame, at least 420 px.
pub open spec fn layout_width(c: CaptureView, t: ThemeView) -> int {
    let inner = match t.card_width {
        Some(w) => 100 * w,
        None => 60 * (content_width(c, t) * t.font_size),
    };
    let total = 200 * t.padding + inner + frame_centi(t);
    if total > 42000 { total } else { 42000 }
}

/// Card height in hundredths of a px: the prompt line and the output lines at
/// `1.2 × font_size` each, plus chrome, padding and frame, at least 160 px.
pub open spec fn layout_height(c: CaptureView, t: ThemeView) -> int {
    let total = 200 * t.padding + 100 * chrome_px(t) + 120 * ((c.lines.len() + 1) * t.font_size)
        + frame_centi(t);
    if total > 16000 { total } else { 16000 }
}

/// The limit under which the card's coordinates are computed exactly.
pub open spec fn coord_limit() -> int {
    0x1_0000_0000_0000_0000
}

/// The text and the line count of the card, times the font size and the
/// scale, stay under `coord_limit`.
pub open spec fn fits_scaled(c: CaptureView, t: ThemeView, scale: nat) -> bool {
    &&& content_width(c, t) * t.font_size <= coord_limit()
    &&& content_width(c, t) * t.font_size * scale <= coord_limit()
    &&& (c.lines.len() + 1) * t.font_size <= coord_limit()
    &&& (c.lines.len() + 1) * t.font_size * scale <= coord_limit()
}

/// The card is never narrower than 420 px nor shorter than 160 px.
pub proof fn card_minimum_size(c: CaptureView, t: ThemeView)
    ensures
        layout_width(c, t) >= 42000,
        layout_height(c, t) >= 16000,
{
}

/// With a manual card width, the card's width does not depend on the
/// content: longer lines overflow instead of growing the card.
pub proof fn manual_width_ignores_content(c1: CaptureView, c2: CaptureView, t: ThemeView)
    requires
        t.card_width is Some,
    ensures
        layout_width(c1, t) == layout_width(c2, t),
{
}

/// With an automatic width, the card holds its widest line (prompt line
/// included) at 0.6 font size per column, inside padding and frame.
pub proof fn auto_width_fits_content(c: CaptureView, t: ThemeView)
    requires
        t.card_width is None,
    ensures
        layout_width(c, t) >= 200 * t.padding + 60 * (content_width(c, t) * t.font_size) + frame_centi(t),
{
}

proof fn widest_at_least_floor(lines: Seq<Seq<RunView>>, floor: nat)
    ensures
        widest(lines, floor) >= floor,
    decreases lines.len(),
{
    if lines.len() > 0 {
        widest_at_least_floor(lines.drop_last(), floor);
    }
}

/// With an automatic width, the card holds the prompt line (the prompt
/// symbol, a space and the whole command line) and every output line, each
/// at 0.6 font size per display column, inside padding and frame.
pub proof fn auto_width_holds_prompt_and_lines(c: CaptureView, t: ThemeView)
    requires
        t.card_width is None,
    ensures
        layout_width(c, t) >= 200 * t.padding + 60 * ((display_width(t.prompt_symbol) + 1 + display_width(
            c.command_line,
        )) * t.font_size) + frame_centi(t),
        forall|k: int|
            0 <= k < c.lines.len() ==> layout_width(c, t) >= 200 * t.padding + 60 * (line_width(#[trigger] c.lines[k])
                * t.font_size) + frame_centi(t),
{
    let f = t.font_size as int;
    let pw = display_width(t.prompt_symbol) + 1 + display_width(c.command_line);
    let cw = content_width(c, t) as int;
    widest_at_least_floor(c.lines, prompt_width(c, t));
    assert(pw <= cw);
    assert(pw * f <= cw * f) by (nonlinear_arith) requires pw <= cw, f >= 0;
    assert forall|k: int| 0 <= k < c.lines.len() implies layout_width(c, t) >= 200 * t.padding + 60 * (line_width(
        #[trigger] c.lines[k],
    ) * t.font_size) + frame_centi(t) by {
        widest_bounds_lines(c.lines, prompt_width(c, t), k);
        let lw = line_width(c.lines[k]) as int;
        assert(lw * f <= cw * f) by (nonlinear_arith) requires lw <= cw, f >= 0;
    }
}

/// The card holds every line: its height covers the prompt line and all
/// output lines at 1.2 font size, with chrome, padding and frame, so nothing
/// is clipped at the bottom edge.
pub proof fn card_holds_all_lines(c: CaptureView, t: ThemeView)
    ensures
        layout_height(c, t) >= 200 * t.padding + 100 * chrome_px(t) + 120 * ((c.lines.len() + 1) * t.font_size)
            + frame_centi(t),
        layout_width(c, t) >= frame_centi(t),
        layout_height(c, t) >= frame_centi(t),
{
}

/// Logical dimensions of the card, in hundredths of a px.
pub struct Layout {
    pub width_centi: u128,
    pub height_centi: u128,
}

/// Widest line of the card, prompt line included.
pub fn content_width_of(capture: &Capture, theme: &Theme) -> (w: u128)
    ensures
        w == content_width(capture@, theme@),
{
    let p = str_width(theme.prompt_symbol.as_str()) as u128 + 1 + str_width(capture.command_line.as_str()) as u128;
    widest_of(&capture.lines, p)
}

/// Logical dimensions of the card.
pub fn layout(capture: &Capture, theme: &Theme) -> (l: Layout)
    requires
        fits_scaled(capture@, theme@, 1),
    ensures
        l.width_centi == layout_width(capture@, theme@),
        l.height_centi == layout_height(capture@, theme@),
{
    let pad = 100 * theme.padding as u128;
    let frame = 200 * theme.outer_margin as u128 + if theme.show_shadow { 1600 } else { 0 };
    let chrome: u128 = if theme.show_traffic_lights { 44 } else { 16 };
    let inner = match theme.card_width {
        Some(w) => 100 * w as u128,
        None => {
            let widest = content_width_of(capture, theme);
            proof {
                assert(widest * theme.font_size <= coord_limit());
            }
            60 * (widest * theme.font_size as u128)
        }
    };
    let width_total = 2 * pad + inner + frame;
    let visible = capture.lines.len() as u128 + 1;
    proof {
        assert(visible * theme.font_size <= coord_limit());
    }
    let line_total = 120 * (visible * theme.font_size as u128);
    let height_total = 2 * pad + 100 * chrome + line_total + frame;
    proof {
        assert(capture@.lines.len() == capture.lines@.len());
    }
    Layout {
        width_centi: if width_total > 42000 { width_total } else { 42000 },
        height_centi: if height_total > 16000 { height_total } else { 16000 },
    }
}


/// CSS color of a run color: palette entry, `#rrggbb`, the given default
/// foreground, or the window background for inverted default colors.
pub open spec fn color_text(c: Color, t: ThemeView, p: PaletteView, default_fg: Seq<char>) -> Seq<char> {
    match c {
        Color::Indexed(i) => palette_color(p, i),
        Color::Rgb(r, g, b) => rgb_text(r, g, b),
        Color::Default => default_fg,
        Color::DefaultInverted => t.background,
    }
}

/// CSS color of a run color.
pub fn resolve_color(color: &Color, theme: &Theme, palette: &Palette, default_fg: &str) -> (s: String)
    ensures
        s@ == color_text(*color, theme@, palette@, default_fg@),
{
    match color {
        Color::Indexed(i) => palette.resolve(*i),
        Color::Rgb(r, g, b) => {
            let mut out = String::new();
            push_rgb(&mut out, *r, *g, *b);
            assert(out@ =~= rgb_text(*r, *g, *b));
            out
        },
        Color::Default => String::from_str(default_fg),
        Color::DefaultInverted => theme.background.clone(),
    }
}

/// Decimal notation of a coordinate counted in hundredths.
pub open spec fn num(v: int) -> Seq<char> {
    centi_text(v as nat)
}

/// Opening of a `<text>` element up to its font size.
#[verifier::opaque]
pub open spec fn text_open(x: int, y: int, bold: bool, italic: bool, px: int) -> Seq<char> {
    "<text xml:space=\"preserve\" x=\""@ + num(x) + "\" y=\""@ + num(y)
        + "\" font-family=\"JetBrains Mono\" font-weight=\""@
        + (if bold { "bold"@ } else { "normal"@ }) + "\" font-style=\""@
        + (if italic { "italic"@ } else { "normal"@ }) + "\" font-size=\""@ + num(px)
}

/// Rest of a `<text>` element: fill, anchor and content.
#[verifier::opaque]
pub open spec fn text_close(content: Seq<char>, fill: Seq<char>, anchor: Seq<char>) -> Seq<char> {
    "\" fill=\""@ + escape_text(fill) + "\" text-anchor=\""@ + anchor + "\">"@ + content + "</text>"@
}

/// A `<text>` element; `content` is already escaped, `fill` is escaped here.
pub open spec fn text_elem(
    x: int,
    y: int,
    content: Seq<char>,
    fill: Seq<char>,
    px: int,
    bold: bool,
    italic: bool,
    anchor: Seq<char>,
) -> Seq<char> {
    text_open(x, y, bold, italic, px) + text_close(content, fill, anchor)
}

fn push_text_open(out: &mut String, x: u128, y: u128, bold: bool, italic: bool, px: u128)
    ensures
        final(out)@ == old(out)@ + text_open(x as int, y as int, bold, italic, px as int),
{
    reveal(text_open);
    let ghost start = out@;
    out.append("<text xml:space=\"preserve\" x=\"");
    push_centi(out, x);
    out.append("\" y=\"");
    push_centi(out, y);
    out.append("\" font-family=\"JetBrains Mono\" font-weight=\"");
    if bold {
        out.append("bold");
    } else {
        out.append("normal");
    }
    out.append("\" font-style=\"");
    if italic {
        out.append("italic");
    } else {
        out.append("normal");
    }
    out.append("\" font-size=\"");
    push_centi(out, px);
    assert(out@ =~= start + text_open(x as int, y as int, bold, italic, px as int));
}

fn push_text_close(out: &mut String, content: &str, fill: &str, anchor: &str)
    ensures
        final(out)@ == old(out)@ + text_close(content@, fill@, anchor@),
{
    reveal(text_close);
    let ghost start = out@;
    out.append("\" fill=\"");
    push_escaped(out, fill);
    out.append("\" text-anchor=\"");
    out.append(anchor);
    out.append("\">");
    out.append(content);
    out.append("</text>");
    assert(out@ =~= start + text_close(content@, fill@, anchor@));
}

/// Appends a `<text>` element; `content` must already be escaped.
fn push_text_elem(
    out: &mut String,
    x: u128,
    y: u128,
    content: &str,
    fill: &str,
    px: u128,
    bold: bool,
    italic: bool,
    anchor: &str,
)
    ensures
        final(out)@ == old(out)@ + text_elem(x as int, y as int, content@, fill@, px as int, bold, italic, anchor@),
{
    let ghost start = out@;
    push_text_open(out, x, y, bold, italic, px);
    push_text_close(out, content, fill, anchor);
    assert(out@ =~= start + text_elem(x as int, y as int, content@, fill@, px as int, bold, italic, anchor@));
}

/// Geometry of a card at a scale, in hundredths of a px: `u` is the font
/// size times the scale (one font px at that scale), `wi` the inset of the
/// window from the card's edge.
pub struct Geometry {
    pub s: int,
    pub u: int,
    pub w: int,
    pub h: int,
    pub wi: int,
    pub pad: int,
    pub chrome: int,
    pub radius: int,
    pub lh: int,
}

/// Geometry of the card of a capture under a theme at a scale.
pub open spec fn geometry(c: CaptureView, t: ThemeView, s: nat) -> Geometry {
    Geometry {
        s: s as int,
        u: t.font_size * s,
        w: layout_width(c, t) * s,
        h: layout_height(c, t) * s,
        wi: 100 * t.outer_margin * s + if t.show_shadow { 800 * s } else { 0 },
        pad: 100 * t.padding * s,
        chrome: 100 * chrome_px(t) * s,
        radius: 100 * t.corner_radius * s,
        lh: 120 * (t.font_size * s),
    }
}

/// Executable geometry, field for field the spec `Geometry`.
pub struct Geom {
    pub s: u128,
    pub u: u128,
    pub w: u128,
    pub h: u128,
    pub wi: u128,
    pub pad: u128,
    pub chrome: u128,
    pub radius: u128,
    pub lh: u128,
}

impl View for Geom {
    type V = Geometry;

    open spec fn view(&self) -> Geometry {
        Geometry {
            s: self.s as int,
            u: self.u as int,
            w: self.w as int,
            h: self.h as int,
            wi: self.wi as int,
            pad: self.pad as int,
            chrome: self.chrome as int,
            radius: self.radius as int,
            lh: self.lh as int,
        }
    }
}

/// Rendering at a scale multiplies every length of the card by the scale:
/// the card at scale `s` is the card at scale 1, `s` times larger.
pub proof fn geometry_scales(c: CaptureView, t: ThemeView, s: nat)
    ensures
        geometry(c, t, s).w == s * geometry(c, t, 1).w,
        geometry(c, t, s).h == s * geometry(c, t, 1).h,
        geometry(c, t, s).u == s * geometry(c, t, 1).u,
        geometry(c, t, s).wi == s * geometry(c, t, 1).wi,
        geometry(c, t, s).pad == s * geometry(c, t, 1).pad,
        geometry(c, t, s).chrome == s * geometry(c, t, 1).chrome,
        geometry(c, t, s).radius == s * geometry(c, t, 1).radius,
        geometry(c, t, s).lh == s * geometry(c, t, 1).lh,
{
    let w = layout_width(c, t);
    let h = layout_height(c, t);
    let si = s as int;
    assert(w * si == si * w) by (nonlinear_arith);
    assert(h * si == si * h) by (nonlinear_arith);
    assert(t.font_size * si == si * t.font_size) by (nonlinear_arith);
    assert(100 * t.outer_margin * si == si * (100 * t.outer_margin)) by (nonlinear_arith);
    assert(100 * t.outer_margin * si + 800 * si == si * (100 * t.outer_margin + 800)) by (nonlinear_arith);
    assert(100 * t.padding * si == si * (100 * t.padding)) by (nonlinear_arith);
    assert(100 * chrome_px(t) * si == si * (100 * chrome_px(t))) by (nonlinear_arith);
    assert(100 * t.corner_radius * si == si * (100 * t.corner_radius)) by (nonlinear_arith);
    assert(120 * (t.font_size * si) == si * (120 * t.font_size)) by (nonlinear_arith);
}

/// Size bounds every geometry of a theme within `fits_scaled` satisfies.
pub open spec fn geom_bounded(g: Geometry) -> bool {
    &&& g.s < 0x1_0000_0000
    &&& g.u <= 0xFFFF_FFFF_FFFF_FFFF
    &&& g.lh == 120 * g.u
    &&& 2 * g.wi <= g.w
    &&& 2 * g.wi <= g.h
    &&& g.w < 0x1_0000_0000_0000_0000_0000_0000_0000
    &&& g.h < 0x1_0000_0000_0000_0000_0000_0000_0000
    &&& g.wi < 0x1_0000_0000_0000_0000_0000
    &&& g.pad < 0x1_0000_0000_0000_0000_0000
    &&& g.chrome < 0x1_0000_0000_0000_0000_0000
    &&& g.radius < 0x1_0000_0000_0000_0000_0000
}

/// Computes the geometry of the card.
fn compute_geom(capture: &Capture, theme: &Theme, scale: u32) -> (g: Geom)
    requires
        fits_scaled(capture@, theme@, 1),
    ensures
        g@ == geometry(capture@, theme@, scale as nat),
        geom_bounded(g@),
{
    let l = layout(capture, theme);
    let s = scale as u128;
    proof {
        let c = capture@;
        let t = theme@;
        assert(content_width(c, t) * t.font_size <= coord_limit());
        assert((c.lines.len() + 1) * t.font_size <= coord_limit());
        assert(l.width_centi < 0x1_0000_0000_0000_0000_0000);
        assert(l.height_centi < 0x1_0000_0000_0000_0000_0000);
        assert(l.width_centi * s < 0x1_0000_0000_0000_0000_0000_0000_0000) by (nonlinear_arith)
            requires l.width_centi < 0x1_0000_0000_0000_0000_0000, s < 0x1_0000_0000;
        assert(l.height_centi * s < 0x1_0000_0000_0000_0000_0000_0000_0000) by (nonlinear_arith)
            requires l.height_centi < 0x1_0000_0000_0000_0000_0000, s < 0x1_0000_0000;
        assert(theme.outer_margin * s < 0x1_0000_0000_0000_0000) by (nonlinear_arith)
            requires theme.outer_margin < 0x1_0000_0000, s < 0x1_0000_0000;
        assert(theme.padding * s < 0x1_0000_0000_0000_0000) by (nonlinear_arith)
            requires theme.padding < 0x1_0000_0000, s < 0x1_0000_0000;
        assert(theme.corner_radius * s < 0x1_0000_0000_0000_0000) by (nonlinear_arith)
            requires theme.corner_radius < 0x1_0000_0000, s < 0x1_0000_0000;
        assert(theme.font_size * s <= 0xFFFF_FFFF_FFFF_FFFF) by (nonlinear_arith)
            requires theme.font_size < 0x1_0000_0000, s < 0x1_0000_0000;
    }
    let wi = 100 * (theme.outer_margin as u128 * s) + if theme.show_shadow { 800 * s } else { 0 };
    let chrome: u128 = if theme.show_traffic_lights { 4400 * s } else { 1600 * s };
    let u = theme.font_size as u128 * s;
    let g = Geom {
        s,
        u,
        w: l.width_centi * s,
        h: l.height_centi * s,
        wi,
        pad: 100 * (theme.padding as u128 * s),
        chrome,
        radius: 100 * (theme.corner_radius as u128 * s),
        lh: 120 * u,
    };
    proof {
        let t = theme@;
        let sn = scale as int;
        let fr = frame_centi(t);
        assert(l.width_centi >= fr);
        assert(l.height_centi >= fr);
        assert(2 * wi == fr * sn) by (nonlinear_arith)
            requires
                wi == 100 * (t.outer_margin * sn) + if t.show_shadow { 800 * sn } else { 0 },
                fr == 200 * t.outer_margin + if t.show_shadow { 1600int } else { 0int },
        ;
        assert(fr * sn <= l.width_centi * sn) by (nonlinear_arith)
            requires fr <= l.width_centi, sn >= 0;
        assert(fr * sn <= l.height_centi * sn) by (nonlinear_arith)
            requires fr <= l.height_centi, sn >= 0;
        assert(100 * (t.outer_margin * sn) == 100 * t.outer_margin * sn) by (nonlinear_arith);
        assert(100 * (t.padding * sn) == 100 * t.padding * sn) by (nonlinear_arith);
        assert(100 * (t.corner_radius * sn) == 100 * t.corner_radius * sn) by (nonlinear_arith);
        assert(100 * chrome_px(t) * sn == if t.show_traffic_lights { 4400 * sn } else { 1600 * sn })
            by (nonlinear_arith);
    }
    g
}


/// Opening `<svg>` tag of a card `w` × `h`.
#[verifier::opaque]
pub open spec fn svg_open(g: Geometry) -> Seq<char> {
    "<svg xmlns=\"http://www.w3.org/2000/svg\" width=\""@ + num(g.w) + "\" height=\""@ + num(g.h)
        + "\" viewBox=\"0 0 "@ + num(g.w) + " "@ + num(g.h) + "\">"@
}

/// Clip path of the window's rounded rectangle.
#[verifier::opaque]
pub open spec fn svg_clip(g: Geometry) -> Seq<char> {
    "<defs><clipPath id=\"win\"><rect x=\""@ + num(g.wi) + "\" y=\""@ + num(g.wi)
        + "\" width=\""@ + num(g.w - 2 * g.wi) + "\" height=\""@ + num(g.h - 2 * g.wi) + "\" rx=\""@
        + num(g.radius) + "\"/></clipPath></defs>"@
}

/// Backdrop rectangle behind the window.
#[verifier::opaque]
pub open spec fn svg_backdrop(g: Geometry, backdrop: Seq<char>) -> Seq<char> {
    "<rect width=\""@ + num(g.w) + "\" height=\""@ + num(g.h) + "\" fill=\""@
        + escape_text(backdrop) + "\"/>"@
}

/// Opening `<svg>` tag, the window clip path and the backdrop rectangle.
pub open spec fn svg_head(g: Geometry, backdrop: Seq<char>) -> Seq<char> {
    svg_open(g) + svg_clip(g) + svg_backdrop(g, backdrop)
}

fn push_svg_open(out: &mut String, g: &Geom)
    ensures
        final(out)@ == old(out)@ + svg_open(g@),
{
    reveal(svg_open);
    let ghost start = out@;
    out.append("<svg xmlns=\"http://www.w3.org/2000/svg\" width=\"");
    push_centi(out, g.w);
    out.append("\" height=\"");
    push_centi(out, g.h);
    out.append("\" viewBox=\"0 0 ");
    push_centi(out, g.w);
    out.append(" ");
    push_centi(out, g.h);
    out.append("\">");
    assert(out@ =~= start + svg_open(g@));
}

fn push_svg_clip(out: &mut String, g: &Geom)
    requires
        geom_bounded(g@),
    ensures
        final(out)@ == old(out)@ + svg_clip(g@),
{
    reveal(svg_clip);
    let ghost start = out@;
    out.append("<defs><clipPath id=\"win\"><rect x=\"");
    push_centi(out, g.wi);
    out.append("\" y=\"");
    push_centi(out, g.wi);
    out.append("\" width=\"");
    push_centi(out, g.w - 2 * g.wi);
    out.append("\" height=\"");
    push_centi(out, g.h - 2 * g.wi);
    out.append("\" rx=\"");
    push_centi(out, g.radius);
    out.append("\"/></clipPath></defs>");
    assert(out@ =~= start + svg_clip(g@));
}

fn push_svg_head(out: &mut String, g: &Geom, backdrop: &str)
    requires
        geom_bounded(g@),
    ensures
        final(out)@ == old(out)@ + svg_head(g@, backdrop@),
{
    let ghost start = out@;
    push_svg_open(out, g);
    push_svg_clip(out, g);
    let ghost mid = out@;
    out.append("<rect width=\"");
    push_centi(out, g.w);
    out.append("\" height=\"");
    push_centi(out, g.h);
    out.append("\" fill=\"");
    push_escaped(out, backdrop);
    out.append("\"/>");
    assert(out@ =~= mid + svg_backdrop(g@, backdrop@)) by {
        reveal(svg_backdrop);
    }
    assert(out@ =~= start + svg_head(g@, backdrop@));
}

/// The window's drop shadow: a blurred rectangle 4 px left of and 4 px below
/// the window, 8 px larger on each axis, and its blur filter.
#[verifier::opaque]
pub open spec fn svg_shadow(g: Geometry) -> Seq<char> {
    let ww = g.w - 2 * g.wi;
    let wh = g.h - 2 * g.wi;
    "<rect x=\""@ + num(g.wi - 400 * g.s) + "\" y=\""@ + num(g.wi + 400 * g.s) + "\" width=\""@
        + num(ww + 800 * g.s) + "\" height=\""@ + num(wh + 800 * g.s) + "\" rx=\""@ + num(g.radius)
        + "\" fill=\"black\" opacity=\"0.35\" filter=\"url(#blur)\"/>"@
        + "<defs><filter id=\"blur\" x=\"-10%\" y=\"-10%\" width=\"120%\" height=\"120%\"><feGaussianBlur stdDeviation=\""@
        + num(600 * g.s) + "\"/></filter></defs>"@
}

fn push_svg_shadow(out: &mut String, g: &Geom)
    requires
        geom_bounded(g@),
        g@.wi >= 800 * g@.s,
    ensures
        final(out)@ == old(out)@ + svg_shadow(g@),
{
    reveal(svg_shadow);
    let ghost start = out@;
    let ww = g.w - 2 * g.wi;
    let wh = g.h - 2 * g.wi;
    out.append("<rect x=\"");
    push_centi(out, g.wi - 400 * g.s);
    out.append("\" y=\"");
    push_centi(out, g.wi + 400 * g.s);
    out.append("\" width=\"");
    push_centi(out, ww + 800 * g.s);
    out.append("\" height=\"");
    push_centi(out, wh + 800 * g.s);
    out.append("\" rx=\"");
    push_centi(out, g.radius);
    out.append("\" fill=\"black\" opacity=\"0.35\" filter=\"url(#blur)\"/>");
    out.append("<defs><filter id=\"blur\" x=\"-10%\" y=\"-10%\" width=\"120%\" height=\"120%\"><feGaussianBlur stdDeviation=\"");
    push_centi(out, 600 * g.s);
    out.append("\"/></filter></defs>");
    assert(out@ =~= start + svg_shadow(g@));
}

/// Opening of the clipped window group and the window background.
#[verifier::opaque]
pub open spec fn svg_window(g: Geometry, background: Seq<char>) -> Seq<char> {
    let ww = g.w - 2 * g.wi;
    let wh = g.h - 2 * g.wi;
    "<g clip-path=\"url(#win)\"><rect x=\""@ + num(g.wi) + "\" y=\""@ + num(g.wi) + "\" width=\""@
        + num(ww) + "\" height=\""@ + num(wh) + "\" rx=\""@ + num(g.radius) + "\" fill=\""@
        + escape_text(background) + "\"/>"@
}

fn push_svg_window(out: &mut String, g: &Geom, background: &str)
    requires
        geom_bounded(g@),
    ensures
        final(out)@ == old(out)@ + svg_window(g@, background@),
{
    reveal(svg_window);
    let ghost start = out@;
    let ww = g.w - 2 * g.wi;
    let wh = g.h - 2 * g.wi;
    out.append("<g clip-path=\"url(#win)\"><rect x=\"");
    push_centi(out, g.wi);
    out.append("\" y=\"");
    push_centi(out, g.wi);
    out.append("\" width=\"");
    push_centi(out, ww);
    out.append("\" height=\"");
    push_centi(out, wh);
    out.append("\" rx=\"");
    push_centi(out, g.radius);
    out.append("\" fill=\"");
    push_escaped(out, background);
    out.append("\"/>");
    assert(out@ =~= start + svg_window(g@, background@));
}

/// A traffic-light circle.
#[verifier::opaque]
pub open spec fn circle_elem(cx: int, cy: int, r: int, fill: Seq<char>) -> Seq<char> {
    "<circle cx=\""@ + num(cx) + "\" cy=\""@ + num(cy) + "\" r=\""@ + num(r) + "\" fill=\""@ + fill
        + "\"/>"@
}

fn push_circle(out: &mut String, cx: u128, cy: u128, r: u128, fill: &str)
    ensures
        final(out)@ == old(out)@ + circle_elem(cx as int, cy as int, r as int, fill@),
{
    reveal(circle_elem);
    let ghost start = out@;
    out.append("<circle cx=\"");
    push_centi(out, cx);
    out.append("\" cy=\"");
    push_centi(out, cy);
    out.append("\" r=\"");
    push_centi(out, r);
    out.append("\" fill=\"");
    out.append(fill);
    out.append("\"/>");
    assert(out@ =~= start + circle_elem(cx as int, cy as int, r as int, fill@));
}

/// Title bar: the three traffic lights and, when the title is not empty, the
/// centered title.
pub open spec fn svg_title_bar(g: Geometry, t: ThemeView) -> Seq<char> {
    let cy = g.wi + 2000 * g.s;
    let lx = g.wi + g.pad;
    circle_elem(lx, cy, 600 * g.s, "#ff5f57"@) + circle_elem(lx + 1600 * g.s, cy, 600 * g.s, "#febc2e"@)
        + circle_elem(lx + 3200 * g.s, cy, 600 * g.s, "#28c840"@) + if t.title.len() == 0 {
        Seq::<char>::empty()
    } else {
        text_elem(
            g.w / 2,
            cy + 35 * g.u,
            escape_text(t.title),
            t.foreground,
            85 * g.u,
            false,
            false,
            "middle"@,
        )
    }
}

fn push_svg_title_bar(out: &mut String, g: &Geom, theme: &Theme)
    requires
        geom_bounded(g@),
    ensures
        final(out)@ == old(out)@ + svg_title_bar(g@, theme@),
{
    let ghost start = out@;
    let cy = g.wi + 2000 * g.s;
    let lx = g.wi + g.pad;
    push_circle(out, lx, cy, 600 * g.s, "#ff5f57");
    push_circle(out, lx + 1600 * g.s, cy, 600 * g.s, "#febc2e");
    push_circle(out, lx + 3200 * g.s, cy, 600 * g.s, "#28c840");
    let ghost mid = out@;
    if !theme.title.as_str().is_empty() {
        let title = escape_xml(theme.title.as_str());
        push_text_elem(
            out,
            g.w / 2,
            cy + 35 * g.u,
            title.as_str(),
            theme.foreground.as_str(),
            85 * g.u,
            false,
            false,
            "middle",
        );
    }
    assert(out@ =~= start + svg_title_bar(g@, theme@));
}


/// Text of the prompt line: the prompt symbol, a space and the command line.
pub open spec fn prompt_text(c: CaptureView, t: ThemeView) -> Seq<char> {
    t.prompt_symbol + seq![' '] + c.command_line
}

/// Baseline of the prompt line.
pub open spec fn prompt_y(g: Geometry) -> int {
    g.wi + g.chrome + 96 * g.u
}

/// The prompt line, bold in the accent color.
pub open spec fn svg_prompt(g: Geometry, c: CaptureView, t: ThemeView) -> Seq<char> {
    text_elem(
        g.wi + g.pad,
        prompt_y(g),
        escape_text(prompt_text(c, t)),
        t.accent,
        100 * g.u,
        true,
        false,
        "start"@,
    )
}

fn push_svg_prompt(out: &mut String, g: &Geom, capture: &Capture, theme: &Theme)
    requires
        geom_bounded(g@),
    ensures
        final(out)@ == old(out)@ + svg_prompt(g@, capture@, theme@),
{
    let mut prompt = theme.prompt_symbol.clone();
    push_char(&mut prompt, ' ');
    prompt.append(capture.command_line.as_str());
    assert(prompt@ =~= prompt_text(capture@, theme@));
    let content = escape_xml(prompt.as_str());
    push_text_elem(
        out,
        g.wi + g.pad,
        g.wi + g.chrome + 96 * g.u,
        content.as_str(),
        theme.accent.as_str(),
        100 * g.u,
        true,
        false,
        "start",
    );
}

/// Background rectangle behind a run.
#[verifier::opaque]
pub open spec fn rect_elem(x: int, y: int, w: int, h: int, fill: Seq<char>) -> Seq<char> {
    "<rect x=\""@ + num(x) + "\" y=\""@ + num(y) + "\" width=\""@ + num(w) + "\" height=\""@ + num(h)
        + "\" fill=\""@ + escape_text(fill) + "\"/>"@
}

/// Underline of a run.
#[verifier::opaque]
pub open spec fn line_elem(x1: int, y: int, x2: int, stroke: Seq<char>, sw: int) -> Seq<char> {
    "<line x1=\""@ + num(x1) + "\" y1=\""@ + num(y) + "\" x2=\""@ + num(x2) + "\" y2=\""@ + num(y)
        + "\" stroke=\""@ + escape_text(stroke) + "\" stroke-width=\""@ + num(sw) + "\"/>"@
}

/// Width of a run at the card's scale.
pub open spec fn run_advance(r: RunView, g: Geometry) -> int {
    60 * (display_width(r.text) * g.u)
}

/// Text color of a run: its foreground, or the theme's.
pub open spec fn run_fill(r: RunView, t: ThemeView, p: PaletteView) -> Seq<char> {
    match r.fg {
        Some(c) => color_text(c, t, p, t.foreground),
        None => t.foreground,
    }
}

/// A run at `(x, y)`: its background, its text and its underline.
pub open spec fn run_svg(r: RunView, x: int, y: int, g: Geometry, t: ThemeView, p: PaletteView) -> Seq<char> {
    let wr = run_advance(r, g);
    let fill = run_fill(r, t, p);
    (match r.bg {
        Some(b) => rect_elem(x, y - 80 * g.u, wr, g.lh, color_text(b, t, p, t.foreground)),
        None => Seq::<char>::empty(),
    }) + text_elem(x, y, escape_text(r.text), fill, 100 * g.u, r.bold, r.italic, "start"@) + if r.underline {
        line_elem(x, y + 15 * g.u, x + wr, fill, 6 * g.u)
    } else {
        Seq::<char>::empty()
    }
}

/// The runs of a line, left to right from `x0`, each after the previous.
pub open spec fn runs_svg(
    runs: Seq<RunView>,
    x0: int,
    y: int,
    g: Geometry,
    t: ThemeView,
    p: PaletteView,
) -> Seq<char>
    decreases runs.len(),
{
    if runs.len() == 0 {
        Seq::<char>::empty()
    } else {
        runs_svg(runs.drop_last(), x0, y, g, t, p) + run_svg(
            runs.last(),
            x0 + 60 * (line_width(runs.drop_last()) * g.u),
            y,
            g,
            t,
            p,
        )
    }
}

/// The lines of the body, one line height apart from the baseline `y1`.
pub open spec fn lines_svg(
    lines: Seq<Seq<RunView>>,
    x0: int,
    y1: int,
    g: Geometry,
    t: ThemeView,
    p: PaletteView,
) -> Seq<char>
    decreases lines.len(),
{
    if lines.len() == 0 {
        Seq::<char>::empty()
    } else {
        lines_svg(lines.drop_last(), x0, y1, g, t, p) + runs_svg(
            lines.last(),
            x0,
            y1 + (lines.len() - 1) * g.lh,
            g,
            t,
            p,
        )
    }
}

/// The body of the card: every output line below the prompt line.
pub open spec fn svg_body(g: Geometry, c: CaptureView, t: ThemeView, p: PaletteView) -> Seq<char> {
    lines_svg(c.lines, g.wi + g.pad, prompt_y(g) + g.lh, g, t, p)
}

fn push_rect_elem(out: &mut String, x: u128, y: u128, w: u128, h: u128, fill: &str)
    ensures
        final(out)@ == old(out)@ + rect_elem(x as int, y as int, w as int, h as int, fill@),
{
    reveal(rect_elem);
    let ghost start = out@;
    out.append("<rect x=\"");
    push_centi(out, x);
    out.append("\" y=\"");
    push_centi(out, y);
    out.append("\" width=\"");
    push_centi(out, w);
    out.append("\" height=\"");
    push_centi(out, h);
    out.append("\" fill=\"");
    push_escaped(out, fill);
    out.append("\"/>");
    assert(out@ =~= start + rect_elem(x as int, y as int, w as int, h as int, fill@));
}

fn push_line_elem(out: &mut String, x1: u128, y: u128, x2: u128, stroke: &str, sw: u128)
    ensures
        final(out)@ == old(out)@ + line_elem(x1 as int, y as int, x2 as int, stroke@, sw as int),
{
    reveal(line_elem);
    let ghost start = out@;
    out.append("<line x1=\"");
    push_centi(out, x1);
    out.append("\" y1=\"");
    push_centi(out, y);
    out.append("\" x2=\"");
    push_centi(out, x2);
    out.append("\" y2=\"");
    push_centi(out, y);
    out.append("\" stroke=\"");
    push_escaped(out, stroke);
    out.append("\" stroke-width=\"");
    push_centi(out, sw);
    out.append("\"/>");
    assert(out@ =~= start + line_elem(x1 as int, y as int, x2 as int, stroke@, sw as int));
}

fn push_run(out: &mut String, run: &Run, x: u128, y: u128, g: &Geom, theme: &Theme, palette: &Palette)
    requires
        geom_bounded(g@),
        y >= 80 * g.u,
        x < 0x100_0000_0000_0000_0000_0000_0000_0000,
        y < 0x100_0000_0000_0000_0000_0000_0000_0000,
        display_width(run@.text) * g@.u <= coord_limit(),
    ensures
        final(out)@ == old(out)@ + run_svg(run@, x as int, y as int, g@, theme@, palette@),
{
    let ghost start = out@;
    let wr = 60 * (str_width(run.text.as_str()) as u128 * g.u);
    let fill = match &run.fg {
        Some(c) => resolve_color(c, theme, palette, theme.foreground.as_str()),
        None => theme.foreground.clone(),
    };
    match &run.bg {
        Some(b) => {
            let bgc = resolve_color(b, theme, palette, theme.foreground.as_str());
            push_rect_elem(out, x, y - 80 * g.u, wr, g.lh, bgc.as_str());
        },
        None => {},
    }
    let ghost after_bg = out@;
    let content = escape_xml(run.text.as_str());
    push_text_elem(out, x, y, content.as_str(), fill.as_str(), 100 * g.u, run.bold, run.italic, "start");
    let ghost after_text = out@;
    if run.underline {
        push_line_elem(out, x, y + 15 * g.u, x + wr, fill.as_str(), 6 * g.u);
    }
    proof {
        let r = run@;
        let gg = g@;
        let t = theme@;
        let p = palette@;
        assert(fill@ == run_fill(r, t, p));
        let bg_part = match r.bg {
            Some(b) => rect_elem(x as int, y - 80 * gg.u, run_advance(r, gg), gg.lh, color_text(b, t, p, t.foreground)),
            None => Seq::<char>::empty(),
        };
        assert(after_bg =~= start + bg_part);
        let ul_part = if r.underline {
            line_elem(x as int, y + 15 * gg.u, x + run_advance(r, gg), run_fill(r, t, p), 6 * gg.u)
        } else {
            Seq::<char>::empty()
        };
        assert(out@ =~= after_text + ul_part);
        assert(out@ =~= start + run_svg(r, x as int, y as int, gg, t, p));
    }
}


fn push_line(out: &mut String, line: &Line, x0: u128, y: u128, g: &Geom, theme: &Theme, palette: &Palette)
    requires
        geom_bounded(g@),
        y >= 80 * g.u,
        x0 < 0x4000_0000_0000_0000_0000_0000_0000,
        y < 0x4000_0000_0000_0000_0000_0000_0000,
        line_width(line@) * g@.u <= coord_limit(),
    ensures
        final(out)@ == old(out)@ + runs_svg(line@, x0 as int, y as int, g@, theme@, palette@),
{
    let ghost start = out@;
    let ghost runs = line@;
    let ghost gg = g@;
    let mut x = x0;
    let mut i: usize = 0;
    proof {
        assert(runs.take(0) =~= Seq::<RunView>::empty());
        assert(0 * gg.u == 0) by (nonlinear_arith);
    }
    while i < line.runs.len()
        invariant
            i <= line.runs@.len(),
            runs == line@,
            runs.len() == line.runs@.len(),
            gg == g@,
            geom_bounded(gg),
            y >= 80 * g.u,
            y < 0x4000_0000_0000_0000_0000_0000_0000,
            x0 < 0x4000_0000_0000_0000_0000_0000_0000,
            line_width(runs) * gg.u <= coord_limit(),
            x == x0 + 60 * (line_width(runs.take(i as int)) * gg.u),
            out@ == start + runs_svg(runs.take(i as int), x0 as int, y as int, gg, theme@, palette@),
        decreases line.runs@.len() - i,
    {
        let ghost pre = runs.take(i as int);
        let ghost next = runs.take(i + 1);
        proof {
            assert(next.drop_last() =~= pre);
            assert(next.last() == line.runs@[i as int]@);
            line_width_prefix(runs, i + 1);
            let a = line_width(pre) as int;
            let b = display_width(next.last().text) as int;
            let c = line_width(runs) as int;
            let u = gg.u;
            assert(a + b <= c);
            assert(b * u <= c * u && a * u <= c * u && (a + b) * u == a * u + b * u) by (nonlinear_arith)
                requires a + b <= c, a >= 0, b >= 0, u >= 0;
            assert(x < 0x4000_0000_0000_0000_0000_0000_0000 + 60 * coord_limit());
        }
        push_run(out, &line.runs[i], x, y, g, theme, palette);
        let w = str_width(line.runs[i].text.as_str()) as u128;
        x = x + 60 * (w * g.u);
        i = i + 1;
    }
    assert(runs.take(line.runs@.len() as int) =~= runs);
}

fn push_lines(out: &mut String, lines: &Vec<Line>, x0: u128, y1: u128, g: &Geom, theme: &Theme, palette: &Palette)
    requires
        geom_bounded(g@),
        y1 >= 80 * g.u,
        x0 < 0x1_0000_0000_0000_0000_0000_0000,
        y1 < 0x1_0000_0000_0000_0000_0000_0000,
        forall|k: int| 0 <= k < lines@.len() ==> line_width(#[trigger] lines@[k]@) * g@.u <= coord_limit(),
        (lines@.len() + 1) * g@.u <= coord_limit(),
    ensures
        final(out)@ == old(out)@ + lines_svg(lines@.map_values(|l: Line| l@), x0 as int, y1 as int, g@, theme@, palette@),
{
    let ghost start = out@;
    let ghost ls = lines@.map_values(|l: Line| l@);
    let ghost gg = g@;
    let mut y = y1;
    let mut k: usize = 0;
    while k < lines.len()
        invariant
            k <= lines@.len(),
            ls == lines@.map_values(|l: Line| l@),
            gg == g@,
            geom_bounded(gg),
            y1 >= 80 * g.u,
            x0 < 0x1_0000_0000_0000_0000_0000_0000,
            y1 < 0x1_0000_0000_0000_0000_0000_0000,
            forall|j: int| 0 <= j < lines@.len() ==> line_width(#[trigger] lines@[j]@) * gg.u <= coord_limit(),
            (lines@.len() + 1) * gg.u <= coord_limit(),
            y == y1 + k * gg.lh,
            out@ == start + lines_svg(ls.take(k as int), x0 as int, y1 as int, gg, theme@, palette@),
        decreases lines@.len() - k,
    {
        proof {
            assert(ls.take(k + 1).drop_last() =~= ls.take(k as int));
            assert(ls.take(k + 1).last() == lines@[k as int]@);
            let u = gg.u;
            let n = lines@.len() as int;
            assert(k * gg.lh == 120 * (k * u)) by (nonlinear_arith) requires gg.lh == 120 * u;
            assert(k * u <= (n + 1) * u) by (nonlinear_arith) requires k <= n + 1, u >= 0;
            assert((k + 1) * gg.lh == k * gg.lh + gg.lh) by (nonlinear_arith);
            assert(y < 0x1_0000_0000_0000_0000_0000_0000 + 120 * coord_limit());
        }
        push_line(out, &lines[k], x0, y, g, theme, palette);
        y = y + g.lh;
        k = k + 1;
    }
    assert(ls.take(lines@.len() as int) =~= ls);
}

/// The whole card as an SVG document, at a scale.
pub open spec fn svg_document(c: CaptureView, t: ThemeView, p: PaletteView, scale: nat) -> Seq<char> {
    let g = geometry(c, t, scale);
    svg_head(g, t.backdrop) + (if t.show_shadow { svg_shadow(g) } else { Seq::<char>::empty() })
        + svg_window(g, t.background) + (if t.show_traffic_lights {
        svg_title_bar(g, t)
    } else {
        Seq::<char>::empty()
    }) + svg_prompt(g, c, t) + svg_body(g, c, t, p) + "</g></svg>"@
}

/// Renders the card SVG without embedded fonts: the preview resolves
/// `font-family: 'JetBrains Mono'` through the document-level `@font-face`
/// (`font_css`), and the PNG rasterizer through its own font database.
pub fn render_svg(capture: &Capture, theme: &Theme, palette: &Palette, scale: u32) -> (svg: String)
    requires
        fits_scaled(capture@, theme@, scale as nat),
    ensures
        svg@ == svg_document(capture@, theme@, palette@, scale as nat),
{
    let g = compute_geom(capture, theme, scale);
    let ghost gg = g@;
    let mut svg = String::new();
    push_svg_head(&mut svg, &g, theme.backdrop.as_str());
    let ghost a = svg@;
    if theme.show_shadow {
        proof {
            assert(gg.wi >= 800 * gg.s) by (nonlinear_arith)
                requires
                    gg.wi == 100 * theme.outer_margin * gg.s + 800 * gg.s,
                    gg.s >= 0,
                    theme.outer_margin >= 0,
            ;
        }
        push_svg_shadow(&mut svg, &g);
    }
    let ghost b = svg@;
    push_svg_window(&mut svg, &g, theme.background.as_str());
    let ghost c = svg@;
    if theme.show_traffic_lights {
        push_svg_title_bar(&mut svg, &g, theme);
    }
    let ghost d = svg@;
    push_svg_prompt(&mut svg, &g, capture, theme);
    let ghost e = svg@;
    proof {
        let cv = capture@;
        let t = theme@;
        let s = scale as int;
        let cw = content_width(cv, t) as int;
        let n = cv.lines.len() as int;
        assert(cw * (t.font_size * s) == cw * t.font_size * s) by (nonlinear_arith);
        assert((n + 1) * (t.font_size * s) == (n + 1) * t.font_size * s) by (nonlinear_arith);
        assert forall|k: int| 0 <= k < capture.lines@.len() implies line_width(#[trigger] capture.lines@[k]@) * gg.u <= coord_limit() by {
            assert(cv.lines[k] == capture.lines@[k]@);
            widest_bounds_lines(cv.lines, prompt_width(cv, t), k);
            let lw = line_width(capture.lines@[k]@) as int;
            let u = gg.u;
            assert(lw * u <= cw * u) by (nonlinear_arith) requires lw <= cw, u >= 0;
        }
    }
    let x0 = g.wi + g.pad;
    let y1 = g.wi + g.chrome + 96 * g.u + g.lh;
    push_lines(&mut svg, &capture.lines, x0, y1, &g, theme, palette);
    let ghost f = svg@;
    svg.append("</g></svg>");
    proof {
        let cv = capture@;
        let t = theme@;
        let p = palette@;
        assert(cv.lines == capture.lines@.map_values(|l: Line| l@));
        assert(f == e + svg_body(gg, cv, t, p));
        assert(svg@ =~= svg_document(cv, t, p, scale as nat));
    }
    svg
}


/// Whether every coordinate of the card at this scale can be computed exactly
/// (see `fits_scaled`), decided from the capture and the theme.
pub fn fits_at_scale(capture: &Capture, theme: &Theme, scale: u32) -> (ok: bool)
    ensures
        ok == fits_scaled(capture@, theme@, scale as nat),
{
    let cw = content_width_of(capture, theme);
    let f = theme.font_size as u128;
    let s = scale as u128;
    let n = capture.lines.len() as u128 + 1;
    let lim: u128 = 0x1_0000_0000_0000_0000;
    proof {
        assert(capture@.lines.len() == capture.lines@.len());
    }
    let a = match cw.checked_mul(f) {
        Some(v) => v,
        None => return false,
    };
    if a > lim {
        return false;
    }
    proof {
        assert(a * s <= 0x1_0000_0000_0000_0000_0000_0000) by (nonlinear_arith)
            requires a <= 0x1_0000_0000_0000_0000, s < 0x1_0000_0000;
    }
    if a * s > lim {
        return false;
    }
    proof {
        assert(n * f <= 0x1_0000_0000_0000_0000_0000_0000) by (nonlinear_arith)
            requires n <= 0x1_0000_0000_0000_0000, f < 0x1_0000_0000;
    }
    let b = n * f;
    if b > lim {
        return false;
    }
    proof {
        assert(b * s <= 0x1_0000_0000_0000_0000_0000_0000) by (nonlinear_arith)
            requires b <= 0x1_0000_0000_0000_0000, s < 0x1_0000_0000;
    }
    b * s <= lim
}

/// Renders the card SVG when its coordinates can be computed exactly (see
/// `fits_scaled`); `None` for a card too large for that.
pub fn try_render_svg(capture: &Capture, theme: &Theme, palette: &Palette, scale: u32) -> (r: Option<String>)
    ensures
        match r {
            Some(svg) => fits_scaled(capture@, theme@, scale as nat) && svg@ == svg_document(
                capture@,
                theme@,
                palette@,
                scale as nat,
            ),
            None => !fits_scaled(capture@, theme@, scale as nat),
        },
{
    if fits_at_scale(capture, theme, scale) {
        Some(render_svg(capture, theme, palette, scale))
    } else {
        None
    }
}

/// Character of a 6-bit value in the standard base64 alphabet
/// (`A-Z`, `a-z`, `0-9`, `+`, `/`).
pub open spec fn b64_char(v: int) -> char {
    if v < 26 {
        (65 + v) as char
    } else if v < 52 {
        (97 + (v - 26)) as char
    } else if v < 62 {
        (48 + (v - 52)) as char
    } else if v == 62 {
        '+'
    } else {
        '/'
    }
}

/// Standard base64 (RFC 4648, with padding) of a byte sequence: each group
/// of three bytes becomes four characters of six bits each; a final group of
/// one or two bytes is padded with `=` to four characters.
pub open spec fn base64_standard(data: Seq<u8>) -> Seq<char>
    decreases data.len(),
{
    let b0 = data[0] as int;
    let b1 = data[1] as int;
    let b2 = data[2] as int;
    if data.len() == 0 {
        Seq::<char>::empty()
    } else if data.len() == 1 {
        seq![b64_char(b0 / 4), b64_char((b0 % 4) * 16), '=', '=']
    } else if data.len() == 2 {
        seq![b64_char(b0 / 4), b64_char((b0 % 4) * 16 + b1 / 16), b64_char((b1 % 16) * 4), '=']
    } else {
        seq![b64_char(b0 / 4), b64_char((b0 % 4) * 16 + b1 / 16), b64_char((b1 % 16) * 4 + b2 / 64), b64_char(b2 % 64)]
            + base64_standard(data.skip(3))
    }
}

/// Base64 of a byte slice with the standard alphabet and padding.
///
/// Calls `base64::Engine::encode` on `base64::engine::general_purpose::STANDARD`,
/// which uses the standard alphabet and pads, as `base64_standard` states. Inputs are
/// at most `isize::MAX` bytes long, as every Rust allocation is; the crate
/// panics only when the encoded length overflows `usize`.
#[verifier::external_body]
pub(crate) fn base64_encode(data: &[u8]) -> (s: String)
    requires
        data@.len() <= isize::MAX,
    ensures
        s@ == base64_standard(data@),
{
    base64::Engine::encode(&base64::engine::general_purpose::STANDARD, data)
}

/// The four embedded faces of the card font.
pub struct Fonts {
    pub regular: Vec<u8>,
    pub bold: Vec<u8>,
    pub italic: Vec<u8>,
    pub bold_italic: Vec<u8>,
}

/// One `@font-face` rule for the card font, with the face's data inline.
pub open spec fn font_face(b64: Seq<char>, weight: Seq<char>, style: Seq<char>) -> Seq<char> {
    "@font-face { font-family: '"@ + "JetBrains Mono"@ + "'; font-weight: "@ + weight
        + "; font-style: "@ + style + "; src: url(data:font/ttf;base64,"@ + b64
        + ") format('truetype'); }"@
}

/// Document-level `@font-face` CSS for the four faces, separated by spaces.
pub open spec fn font_css_text(regular: Seq<u8>, bold: Seq<u8>, italic: Seq<u8>, bold_italic: Seq<u8>) -> Seq<char> {
    font_face(base64_standard(regular), "normal"@, "normal"@) + " "@
        + font_face(base64_standard(bold), "bold"@, "normal"@) + " "@
        + font_face(base64_standard(italic), "normal"@, "italic"@) + " "@
        + font_face(base64_standard(bold_italic), "bold"@, "italic"@)
}

fn push_font_face(out: &mut String, data: &[u8], weight: &str, style: &str)
    requires
        data@.len() <= isize::MAX,
    ensures
        final(out)@ == old(out)@ + font_face(base64_standard(data@), weight@, style@),
{
    let ghost start = out@;
    let b64 = base64_encode(data);
    out.append("@font-face { font-family: '");
    out.append(font_family());
    out.append("'; font-weight: ");
    out.append(weight);
    out.append("; font-style: ");
    out.append(style);
    out.append("; src: url(data:font/ttf;base64,");
    out.append(b64.as_str());
    out.append(") format('truetype'); }");
    assert(out@ =~= start + font_face(base64_standard(data@), weight@, style@));
}

/// Document-level `@font-face` CSS for the preview, installed once by the
/// frontend; every preview SVG resolves its `font-family` through it.
pub fn font_css(fonts: &Fonts) -> (css: String)
    requires
        fonts.regular@.len() <= isize::MAX,
        fonts.bold@.len() <= isize::MAX,
        fonts.italic@.len() <= isize::MAX,
        fonts.bold_italic@.len() <= isize::MAX,
    ensures
        css@ == font_css_text(fonts.regular@, fonts.bold@, fonts.italic@, fonts.bold_italic@),
{
    let mut css = String::new();
    push_font_face(&mut css, fonts.regular.as_slice(), "normal", "normal");
    css.append(" ");
    push_font_face(&mut css, fonts.bold.as_slice(), "bold", "normal");
    css.append(" ");
    push_font_face(&mut css, fonts.italic.as_slice(), "normal", "italic");
    css.append(" ");
    push_font_face(&mut css, fonts.bold_italic.as_slice(), "bold", "italic");
    assert(css@ =~= font_css_text(fonts.regular@, fonts.bold@, fonts.italic@, fonts.bold_italic@));
    css
}

} // verus!
