//! Laws on the markup of the card SVG: which characters of the document can
//! open or close an element or an attribute, and where they come from.
use vstd::prelude::*;
use crate::export::{
    circle_elem, escape_char, escape_is_markup_free, escape_text, line_elem, lines_svg, num, rect_elem,
    run_svg, runs_svg, svg_backdrop, svg_body, svg_clip, svg_document, svg_head, svg_open, svg_prompt,
    svg_shadow, svg_title_bar, svg_window, text_close, text_elem, text_open, geometry, prompt_y, Geometry,
};
use crate::ir::{line_width, CaptureView, RunView};
use crate::text::{centi_text, dec_digits, digit_char};
use crate::theme::{PaletteView, ThemeView};

verus! {

/// Characters that open or close an element or an attribute value.
pub open spec fn markup_char(c: char) -> bool {
    c == '<' || c == '>' || c == '"'
}

/// The markup characters of a text, in order.
pub open spec fn markup_of(s: Seq<char>) -> Seq<char>
    decreases s.len(),
{
    if s.len() == 0 {
        Seq::<char>::empty()
    } else {
        markup_of(s.drop_last()) + if markup_char(s.last()) {
            seq![s.last()]
        } else {
            Seq::<char>::empty()
        }
    }
}

/// The markup of a concatenation is the concatenation of the markups.
pub broadcast proof fn markup_add(a: Seq<char>, b: Seq<char>)
    ensures
        #[trigger] markup_of(a + b) == markup_of(a) + markup_of(b),
    decreases b.len(),
{
    if b.len() == 0 {
        assert(a + b =~= a);
        assert(markup_of(a) + markup_of(b) =~= markup_of(a));
    } else {
        markup_add(a, b.drop_last());
        assert((a + b).drop_last() =~= a + b.drop_last());
        assert((a + b).last() == b.last());
        assert(markup_of(a + b) =~= markup_of(a) + markup_of(b));
    }
}

proof fn markup_free(s: Seq<char>)
    requires
        forall|i: int| 0 <= i < s.len() ==> !markup_char(#[trigger] s[i]),
    ensures
        markup_of(s) == Seq::<char>::empty(),
    decreases s.len(),
{
    if s.len() > 0 {
        assert(!markup_char(s[s.len() - 1]));
        markup_free(s.drop_last());
    }
}

proof fn dec_digits_markup_free(n: nat)
    ensures
        markup_of(dec_digits(n)) == Seq::<char>::empty(),
    decreases n,
{
    if n >= 10 {
        dec_digits_markup_free(n / 10);
        let d = digit_char((n % 10) as int);
        markup_add(dec_digits(n / 10), seq![d]);
        markup_free(seq![d]);
        assert(dec_digits(n) == dec_digits(n / 10) + seq![d]);
    } else {
        markup_free(seq![digit_char(n as int)]);
    }
}

/// A number of the document holds no markup.
pub broadcast proof fn num_markup_free(v: int)
    ensures
        #[trigger] markup_of(num(v)) == Seq::<char>::empty(),
{
    reveal(centi_text);
    let n = v as nat;
    let f = n % 100;
    let tail = if f == 0 {
        Seq::<char>::empty()
    } else if f % 10 == 0 {
        seq!['.', digit_char((f / 10) as int)]
    } else {
        seq!['.', digit_char((f / 10) as int), digit_char((f % 10) as int)]
    };
    dec_digits_markup_free(n / 100);
    markup_free(tail);
    markup_add(dec_digits(n / 100), tail);
    assert(centi_text(n) == dec_digits(n / 100) + tail);
}

/// An escaped text holds no markup.
pub broadcast proof fn escape_markup_free(s: Seq<char>)
    ensures
        #[trigger] markup_of(escape_text(s)) == Seq::<char>::empty(),
{
    escape_is_markup_free(s);
    let e = escape_text(s);
    assert forall|i: int| 0 <= i < e.len() implies !markup_char(#[trigger] e[i]) by {
        let c = e[i];
        assert(c != '"' && c != '\'' && c != '<' && c != '>');
    }
    markup_free(e);
}

proof fn words_markup_free()
    ensures
        markup_of("bold"@) == Seq::<char>::empty(),
        markup_of("normal"@) == Seq::<char>::empty(),
        markup_of("italic"@) == Seq::<char>::empty(),
{
    reveal_strlit("bold");
    reveal_strlit("normal");
    reveal_strlit("italic");
    markup_free("bold"@);
    markup_free("normal"@);
    markup_free("italic"@);
}

proof fn text_open_markup(x1: int, y1: int, b1: bool, i1: bool, p1: int, x2: int, y2: int, b2: bool, i2: bool, p2: int)
    ensures
        markup_of(text_open(x1, y1, b1, i1, p1)) == markup_of(text_open(x2, y2, b2, i2, p2)),
{
    broadcast use markup_add, num_markup_free;
    reveal(text_open);
    words_markup_free();
}

proof fn text_elem_markup(
    x1: int, y1: int, c1: Seq<char>, f1: Seq<char>, p1: int, b1: bool, i1: bool,
    x2: int, y2: int, c2: Seq<char>, f2: Seq<char>, p2: int, b2: bool, i2: bool,
    anchor: Seq<char>,
)
    requires
        markup_of(c1) == markup_of(c2),
    ensures
        markup_of(text_elem(x1, y1, c1, f1, p1, b1, i1, anchor)) == markup_of(text_elem(x2, y2, c2, f2, p2, b2, i2, anchor)),
{
    broadcast use markup_add, escape_markup_free;
    text_open_markup(x1, y1, b1, i1, p1, x2, y2, b2, i2, p2);
    reveal(text_close);
}

proof fn run_markup(r1: RunView, x1: int, y1: int, g1: Geometry, t1: ThemeView, q1: PaletteView,
    r2: RunView, x2: int, y2: int, g2: Geometry, t2: ThemeView, q2: PaletteView)
    requires
        same_run_shape(r1, r2),
    ensures
        markup_of(run_svg(r1, x1, y1, g1, t1, q1)) == markup_of(run_svg(r2, x2, y2, g2, t2, q2)),
{
    broadcast use markup_add, num_markup_free, escape_markup_free;
    reveal(rect_elem);
    reveal(line_elem);
    text_elem_markup(
        x1, y1, escape_text(r1.text), crate::export::run_fill(r1, t1, q1), 100 * g1.u, r1.bold, r1.italic,
        x2, y2, escape_text(r2.text), crate::export::run_fill(r2, t2, q2), 100 * g2.u, r2.bold, r2.italic,
        "start"@,
    );
}

/// Two runs draw the same elements: both or neither have a background, and
/// both or neither are underlined.
pub open spec fn same_run_shape(a: RunView, b: RunView) -> bool {
    &&& (a.bg is Some) == (b.bg is Some)
    &&& a.underline == b.underline
}

/// Two lines have as many runs, pairwise of the same shape.
pub open spec fn same_line_shape(a: Seq<RunView>, b: Seq<RunView>) -> bool {
    &&& a.len() == b.len()
    &&& forall|i: int| 0 <= i < a.len() ==> same_run_shape(#[trigger] a[i], b[i])
}

proof fn runs_markup(rs1: Seq<RunView>, x1: int, y1: int, g1: Geometry, t1: ThemeView, q1: PaletteView,
    rs2: Seq<RunView>, x2: int, y2: int, g2: Geometry, t2: ThemeView, q2: PaletteView)
    requires
        same_line_shape(rs1, rs2),
    ensures
        markup_of(runs_svg(rs1, x1, y1, g1, t1, q1)) == markup_of(runs_svg(rs2, x2, y2, g2, t2, q2)),
    decreases rs1.len(),
{
    if rs1.len() > 0 {
        let n = rs1.len() - 1;
        assert(same_run_shape(rs1[n], rs2[n]));
        assert forall|i: int| 0 <= i < rs1.drop_last().len() implies same_run_shape(
            #[trigger] rs1.drop_last()[i],
            rs2.drop_last()[i],
        ) by {
            assert(same_run_shape(rs1[i], rs2[i]));
        }
        runs_markup(rs1.drop_last(), x1, y1, g1, t1, q1, rs2.drop_last(), x2, y2, g2, t2, q2);
        run_markup(
            rs1.last(), x1 + 60 * (crate::ir::line_width(rs1.drop_last()) * g1.u), y1, g1, t1, q1,
            rs2.last(), x2 + 60 * (crate::ir::line_width(rs2.drop_last()) * g2.u), y2, g2, t2, q2,
        );
        markup_add(runs_svg(rs1.drop_last(), x1, y1, g1, t1, q1), run_svg(
            rs1.last(), x1 + 60 * (crate::ir::line_width(rs1.drop_last()) * g1.u), y1, g1, t1, q1));
        markup_add(runs_svg(rs2.drop_last(), x2, y2, g2, t2, q2), run_svg(
            rs2.last(), x2 + 60 * (crate::ir::line_width(rs2.drop_last()) * g2.u), y2, g2, t2, q2));
    }
}

proof fn lines_markup(ls1: Seq<Seq<RunView>>, x1: int, y1: int, g1: Geometry, t1: ThemeView, q1: PaletteView,
    ls2: Seq<Seq<RunView>>, x2: int, y2: int, g2: Geometry, t2: ThemeView, q2: PaletteView)
    requires
        ls1.len() == ls2.len(),
        forall|k: int| 0 <= k < ls1.len() ==> same_line_shape(#[trigger] ls1[k], ls2[k]),
    ensures
        markup_of(lines_svg(ls1, x1, y1, g1, t1, q1)) == markup_of(lines_svg(ls2, x2, y2, g2, t2, q2)),
    decreases ls1.len(),
{
    if ls1.len() > 0 {
        let n = ls1.len() - 1;
        assert(same_line_shape(ls1[n], ls2[n]));
        assert forall|k: int| 0 <= k < ls1.drop_last().len() implies same_line_shape(
            #[trigger] ls1.drop_last()[k],
            ls2.drop_last()[k],
        ) by {
            assert(same_line_shape(ls1[k], ls2[k]));
        }
        lines_markup(ls1.drop_last(), x1, y1, g1, t1, q1, ls2.drop_last(), x2, y2, g2, t2, q2);
        runs_markup(ls1.last(), x1, y1 + (ls1.len() - 1) * g1.lh, g1, t1, q1,
            ls2.last(), x2, y2 + (ls2.len() - 1) * g2.lh, g2, t2, q2);
        markup_add(lines_svg(ls1.drop_last(), x1, y1, g1, t1, q1),
            runs_svg(ls1.last(), x1, y1 + (ls1.len() - 1) * g1.lh, g1, t1, q1));
        markup_add(lines_svg(ls2.drop_last(), x2, y2, g2, t2, q2),
            runs_svg(ls2.last(), x2, y2 + (ls2.len() - 1) * g2.lh, g2, t2, q2));
    }
}

/// Two cards of the same shape: as many lines, pairwise of the same shape,
/// the same window chrome and shadow, and both titles empty or both not.
pub open spec fn same_card_shape(c1: CaptureView, t1: ThemeView, c2: CaptureView, t2: ThemeView) -> bool {
    &&& c1.lines.len() == c2.lines.len()
    &&& forall|k: int| 0 <= k < c1.lines.len() ==> same_line_shape(#[trigger] c1.lines[k], c2.lines[k])
    &&& t1.show_shadow == t2.show_shadow
    &&& t1.show_traffic_lights == t2.show_traffic_lights
    &&& (t1.title.len() == 0) == (t2.title.len() == 0)
}

proof fn head_markup(g1: Geometry, t1: ThemeView, g2: Geometry, t2: ThemeView)
    requires
        t1.show_shadow == t2.show_shadow,
        t1.show_traffic_lights == t2.show_traffic_lights,
        (t1.title.len() == 0) == (t2.title.len() == 0),
    ensures
        markup_of(svg_head(g1, t1.backdrop)) == markup_of(svg_head(g2, t2.backdrop)),
        markup_of(svg_shadow(g1)) == markup_of(svg_shadow(g2)),
        markup_of(svg_window(g1, t1.background)) == markup_of(svg_window(g2, t2.background)),
        markup_of(svg_title_bar(g1, t1)) == markup_of(svg_title_bar(g2, t2)),
{
    broadcast use markup_add, num_markup_free, escape_markup_free;
    reveal(svg_open);
    reveal(svg_clip);
    reveal(svg_backdrop);
    reveal(svg_shadow);
    reveal(svg_window);
    reveal(circle_elem);
    if t1.title.len() != 0 {
        let cy1 = g1.wi + 2000 * g1.s;
        let cy2 = g2.wi + 2000 * g2.s;
        text_elem_markup(
            g1.w / 2, cy1 + 35 * g1.u, escape_text(t1.title), t1.foreground, 85 * g1.u, false, false,
            g2.w / 2, cy2 + 35 * g2.u, escape_text(t2.title), t2.foreground, 85 * g2.u, false, false,
            "middle"@,
        );
    }
}

/// No string of the capture, the theme or the palette can open or close an
/// element or an attribute: the markup characters of the card SVG (`<`, `>`
/// and `"`), in order, depend only on the card's shape, whatever the texts,
/// colors, numbers and scale.
pub proof fn markup_ignores_strings(
    c1: CaptureView,
    t1: ThemeView,
    p1: PaletteView,
    s1: nat,
    c2: CaptureView,
    t2: ThemeView,
    p2: PaletteView,
    s2: nat,
)
    requires
        same_card_shape(c1, t1, c2, t2),
    ensures
        markup_of(svg_document(c1, t1, p1, s1)) == markup_of(svg_document(c2, t2, p2, s2)),
{
    broadcast use markup_add, escape_markup_free;
    let g1 = geometry(c1, t1, s1);
    let g2 = geometry(c2, t2, s2);
    head_markup(g1, t1, g2, t2);
    text_elem_markup(
        g1.wi + g1.pad, crate::export::prompt_y(g1), escape_text(crate::export::prompt_text(c1, t1)), t1.accent,
        100 * g1.u, true, false,
        g2.wi + g2.pad, crate::export::prompt_y(g2), escape_text(crate::export::prompt_text(c2, t2)), t2.accent,
        100 * g2.u, true, false,
        "start"@,
    );
    assert(markup_of(svg_prompt(g1, c1, t1)) == markup_of(svg_prompt(g2, c2, t2)));
    lines_markup(c1.lines, g1.wi + g1.pad, crate::export::prompt_y(g1) + g1.lh, g1, t1, p1,
        c2.lines, g2.wi + g2.pad, crate::export::prompt_y(g2) + g2.lh, g2, t2, p2);
    assert(markup_of(svg_body(g1, c1, t1, p1)) == markup_of(svg_body(g2, c2, t2, p2)));
}

/// Runs are drawn in order, each after the runs before it: run `i` of a line
/// follows the first `i` runs in the document, at the line's left edge plus
/// `0.6 × font size` per display column of those runs.
pub proof fn runs_drawn_in_order(runs: Seq<RunView>, i: int, x0: int, y: int, g: Geometry, t: ThemeView, p: PaletteView)
    requires
        0 <= i < runs.len(),
    ensures
        runs_svg(runs.take(i + 1), x0, y, g, t, p) == runs_svg(runs.take(i), x0, y, g, t, p) + run_svg(
            runs[i],
            x0 + 60 * (line_width(runs.take(i)) * g.u),
            y,
            g,
            t,
            p,
        ),
{
    assert(runs.take(i + 1).drop_last() =~= runs.take(i));
    assert(runs.take(i + 1).last() == runs[i]);
}

/// Lines are drawn in order, each one line height below the previous: line
/// `k` of the body follows the first `k` lines, on the baseline `k` line
/// heights below the first output line.
pub proof fn lines_drawn_in_order(c: CaptureView, k: int, t: ThemeView, p: PaletteView, s: nat)
    requires
        0 <= k < c.lines.len(),
    ensures
        ({
            let g = geometry(c, t, s);
            let x0 = g.wi + g.pad;
            let y1 = prompt_y(g) + g.lh;
            lines_svg(c.lines.take(k + 1), x0, y1, g, t, p) == lines_svg(c.lines.take(k), x0, y1, g, t, p)
                + runs_svg(c.lines[k], x0, y1 + k * g.lh, g, t, p)
        }),
{
    assert(c.lines.take(k + 1).drop_last() =~= c.lines.take(k));
    assert(c.lines.take(k + 1).last() == c.lines[k]);
}

/// The font attributes of a run's `<text>` element, written from the run's
/// own flags: weight `bold` exactly when the run is bold, style `italic`
/// exactly when it is italic.
pub open spec fn font_attrs(bold: bool, italic: bool) -> Seq<char> {
    "\" font-family=\"JetBrains Mono\" font-weight=\""@ + (if bold { "bold"@ } else { "normal"@ })
        + "\" font-style=\""@ + (if italic { "italic"@ } else { "normal"@ }) + "\" font-size=\""@
}

/// A run is drawn bold exactly when it is bold and italic exactly when it is
/// italic: its fragment of the card holds the font attributes of its own
/// flags.
pub proof fn run_font_follows_flags(r: RunView, x: int, y: int, g: Geometry, t: ThemeView, p: PaletteView)
    ensures
        exists|a: Seq<char>, b: Seq<char>| run_svg(r, x, y, g, t, p) == #[trigger] (a + font_attrs(r.bold, r.italic) + b),
{
    reveal(text_open);
    let wr = crate::export::run_advance(r, g);
    let fill = crate::export::run_fill(r, t, p);
    let bg_part = match r.bg {
        Some(bc) => rect_elem(x, y - 80 * g.u, wr, g.lh, crate::export::color_text(bc, t, p, t.foreground)),
        None => Seq::<char>::empty(),
    };
    let ul_part = if r.underline {
        line_elem(x, y + 15 * g.u, x + wr, fill, 6 * g.u)
    } else {
        Seq::<char>::empty()
    };
    let a = bg_part + "<text xml:space=\"preserve\" x=\""@ + num(x) + "\" y=\""@ + num(y);
    let b = num(100 * g.u) + text_close(escape_text(r.text), fill, "start"@) + ul_part;
    assert(run_svg(r, x, y, g, t, p) =~= a + font_attrs(r.bold, r.italic) + b);
}

proof fn runs_prefix(rs: Seq<RunView>, j: int, x0: int, y: int, g: Geometry, t: ThemeView, p: PaletteView) -> (tail: Seq<char>)
    requires
        0 <= j <= rs.len(),
    ensures
        runs_svg(rs, x0, y, g, t, p) == runs_svg(rs.take(j), x0, y, g, t, p) + tail,
    decreases rs.len(),
{
    if j == rs.len() {
        assert(rs.take(j) =~= rs);
        assert(runs_svg(rs, x0, y, g, t, p) =~= runs_svg(rs.take(j), x0, y, g, t, p) + Seq::<char>::empty());
        Seq::<char>::empty()
    } else {
        let t0 = runs_prefix(rs.drop_last(), j, x0, y, g, t, p);
        assert(rs.drop_last().take(j) =~= rs.take(j));
        let last = run_svg(rs.last(), x0 + 60 * (line_width(rs.drop_last()) * g.u), y, g, t, p);
        assert(runs_svg(rs, x0, y, g, t, p) =~= runs_svg(rs.take(j), x0, y, g, t, p) + (t0 + last));
        t0 + last
    }
}

proof fn lines_prefix(ls: Seq<Seq<RunView>>, j: int, x0: int, y1: int, g: Geometry, t: ThemeView, p: PaletteView) -> (tail: Seq<char>)
    requires
        0 <= j <= ls.len(),
    ensures
        lines_svg(ls, x0, y1, g, t, p) == lines_svg(ls.take(j), x0, y1, g, t, p) + tail,
    decreases ls.len(),
{
    if j == ls.len() {
        assert(ls.take(j) =~= ls);
        assert(lines_svg(ls, x0, y1, g, t, p) =~= lines_svg(ls.take(j), x0, y1, g, t, p) + Seq::<char>::empty());
        Seq::<char>::empty()
    } else {
        let t0 = lines_prefix(ls.drop_last(), j, x0, y1, g, t, p);
        assert(ls.drop_last().take(j) =~= ls.take(j));
        let last = runs_svg(ls.last(), x0, y1 + (ls.len() - 1) * g.lh, g, t, p);
        assert(lines_svg(ls, x0, y1, g, t, p) =~= lines_svg(ls.take(j), x0, y1, g, t, p) + (t0 + last));
        t0 + last
    }
}

/// Every run of the capture is drawn in the card: run `i` of line `k` stands
/// in the document at the left edge plus 0.6 font size per display column of
/// the runs before it, on the baseline `k` line heights below the first
/// output line.
pub proof fn document_draws_run(c: CaptureView, t: ThemeView, p: PaletteView, s: nat, k: int, i: int)
    requires
        0 <= k < c.lines.len(),
        0 <= i < c.lines[k].len(),
    ensures
        ({
            let g = geometry(c, t, s);
            exists|a: Seq<char>, b: Seq<char>| svg_document(c, t, p, s) == #[trigger] (a + run_svg(
                c.lines[k][i],
                g.wi + g.pad + 60 * (line_width(c.lines[k].take(i)) * g.u),
                prompt_y(g) + g.lh + k * g.lh,
                g,
                t,
                p,
            ) + b)
        }),
{
    let g = geometry(c, t, s);
    let x0 = g.wi + g.pad;
    let y1 = prompt_y(g) + g.lh;
    let y = y1 + k * g.lh;
    let line = c.lines[k];
    let r = run_svg(line[i], x0 + 60 * (line_width(line.take(i)) * g.u), y, g, t, p);
    // Within the line.
    let rt = runs_prefix(line, i + 1, x0, y, g, t, p);
    runs_drawn_in_order(line, i, x0, y, g, t, p);
    let before_run = runs_svg(line.take(i), x0, y, g, t, p);
    assert(runs_svg(line, x0, y, g, t, p) == before_run + r + rt);
    // Within the body.
    let lt = lines_prefix(c.lines, k + 1, x0, y1, g, t, p);
    lines_drawn_in_order(c, k, t, p, s);
    let before_line = lines_svg(c.lines.take(k), x0, y1, g, t, p);
    assert(svg_body(g, c, t, p) == before_line + runs_svg(line, x0, y, g, t, p) + lt);
    // Within the document.
    let head = svg_head(g, t.backdrop) + (if t.show_shadow { svg_shadow(g) } else { Seq::<char>::empty() })
        + svg_window(g, t.background) + (if t.show_traffic_lights {
        svg_title_bar(g, t)
    } else {
        Seq::<char>::empty()
    }) + svg_prompt(g, c, t);
    let a = head + before_line + before_run;
    let b = rt + lt + "</g></svg>"@;
    assert(svg_document(c, t, p, s) =~= a + r + b);
}

} // verus!
