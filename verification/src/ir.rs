//! The capture model: styled runs of text, lines of runs, and the whole
//! captured screen with the command line that produced it.
use vstd::prelude::*;
use vt100::Color as VtColor;

verus! {

/// Color of a cell. `Default` is the theme's foreground color;
/// `DefaultInverted` is the theme's background (reverse video).
#[derive(Debug, Clone, Copy, PartialEq, Eq, Structural)]
pub enum Color {
    Indexed(u8),
    Rgb(u8, u8, u8),
    /// Never produced from a terminal screen (a default foreground is `None`
    /// on a run); accepted for captures written by earlier versions.
    Default,
    DefaultInverted,
}

/// Contiguous span of text with uniform style.
#[derive(Debug, Clone, PartialEq, Eq)]
pub struct Run {
    pub text: String,
    pub fg: Option<Color>,
    pub bg: Option<Color>,
    pub bold: bool,
    pub italic: bool,
    pub underline: bool,
}

/// Abstract value of a `Run`.
pub struct RunView {
    pub text: Seq<char>,
    pub fg: Option<Color>,
    pub bg: Option<Color>,
    pub bold: bool,
    pub italic: bool,
    pub underline: bool,
}

impl View for Run {
    type V = RunView;

    open spec fn view(&self) -> RunView {
        RunView {
            text: self.text@,
            fg: self.fg,
            bg: self.bg,
            bold: self.bold,
            italic: self.italic,
            underline: self.underline,
        }
    }
}

#[derive(Debug, Clone, PartialEq, Eq)]
pub struct Line {
    pub runs: Vec<Run>,
}

/// The runs of a vector, each by its view.
pub open spec fn runs_view(runs: Seq<Run>) -> Seq<RunView> {
    runs.map_values(|r: Run| r@)
}

impl View for Line {
    type V = Seq<RunView>;

    open spec fn view(&self) -> Seq<RunView> {
        runs_view(self.runs@)
    }
}

/// Full capture: logical grid size, the command line to show, and the lines.
#[derive(Debug, Clone, PartialEq, Eq)]
pub struct Capture {
    pub cols: u16,
    pub rows: u16,
    pub command_line: String,
    pub lines: Vec<Line>,
}

/// Abstract value of a `Capture`.
pub struct CaptureView {
    pub cols: u16,
    pub rows: u16,
    pub command_line: Seq<char>,
    pub lines: Seq<Seq<RunView>>,
}

/// The lines of a vector, each by its view.
pub open spec fn lines_view(lines: Seq<Line>) -> Seq<Seq<RunView>> {
    lines.map_values(|l: Line| l@)
}

impl View for Capture {
    type V = CaptureView;

    open spec fn view(&self) -> CaptureView {
        CaptureView {
            cols: self.cols,
            rows: self.rows,
            command_line: self.command_line@,
            lines: lines_view(self.lines@),
        }
    }
}

impl Line {
    pub fn from_runs(runs: Vec<Run>) -> (l: Line)
        ensures
            l.runs@ == runs@,
    {
        Line { runs }
    }

    pub fn empty() -> (l: Line)
        ensures
            l.runs@.len() == 0,
    {
        Line { runs: Vec::new() }
    }
}

/// Sum of the display widths of the runs of a line.
pub open spec fn line_width(runs: Seq<RunView>) -> nat
    decreases runs.len(),
{
    if runs.len() == 0 {
        0
    } else {
        line_width(runs.drop_last()) + display_width(runs.last().text) as nat
    }
}

/// The largest of `floor` and the widths of the lines.
pub open spec fn widest(lines: Seq<Seq<RunView>>, floor: nat) -> nat
    decreases lines.len(),
{
    if lines.len() == 0 {
        floor
    } else {
        let w = widest(lines.drop_last(), floor);
        let l = line_width(lines.last());
        if l > w { l } else { w }
    }
}

/// The width of a line is at least that of any prefix of its runs.
pub proof fn line_width_prefix(runs: Seq<RunView>, i: int)
    requires
        0 <= i <= runs.len(),
    ensures
        line_width(runs.take(i)) <= line_width(runs),
    decreases runs.len(),
{
    if i < runs.len() {
        assert(runs.drop_last().take(i) =~= runs.take(i));
        line_width_prefix(runs.drop_last(), i);
    } else {
        assert(runs.take(i) =~= runs);
    }
}

/// Every line is at most as wide as the widest.
pub proof fn widest_bounds_lines(lines: Seq<Seq<RunView>>, floor: nat, k: int)
    requires
        0 <= k < lines.len(),
    ensures
        line_width(lines[k]) <= widest(lines, floor),
        floor <= widest(lines, floor),
    decreases lines.len(),
{
    if k < lines.len() - 1 {
        widest_bounds_lines(lines.drop_last(), floor, k);
    } else if lines.len() > 1 {
        widest_bounds_lines(lines.drop_last(), floor, 0);
    }
}

/// Total display width of the runs of a line.
pub fn line_width_of(line: &Line) -> (w: u128)
    ensures
        w == line_width(line@),
{
    let mut sum: u128 = 0;
    let mut i: usize = 0;
    let ghost runs = line@;
    while i < line.runs.len()
        invariant
            i <= line.runs@.len(),
            runs == line@,
            runs.len() == line.runs@.len(),
            sum == line_width(runs.take(i as int)),
            sum <= i * 0xFFFF_FFFF_FFFF_FFFFint,
        decreases line.runs@.len() - i,
    {
        let w = str_width(line.runs[i].text.as_str());
        proof {
            assert(runs[i as int] == line.runs@[i as int]@);
            assert(runs.take(i + 1).drop_last() =~= runs.take(i as int));
            assert(w <= 0xFFFF_FFFF_FFFF_FFFFint);
            assert(i < 0xFFFF_FFFF_FFFF_FFFFint + 1);
            assert(sum + w <= (i + 1) * 0xFFFF_FFFF_FFFF_FFFFint) by (nonlinear_arith)
                requires
                    sum <= i * 0xFFFF_FFFF_FFFF_FFFFint,
                    w <= 0xFFFF_FFFF_FFFF_FFFFint,
            ;
            assert((i + 1) * 0xFFFF_FFFF_FFFF_FFFFint <= 0xFFFF_FFFF_FFFF_FFFF_FFFF_FFFF_FFFF_FFFFint)
                by (nonlinear_arith)
                requires
                    i + 1 <= 0x1_0000_0000_0000_0000int,
            ;
        }
        sum = sum + w as u128;
        i = i + 1;
    }
    assert(runs.take(line.runs@.len() as int) =~= runs);
    sum
}

/// The largest of `floor` and the widths of the lines.
pub fn widest_of(lines: &Vec<Line>, floor: u128) -> (w: u128)
    ensures
        w == widest(lines@.map_values(|l: Line| l@), floor as nat),
{
    let ghost ls = lines@.map_values(|l: Line| l@);
    let mut best = floor;
    let mut i: usize = 0;
    while i < lines.len()
        invariant
            i <= lines@.len(),
            ls == lines@.map_values(|l: Line| l@),
            best == widest(ls.take(i as int), floor as nat),
        decreases lines@.len() - i,
    {
        let l = line_width_of(&lines[i]);
        proof {
            assert(ls.take(i + 1).drop_last() =~= ls.take(i as int));
            assert(ls.take(i + 1).last() == lines@[i as int]@);
        }
        if l > best {
            best = l;
        }
        i = i + 1;
    }
    assert(ls.take(lines@.len() as int) =~= ls);
    best
}

/// Display width in terminal columns of a string, as the `unicode-width`
/// crate measures it (wide CJK characters count two columns).
pub uninterp spec fn display_width(s: Seq<char>) -> usize;

/// Display width of a string in terminal columns (wide CJK chars count 2).
///
/// Calls `unicode_width::UnicodeWidthStr::width`; the contract only ties the
/// result to the string through `display_width`, and says nothing of its value.
#[verifier::external_body]
pub fn str_width(s: &str) -> (w: usize)
    ensures
        w == display_width(s@),
{
    unicode_width::UnicodeWidthStr::width(s)
}

/// The `vt100` terminal parser, held opaque: the library reads it only
/// through `VtScreen`.
#[verifier::external_body]
pub struct VtParser {
    parser: vt100::Parser,
}

/// Color of a terminal cell, as the terminal emulator reports it.
#[derive(Debug, Clone, Copy, PartialEq, Eq, Structural)]
pub enum TermColor {
    Default,
    Idx(u8),
    Rgb(u8, u8, u8),
}

/// What the capture reads of one terminal cell.
#[derive(Debug, Clone)]
pub struct CellInfo {
    pub contents: String,
    pub has_contents: bool,
    pub wide_continuation: bool,
    pub fg: TermColor,
    pub bg: TermColor,
    pub bold: bool,
    pub italic: bool,
    pub underline: bool,
    pub inverse: bool,
}

/// Abstract value of a `CellInfo`.
pub struct CellView {
    pub contents: Seq<char>,
    pub has_contents: bool,
    pub wide_continuation: bool,
    pub fg: TermColor,
    pub bg: TermColor,
    pub bold: bool,
    pub italic: bool,
    pub underline: bool,
    pub inverse: bool,
}

impl View for CellInfo {
    type V = CellView;

    open spec fn view(&self) -> CellView {
        CellView {
            contents: self.contents@,
            has_contents: self.has_contents,
            wide_continuation: self.wide_continuation,
            fg: self.fg,
            bg: self.bg,
            bold: self.bold,
            italic: self.italic,
            underline: self.underline,
            inverse: self.inverse,
        }
    }
}

/// The cell at `(row, col)` of a `rows` × `cols` terminal (no scrollback)
/// after the `vt100` crate's parser has processed `input`; `None` outside
/// the grid.
pub uninterp spec fn vt_cell(input: Seq<u8>, rows: u16, cols: u16, row: u16, col: u16) -> Option<CellView>;

/// A terminal screen: the `vt100` parser fed with a byte stream.
pub struct VtScreen {
    term: VtParser,
    rows: u16,
    cols: u16,
    input: Ghost<Seq<u8>>,
}

impl VtScreen {
    /// All bytes the screen has processed, in order.
    pub closed spec fn input(&self) -> Seq<u8> {
        self.input@
    }

    pub closed spec fn spec_rows(&self) -> u16 {
        self.rows
    }

    pub closed spec fn spec_cols(&self) -> u16 {
        self.cols
    }

    /// A blank `rows` × `cols` screen without scrollback.
    ///
    /// Calls `vt100::Parser::new(rows, cols, 0)`, which panics on a zero
    /// row count. The parser's drawing code panics on a zero column count,
    /// and on a single column when it draws a double-width character, so a
    /// screen has at least two columns.
    #[verifier::external_body]
    pub fn new(rows: u16, cols: u16) -> (s: VtScreen)
        requires
            rows >= 1,
            cols >= 2,
        ensures
            s.input() == Seq::<u8>::empty(),
            s.spec_rows() == rows,
            s.spec_cols() == cols,
    {
        VtScreen { term: VtParser { parser: vt100::Parser::new(rows, cols, 0) }, rows, cols, input: Ghost(Seq::empty()) }
    }

    /// Feeds terminal output to the screen.
    ///
    /// Calls `vt100::Parser::process`. The contract models the parser's state
    /// as the bytes it has processed: feeding two chunks leaves the screen the
    /// same as feeding their concatenation.
    #[verifier::external_body]
    pub fn process(&mut self, bytes: &[u8])
        requires
            old(self).spec_rows() >= 1,
            old(self).spec_cols() >= 2,
        ensures
            final(self).input() == old(self).input() + bytes@,
            final(self).spec_rows() == old(self).spec_rows(),
            final(self).spec_cols() == old(self).spec_cols(),
    {
        self.term.parser.process(bytes);
        self.input = Ghost(self.input@ + bytes@);
    }

    /// Size of the screen as `(rows, cols)`.
    pub fn size(&self) -> (r: (u16, u16))
        ensures
            r == (self.spec_rows(), self.spec_cols()),
    {
        (self.rows, self.cols)
    }

    /// The cell at `(row, col)`, `None` outside the grid.
    ///
    /// Calls `vt100::Screen::cell` on the parser's screen and reads the cell's
    /// contents, flags, colors and attributes. The contract only ties the
    /// answer to the processed bytes and the size through `vt_cell`.
    #[verifier::external_body]
    pub fn cell(&self, row: u16, col: u16) -> (c: Option<CellInfo>)
        ensures
            match c {
                Some(ci) => vt_cell(self.input(), self.spec_rows(), self.spec_cols(), row, col) == Some(ci@),
                None => vt_cell(self.input(), self.spec_rows(), self.spec_cols(), row, col) is None,
            },
    {
        let color = |c: VtColor| match c {
            VtColor::Default => TermColor::Default,
            VtColor::Idx(i) => TermColor::Idx(i),
            VtColor::Rgb(r, g, b) => TermColor::Rgb(r, g, b),
        };
        self.term.parser.screen().cell(row, col).map(|c| CellInfo {
            contents: c.contents().to_string(), has_contents: c.has_contents(),
            wide_continuation: c.is_wide_continuation(), fg: color(c.fgcolor()), bg: color(c.bgcolor()),
            bold: c.bold(), italic: c.italic(), underline: c.underline(), inverse: c.inverse(),
        })
    }
}

/// Run color of a terminal color; a default color is `None`, or
/// `DefaultInverted` under reverse video.
pub open spec fn to_color(c: TermColor, inverted: bool) -> Option<Color> {
    match c {
        TermColor::Default => if inverted { Some(Color::DefaultInverted) } else { None },
        TermColor::Idx(i) => Some(Color::Indexed(i)),
        TermColor::Rgb(r, g, b) => Some(Color::Rgb(r, g, b)),
    }
}

/// A run holding `text` in the style of a cell; reverse video swaps the
/// foreground and background.
pub open spec fn cell_run_view(cell: CellView, text: Seq<char>) -> RunView {
    RunView {
        text: text,
        fg: if cell.inverse { to_color(cell.bg, true) } else { to_color(cell.fg, false) },
        bg: if cell.inverse { to_color(cell.fg, true) } else { to_color(cell.bg, false) },
        bold: cell.bold,
        italic: cell.italic,
        underline: cell.underline,
    }
}

/// Whether two runs have the same style.
pub open spec fn same_style(a: RunView, b: RunView) -> bool {
    &&& a.fg == b.fg
    &&& a.bg == b.bg
    &&& a.bold == b.bold
    &&& a.italic == b.italic
    &&& a.underline == b.underline
}

/// Adds a run at the end of a line, joining it to the last run when both
/// have the same style.
pub open spec fn merge_into(runs: Seq<RunView>, next: RunView) -> Seq<RunView> {
    if runs.len() > 0 && same_style(runs.last(), next) {
        runs.drop_last().push(RunView { text: runs.last().text + next.text, ..runs.last() })
    } else {
        runs.push(next)
    }
}

/// A cell with text of its own: written, and not the right half of a wide
/// character.
pub open spec fn written(c: Option<CellView>) -> bool {
    c matches Some(cell) && cell.has_contents && !cell.wide_continuation
}

/// Runs after the gap cells `from..to` of a row, each a space in the gap
/// cell's style (right halves of wide characters and missing cells skipped).
pub open spec fn fill_gap(
    input: Seq<u8>,
    rows: u16,
    cols: u16,
    row: u16,
    runs: Seq<RunView>,
    from: int,
    to: int,
) -> Seq<RunView>
    decreases to - from,
{
    if to <= from {
        runs
    } else {
        let before = fill_gap(input, rows, cols, row, runs, from, to - 1);
        match vt_cell(input, rows, cols, row, (to - 1) as u16) {
            Some(gc) => if gc.wide_continuation {
                before
            } else {
                merge_into(before, cell_run_view(gc, seq![' ']))
            },
            None => before,
        }
    }
}

/// Runs of the first `n` columns of a row and the last written column: each
/// written cell, preceded by the gap since the previous written cell.
pub open spec fn scan_row(input: Seq<u8>, rows: u16, cols: u16, row: u16, n: nat) -> (Seq<RunView>, Option<u16>)
    decreases n,
{
    if n == 0 {
        (Seq::<RunView>::empty(), None)
    } else {
        let (runs, last) = scan_row(input, rows, cols, row, (n - 1) as nat);
        let col = (n - 1) as u16;
        let c = vt_cell(input, rows, cols, row, col);
        if written(c) {
            let cell = c->Some_0;
            let filled = match last {
                Some(p) => fill_gap(input, rows, cols, row, runs, p + 1, col as int),
                None => runs,
            };
            (merge_into(filled, cell_run_view(cell, cell.contents)), Some(col))
        } else {
            (runs, last)
        }
    }
}

/// The runs of one row of the screen.
pub open spec fn row_runs(input: Seq<u8>, rows: u16, cols: u16, row: u16) -> Seq<RunView> {
    scan_row(input, rows, cols, row, cols as nat).0
}

/// The capture of a screen: every row, and the command line.
pub open spec fn screen_capture(input: Seq<u8>, rows: u16, cols: u16, command_line: Seq<char>) -> CaptureView {
    CaptureView {
        cols: cols,
        rows: rows,
        command_line: command_line,
        lines: Seq::new(rows as nat, |r: int| row_runs(input, rows, cols, r as u16)),
    }
}

fn opt_color_eq(a: &Option<Color>, b: &Option<Color>) -> (r: bool)
    ensures
        r == (*a == *b),
{
    match (a, b) {
        (None, None) => true,
        (Some(x), Some(y)) => *x == *y,
        _ => false,
    }
}

/// Adds a run at the end of a line, joining it to the last run when both
/// have the same style (merging adjacent runs shrinks the capture).
pub fn merge_run(runs: &mut Vec<Run>, next: Run)
    ensures
        runs_view(final(runs)@) == merge_into(runs_view(old(runs)@), next@),
{
    let ghost before = runs_view(runs@);
    let n = runs.len();
    if n > 0 {
        let same = {
            let last = &runs[n - 1];
            opt_color_eq(&last.fg, &next.fg) && opt_color_eq(&last.bg, &next.bg) && last.bold == next.bold
                && last.italic == next.italic && last.underline == next.underline
        };
        assert(before.last() == runs@[n - 1]@);
        if same {
            let mut last = runs.pop().unwrap();
            last.text.append(next.text.as_str());
            runs.push(last);
            assert(runs_view(runs@) =~= merge_into(before, next@));
            return;
        }
    }
    runs.push(next);
    assert(runs_view(runs@) =~= merge_into(before, next@));
}

/// A run holding `text` in the style of a cell.
fn cell_run(cell: &CellInfo, text: String) -> (r: Run)
    ensures
        r@ == cell_run_view(cell@, text@),
{
    let (fg, bg) = convert_colors(cell.fg, cell.bg, cell.inverse);
    Run { text, fg, bg, bold: cell.bold, italic: cell.italic, underline: cell.underline }
}

/// Run colors of a cell's colors: with reverse video, foreground and
/// background are swapped and an inverted default is `DefaultInverted`.
fn convert_colors(fg: TermColor, bg: TermColor, inverse: bool) -> (r: (Option<Color>, Option<Color>))
    ensures
        r == (if inverse { (to_color(bg, true), to_color(fg, true)) } else { (to_color(fg, false), to_color(bg, false)) }),
{
    if inverse {
        (color_of(bg, true), color_of(fg, true))
    } else {
        (color_of(fg, false), color_of(bg, false))
    }
}

fn color_of(c: TermColor, inverted: bool) -> (r: Option<Color>)
    ensures
        r == to_color(c, inverted),
{
    match c {
        TermColor::Default => if inverted { Some(Color::DefaultInverted) } else { None },
        TermColor::Idx(i) => Some(Color::Indexed(i)),
        TermColor::Rgb(r, g, b) => Some(Color::Rgb(r, g, b)),
    }
}

/// Runs of one row of the screen.
fn row_from_screen(screen: &VtScreen, row: u16) -> (runs: Vec<Run>)
    ensures
        runs_view(runs@) == row_runs(screen.input(), screen.spec_rows(), screen.spec_cols(), row),
{
    let (rows, cols) = screen.size();
    let ghost input = screen.input();
    let mut runs: Vec<Run> = Vec::new();
    let mut last_col: Option<u16> = None;
    let mut col: u16 = 0;
    while col < cols
        invariant
            rows == screen.spec_rows(),
            cols == screen.spec_cols(),
            input == screen.input(),
            col <= cols,
            (runs_view(runs@), last_col) == scan_row(input, rows, cols, row, col as nat),
            last_col matches Some(p) ==> p < col,
        decreases cols - col,
    {
        let ghost prev_state = scan_row(input, rows, cols, row, col as nat);
        match screen.cell(row, col) {
            Some(cell) => {
                if cell.has_contents && !cell.wide_continuation {
                    match last_col {
                        Some(prev) => {
                            let ghost base = runs_view(runs@);
                            let mut gap_col: u16 = prev + 1;
                            while gap_col < col
                                invariant
                                    rows == screen.spec_rows(),
                                    cols == screen.spec_cols(),
                                    input == screen.input(),
                                    prev < gap_col <= col,
                                    runs_view(runs@) == fill_gap(input, rows, cols, row, base, prev + 1, gap_col as int),
                                decreases col - gap_col,
                            {
                                match screen.cell(row, gap_col) {
                                    Some(gap_cell) => {
                                        if !gap_cell.wide_continuation {
                                            merge_run(&mut runs, cell_run(&gap_cell, String::from_str(" ")));
                                            proof {
                                                reveal_strlit(" ");
                                                assert(" "@ =~= seq![' ']);
                                            }
                                        }
                                    },
                                    None => {},
                                }
                                gap_col = gap_col + 1;
                            }
                        },
                        None => {},
                    }
                    let text = cell.contents.clone();
                    merge_run(&mut runs, cell_run(&cell, text));
                    last_col = Some(col);
                }
            },
            None => {},
        }
        col = col + 1;
    }
    runs
}

/// Converts the final screen of a terminal into a capture.
///
/// Walks cell by cell, skips right halves of wide characters, and merges
/// contiguous cells with identical style into a single run. Gaps of
/// unwritten cells between written cells (tabs, cursor movement) are kept as
/// spaces styled with the gap cell's own attributes.
pub fn from_vt100(screen: &VtScreen, command_line: String) -> (c: Capture)
    ensures
        c@ == screen_capture(screen.input(), screen.spec_rows(), screen.spec_cols(), command_line@),
{
    let (rows, cols) = screen.size();
    let ghost input = screen.input();
    let mut lines: Vec<Line> = Vec::new();
    let mut row: u16 = 0;
    while row < rows
        invariant
            rows == screen.spec_rows(),
            cols == screen.spec_cols(),
            input == screen.input(),
            row <= rows,
            lines@.len() == row,
            forall|r: int| 0 <= r < row ==> #[trigger] lines@[r]@ == row_runs(input, rows, cols, r as u16),
        decreases rows - row,
    {
        let runs = row_from_screen(screen, row);
        lines.push(Line::from_runs(runs));
        row = row + 1;
    }
    let c = Capture { cols, rows, command_line, lines };
    assert(c@.lines =~= screen_capture(input, rows, cols, c.command_line@).lines);
    c
}

/// Number of lines up to the last line that has runs.
pub open spec fn content_len(lines: Seq<Seq<RunView>>) -> nat
    decreases lines.len(),
{
    if lines.len() == 0 {
        0
    } else if lines.last().len() > 0 {
        lines.len()
    } else {
        content_len(lines.drop_last())
    }
}

/// Widest line of a capture, command line included, in columns.
pub open spec fn capture_width(lines: Seq<Seq<RunView>>, command_line: Seq<char>) -> nat {
    widest(lines, display_width(command_line) as nat)
}

/// Whether a capture can be trimmed without overflow: the width of every kept
/// line fits a `usize`, and the content width plus one fits the 16-bit
/// column count after truncation to 16 bits.
pub open spec fn trim_fits(c: CaptureView) -> bool {
    let kept = c.lines.take(content_len(c.lines) as int);
    &&& forall|k: int| 0 <= k < kept.len() ==> line_width(#[trigger] kept[k]) <= usize::MAX
    &&& capture_width(kept, c.command_line) % 0x1_0000 != 0xFFFF
}

/// A capture trimmed to its content: trailing lines without runs removed,
/// `cols` the content width plus one (its low 16 bits), at most the capture's own,
/// and `rows` the number of kept lines, at most `u16::MAX`.
pub open spec fn trimmed_view(c: CaptureView) -> CaptureView {
    let kept = c.lines.take(content_len(c.lines) as int);
    let m = capture_width(kept, c.command_line) % 0x1_0000 + 1;
    CaptureView {
        cols: if m < c.cols { m as u16 } else { c.cols },
        rows: if kept.len() < 0xFFFF { kept.len() as u16 } else { 0xFFFF },
        command_line: c.command_line,
        lines: kept,
    }
}

proof fn content_len_bound(lines: Seq<Seq<RunView>>)
    ensures
        content_len(lines) <= lines.len(),
        content_len(lines) > 0 ==> lines[content_len(lines) - 1].len() > 0,
        forall|k: int| content_len(lines) <= k < lines.len() ==> #[trigger] lines[k].len() == 0,
    decreases lines.len(),
{
    if lines.len() > 0 && lines.last().len() == 0 {
        content_len_bound(lines.drop_last());
        assert forall|k: int| content_len(lines) <= k < lines.len() implies #[trigger] lines[k].len() == 0 by {
            if k < lines.len() - 1 {
                assert(lines.drop_last()[k] == lines[k]);
            }
        }
    }
}

impl Capture {
    /// Trims the capture to its content: removes trailing empty rows and
    /// adjusts `cols` to the real content width. `rows` ends up with the
    /// rows that have content.
    pub fn trimmed(self) -> (c: Capture)
        requires
            trim_fits(self@),
        ensures
            c@ == trimmed_view(self@),
    {
        let mut this = self;
        let ghost lv = this@.lines;
        proof {
            content_len_bound(lv);
            assert(lv.take(lv.len() as int) =~= lv);
        }
        let mut last_content: usize = this.lines.len();
        while last_content > 0 && this.lines[last_content - 1].runs.len() == 0
            invariant
                last_content <= this.lines@.len(),
                lv == this@.lines,
                lv.len() == this.lines@.len(),
                content_len(lv) <= last_content,
                content_len(lv) == content_len(lv.take(last_content as int)),
            decreases last_content,
        {
            proof {
                let t = lv.take(last_content as int);
                assert(t.last() == this.lines@[last_content - 1]@);
                assert(t.drop_last() =~= lv.take(last_content - 1));
                content_len_bound(lv.take(last_content - 1));
            }
            last_content = last_content - 1;
        }
        proof {
            let t = lv.take(last_content as int);
            if last_content > 0 {
                assert(t.last() == this.lines@[last_content - 1]@);
            }
            assert(content_len(lv) == last_content);
        }
        this.lines.truncate(last_content);
        let ghost kept = lv.take(last_content as int);
        assert(this@.lines =~= kept);
        let max_len = widest_of(&this.lines, str_width(this.command_line.as_str()) as u128);
        let m = (max_len % 0x1_0000) as u16 + 1;
        if m < this.cols {
            this.cols = m;
        }
        let n = this.lines.len();
        this.rows = if n < 0xFFFF { n as u16 } else { 0xFFFF };
        proof {
            assert(this.lines@.map_values(|l: Line| l@) =~= kept);
        }
        this
    }

    /// The capture trimmed to its content (see `trimmed`), or `None` when a
    /// line is wider than a `usize` can count or the content width plus one
    /// overflows the 16-bit column count.
    pub fn try_trimmed(self) -> (c: Option<Capture>)
        ensures
            match c {
                Some(t) => trim_fits(self@) && t@ == trimmed_view(self@),
                None => !trim_fits(self@),
            },
    {
        if Self::trim_fits_exec(&self) {
            Some(self.trimmed())
        } else {
            None
        }
    }

    fn trim_fits_exec(&self) -> (ok: bool)
        ensures
            ok == trim_fits(self@),
    {
        let ghost lv = self@.lines;
        proof {
            content_len_bound(lv);
            assert(lv.take(lv.len() as int) =~= lv);
        }
        let mut last_content: usize = self.lines.len();
        while last_content > 0 && self.lines[last_content - 1].runs.len() == 0
            invariant
                last_content <= self.lines@.len(),
                lv == self@.lines,
                lv.len() == self.lines@.len(),
                content_len(lv) <= last_content,
                content_len(lv) == content_len(lv.take(last_content as int)),
            decreases last_content,
        {
            proof {
                let t = lv.take(last_content as int);
                assert(t.last() == self.lines@[last_content - 1]@);
                assert(t.drop_last() =~= lv.take(last_content - 1));
                content_len_bound(lv.take(last_content - 1));
            }
            last_content = last_content - 1;
        }
        proof {
            let t = lv.take(last_content as int);
            if last_content > 0 {
                assert(t.last() == self.lines@[last_content - 1]@);
            }
            assert(content_len(lv) == last_content);
        }
        let ghost kept = lv.take(last_content as int);
        let mut best = str_width(self.command_line.as_str()) as u128;
        let mut k: usize = 0;
        while k < last_content
            invariant
                k <= last_content,
                last_content <= self.lines@.len(),
                lv == self@.lines,
                kept == lv.take(last_content as int),
                content_len(lv) == last_content,
                best == widest(kept.take(k as int), display_width(self.command_line@) as nat),
                forall|j: int| 0 <= j < k ==> line_width(#[trigger] kept[j]) <= usize::MAX,
            decreases last_content - k,
        {
            let w = line_width_of(&self.lines[k]);
            proof {
                assert(kept[k as int] == self.lines@[k as int]@);
                assert(kept.take(k + 1).drop_last() =~= kept.take(k as int));
            }
            if w > usize::MAX as u128 {
                proof {
                    let ks = self@.lines.take(content_len(self@.lines) as int);
                    assert(ks == kept);
                    assert(line_width(ks[k as int]) > usize::MAX);
                }
                return false;
            }
            if w > best {
                best = w;
            }
            k = k + 1;
        }
        assert(kept.take(last_content as int) =~= kept);
        best % 0x1_0000 != 0xFFFF
    }
}

/// The text of a line: the texts of its runs, in order.
pub open spec fn runs_text(runs: Seq<RunView>) -> Seq<char>
    decreases runs.len(),
{
    if runs.len() == 0 {
        Seq::<char>::empty()
    } else {
        runs_text(runs.drop_last()) + runs.last().text
    }
}

/// No two adjacent runs of a line have the same style.
pub open spec fn runs_maximal(runs: Seq<RunView>) -> bool {
    forall|i: int| 0 <= i < runs.len() - 1 ==> !same_style(#[trigger] runs[i], runs[i + 1])
}

/// Text of the gap cells `from..to` of a row: a space for each gap cell.
pub open spec fn gap_text(input: Seq<u8>, rows: u16, cols: u16, row: u16, from: int, to: int) -> Seq<char>
    decreases to - from,
{
    if to <= from {
        Seq::<char>::empty()
    } else {
        gap_text(input, rows, cols, row, from, to - 1) + match vt_cell(input, rows, cols, row, (to - 1) as u16) {
            Some(gc) => if gc.wide_continuation { Seq::<char>::empty() } else { seq![' '] },
            None => Seq::<char>::empty(),
        }
    }
}

/// Text of the first `n` columns of a row and the last written column: the
/// contents of each written cell, preceded by a space for each gap cell since
/// the previous written cell.
pub open spec fn scan_text(input: Seq<u8>, rows: u16, cols: u16, row: u16, n: nat) -> (Seq<char>, Option<u16>)
    decreases n,
{
    if n == 0 {
        (Seq::<char>::empty(), None)
    } else {
        let (text, last) = scan_text(input, rows, cols, row, (n - 1) as nat);
        let col = (n - 1) as u16;
        let c = vt_cell(input, rows, cols, row, col);
        if written(c) {
            let gap = match last {
                Some(p) => gap_text(input, rows, cols, row, p + 1, col as int),
                None => Seq::<char>::empty(),
            };
            (text + gap + c->Some_0.contents, Some(col))
        } else {
            (text, last)
        }
    }
}

/// Merging a run into a line adds its text at the end.
pub proof fn merge_keeps_text(runs: Seq<RunView>, next: RunView)
    ensures
        runs_text(merge_into(runs, next)) == runs_text(runs) + next.text,
{
    if runs.len() > 0 && same_style(runs.last(), next) {
        let m = merge_into(runs, next);
        assert(m.drop_last() =~= runs.drop_last());
        assert(runs_text(m) =~= runs_text(runs) + next.text);
    } else {
        assert(merge_into(runs, next).drop_last() =~= runs);
    }
}

/// Merging a run into a line whose adjacent runs differ in style keeps them
/// differing.
pub proof fn merge_keeps_maximal(runs: Seq<RunView>, next: RunView)
    requires
        runs_maximal(runs),
    ensures
        runs_maximal(merge_into(runs, next)),
{
    let m = merge_into(runs, next);
    assert forall|i: int| 0 <= i < m.len() - 1 implies !same_style(#[trigger] m[i], m[i + 1]) by {
        if runs.len() > 0 && same_style(runs.last(), next) {
            assert(m[i] == runs[i]);
            if i + 1 < runs.len() - 1 {
                assert(m[i + 1] == runs[i + 1]);
            } else {
                assert(same_style(m[i + 1], runs[i + 1]));
            }
        } else {
            assert(m[i] == runs[i]);
            if i + 1 < runs.len() {
                assert(m[i + 1] == runs[i + 1]);
            }
        }
    }
}

proof fn fill_gap_laws(input: Seq<u8>, rows: u16, cols: u16, row: u16, runs: Seq<RunView>, from: int, to: int)
    requires
        runs_maximal(runs),
    ensures
        runs_maximal(fill_gap(input, rows, cols, row, runs, from, to)),
        runs_text(fill_gap(input, rows, cols, row, runs, from, to)) == runs_text(runs) + gap_text(
            input,
            rows,
            cols,
            row,
            from,
            to,
        ),
    decreases to - from,
{
    if to > from {
        fill_gap_laws(input, rows, cols, row, runs, from, to - 1);
        let before = fill_gap(input, rows, cols, row, runs, from, to - 1);
        match vt_cell(input, rows, cols, row, (to - 1) as u16) {
            Some(gc) => {
                if !gc.wide_continuation {
                    let r = cell_run_view(gc, seq![' ']);
                    merge_keeps_maximal(before, r);
                    merge_keeps_text(before, r);
                    assert(runs_text(merge_into(before, r)) =~= runs_text(runs) + gap_text(input, rows, cols, row, from, to));
                } else {
                    assert(gap_text(input, rows, cols, row, from, to) =~= gap_text(input, rows, cols, row, from, to - 1));
                }
            },
            None => {
                assert(gap_text(input, rows, cols, row, from, to) =~= gap_text(input, rows, cols, row, from, to - 1));
            },
        }
    } else {
        assert(runs_text(runs) + gap_text(input, rows, cols, row, from, to) =~= runs_text(runs));
    }
}

proof fn scan_row_laws(input: Seq<u8>, rows: u16, cols: u16, row: u16, n: nat)
    requires
        n <= 0x1_0000,
    ensures
        runs_maximal(scan_row(input, rows, cols, row, n).0),
        runs_text(scan_row(input, rows, cols, row, n).0) == scan_text(input, rows, cols, row, n).0,
        scan_row(input, rows, cols, row, n).1 == scan_text(input, rows, cols, row, n).1,
    decreases n,
{
    if n > 0 {
        scan_row_laws(input, rows, cols, row, (n - 1) as nat);
        let (runs, last) = scan_row(input, rows, cols, row, (n - 1) as nat);
        let col = (n - 1) as u16;
        let c = vt_cell(input, rows, cols, row, col);
        if written(c) {
            let cell = c->Some_0;
            let filled = match last {
                Some(p) => fill_gap(input, rows, cols, row, runs, p + 1, col as int),
                None => runs,
            };
            match last {
                Some(p) => fill_gap_laws(input, rows, cols, row, runs, p + 1, col as int),
                None => {
                    assert(runs_text(runs) + Seq::<char>::empty() =~= runs_text(runs));
                },
            }
            let r = cell_run_view(cell, cell.contents);
            merge_keeps_maximal(filled, r);
            merge_keeps_text(filled, r);
        }
    }
}

/// Adjacent runs of every line of a screen capture differ in style:
/// contiguous cells of one style are merged into one run.
pub proof fn screen_lines_merged(input: Seq<u8>, rows: u16, cols: u16, command_line: Seq<char>, r: int)
    requires
        0 <= r < rows,
    ensures
        runs_maximal(screen_capture(input, rows, cols, command_line).lines[r]),
{
    scan_row_laws(input, rows, cols, r as u16, cols as nat);
}

/// Merging only joins text: the text of every line of a screen capture is
/// the contents of its written cells, left to right, with a space for each
/// gap cell between two written cells.
pub proof fn screen_lines_text(input: Seq<u8>, rows: u16, cols: u16, command_line: Seq<char>, r: int)
    requires
        0 <= r < rows,
    ensures
        runs_text(screen_capture(input, rows, cols, command_line).lines[r]) == scan_text(
            input,
            rows,
            cols,
            r as u16,
            cols as nat,
        ).0,
{
    scan_row_laws(input, rows, cols, r as u16, cols as nat);
}

proof fn content_len_of_kept(lines: Seq<Seq<RunView>>)
    ensures
        content_len(lines.take(content_len(lines) as int)) == content_len(lines),
    decreases lines.len(),
{
    content_len_bound(lines);
    let n = content_len(lines) as int;
    let kept = lines.take(n);
    if n > 0 {
        assert(kept.last() == lines[n - 1]);
    }
}

/// Trimming is idempotent: a trimmed capture trims to itself.
pub proof fn trimmed_idempotent(c: CaptureView)
    requires
        trim_fits(c),
    ensures
        trim_fits(trimmed_view(c)),
        trimmed_view(trimmed_view(c)) == trimmed_view(c),
{
    content_len_of_kept(c.lines);
    content_len_bound(c.lines);
    let t = trimmed_view(c);
    let kept = c.lines.take(content_len(c.lines) as int);
    assert(t.lines == kept);
    assert(kept.take(content_len(kept) as int) =~= kept);
}

/// A terminal color as the card draws it: an index or an RGB triple as it
/// is; the default color as the theme's (`None`), or as the theme's opposite
/// color under reverse video.
pub open spec fn drawn_color(c: TermColor, inverse: bool) -> Option<Color> {
    match c {
        TermColor::Idx(i) => Some(Color::Indexed(i)),
        TermColor::Rgb(r, g, b) => Some(Color::Rgb(r, g, b)),
        TermColor::Default => if inverse { Some(Color::DefaultInverted) } else { None },
    }
}

/// The style a cell is drawn in, written from the cell itself: reverse video
/// swaps its foreground and background (a default color then standing for
/// the theme's opposite color), and bold, italic and underline are kept.
pub open spec fn run_has_cell_style(run: RunView, cell: CellView) -> bool {
    &&& run.fg == drawn_color(if cell.inverse { cell.bg } else { cell.fg }, cell.inverse)
    &&& run.bg == drawn_color(if cell.inverse { cell.fg } else { cell.bg }, cell.inverse)
    &&& run.bold == cell.bold
    &&& run.italic == cell.italic
    &&& run.underline == cell.underline
}

/// The runs of `b` extend those of `a`: at least as many, and each run of `a`
/// keeps its style in `b` (only its text may grow).
pub open spec fn keeps_styles(a: Seq<RunView>, b: Seq<RunView>) -> bool {
    &&& a.len() <= b.len()
    &&& forall|i: int| 0 <= i < a.len() ==> same_style(#[trigger] b[i], a[i])
}

proof fn merge_keeps_styles(runs: Seq<RunView>, next: RunView)
    ensures
        keeps_styles(runs, merge_into(runs, next)),
        merge_into(runs, next).len() >= 1,
        same_style(merge_into(runs, next).last(), next),
{
    let m = merge_into(runs, next);
    assert forall|i: int| 0 <= i < runs.len() implies same_style(#[trigger] m[i], runs[i]) by {
        if runs.len() > 0 && same_style(runs.last(), next) && i == runs.len() - 1 {
        } else {
            assert(m[i] == runs[i]);
        }
    }
}

proof fn fill_gap_keeps_styles(input: Seq<u8>, rows: u16, cols: u16, row: u16, runs: Seq<RunView>, from: int, to: int)
    ensures
        keeps_styles(runs, fill_gap(input, rows, cols, row, runs, from, to)),
    decreases to - from,
{
    if to > from {
        fill_gap_keeps_styles(input, rows, cols, row, runs, from, to - 1);
        let before = fill_gap(input, rows, cols, row, runs, from, to - 1);
        match vt_cell(input, rows, cols, row, (to - 1) as u16) {
            Some(gc) => {
                if !gc.wide_continuation {
                    merge_keeps_styles(before, cell_run_view(gc, seq![' ']));
                }
            },
            None => {},
        }
    }
}

proof fn scan_row_keeps_styles(input: Seq<u8>, rows: u16, cols: u16, row: u16, n: nat, m: nat)
    requires
        n <= m,
    ensures
        keeps_styles(scan_row(input, rows, cols, row, n).0, scan_row(input, rows, cols, row, m).0),
    decreases m,
{
    if m > n {
        scan_row_keeps_styles(input, rows, cols, row, n, (m - 1) as nat);
        let (runs, last) = scan_row(input, rows, cols, row, (m - 1) as nat);
        let col = (m - 1) as u16;
        let c = vt_cell(input, rows, cols, row, col);
        if written(c) {
            let cell = c->Some_0;
            let filled = match last {
                Some(p) => fill_gap(input, rows, cols, row, runs, p + 1, col as int),
                None => runs,
            };
            match last {
                Some(p) => fill_gap_keeps_styles(input, rows, cols, row, runs, p + 1, col as int),
                None => {},
            }
            merge_keeps_styles(filled, cell_run_view(cell, cell.contents));
        }
    }
}

/// Every written cell of a screen is drawn in its own style: some run of its
/// row carries the cell's colors (swapped under reverse video) and its bold,
/// italic and underline.
pub proof fn cells_keep_their_style(input: Seq<u8>, rows: u16, cols: u16, command_line: Seq<char>, r: int, col: int)
    requires
        0 <= r < rows,
        0 <= col < cols,
        written(vt_cell(input, rows, cols, r as u16, col as u16)),
    ensures
        exists|j: int|
            0 <= j < screen_capture(input, rows, cols, command_line).lines[r].len() && run_has_cell_style(
                #[trigger] screen_capture(input, rows, cols, command_line).lines[r][j],
                vt_cell(input, rows, cols, r as u16, col as u16)->Some_0,
            ),
{
    let row = r as u16;
    let n = (col + 1) as nat;
    let cell = vt_cell(input, rows, cols, row, col as u16)->Some_0;
    let (runs, last) = scan_row(input, rows, cols, row, col as nat);
    let filled = match last {
        Some(p) => fill_gap(input, rows, cols, row, runs, p + 1, col),
        None => runs,
    };
    assert(((n - 1) as u16) == col as u16);
    merge_keeps_styles(filled, cell_run_view(cell, cell.contents));
    let here = scan_row(input, rows, cols, row, n).0;
    assert(here == merge_into(filled, cell_run_view(cell, cell.contents)));
    let j = here.len() - 1;
    scan_row_keeps_styles(input, rows, cols, row, n, cols as nat);
    let lines = screen_capture(input, rows, cols, command_line).lines;
    assert(lines[r] == scan_row(input, rows, cols, row, cols as nat).0);
    assert(same_style(lines[r][j], here[j]));
    assert(run_has_cell_style(lines[r][j], cell));
}

} // verus!
