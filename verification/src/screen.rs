//! The live VT grid of a session, kept so a TUI can be redrawn on reattach.
//!
//! The terminal emulation is alacritty_terminal's; the hub feeds it every
//! byte a session prints. Rendering the visible grid back to ANSI text is
//! this module's own.
use vstd::prelude::*;
use alacritty_terminal::event::VoidListener;
use alacritty_terminal::grid::Dimensions;
use alacritty_terminal::index::{Column, Line};
use alacritty_terminal::term::cell::Flags;
use alacritty_terminal::term::test::TermSize;
use alacritty_terminal::term::TermMode;
use alacritty_terminal::term::Term as VtTerm;
use alacritty_terminal::vte::ansi::{Processor, StdSyncHandler};
use crate::text::{decimal, u128_to_decimal};

verus! {

#[verifier::external_type_specification]
#[verifier::external_body]
#[verifier::reject_recursive_types(T)]
pub struct ExTerm<T>(VtTerm<T>);

#[verifier::external_type_specification]
#[verifier::external_body]
pub struct ExVoidListener(VoidListener);

/// vte's `Processor`, the VT parser state. Verus refuses a declaration of
/// `Processor` itself (its type parameter is bound by vte's `Timeout`
/// trait), so it is held opaque here.
#[verifier::external_body]
pub struct VtParser {
    inner: Processor<StdSyncHandler>,
}

/// What the emulator of a screen has been given, in order.
pub enum ScreenInput {
    /// Session output, parsed and applied to the grid.
    Output(Seq<u8>),
    /// A resize to this many columns and lines.
    Resize(usize, usize),
}

/// One grid cell as the dump needs it.
pub struct GridCell {
    pub c: char,
    /// The right half of a double-width character, which draws nothing.
    pub wide_spacer: bool,
}

/// The visible grid, copied out.
pub struct GridSnapshot {
    pub alt_screen: bool,
    pub rows: Vec<Vec<GridCell>>,
    pub cursor_line: i32,
    pub cursor_column: usize,
}

/// The visible grid as values: whether the alternate screen is active, the
/// cells line by line, and the cursor.
pub struct GridView {
    pub alt_screen: bool,
    pub rows: Seq<Seq<GridCell>>,
    pub cursor_line: i32,
    pub cursor_column: usize,
}

impl GridSnapshot {
    pub open spec fn view(&self) -> GridView {
        GridView {
            alt_screen: self.alt_screen,
            rows: self.rows@.map_values(|r: Vec<GridCell>| r@),
            cursor_line: self.cursor_line,
            cursor_column: self.cursor_column,
        }
    }
}

/// The visible grid of alacritty's emulator, made with a `columns` ×
/// `lines` grid and no scrollback, after it has been given `inputs` in
/// order: output bytes parsed by vte's `Processor::advance`, and resizes by
/// `Term::resize`. Neither consults a clock or the environment in doing so
/// (vte's synchronized-update timeout is only set and checked for being
/// set), so the grid is a function of these alone.
pub uninterp spec fn emulated_grid(columns: usize, lines: usize, inputs: Seq<ScreenInput>) -> GridView;

/// The size after `inputs`: that of the last resize, else `start`.
pub open spec fn size_after(start: (usize, usize), inputs: Seq<ScreenInput>) -> (usize, usize)
    decreases inputs.len(),
{
    if inputs.len() == 0 {
        start
    } else {
        match inputs.last() {
            ScreenInput::Resize(c, r) => (c, r),
            ScreenInput::Output(_) => size_after(start, inputs.drop_last()),
        }
    }
}

/// A session's emulated screen: the emulator and its parser, with the size
/// it was made with and everything it has been given since.
pub struct Screen {
    term: VtTerm<VoidListener>,
    parser: VtParser,
    start: Ghost<(usize, usize)>,
    inputs: Ghost<Seq<ScreenInput>>,
}

/// `Term::new` with a `columns` × `lines` grid, no scrollback and events
/// sent nowhere, and `Processor::new`, a parser in its ground state: a
/// screen of that size that has been given nothing. alacritty needs at
/// least two columns (`MIN_COLUMNS`) to hold a double-width character.
#[verifier::external_body]
fn new_screen(columns: usize, lines: usize) -> (s: Screen)
    requires
        columns >= MIN_COLUMNS,
        lines >= 1,
    ensures
        s.start() == (columns, lines),
        s.inputs() == Seq::<ScreenInput>::empty(),
{
    let size = TermSize::new(columns, lines);
    let config = alacritty_terminal::term::Config {
        scrolling_history: 0,
        ..alacritty_terminal::term::Config::default()
    };
    Screen {
        term: VtTerm::new(config, &size, VoidListener),
        parser: VtParser { inner: Processor::new() },
        start: Ghost((columns, lines)),
        inputs: Ghost(Seq::empty()),
    }
}

/// `Processor::advance`: parses `bytes` and applies them to the screen's
/// emulator, after everything given before. With fewer than two columns
/// alacritty panics on a double-width character (the spacer cell falls off
/// the row), so the screen is kept at two columns or more; for such grids
/// no panicking input is known, but the source is not shown here to be
/// free of one.
#[verifier::external_body]
fn advance(screen: &mut Screen, bytes: &[u8])
    requires
        old(screen).size().0 >= MIN_COLUMNS,
    ensures
        final(screen).start() == old(screen).start(),
        final(screen).inputs() == old(screen).inputs().push(ScreenInput::Output(bytes@)),
{
    screen.parser.inner.advance(&mut screen.term, bytes);
}

/// `Term::resize` to a `columns` × `lines` grid (at least two columns, as
/// for `new_screen`).
#[verifier::external_body]
fn resize_term(screen: &mut Screen, columns: usize, lines: usize)
    requires
        columns >= MIN_COLUMNS,
        lines >= 1,
    ensures
        final(screen).start() == old(screen).start(),
        final(screen).inputs() == old(screen).inputs().push(ScreenInput::Resize(columns, lines)),
{
    screen.term.resize(TermSize::new(columns, lines));
}

/// Copies the visible lines of the screen's emulator, its alternate-screen
/// mode and its cursor (`Term::grid`, `Term::mode`, `Term::screen_lines`,
/// `Term::columns`): the emulated grid of the screen's size and inputs. The
/// grid has the lines and columns of the last size given (`Term::new`,
/// `Term::resize`; parsing output never changes them).
#[verifier::external_body]
fn snapshot(screen: &Screen) -> (s: GridSnapshot)
    ensures
        s.view() == emulated_grid(screen.start().0, screen.start().1, screen.inputs()),
        s.rows@.len() == screen.size().1,
        forall|i: int| 0 <= i < s.rows@.len() ==> (#[trigger] s.rows@[i])@.len() == screen.size().0,
{
    let term = &screen.term;
    let grid = term.grid();
    let cell = |y: usize, x: usize| {
        let c = &grid[Line(y as i32)][Column(x)];
        GridCell { c: c.c, wide_spacer: c.flags.contains(Flags::WIDE_CHAR_SPACER) }
    };
    let rows = (0..term.screen_lines()).map(|y| (0..term.columns()).map(|x| cell(y, x)).collect()).collect();
    let point = grid.cursor.point;
    GridSnapshot {
        alt_screen: term.mode().contains(TermMode::ALT_SCREEN),
        rows,
        cursor_line: point.line.0,
        cursor_column: point.column.0,
    }
}

/// `char::encode_utf8`: the UTF-8 bytes of `c`.
#[verifier::external_body]
fn utf8_of(c: char) -> (b: Vec<u8>)
    ensures
        b@ == vstd::utf8::encode_utf8(seq![c]),
{
    let mut buf = [0u8; 4];
    c.encode_utf8(&mut buf).as_bytes().to_vec()
}

/// The fewest columns a screen has: alacritty needs two to hold a
/// double-width character.
pub const MIN_COLUMNS: usize = 2;

/// At least one.
pub open spec fn at_least_one(n: u16) -> usize {
    if n >= 1 {
        n as usize
    } else {
        1
    }
}

/// At least two: the columns of a screen.
pub open spec fn at_least_two(n: u16) -> usize {
    if n >= 2 {
        n as usize
    } else {
        2
    }
}

impl Screen {
    /// The size the screen was made with.
    pub closed spec fn start(&self) -> (usize, usize) {
        self.start@
    }

    /// Everything the emulator has been given since the screen was made.
    pub closed spec fn inputs(&self) -> Seq<ScreenInput> {
        self.inputs@
    }

    /// The grid size now, columns by lines.
    pub open spec fn size(&self) -> (usize, usize) {
        size_after(self.start(), self.inputs())
    }

    /// The grid the emulator shows now.
    pub open spec fn grid(&self) -> GridView {
        emulated_grid(self.start().0, self.start().1, self.inputs())
    }

    /// An empty `cols` × `rows` screen (at least two columns and one line)
    /// with no scrollback.
    pub fn new(cols: u16, rows: u16) -> (s: Screen)
        ensures
            s.start() == (at_least_two(cols), at_least_one(rows)),
            s.size() == (at_least_two(cols), at_least_one(rows)),
            s.inputs() == Seq::<ScreenInput>::empty(),
    {
        let c: usize = if cols >= 2 {
            cols as usize
        } else {
            2
        };
        let r: usize = if rows >= 1 {
            rows as usize
        } else {
            1
        };
        new_screen(c, r)
    }

    /// Feeds session output to the emulator, which parses it and applies it
    /// to its grid after everything given before. The size stays.
    pub fn feed(&mut self, bytes: &[u8])
        requires
            old(self).size().0 >= MIN_COLUMNS,
        ensures
            final(self).start() == old(self).start(),
            final(self).inputs() == old(self).inputs().push(ScreenInput::Output(bytes@)),
            final(self).size() == old(self).size(),
    {
        advance(self, bytes);
        proof {
            assert(self.inputs().drop_last() =~= old(self).inputs());
        }
    }

    /// Resizes to `cols` × `rows` (at least two columns and one line).
    pub fn resize(&mut self, cols: u16, rows: u16)
        requires
            old(self).size().0 >= MIN_COLUMNS,
        ensures
            final(self).start() == old(self).start(),
            final(self).inputs() == old(self).inputs().push(
                ScreenInput::Resize(at_least_two(cols), at_least_one(rows)),
            ),
            final(self).size() == (at_least_two(cols), at_least_one(rows)),
    {
        let c: usize = if cols >= 2 {
            cols as usize
        } else {
            2
        };
        let r: usize = if rows >= 1 {
            rows as usize
        } else {
            1
        };
        resize_term(self, c, r);
    }

    /// The visible cells as SGR-less ANSI: the dump of the grid the emulator
    /// shows now, which has the screen's lines of its columns each. Kept for
    /// tests; attach does not send it (a live size-change redraw paints a
    /// TUI instead).
    pub fn dump_ansi(&self) -> (r: Vec<u8>)
        ensures
            r@ == dump_spec(self.grid()),
            self.grid().rows.len() == self.size().1,
            forall|i: int| 0 <= i < self.grid().rows.len() ==> (#[trigger] self.grid().rows[i]).len()
                == self.size().0,
    {
        let s = snapshot(self);
        let r = render_dump(&s);
        proof {
            assert forall|i: int| 0 <= i < self.grid().rows.len() implies (#[trigger] self.grid().rows[i]).len()
                == self.size().0 by {
                assert(self.grid().rows[i] == s.rows@[i]@);
            }
        }
        r
    }
}

/// ASCII text as bytes.
pub open spec fn ascii(s: Seq<char>) -> Seq<u8> {
    s.map_values(|c: char| c as u8)
}

/// `ESC [`.
pub open spec fn csi() -> Seq<u8> {
    seq![27u8, 91u8]
}

/// The bytes of one cell: nothing for a wide-character spacer, a space for
/// an empty cell, else the character in UTF-8.
pub open spec fn cell_bytes(c: GridCell) -> Seq<u8> {
    if c.wide_spacer {
        Seq::empty()
    } else {
        vstd::utf8::encode_utf8(
            seq![
                if c.c == '\0' {
                    ' '
                } else {
                    c.c
                },
            ],
        )
    }
}

pub open spec fn row_bytes(cells: Seq<GridCell>) -> Seq<u8>
    decreases cells.len(),
{
    if cells.len() == 0 {
        Seq::empty()
    } else {
        row_bytes(cells.drop_last()) + cell_bytes(cells.last())
    }
}

/// Each row, moved to with `ESC [ y ; 1 H` (rows numbered from one).
pub open spec fn rows_bytes(rows: Seq<Seq<GridCell>>) -> Seq<u8>
    decreases rows.len(),
{
    if rows.len() == 0 {
        Seq::empty()
    } else {
        rows_bytes(rows.drop_last()) + csi() + ascii(decimal(rows.len() as nat)) + ascii(";1H"@)
            + row_bytes(rows.last())
    }
}

/// The dump: the alternate screen when active, clear, home, reset
/// attributes, every row, then the cursor (line clamped at zero; one-based).
pub open spec fn dump_spec(s: GridView) -> Seq<u8> {
    let cy = (if s.cursor_line >= 0 {
        s.cursor_line as nat
    } else {
        0nat
    }) + 1;
    let cx = s.cursor_column as nat + 1;
    (if s.alt_screen {
        csi() + ascii("?1049h"@)
    } else {
        Seq::empty()
    }) + csi() + ascii("2J"@) + csi() + ascii("H"@) + csi() + ascii("0m"@) + rows_bytes(s.rows)
        + csi() + ascii(decimal(cy)) + ascii(";"@) + ascii(decimal(cx)) + ascii("H"@)
}

fn push_ascii(out: &mut Vec<u8>, s: &str)
    requires
        forall|i: int| 0 <= i < s@.len() ==> (#[trigger] s@[i]) as u32 <= 127,
    ensures
        final(out)@ == old(out)@ + ascii(s@),
{
    let n = s.unicode_len();
    let mut i: usize = 0;
    while i < n
        invariant
            i <= n,
            n == s@.len(),
            forall|k: int| 0 <= k < s@.len() ==> (#[trigger] s@[k]) as u32 <= 127,
            out@ == old(out)@ + ascii(s@.subrange(0, i as int)),
        decreases n - i,
    {
        let c = s.get_char(i);
        out.push(c as u8);
        proof {
            assert(ascii(s@.subrange(0, i + 1)) =~= ascii(s@.subrange(0, i as int)).push(c as u8));
        }
        i = i + 1;
    }
    assert(s@.subrange(0, n as int) =~= s@);
}

proof fn lemma_digit_ascii(d: nat)
    requires
        d < 10,
    ensures
        crate::text::digit_char(d) as u32 == 48 + d,
{
    let u: u32 = (48 + d) as u32;
    assert(('0' as u32) == 48);
    assert(u as char as u32 == u);
}

proof fn lemma_decimal_ascii(n: nat)
    ensures
        forall|i: int| 0 <= i < decimal(n).len() ==> (#[trigger] decimal(n)[i]) as u32 <= 127,
    decreases n,
{
    if n >= 10 {
        lemma_decimal_ascii(n / 10);
        lemma_digit_ascii(n % 10);
        let p = decimal(n / 10);
        assert(decimal(n) == p.push(crate::text::digit_char(n % 10)));
        assert forall|i: int| 0 <= i < decimal(n).len() implies (#[trigger] decimal(n)[i]) as u32
            <= 127 by {
            if i < p.len() {
                assert(decimal(n)[i] == p[i]);
            }
        }
    } else {
        lemma_digit_ascii(n);
        assert(decimal(n) == seq![crate::text::digit_char(n)]);
    }
}

fn push_decimal(out: &mut Vec<u8>, n: u128)
    ensures
        final(out)@ == old(out)@ + ascii(decimal(n as nat)),
{
    let d = u128_to_decimal(n);
    proof {
        lemma_decimal_ascii(n as nat);
    }
    push_ascii(out, d.as_str());
}

fn push_csi(out: &mut Vec<u8>)
    ensures
        final(out)@ == old(out)@ + csi(),
{
    out.push(27u8);
    out.push(91u8);
    assert(out@ =~= old(out)@ + csi());
}

fn push_lit(out: &mut Vec<u8>, s: &str)
    requires
        forall|i: int| 0 <= i < s@.len() ==> (#[trigger] s@[i]) as u32 <= 127,
    ensures
        final(out)@ == old(out)@ + ascii(s@),
{
    push_ascii(out, s);
}

fn push_bytes(out: &mut Vec<u8>, b: &Vec<u8>)
    ensures
        final(out)@ == old(out)@ + b@,
{
    let n = b.len();
    let mut i: usize = 0;
    while i < n
        invariant
            i <= n,
            n == b@.len(),
            out@ == old(out)@ + b@.subrange(0, i as int),
        decreases n - i,
    {
        out.push(b[i]);
        assert(b@.subrange(0, i + 1) =~= b@.subrange(0, i as int).push(b@[i as int]));
        i = i + 1;
    }
    assert(b@.subrange(0, n as int) =~= b@);
}

/// The dump of a grid snapshot.
pub fn render_dump(s: &GridSnapshot) -> (r: Vec<u8>)
    ensures
        r@ == dump_spec(s.view()),
{
    proof {
        reveal_strlit("?1049h");
        reveal_strlit("2J");
        reveal_strlit("H");
        reveal_strlit("0m");
        reveal_strlit(";1H");
        reveal_strlit(";");
    }
    let mut out: Vec<u8> = Vec::new();
    if s.alt_screen {
        push_csi(&mut out);
        push_lit(&mut out, "?1049h");
    }
    let ghost a = out@;
    assert(a =~= if s.alt_screen {
        csi() + ascii("?1049h"@)
    } else {
        Seq::empty()
    });
    push_csi(&mut out);
    push_lit(&mut out, "2J");
    push_csi(&mut out);
    push_lit(&mut out, "H");
    push_csi(&mut out);
    push_lit(&mut out, "0m");
    let ghost head = out@;
    let ghost rv = s.view().rows;
    let n = s.rows.len();
    let mut y: usize = 0;
    assert(rv.subrange(0, 0) =~= Seq::<Seq<GridCell>>::empty());
    while y < n
        invariant
            y <= n,
            n == s.rows@.len(),
            rv == s.view().rows,
            out@ == head + rows_bytes(rv.subrange(0, y as int)),
        decreases n - y,
    {
        proof {
            reveal_strlit(";1H");
            assert(rv.subrange(0, y + 1).drop_last() =~= rv.subrange(0, y as int));
        }
        push_csi(&mut out);
        push_decimal(&mut out, (y as u128) + 1);
        push_lit(&mut out, ";1H");
        let row = &s.rows[y];
        let ghost before_row = out@;
        let m = row.len();
        let mut x: usize = 0;
        while x < m
            invariant
                x <= m,
                m == row@.len(),
                out@ == before_row + row_bytes(row@.subrange(0, x as int)),
            decreases m - x,
        {
            proof {
                assert(row@.subrange(0, x + 1).drop_last() =~= row@.subrange(0, x as int));
            }
            let cell = &row[x];
            if !cell.wide_spacer {
                let ch = if cell.c == '\0' {
                    ' '
                } else {
                    cell.c
                };
                let b = utf8_of(ch);
                push_bytes(&mut out, &b);
            } else {
                assert(out@ =~= out@ + Seq::<u8>::empty());
            }
            x = x + 1;
        }
        assert(row@.subrange(0, m as int) =~= row@);
        assert(rv[y as int] == row@);
        y = y + 1;
    }
    assert(rv.subrange(0, n as int) =~= rv);
    push_csi(&mut out);
    let cy: u128 = if s.cursor_line >= 0 {
        s.cursor_line as u128
    } else {
        0
    };
    push_decimal(&mut out, cy + 1);
    push_lit(&mut out, ";");
    push_decimal(&mut out, (s.cursor_column as u128) + 1);
    push_lit(&mut out, "H");
    out
}

} // verus!
