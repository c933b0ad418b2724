use crate::cube::FaceColor;
use vstd::prelude::*;

verus! {

/// Size of the character grid to draw into.
#[derive(Clone, Copy, Debug, PartialEq, Eq, Structural)]
pub struct Viewport {
    pub width: u16,
    pub height: u16,
}

/// One character cell: a glyph and, unless blank, the color it is drawn in.
#[derive(Clone, Copy, Debug, PartialEq, Eq, Structural)]
pub struct Cell {
    pub ch: char,
    pub color: Option<FaceColor>,
}

pub open spec fn blank_cell() -> Cell {
    Cell { ch: ' ', color: None }
}

impl Default for Cell {
    fn default() -> (r: Self)
        ensures
            r == blank_cell(),
    {
        Cell { ch: ' ', color: None }
    }
}

/// One pixel of a shaded face, ready for the depth test: its position, its
/// depth key (smaller is nearer), and what it draws.
#[derive(Clone, Copy, Debug, PartialEq, Eq, Structural)]
pub struct Fragment {
    pub x: usize,
    pub y: usize,
    pub depth: u32,
    pub ch: char,
    pub color: FaceColor,
}

/// Depth key of a cell that nothing has been drawn to.
pub const FAR_DEPTH: u32 = 0xffff_ffff;

/// The cells and depths after the depth test of `f`: it is drawn when it
/// falls inside the grid and is nearer than what the cell holds.
pub open spec fn paint_one(
    cells: Seq<Cell>,
    depths: Seq<u32>,
    width: int,
    height: int,
    f: Fragment,
) -> (Seq<Cell>, Seq<u32>) {
    let idx = f.y * width + f.x;
    if f.x < width && f.y < height && f.depth < depths[idx] {
        (cells.update(idx, Cell { ch: f.ch, color: Some(f.color) }), depths.update(idx, f.depth))
    } else {
        (cells, depths)
    }
}

/// The cells and depths after the fragments of `frags`, in order.
pub open spec fn paint(
    cells: Seq<Cell>,
    depths: Seq<u32>,
    width: int,
    height: int,
    frags: Seq<Fragment>,
) -> (Seq<Cell>, Seq<u32>)
    decreases frags.len(),
{
    if frags.len() == 0 {
        (cells, depths)
    } else {
        let prev = paint(cells, depths, width, height, frags.drop_last());
        paint_one(prev.0, prev.1, width, height, frags.last())
    }
}

/// The cells that `frags` paint on a cleared `width` by `height` grid.
pub open spec fn rendered_cells(width: int, height: int, frags: Seq<Fragment>) -> Seq<Cell> {
    paint(
        Seq::new((width * height) as nat, |i: int| blank_cell()),
        Seq::new((width * height) as nat, |i: int| FAR_DEPTH),
        width,
        height,
        frags,
    ).0
}

/// A fragment no nearer than what its cell holds changes nothing.
pub proof fn lemma_farther_is_hidden(
    cells: Seq<Cell>,
    depths: Seq<u32>,
    width: int,
    height: int,
    f: Fragment,
)
    requires
        f.depth >= depths[f.y * width + f.x],
    ensures
        paint_one(cells, depths, width, height, f) == (cells, depths),
{
}

/// Of two fragments on the same pixel at different depths, the nearer one
/// is what the cell ends up showing, whichever was submitted first.
pub proof fn lemma_nearest_wins(
    cells: Seq<Cell>,
    depths: Seq<u32>,
    width: int,
    height: int,
    a: Fragment,
    b: Fragment,
)
    requires
        cells.len() == width * height,
        depths.len() == width * height,
        a.x == b.x,
        a.y == b.y,
        a.depth < b.depth,
        a.x < width,
        a.y < height,
        a.depth < depths[a.y * width + a.x],
    ensures
        paint(cells, depths, width, height, seq![a, b]) == paint(
            cells,
            depths,
            width,
            height,
            seq![b, a],
        ),
        paint(cells, depths, width, height, seq![a, b]).0[a.y * width + a.x] == (Cell {
            ch: a.ch,
            color: Some(a.color),
        }),
        paint(cells, depths, width, height, seq![a, b]).1[a.y * width + a.x] == a.depth,
{
    assert(seq![a, b].drop_last() =~= seq![a]);
    assert(seq![b, a].drop_last() =~= seq![b]);
    assert(seq![a].drop_last() =~= Seq::<Fragment>::empty());
    assert(seq![b].drop_last() =~= Seq::<Fragment>::empty());
    assert(0 <= a.y * width + a.x < width * height) by (nonlinear_arith)
        requires
            0 <= a.x < width,
            0 <= a.y < height,
    ;
    let idx = a.y * width + a.x;
    let pa = paint_one(cells, depths, width, height, a);
    let pb = paint_one(cells, depths, width, height, b);
    assert(paint(cells, depths, width, height, Seq::<Fragment>::empty()) == (cells, depths));
    assert(seq![a].last() == a && seq![b].last() == b);
    assert(paint(cells, depths, width, height, seq![a]) == pa);
    assert(paint(cells, depths, width, height, seq![b]) == pb);
    let ab = paint(cells, depths, width, height, seq![a, b]);
    let ba = paint(cells, depths, width, height, seq![b, a]);
    assert(ab == paint_one(pa.0, pa.1, width, height, b));
    assert(ba == paint_one(pb.0, pb.1, width, height, a));
    assert(pa.1[idx] == a.depth);
    assert(ab == pa);
    assert(pb.1[idx] == b.depth || pb.1[idx] == depths[idx]);
    assert(ba.0 =~= pa.0);
    assert(ba.1 =~= pa.1);
}


/// Number of glyphs in the shading ramp.
pub const SHADE_LEVELS: usize = 10;

/// The shading ramp, from blank to densest.
pub open spec fn shade_ramp() -> Seq<char> {
    seq![' ', '.', ':', '-', '=', '+', '*', '#', '%', '@']
}

/// Glyph for shading level `level` of the ramp (0 is blank, 9 densest).
pub fn shade_glyph(level: usize) -> (r: char)
    requires
        level < SHADE_LEVELS,
    ensures
        r == shade_ramp()[level as int],
{
    let ramp = [' ', '.', ':', '-', '=', '+', '*', '#', '%', '@'];
    assert(ramp@ =~= shade_ramp());
    ramp[level]
}

/// Slot of color `c` in a table of per-color escape sequences.
pub open spec fn color_slot(c: FaceColor) -> int {
    match c {
        FaceColor::White => 0,
        FaceColor::Yellow => 1,
        FaceColor::Red => 2,
        FaceColor::Orange => 3,
        FaceColor::Blue => 4,
        FaceColor::Green => 5,
    }
}

/// A terminal foreground color: a named color of the terminal's palette or
/// an RGB triple.
#[derive(Clone, Copy, Debug, PartialEq, Eq, Structural)]
pub enum TermColor {
    White,
    Yellow,
    Red,
    Blue,
    Green,
    Rgb { r: u8, g: u8, b: u8 },
}

/// The terminal color each sticker color is drawn in.
pub open spec fn terminal_color(c: FaceColor) -> TermColor {
    match c {
        FaceColor::White => TermColor::White,
        FaceColor::Yellow => TermColor::Yellow,
        FaceColor::Red => TermColor::Red,
        FaceColor::Orange => TermColor::Rgb { r: 255, g: 140, b: 0 },
        FaceColor::Blue => TermColor::Blue,
        FaceColor::Green => TermColor::Green,
    }
}

/// The terminal color that sticker color `color` is drawn in.
pub fn face_color_to_ansi(color: FaceColor) -> (r: TermColor)
    ensures
        r == terminal_color(color),
{
    match color {
        FaceColor::White => TermColor::White,
        FaceColor::Yellow => TermColor::Yellow,
        FaceColor::Red => TermColor::Red,
        FaceColor::Orange => TermColor::Rgb { r: 255, g: 140, b: 0 },
        FaceColor::Blue => TermColor::Blue,
        FaceColor::Green => TermColor::Green,
    }
}

/// The decimal digit `d`.
pub open spec fn digit_char(d: nat) -> char {
    if d == 0 {
        '0'
    } else if d == 1 {
        '1'
    } else if d == 2 {
        '2'
    } else if d == 3 {
        '3'
    } else if d == 4 {
        '4'
    } else if d == 5 {
        '5'
    } else if d == 6 {
        '6'
    } else if d == 7 {
        '7'
    } else if d == 8 {
        '8'
    } else {
        '9'
    }
}

/// `n` in decimal, without leading zeros.
pub open spec fn decimal(n: nat) -> Seq<char>
    decreases n,
{
    if n < 10 {
        seq![digit_char(n)]
    } else {
        decimal(n / 10) + seq![digit_char(n % 10)]
    }
}

/// Parameters that select `t` in an SGR foreground sequence after `38;`:
/// `5;N` for a palette color, `2;R;G;B` for an RGB triple.
pub open spec fn color_params(t: TermColor) -> Seq<char> {
    match t {
        TermColor::White => seq!['5', ';', '1', '5'],
        TermColor::Yellow => seq!['5', ';', '1', '1'],
        TermColor::Red => seq!['5', ';', '9'],
        TermColor::Blue => seq!['5', ';', '1', '2'],
        TermColor::Green => seq!['5', ';', '1', '0'],
        TermColor::Rgb { r, g, b } => seq!['2', ';'] + decimal(r as nat) + seq![';'] + decimal(
            g as nat,
        ) + seq![';'] + decimal(b as nat),
    }
}

/// `ESC [ 38 ; <params> m`: draw in `t`.
pub open spec fn foreground_text(t: TermColor) -> Seq<char> {
    seq!['\x1b', '[', '3', '8', ';'] + color_params(t) + seq!['m']
}

/// `ESC [ m`: what a color sequence reduces to when color output is off.
pub open spec fn colorless_text() -> Seq<char> {
    seq!['\x1b', '[', 'm']
}

/// `s` is the sequence that selects `t`, or the colorless one.
pub open spec fn selects_color(s: Seq<char>, t: TermColor) -> bool {
    s == foreground_text(t) || s == colorless_text()
}

/// Escape sequence that restores the terminal's default color.
pub open spec fn reset_code() -> Seq<char> {
    seq!['\x1b', '[', '0', 'm']
}

/// Color directive written before a cell of color `cur` that follows a cell
/// of color `prev`: none when they agree, else the sequence that `codes`
/// holds for `cur`, or the reset when `cur` is no color.
pub open spec fn color_directive(
    codes: Seq<String>,
    prev: Option<FaceColor>,
    cur: Option<FaceColor>,
) -> Seq<char> {
    if cur == prev {
        seq![]
    } else {
        match cur {
            Some(c) => codes[color_slot(c)]@,
            None => reset_code(),
        }
    }
}

/// Text of cell `k` of a grid `width` cells wide: its color directive, its
/// glyph, and a line break after the last cell of each row but the last.
pub open spec fn cell_text(codes: Seq<String>, cells: Seq<Cell>, width: int, k: int) -> Seq<
    char,
> {
    let prev = if k == 0 {
        None
    } else {
        cells[k - 1].color
    };
    let brk = if (k + 1) % width == 0 && k + 1 < cells.len() {
        seq!['\r', '\n']
    } else {
        seq![]
    };
    color_directive(codes, prev, cells[k].color) + seq![cells[k].ch] + brk
}

/// Text of the first `n` cells.
pub open spec fn cells_text(codes: Seq<String>, cells: Seq<Cell>, width: int, n: int) -> Seq<
    char,
>
    decreases n,
{
    if n <= 0 {
        seq![]
    } else {
        cells_text(codes, cells, width, n - 1) + cell_text(codes, cells, width, n - 1)
    }
}

/// Text of a whole grid, ending with a color reset.
pub open spec fn frame_text(codes: Seq<String>, cells: Seq<Cell>, width: int) -> Seq<char> {
    cells_text(codes, cells, width, cells.len() as int) + reset_code()
}

/// An empty grid serializes to the color reset alone.
pub proof fn lemma_empty_frame_text(codes: Seq<String>, width: int)
    ensures
        frame_text(codes, Seq::<Cell>::empty(), width) == reset_code(),
{
    assert(cells_text(codes, Seq::<Cell>::empty(), width, 0) + reset_code() =~= reset_code());
}

/// Relies on crossterm's `SetForegroundColor`, written through `Display`
/// on an ANSI terminal: `ESC [ 38 ;`, the color's parameters (`5;N` or
/// `2;R;G;B`), `m`; or `ESC [ m` when color output is off (`NO_COLOR`).
#[verifier::external_body]
fn foreground_sequence(t: TermColor) -> (r: String)
    ensures
        selects_color(r@, t),
{
    let color = match t {
        TermColor::White => crossterm::style::Color::White,
        TermColor::Yellow => crossterm::style::Color::Yellow,
        TermColor::Red => crossterm::style::Color::Red,
        TermColor::Blue => crossterm::style::Color::Blue,
        TermColor::Green => crossterm::style::Color::Green,
        TermColor::Rgb { r, g, b } => crossterm::style::Color::Rgb { r, g, b },
    };
    format!("{}", crossterm::style::SetForegroundColor(color))
}

/// Relies on crossterm's `ResetColor`, written through `Display` on an ANSI
/// terminal: `ESC [ 0 m`.
#[verifier::external_body]
fn reset_sequence() -> (r: String)
    ensures
        r@ == reset_code(),
{
    format!("{}", crossterm::style::ResetColor)
}

/// The terminal's escape sequence for each color, by `color_slot`.
pub fn color_codes() -> (r: Vec<String>)
    ensures
        r@.len() == 6,
        forall|c: FaceColor| selects_color(#[trigger] r@[color_slot(c)]@, terminal_color(c)),
{
    let mut r: Vec<String> = Vec::new();
    r.push(foreground_sequence(face_color_to_ansi(FaceColor::White)));
    r.push(foreground_sequence(face_color_to_ansi(FaceColor::Yellow)));
    r.push(foreground_sequence(face_color_to_ansi(FaceColor::Red)));
    r.push(foreground_sequence(face_color_to_ansi(FaceColor::Orange)));
    r.push(foreground_sequence(face_color_to_ansi(FaceColor::Blue)));
    r.push(foreground_sequence(face_color_to_ansi(FaceColor::Green)));
    assert forall|c: FaceColor| selects_color(
        #[trigger] r@[color_slot(c)]@,
        terminal_color(c),
    ) by {
        match c {
            FaceColor::White => {},
            FaceColor::Yellow => {},
            FaceColor::Red => {},
            FaceColor::Orange => {},
            FaceColor::Blue => {},
            FaceColor::Green => {},
        }
    }
    r
}

fn color_position(c: FaceColor) -> (r: usize)
    ensures
        r == color_slot(c),
{
    match c {
        FaceColor::White => 0,
        FaceColor::Yellow => 1,
        FaceColor::Red => 2,
        FaceColor::Orange => 3,
        FaceColor::Blue => 4,
        FaceColor::Green => 5,
    }
}

/// Relies on `String::push_str`: appends `t`.
#[verifier::external_body]
fn append_str(out: &mut String, t: &str)
    ensures
        final(out)@ == old(out)@ + t@,
{
    out.push_str(t);
}

/// Relies on `String::push`: appends `ch`.
#[verifier::external_body]
fn append_char(out: &mut String, ch: char)
    ensures
        final(out)@ == old(out)@.push(ch),
{
    out.push(ch);
}

fn same_color(a: Option<FaceColor>, b: Option<FaceColor>) -> (r: bool)
    ensures
        r == (a == b),
{
    match (a, b) {
        (Some(x), Some(y)) => x == y,
        (None, None) => true,
        _ => false,
    }
}

proof fn lemma_index_in_grid(x: int, y: int, width: int, height: int)
    requires
        0 <= x < width,
        0 <= y < height,
    ensures
        0 <= y * width + x < width * height,
{
    assert(0 <= y * width + x < width * height) by (nonlinear_arith)
        requires
            0 <= x < width,
            0 <= y < height,
    ;
}

/// A finished grid of cells, row by row.
pub struct Frame {
    width: usize,
    height: usize,
    cells: Vec<Cell>,
}

impl View for Frame {
    type V = Seq<Cell>;

    closed spec fn view(&self) -> Seq<Cell> {
        self.cells@
    }
}

impl Frame {
    pub closed spec fn spec_width(&self) -> int {
        self.width as int
    }

    pub closed spec fn spec_height(&self) -> int {
        self.height as int
    }

    /// The grid holds `width * height` cells.
    pub open spec fn wf(&self) -> bool {
        self@.len() == self.spec_width() * self.spec_height()
    }

    pub fn empty() -> (r: Self)
        ensures
            r.spec_width() == 0,
            r.spec_height() == 0,
            r@ == Seq::<Cell>::empty(),
            r.wf(),
    {
        let r = Self { width: 0, height: 0, cells: Vec::new() };
        assert(r.cells@ =~= Seq::<Cell>::empty());
        r
    }

    pub fn width(&self) -> (r: usize)
        ensures
            r == self.spec_width(),
    {
        self.width
    }

    pub fn height(&self) -> (r: usize)
        ensures
            r == self.spec_height(),
    {
        self.height
    }

    pub fn cells(&self) -> (r: &[Cell])
        ensures
            r@ == self@,
    {
        self.cells.as_slice()
    }

    /// The grid as terminal text, with `codes` as the escape sequence of
    /// each color: each cell's glyph, preceded by a color directive where its
    /// color differs from the previous cell's, rows separated by line breaks,
    /// and a final color reset.
    pub fn ansi_with_codes(&self, codes: &Vec<String>) -> (r: String)
        requires
            self.wf(),
            codes@.len() == 6,
        ensures
            r@ == frame_text(codes@, self@, self.spec_width()),
    {
        let mut output = String::new();
        let mut current: Option<FaceColor> = None;
        let n = self.cells.len();
        let mut k: usize = 0;
        while k < n
            invariant
                n == self.cells@.len(),
                n == self.width * self.height,
                codes@.len() == 6,
                0 <= k <= n,
                output@ == cells_text(codes@, self.cells@, self.width as int, k as int),
                current == if k == 0 {
                    None
                } else {
                    self.cells@[k - 1].color
                },
            decreases n - k,
        {
            let cell = self.cells[k];
            let ghost before = output@;
            if !same_color(cell.color, current) {
                match cell.color {
                    Some(c) => {
                        append_str(&mut output, codes[color_position(c)].as_str());
                    },
                    None => {
                        let code = reset_sequence();
                        append_str(&mut output, code.as_str());
                    },
                }
                current = cell.color;
            }
            append_char(&mut output, cell.ch);
            assert(self.width > 0) by (nonlinear_arith)
                requires
                    k < n,
                    n == self.width * self.height,
            ;
            if (k + 1) % self.width == 0 && k + 1 < n {
                append_char(&mut output, '\r');
                append_char(&mut output, '\n');
            }
            assert(output@ =~= before + cell_text(
                codes@,
                self.cells@,
                self.width as int,
                k as int,
            ));
            k = k + 1;
        }
        let code = reset_sequence();
        append_str(&mut output, code.as_str());
        output
    }

    /// The grid as terminal text, with the terminal's own color sequences.
    pub fn as_ansi_string(&self) -> (r: String)
        requires
            self.wf(),
        ensures
            exists|codes: Seq<String>|
                codes.len() == 6 && (forall|c: FaceColor|
                    selects_color(#[trigger] codes[color_slot(c)]@, terminal_color(c))) && r@
                    == frame_text(
                    codes,
                    self@,
                    self.spec_width(),
                ),
    {
        let codes = color_codes();
        self.ansi_with_codes(&codes)
    }
}

fn filled_cells(n: usize) -> (r: Vec<Cell>)
    ensures
        r@ == Seq::new(n as nat, |i: int| blank_cell()),
{
    let mut r: Vec<Cell> = Vec::with_capacity(n);
    let mut i: usize = 0;
    while i < n
        invariant
            0 <= i <= n,
            r@ =~= Seq::new(i as nat, |j: int| blank_cell()),
        decreases n - i,
    {
        r.push(Cell::default());
        i = i + 1;
    }
    r
}

fn filled_depths(n: usize) -> (r: Vec<u32>)
    ensures
        r@ == Seq::new(n as nat, |i: int| FAR_DEPTH),
{
    let mut r: Vec<u32> = Vec::with_capacity(n);
    let mut i: usize = 0;
    while i < n
        invariant
            0 <= i <= n,
            r@ =~= Seq::new(i as nat, |j: int| FAR_DEPTH),
        decreases n - i,
    {
        r.push(FAR_DEPTH);
        i = i + 1;
    }
    r
}

/// The drawing surface: a grid of cells and, beside it, the depth key of
/// what each cell shows.
struct AsciiCanvas {
    width: usize,
    height: usize,
    cells: Vec<Cell>,
    depth: Vec<u32>,
}

impl AsciiCanvas {
    spec fn wf(&self) -> bool {
        &&& self.cells@.len() == self.width * self.height
        &&& self.depth@.len() == self.width * self.height
    }

    fn new(width: usize, height: usize) -> (r: Self)
        requires
            width * height <= usize::MAX,
        ensures
            r.wf(),
            r.width == width,
            r.height == height,
    {
        let area = width * height;
        Self { width, height, cells: filled_cells(area), depth: filled_depths(area) }
    }

    /// Reallocates the grid when the viewport's size differs from it.
    fn ensure_size(&mut self, viewport: Viewport)
        requires
            old(self).wf(),
        ensures
            final(self).wf(),
            final(self).width == if viewport.width == 0 {
                1
            } else {
                viewport.width as int
            },
            final(self).height == if viewport.height == 0 {
                1
            } else {
                viewport.height as int
            },
            final(self).width == old(self).width && final(self).height == old(self).height
                ==> *final(self) == *old(self),
            final(self).width != old(self).width || final(self).height != old(self).height
                ==> final(self).cells@ == Seq::new(
                final(self).cells@.len(),
                |i: int| blank_cell(),
            ) && final(self).depth@ == Seq::new(final(self).depth@.len(), |i: int| FAR_DEPTH),
    {
        let width: usize = if viewport.width == 0 {
            1
        } else {
            viewport.width as usize
        };
        let height: usize = if viewport.height == 0 {
            1
        } else {
            viewport.height as usize
        };
        if self.width == width && self.height == height {
            return ;
        }
        assert(width * height <= 0xffff * 0xffff) by (nonlinear_arith)
            requires
                width <= 0xffff,
                height <= 0xffff,
        ;
        self.width = width;
        self.height = height;
        let area = width * height;
        self.cells = filled_cells(area);
        self.depth = filled_depths(area);
    }

    /// Blanks every cell and sets every depth to the far key.
    fn clear(&mut self)
        requires
            old(self).wf(),
        ensures
            final(self).wf(),
            final(self).width == old(self).width,
            final(self).height == old(self).height,
            final(self).cells@ == Seq::new(old(self).cells@.len(), |i: int| blank_cell()),
            final(self).depth@ == Seq::new(old(self).depth@.len(), |i: int| FAR_DEPTH),
    {
        let n = self.cells.len();
        let ghost w = self.width;
        let ghost h = self.height;
        let mut i: usize = 0;
        while i < n
            invariant
                self.width == w,
                self.height == h,
                n == self.cells@.len(),
                n == self.depth@.len(),
                n == self.width * self.height,
                0 <= i <= n,
                forall|j: int| 0 <= j < i ==> #[trigger] self.cells@[j] == blank_cell(),
                forall|j: int| 0 <= j < i ==> #[trigger] self.depth@[j] == FAR_DEPTH,
            decreases n - i,
        {
            self.cells.set(i, Cell::default());
            self.depth.set(i, FAR_DEPTH);
            i = i + 1;
        }
        assert(self.cells@ =~= Seq::new(n as nat, |i: int| blank_cell()));
        assert(self.depth@ =~= Seq::new(n as nat, |i: int| FAR_DEPTH));
    }

    /// Depth test of one fragment: it is drawn when it falls inside the grid
    /// and is nearer than what the cell holds.
    fn plot(&mut self, f: Fragment)
        requires
            old(self).wf(),
        ensures
            final(self).wf(),
            final(self).width == old(self).width,
            final(self).height == old(self).height,
            (final(self).cells@, final(self).depth@) == paint_one(
                old(self).cells@,
                old(self).depth@,
                old(self).width as int,
                old(self).height as int,
                f,
            ),
    {
        if f.x >= self.width || f.y >= self.height {
            return ;
        }
        let n = self.cells.len();
        proof {
            lemma_index_in_grid(f.x as int, f.y as int, self.width as int, self.height as int);
            assert(f.y * self.width <= f.y * self.width + f.x) by (nonlinear_arith)
                requires
                    f.y >= 0,
                    self.width >= 0,
                    f.x >= 0,
            ;
        }
        let idx = f.y * self.width + f.x;
        if f.depth < self.depth[idx] {
            self.depth.set(idx, f.depth);
            self.cells.set(idx, Cell { ch: f.ch, color: Some(f.color) });
        }
    }

    fn to_frame(&self) -> (r: Frame)
        requires
            self.wf(),
        ensures
            r.wf(),
            r.spec_width() == self.width,
            r.spec_height() == self.height,
            r@ == self.cells@,
    {
        Frame { width: self.width, height: self.height, cells: self.cells.clone() }
    }
}

/// Paints fragments into a canvas kept from one frame to the next.
pub struct Renderer {
    canvas: AsciiCanvas,
}

impl Renderer {
    /// The renderer's canvas is well formed.
    pub closed spec fn wf(&self) -> bool {
        self.canvas.wf()
    }

    pub fn new() -> (r: Self)
        ensures
            r.wf(),
    {
        Self { canvas: AsciiCanvas::new(0, 0) }
    }

    /// Draws `fragments`, in order, on a cleared grid of the viewport's size
    /// with the nearest-wins depth test. A viewport without area gives the
    /// empty frame.
    pub fn render(&mut self, viewport: Viewport, fragments: &Vec<Fragment>) -> (r: Frame)
        requires
            old(self).wf(),
        ensures
            final(self).wf(),
            r.wf(),
            viewport.width == 0 || viewport.height == 0 ==> r.spec_width() == 0 && r.spec_height()
                == 0 && r@ == Seq::<Cell>::empty() && *final(self) == *old(self),
            viewport.width > 0 && viewport.height > 0 ==> r.spec_width() == viewport.width
                && r.spec_height() == viewport.height && r@ == rendered_cells(
                viewport.width as int,
                viewport.height as int,
                fragments@,
            ),
    {
        if viewport.width == 0 || viewport.height == 0 {
            return Frame::empty();
        }
        self.canvas.ensure_size(viewport);
        self.canvas.clear();
        let ghost w = self.canvas.width as int;
        let ghost h = self.canvas.height as int;
        let ghost start_cells = self.canvas.cells@;
        let ghost start_depths = self.canvas.depth@;
        let mut i: usize = 0;
        while i < fragments.len()
            invariant
                self.canvas.wf(),
                self.canvas.width == w,
                self.canvas.height == h,
                0 <= i <= fragments@.len(),
                (self.canvas.cells@, self.canvas.depth@) == paint(
                    start_cells,
                    start_depths,
                    w,
                    h,
                    fragments@.take(i as int),
                ),
            decreases fragments@.len() - i,
        {
            self.canvas.plot(fragments[i]);
            assert(fragments@.take(i + 1).drop_last() =~= fragments@.take(i as int));
            i = i + 1;
        }
        assert(fragments@.take(fragments@.len() as int) =~= fragments@);
        self.canvas.to_frame()
    }
}

} // verus!
