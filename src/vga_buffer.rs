use vstd::prelude::*;
use vstd::string::StringSliceAdditionalSpecFns;

verus! {

/// One of the sixteen colors of the text-mode palette.
#[derive(Debug, Clone, Copy, PartialEq, Eq, Structural)]
pub enum Color {
    Black,
    Blue,
    Green,
    Cyan,
    Red,
    Magenta,
    Brown,
    LightGray,
    DarkGray,
    LightBlue,
    LightGreen,
    LightCyan,
    LightRed,
    Pink,
    Yellow,
    White,
}

/// The 4-bit palette index of a color.
pub open spec fn color_index(c: Color) -> u8 {
    match c {
        Color::Black => 0,
        Color::Blue => 1,
        Color::Green => 2,
        Color::Cyan => 3,
        Color::Red => 4,
        Color::Magenta => 5,
        Color::Brown => 6,
        Color::LightGray => 7,
        Color::DarkGray => 8,
        Color::LightBlue => 9,
        Color::LightGreen => 10,
        Color::LightCyan => 11,
        Color::LightRed => 12,
        Color::Pink => 13,
        Color::Yellow => 14,
        Color::White => 15,
    }
}

/// The color with a given palette index; out-of-range values give black.
pub open spec fn color_of(v: u8) -> Color {
    if v == 1 {
        Color::Blue
    } else if v == 2 {
        Color::Green
    } else if v == 3 {
        Color::Cyan
    } else if v == 4 {
        Color::Red
    } else if v == 5 {
        Color::Magenta
    } else if v == 6 {
        Color::Brown
    } else if v == 7 {
        Color::LightGray
    } else if v == 8 {
        Color::DarkGray
    } else if v == 9 {
        Color::LightBlue
    } else if v == 10 {
        Color::LightGreen
    } else if v == 11 {
        Color::LightCyan
    } else if v == 12 {
        Color::LightRed
    } else if v == 13 {
        Color::Pink
    } else if v == 14 {
        Color::Yellow
    } else if v == 15 {
        Color::White
    } else {
        Color::Black
    }
}

impl Color {
    /// The palette index of this color.
    pub fn index(self) -> (r: u8)
        ensures
            r == color_index(self),
            r < 16,
    {
        match self {
            Color::Black => 0,
            Color::Blue => 1,
            Color::Green => 2,
            Color::Cyan => 3,
            Color::Red => 4,
            Color::Magenta => 5,
            Color::Brown => 6,
            Color::LightGray => 7,
            Color::DarkGray => 8,
            Color::LightBlue => 9,
            Color::LightGreen => 10,
            Color::LightCyan => 11,
            Color::LightRed => 12,
            Color::Pink => 13,
            Color::Yellow => 14,
            Color::White => 15,
        }
    }
}

impl From<u8> for Color {
    fn from(value: u8) -> (r: Color) {
        match value {
            0 => Color::Black,
            1 => Color::Blue,
            2 => Color::Green,
            3 => Color::Cyan,
            4 => Color::Red,
            5 => Color::Magenta,
            6 => Color::Brown,
            7 => Color::LightGray,
            8 => Color::DarkGray,
            9 => Color::LightBlue,
            10 => Color::LightGreen,
            11 => Color::LightCyan,
            12 => Color::LightRed,
            13 => Color::Pink,
            14 => Color::Yellow,
            15 => Color::White,
            _ => Color::Black,
        }
    }
}

impl vstd::std_specs::convert::FromSpecImpl<u8> for Color {
    open spec fn obeys_from_spec() -> bool {
        true
    }

    open spec fn from_spec(v: u8) -> Color {
        color_of(v)
    }
}

/// A packed color byte: background index in the high nibble, foreground in the low one.
#[derive(Debug, Clone, Copy, PartialEq, Eq, Structural)]
pub struct ColorCode(pub u8);

/// The byte that packs a foreground and a background index.
pub open spec fn pack(foreground: u8, background: u8) -> u8
    recommends
        foreground < 16,
        background < 16,
{
    (background * 16 + foreground) as u8
}

/// White on black: the color a writer starts with and falls back to.
pub open spec fn default_color() -> u8 {
    pack(15, 0)
}

/// The nibble packing agrees with the shift-and-or layout of the hardware.
pub proof fn lemma_pack_bits(foreground: u8, background: u8)
    requires
        foreground < 16,
        background < 16,
    ensures
        pack(foreground, background) == (foreground | (background << 4u8)),
        pack(foreground, background) / 16 == background,
        pack(foreground, background) % 16 == foreground,
{
    assert((background * 16 + foreground) as u8 == (foreground | (background << 4u8))) by (bit_vector)
        requires
            foreground < 16,
            background < 16,
    ;
}

impl ColorCode {
    /// The code for a foreground on a background.
    pub fn new(foreground: Color, background: Color) -> (r: ColorCode)
        ensures
            r.0 == pack(color_index(foreground), color_index(background)),
    {
        ColorCode(background.index() * 16 + foreground.index())
    }

    /// Replaces both colors of this code.
    pub fn change_color(&mut self, foreground: Color, background: Color)
        ensures
            final(self).0 == pack(color_index(foreground), color_index(background)),
    {
        self.0 = background.index() * 16 + foreground.index();
    }

    /// The background color, from the high nibble.
    pub fn get_background(&self) -> (r: Color)
        ensures
            r == color_of(self.0 / 16),
            color_index(r) == self.0 / 16,
    {
        Color::from(self.0 / 16)
    }

    /// The foreground color, from the low nibble.
    pub fn get_foreground(&self) -> (r: Color)
        ensures
            r == color_of(self.0 % 16),
            color_index(r) == self.0 % 16,
    {
        Color::from(self.0 % 16)
    }
}

/// One cell of the grid: a code-page byte and its color, laid out as the hardware reads it.
#[derive(Debug, Clone, Copy, PartialEq, Eq, Structural)]
pub struct ScreenChar {
    pub character: u8,
    pub color_code: ColorCode,
}

/// Rows of the grid.
pub const BUFFER_HEIGHT: usize = 25;

/// Columns of the grid.
pub const BUFFER_WIDTH: usize = 80;

/// The number of cells of the grid.
pub const BUFFER_CELLS: usize = 2000;

/// The byte that opens an escape sequence.
pub const ESCAPE: u8 = 0x1b;

/// The byte that moves the cursor one cell back.
pub const BACKSPACE: u8 = 0x08;

/// The byte that closes an escape sequence, `m`.
pub const ESCAPE_END: u8 = 0x6d;

/// The line feed.
pub const NEWLINE: u8 = 0x0a;

/// The blank glyph.
pub const SPACE: u8 = 0x20;

/// The glyph that stands for a byte that a string may not carry.
pub const PLACEHOLDER: u8 = 0xfe;

/// Whether the writer is printing or reading an escape sequence.
#[derive(Debug, Clone, Copy, PartialEq, Eq, Structural)]
pub enum Mode {
    Normal,
    Escape,
}

/// What a writer is: cursor column, active color, the cells row by row, and its mode.
pub struct Screen {
    pub column: nat,
    pub color: u8,
    pub cells: Seq<ScreenChar>,
    pub escape: bool,
}

/// The index of the cell at a row and column.
pub open spec fn at(row: int, col: int) -> int {
    row * 80 + col
}

/// The index of the first cell of the bottom row.
pub open spec fn last_row() -> int {
    at(24, 0)
}

/// An empty cell in a color.
pub open spec fn blank(color: u8) -> ScreenChar {
    ScreenChar { character: 0x20, color_code: ColorCode(color) }
}

/// A row of empty cells in a color.
pub open spec fn blank_row(color: u8) -> Seq<ScreenChar> {
    Seq::new(80, |c: int| blank(color))
}

/// All rows move one up, the top one is lost, the bottom one is blank in the active color,
/// and the cursor goes back to the first column.
pub open spec fn scrolled(s: Screen) -> Screen {
    Screen { column: 0, cells: s.cells.subrange(80, 2000) + blank_row(s.color), ..s }
}

/// A byte that goes on the grid as a glyph when no escape sequence is open.
pub open spec fn is_glyph(b: u8) -> bool {
    b != 0x0a && b != 0x08 && b != 0x1b
}

/// Places a glyph at the cursor, scrolling first when the bottom row is full.
pub open spec fn put_glyph(s: Screen, b: u8) -> Screen {
    let t = if s.column >= 80 { scrolled(s) } else { s };
    Screen {
        column: t.column + 1,
        cells: t.cells.update(last_row() + t.column, ScreenChar { character: b, color_code: ColorCode(t.color) }),
        ..t
    }
}

/// The cursor moves one cell back and that cell is blanked; nothing happens at column 0.
pub open spec fn backspaced(s: Screen) -> Screen {
    if s.column > 0 {
        Screen {
            column: (s.column - 1) as nat,
            cells: s.cells.update(last_row() + s.column - 1, blank(s.color)),
            ..s
        }
    } else {
        s
    }
}

/// What one byte does to a writer.
pub open spec fn step(s: Screen, b: u8) -> Screen {
    if s.escape {
        if b < 16 {
            Screen { color: default_color(), ..s }
        } else if b < 32 {
            Screen { color: pack(b % 16, s.color / 16), ..s }
        } else if b < 48 {
            Screen { color: pack(s.color % 16, b % 16), ..s }
        } else if b == 0x6d {
            Screen { escape: false, ..s }
        } else {
            s
        }
    } else if b == 0x0a {
        scrolled(s)
    } else if b == 0x08 {
        backspaced(s)
    } else if b == 0x1b {
        Screen { escape: true, ..s }
    } else {
        put_glyph(s, b)
    }
}

/// What a run of bytes does to a writer, one byte after the other.
pub open spec fn write_all(s: Screen, bs: Seq<u8>) -> Screen
    decreases bs.len(),
{
    if bs.len() == 0 {
        s
    } else {
        step(write_all(s, bs.drop_last()), bs.last())
    }
}

/// Printable ASCII, newline and backspace pass; every other byte becomes the placeholder.
pub open spec fn sanitize_byte(b: u8) -> u8 {
    if (0x20 <= b && b <= 0x7e) || b == 0x0a || b == 0x08 {
        b
    } else {
        0xfe
    }
}

pub open spec fn sanitized(bs: Seq<u8>) -> Seq<u8> {
    bs.map_values(|b: u8| sanitize_byte(b))
}

/// A text-mode writer: the grid it owns, its cursor, its color and its escape state.
pub struct Writer {
    column_position: usize,
    color_code: ColorCode,
    buffer: Vec<ScreenChar>,
    mode: Mode,
}

impl View for Writer {
    type V = Screen;

    closed spec fn view(&self) -> Screen {
        Screen {
            column: self.column_position as nat,
            color: self.color_code.0,
            cells: self.buffer@,
            escape: self.mode == Mode::Escape,
        }
    }
}

/// A screen state that a writer can be in.
pub open spec fn screen_wf(s: Screen) -> bool {
    s.cells.len() == 2000 && s.column <= 80
}

impl Writer {
    /// The grid has all its cells and the cursor is on the row or just past its end.
    pub open spec fn wf(&self) -> bool {
        screen_wf(self@)
    }

    /// A writer over a blank grid, white on black, cursor at the left of the bottom row.
    pub fn new() -> (r: Writer)
        ensures
            r.wf(),
            r@.column == 0,
            r@.color == default_color(),
            !r@.escape,
            r@.cells == Seq::new(2000, |i: int| blank(default_color())),
    {
        let color_code = ColorCode::new(Color::White, Color::Black);
        let mut buffer: Vec<ScreenChar> = Vec::new();
        let mut i: usize = 0;
        while i < BUFFER_CELLS
            invariant
                i <= BUFFER_CELLS,
                color_code.0 == default_color(),
                buffer@ == Seq::new(i as nat, |j: int| blank(default_color())),
            decreases BUFFER_CELLS - i,
        {
            buffer.push(ScreenChar { character: SPACE, color_code });
            i += 1;
            assert(buffer@ =~= Seq::new(i as nat, |j: int| blank(default_color())));
        }
        Writer { column_position: 0, color_code, buffer, mode: Mode::Normal }
    }

    /// Fills a row with blanks in the active color.
    pub fn clear_row(&mut self, row: usize)
        requires
            old(self).wf(),
            row < BUFFER_HEIGHT,
        ensures
            final(self).wf(),
            final(self)@ == (Screen {
                cells: Seq::new(2000, |i: int|
                    if at(row as int, 0) <= i < at(row as int, 80) { blank(old(self)@.color) } else { old(self)@.cells[i] }),
                ..old(self)@
            }),
    {
        let start: usize = row * BUFFER_WIDTH;
        let mut col: usize = 0;
        while col < BUFFER_WIDTH
            invariant
                self.wf(),
                col <= BUFFER_WIDTH,
                start == row * 80,
                row < 25,
                self.column_position == old(self).column_position,
                self.color_code == old(self).color_code,
                self.mode == old(self).mode,
                forall|i: int| 0 <= i < 2000 ==> self.buffer@[i] == (
                    if start <= i < start + col { blank(old(self)@.color) } else { old(self)@.cells[i] }),
            decreases BUFFER_WIDTH - col,
        {
            let color_code = self.color_code;
            self.buffer.set(start + col, ScreenChar { character: SPACE, color_code });
            col += 1;
        }
        assert(self@.cells =~= Seq::new(2000, |i: int|
            if at(row as int, 0) <= i < at(row as int, 80) { blank(old(self)@.color) } else { old(self)@.cells[i] }));
    }

    /// Scrolls every row one up and clears the bottom row; the cursor returns to column 0.
    pub fn new_line(&mut self)
        requires
            old(self).wf(),
        ensures
            final(self).wf(),
            final(self)@ == scrolled(old(self)@),
    {
        let mut i: usize = BUFFER_WIDTH;
        while i < BUFFER_CELLS
            invariant
                self.wf(),
                BUFFER_WIDTH <= i <= BUFFER_CELLS,
                self.column_position == old(self).column_position,
                self.color_code == old(self).color_code,
                self.mode == old(self).mode,
                forall|j: int| 0 <= j < i - 80 ==> self.buffer@[j] == old(self)@.cells[j + 80],
                forall|j: int| i - 80 <= j < 2000 ==> self.buffer@[j] == old(self)@.cells[j],
            decreases BUFFER_CELLS - i,
        {
            let c = self.buffer[i];
            self.buffer.set(i - BUFFER_WIDTH, c);
            i += 1;
        }
        self.clear_row(BUFFER_HEIGHT - 1);
        self.column_position = 0;
        assert(self@.cells =~= scrolled(old(self)@).cells);
    }

    /// Consumes one byte: prints it, moves the cursor, scrolls, or reads it as part of
    /// an escape sequence.
    pub fn write_byte(&mut self, byte: u8)
        requires
            old(self).wf(),
        ensures
            final(self).wf(),
            final(self)@ == step(old(self)@, byte),
    {
        match self.mode {
            Mode::Escape => {
                if byte <= 15 {
                    self.color_code = ColorCode::new(Color::White, Color::Black);
                } else if byte <= 31 {
                    let background = self.color_code.get_background();
                    self.color_code.change_color(Color::from(byte % 16), background);
                } else if byte <= 47 {
                    let foreground = self.color_code.get_foreground();
                    self.color_code.change_color(foreground, Color::from(byte % 16));
                } else if byte == ESCAPE_END {
                    self.mode = Mode::Normal;
                }
            },
            Mode::Normal => {
                if byte == NEWLINE {
                    self.new_line();
                } else if byte == BACKSPACE {
                    self.backspace();
                } else if byte == ESCAPE {
                    self.mode = Mode::Escape;
                } else {
                    if self.column_position >= BUFFER_WIDTH {
                        self.new_line();
                    }
                    let row: usize = BUFFER_HEIGHT - 1;
                    let col: usize = self.column_position;
                    let color_code = self.color_code;
                    self.buffer.set(row * BUFFER_WIDTH + col, ScreenChar { character: byte, color_code });
                    self.column_position += 1;
                }
            },
        }
    }

    /// Writes a string byte by byte, replacing each byte that is not printable ASCII,
    /// a newline or a backspace by the placeholder glyph, so that no escape sequence
    /// can be opened from text.
    pub fn write_string(&mut self, s: &str)
        requires
            old(self).wf(),
        ensures
            final(self).wf(),
            final(self)@ == write_all(old(self)@, sanitized(s.spec_bytes())),
    {
        let bytes = s.as_bytes();
        let n: usize = bytes.len();
        let mut i: usize = 0;
        while i < n
            invariant
                self.wf(),
                i <= n,
                n == bytes@.len(),
                bytes@ == s.spec_bytes(),
                self@ == write_all(old(self)@, sanitized(bytes@).take(i as int)),
            decreases n - i,
        {
            let byte = bytes[i];
            if (0x20 <= byte && byte <= 0x7e) || byte == NEWLINE || byte == BACKSPACE {
                self.write_byte(byte);
            } else {
                self.write_byte(PLACEHOLDER);
            }
            proof {
                let t = sanitized(bytes@);
                assert(t.take(i + 1).drop_last() =~= t.take(i as int));
            }
            i += 1;
        }
        proof {
            assert(sanitized(bytes@).take(n as int) =~= sanitized(bytes@));
        }
    }

    /// The column of the cursor on the bottom row.
    pub fn column(&self) -> (r: usize)
        ensures
            r == self@.column,
    {
        self.column_position
    }

    /// The active color code.
    pub fn color_code(&self) -> (r: ColorCode)
        ensures
            r.0 == self@.color,
    {
        self.color_code
    }

    /// Whether an escape sequence is open.
    pub fn in_escape(&self) -> (r: bool)
        ensures
            r == self@.escape,
    {
        match self.mode {
            Mode::Escape => true,
            Mode::Normal => false,
        }
    }

    /// The cell at a row and column.
    pub fn cell(&self, row: usize, col: usize) -> (r: ScreenChar)
        requires
            self.wf(),
            row < BUFFER_HEIGHT,
            col < BUFFER_WIDTH,
        ensures
            r == self@.cells[at(row as int, col as int)],
    {
        self.buffer[row * BUFFER_WIDTH + col]
    }

    /// Moves the cursor one cell back and blanks that cell; does nothing at column 0.
    pub fn backspace(&mut self)
        requires
            old(self).wf(),
        ensures
            final(self).wf(),
            final(self)@ == backspaced(old(self)@),
    {
        if self.column_position > 0 {
            self.column_position -= 1;
            let color_code = self.color_code;
            self.buffer.set((BUFFER_HEIGHT - 1) * BUFFER_WIDTH + self.column_position,
                ScreenChar { character: SPACE, color_code });
        }
    }
}

/// Sets the active color of a writer by sending it the escape sequence
/// `ESC, foreground + 16, background + 32, m` through the byte-level entry point.
#[verifier::rlimit(30)]
pub fn print_change_color(writer: &mut Writer, foreground: Color, background: Color)
    requires
        old(writer).wf(),
    ensures
        final(writer).wf(),
        final(writer)@ == write_all(
            old(writer)@,
            seq![ESCAPE, (color_index(foreground) + 16) as u8, (color_index(background) + 32) as u8, ESCAPE_END],
        ),
        final(writer)@ == (Screen {
            color: pack(color_index(foreground), color_index(background)),
            escape: false,
            ..old(writer)@
        }),
{
    proof {
        crate::lemmas::lemma_color_sequence(writer@, color_index(foreground), color_index(background));
    }
    let f: u8 = foreground.index() + 16;
    let b: u8 = background.index() + 32;
    writer.write_byte(ESCAPE);
    writer.write_byte(f);
    writer.write_byte(b);
    writer.write_byte(ESCAPE_END);
}

} // verus!
