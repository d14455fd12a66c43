//! The VGA text-mode console: an 80x25 grid of cells, each an ASCII byte and
//! a colour attribute (`background << 4 | foreground`).

use vstd::prelude::*;
use vstd::string::StringSliceAdditionalSpecFns;
use vstd::string::StrSliceExecFns;

verus! {

/// The fixed 16-colour VGA palette.
#[derive(Debug, Clone, Copy, PartialEq, Eq, Structural)]
pub enum Color {
    Black,
    Blue,
    Green,
    Cyan,
    Red,
    Magenta,
    Brown,
    LightGray,
    DarkGray,
    LightBlue,
    LightGreen,
    LightCyan,
    LightRed,
    Pink,
    Yellow,
    White,
}

/// The hardware number of each colour.
pub open spec fn color_value(c: Color) -> u8 {
    match c {
        Color::Black => 0,
        Color::Blue => 1,
        Color::Green => 2,
        Color::Cyan => 3,
        Color::Red => 4,
        Color::Magenta => 5,
        Color::Brown => 6,
        Color::LightGray => 7,
        Color::DarkGray => 8,
        Color::LightBlue => 9,
        Color::LightGreen => 10,
        Color::LightCyan => 11,
        Color::LightRed => 12,
        Color::Pink => 13,
        Color::Yellow => 14,
        Color::White => 15,
    }
}

impl Color {
    /// The colour's 4-bit hardware number.
    pub fn code(self) -> (r: u8)
        ensures
            r == color_value(self),
            r < 16,
    {
        match self {
            Color::Black => 0,
            Color::Blue => 1,
            Color::Green => 2,
            Color::Cyan => 3,
            Color::Red => 4,
            Color::Magenta => 5,
            Color::Brown => 6,
            Color::LightGray => 7,
            Color::DarkGray => 8,
            Color::LightBlue => 9,
            Color::LightGreen => 10,
            Color::LightCyan => 11,
            Color::LightRed => 12,
            Color::Pink => 13,
            Color::Yellow => 14,
            Color::White => 15,
        }
    }
}

/// The name of each colour.
pub open spec fn color_name(c: Color) -> Seq<u8> {
    match c {
        Color::Black => "Black".spec_bytes(),
        Color::Blue => "Blue".spec_bytes(),
        Color::Green => "Green".spec_bytes(),
        Color::Cyan => "Cyan".spec_bytes(),
        Color::Red => "Red".spec_bytes(),
        Color::Magenta => "Magenta".spec_bytes(),
        Color::Brown => "Brown".spec_bytes(),
        Color::LightGray => "LightGray".spec_bytes(),
        Color::DarkGray => "DarkGray".spec_bytes(),
        Color::LightBlue => "LightBlue".spec_bytes(),
        Color::LightGreen => "LightGreen".spec_bytes(),
        Color::LightCyan => "LightCyan".spec_bytes(),
        Color::LightRed => "LightRed".spec_bytes(),
        Color::Pink => "Pink".spec_bytes(),
        Color::Yellow => "Yellow".spec_bytes(),
        Color::White => "White".spec_bytes(),
    }
}

/// The colour whose hardware number is `n` (below 16).
pub open spec fn color_with_value(n: int) -> Color {
    if n == 0 {
        Color::Black
    } else if n == 1 {
        Color::Blue
    } else if n == 2 {
        Color::Green
    } else if n == 3 {
        Color::Cyan
    } else if n == 4 {
        Color::Red
    } else if n == 5 {
        Color::Magenta
    } else if n == 6 {
        Color::Brown
    } else if n == 7 {
        Color::LightGray
    } else if n == 8 {
        Color::DarkGray
    } else if n == 9 {
        Color::LightBlue
    } else if n == 10 {
        Color::LightGreen
    } else if n == 11 {
        Color::LightCyan
    } else if n == 12 {
        Color::LightRed
    } else if n == 13 {
        Color::Pink
    } else if n == 14 {
        Color::Yellow
    } else {
        Color::White
    }
}

impl Color {
    /// The colour's name.
    pub fn name(self) -> (r: &'static str)
        ensures
            r.spec_bytes() == color_name(self),
    {
        match self {
            Color::Black => "Black",
            Color::Blue => "Blue",
            Color::Green => "Green",
            Color::Cyan => "Cyan",
            Color::Red => "Red",
            Color::Magenta => "Magenta",
            Color::Brown => "Brown",
            Color::LightGray => "LightGray",
            Color::DarkGray => "DarkGray",
            Color::LightBlue => "LightBlue",
            Color::LightGreen => "LightGreen",
            Color::LightCyan => "LightCyan",
            Color::LightRed => "LightRed",
            Color::Pink => "Pink",
            Color::Yellow => "Yellow",
            Color::White => "White",
        }
    }

    /// The colour whose hardware number is `n`.
    pub fn from_code(n: u8) -> (r: Color)
        requires
            n < 16,
        ensures
            r == color_with_value(n as int),
            color_value(r) == n,
    {
        if n == 0 {
            Color::Black
        } else if n == 1 {
            Color::Blue
        } else if n == 2 {
            Color::Green
        } else if n == 3 {
            Color::Cyan
        } else if n == 4 {
            Color::Red
        } else if n == 5 {
            Color::Magenta
        } else if n == 6 {
            Color::Brown
        } else if n == 7 {
            Color::LightGray
        } else if n == 8 {
            Color::DarkGray
        } else if n == 9 {
            Color::LightBlue
        } else if n == 10 {
            Color::LightGreen
        } else if n == 11 {
            Color::LightCyan
        } else if n == 12 {
            Color::LightRed
        } else if n == 13 {
            Color::Pink
        } else if n == 14 {
            Color::Yellow
        } else {
            Color::White
        }
    }
}

/// A VGA colour attribute byte: background in bits 7-4, foreground in bits 3-0.
#[derive(Debug, Clone, Copy, PartialEq, Eq, Structural)]
pub struct ColorCode(pub u8);

impl ColorCode {
    /// The attribute byte for `foreground` on `background`.
    pub fn new(foreground: Color, background: Color) -> (r: ColorCode)
        ensures
            r.0 == color_value(background) * 16 + color_value(foreground),
            r.0 >> 4u8 == color_value(background),
            r.0 & 0xfu8 == color_value(foreground),
    {
        let fg = foreground.code();
        let bg = background.code();
        let v: u8 = bg << 4u8 | fg;
        assert(v == bg * 16 + fg && v >> 4u8 == bg && v & 0xfu8 == fg) by (bit_vector)
            requires
                fg < 16,
                bg < 16,
                v == bg << 4u8 | fg,
        ;
        ColorCode(v)
    }
}


/// Number of text rows on the screen.
pub const BUFFER_HEIGHT: usize = 25;

/// Number of text columns on the screen.
pub const BUFFER_WIDTH: usize = 80;

/// Number of cells on the screen.
pub const BUFFER_CELLS: usize = 2000;

/// The attribute byte that `foreground` on `background` encodes.
pub open spec fn color_code_of(foreground: Color, background: Color) -> ColorCode {
    ColorCode((color_value(background) * 16 + color_value(foreground)) as u8)
}

/// One screen cell: the character byte, then its colour attribute.
#[derive(Debug, Clone, Copy, PartialEq, Eq, Structural)]
pub struct ScreenChar {
    pub ascii_character: u8,
    pub color_code: ColorCode,
}

/// A blank (space) cell in the given colour.
pub open spec fn blank(color: ColorCode) -> ScreenChar {
    ScreenChar { ascii_character: 32u8, color_code: color }
}

/// The byte that lands on screen for a byte of a string: printable ASCII and
/// newline pass through, anything else becomes the block character `0xfe`.
pub open spec fn displayed_byte(b: u8) -> u8 {
    if (0x20 <= b && b <= 0x7e) || b == 10 {
        b
    } else {
        0xfe
    }
}

/// The abstract state of the console: the 2000 cells row by row, the cursor
/// column on the bottom row, and the active colour.
pub struct Screen {
    pub cells: Seq<ScreenChar>,
    pub column: nat,
    pub color: ColorCode,
}

impl Screen {
    /// A screen state the writer can be in.
    pub open spec fn wf(self) -> bool {
        self.cells.len() == BUFFER_CELLS && self.column <= BUFFER_WIDTH
    }

    /// The cell at `row`, `col`.
    pub open spec fn cell(self, row: int, col: int) -> ScreenChar {
        self.cells[row * 80 + col]
    }

    /// The same cells and cursor in another colour.
    pub open spec fn with_color(self, color: ColorCode) -> Screen {
        Screen { cells: self.cells, column: self.column, color }
    }

    /// Scrolling up one line: every row takes the row below it, the bottom
    /// row is blank in the current colour, and the cursor returns to column 0.
    pub open spec fn scrolled(self) -> Screen {
        Screen {
            cells: Seq::new(
                2000,
                |i: int|
                    if i < 1920 {
                        self.cells[i + 80]
                    } else {
                        blank(self.color)
                    },
            ),
            column: 0,
            color: self.color,
        }
    }

    /// Row `row` filled with blanks in the current colour.
    pub open spec fn row_cleared(self, row: int) -> Screen {
        Screen {
            cells: Seq::new(
                self.cells.len(),
                |i: int|
                    if row * 80 <= i && i < row * 80 + 80 {
                        blank(self.color)
                    } else {
                        self.cells[i]
                    },
            ),
            column: self.column,
            color: self.color,
        }
    }

    /// Every cell blank in the current colour, cursor at column 0.
    pub open spec fn cleared(self) -> Screen {
        Screen { cells: Seq::new(2000, |i: int| blank(self.color)), column: 0, color: self.color }
    }

    /// Writing one byte: a newline scrolls; any other byte first scrolls if
    /// the bottom row is full, then lands at the cursor on the bottom row in
    /// the current colour and moves the cursor one column right.
    pub open spec fn put_byte(self, byte: u8) -> Screen {
        if byte == 10 {
            self.scrolled()
        } else {
            let s = if self.column >= 80 {
                self.scrolled()
            } else {
                self
            };
            Screen {
                cells: s.cells.update(
                    1920 + s.column as int,
                    ScreenChar { ascii_character: byte, color_code: s.color },
                ),
                column: s.column + 1,
                color: s.color,
            }
        }
    }

    /// Writing a sequence of bytes, one after the other.
    pub open spec fn put_bytes(self, bytes: Seq<u8>) -> Screen
        decreases bytes.len(),
    {
        if bytes.len() == 0 {
            self
        } else {
            self.put_bytes(bytes.drop_last()).put_byte(bytes.last())
        }
    }

    /// Writing the UTF-8 bytes of a string, each shown as `displayed_byte`.
    pub open spec fn put_str_bytes(self, bytes: Seq<u8>) -> Screen {
        self.put_bytes(bytes.map_values(|b: u8| displayed_byte(b)))
    }

    /// Erasing the character before the cursor: the cursor moves one column
    /// left and that cell becomes blank in the current colour. Nothing happens
    /// at column 0.
    pub open spec fn erased_back(self) -> Screen {
        if self.column > 0 {
            Screen {
                cells: self.cells.update(1920 + self.column as int - 1, blank(self.color)),
                column: (self.column - 1) as nat,
                color: self.color,
            }
        } else {
            self
        }
    }
}

/// Scrolling, clearing and writing keep a screen state well formed.
pub proof fn lemma_put_bytes_wf(s: Screen, bytes: Seq<u8>)
    requires
        s.wf(),
    ensures
        s.put_bytes(bytes).wf(),
        s.put_bytes(bytes).color == s.color,
    decreases bytes.len(),
{
    if bytes.len() > 0 {
        lemma_put_bytes_wf(s, bytes.drop_last());
    }
}

/// Scrolling moves every row up by one: row `r` shows what row `r + 1`
/// showed, and the bottom row is blank in the current colour.
pub proof fn lemma_scroll_moves_rows_up(s: Screen)
    requires
        s.wf(),
    ensures
        forall|r: int, c: int|
            0 <= r < 24 && 0 <= c < 80 ==> #[trigger] s.scrolled().cell(r, c) == s.cell(r + 1, c),
        forall|c: int| 0 <= c < 80 ==> #[trigger] s.scrolled().cell(24, c) == blank(s.color),
        s.scrolled().column == 0,
        s.scrolled().wf(),
{
    assert forall|r: int, c: int| 0 <= r < 24 && 0 <= c < 80 implies #[trigger] s.scrolled().cell(
        r,
        c,
    ) == s.cell(r + 1, c) by {
        assert(r * 80 + c + 80 == (r + 1) * 80 + c);
    }
}

/// Backspace undoes the echo of a character: after writing a byte other
/// than a newline on a bottom row that is not full, erasing puts the cursor
/// back where it was, leaves that cell blank and every other cell as it was.
pub proof fn lemma_erase_undoes_put(s: Screen, b: u8)
    requires
        s.wf(),
        b != 10,
        s.column < 80,
    ensures
        s.put_byte(b).erased_back().column == s.column,
        s.put_byte(b).erased_back().color == s.color,
        s.put_byte(b).erased_back().cells == s.cells.update(1920 + s.column as int, blank(s.color)),
{
    assert(s.put_byte(b).erased_back().cells =~= s.cells.update(1920 + s.column as int, blank(s.color)));
}

/// For printable ASCII text, writing it as a string puts exactly its bytes on
/// screen.
pub proof fn lemma_printable_text_shown_as_is(s: Screen, bytes: Seq<u8>)
    requires
        forall|i: int| 0 <= i < bytes.len() ==> 0x20 <= #[trigger] bytes[i] <= 0x7e,
    ensures
        s.put_str_bytes(bytes) == s.put_bytes(bytes),
{
    assert(bytes.map_values(|b: u8| displayed_byte(b)) =~= bytes);
}

/// The number of a colour names that colour back.
pub proof fn lemma_color_value_roundtrip(c: Color)
    ensures
        color_with_value(color_value(c) as int) == c,
        color_value(c) < 16,
{
}

/// The 16 colours carry their fixed VGA hardware numbers, and each number
/// names its colour back.
pub proof fn lemma_vga_palette_numbers()
    ensures
        color_value(Color::Black) == 0 && color_with_value(0) == Color::Black,
        color_value(Color::Blue) == 1 && color_with_value(1) == Color::Blue,
        color_value(Color::Green) == 2 && color_with_value(2) == Color::Green,
        color_value(Color::Cyan) == 3 && color_with_value(3) == Color::Cyan,
        color_value(Color::Red) == 4 && color_with_value(4) == Color::Red,
        color_value(Color::Magenta) == 5 && color_with_value(5) == Color::Magenta,
        color_value(Color::Brown) == 6 && color_with_value(6) == Color::Brown,
        color_value(Color::LightGray) == 7 && color_with_value(7) == Color::LightGray,
        color_value(Color::DarkGray) == 8 && color_with_value(8) == Color::DarkGray,
        color_value(Color::LightBlue) == 9 && color_with_value(9) == Color::LightBlue,
        color_value(Color::LightGreen) == 10 && color_with_value(10) == Color::LightGreen,
        color_value(Color::LightCyan) == 11 && color_with_value(11) == Color::LightCyan,
        color_value(Color::LightRed) == 12 && color_with_value(12) == Color::LightRed,
        color_value(Color::Pink) == 13 && color_with_value(13) == Color::Pink,
        color_value(Color::Yellow) == 14 && color_with_value(14) == Color::Yellow,
        color_value(Color::White) == 15 && color_with_value(15) == Color::White,
{
}

/// Writing a byte other than a newline on a bottom row that is not full puts
/// that byte, in the current colour, at the cursor and moves the cursor one
/// column right; every other cell stays as it was.
pub proof fn lemma_put_byte_at_cursor(s: Screen, b: u8)
    requires
        s.wf(),
        b != 10,
        s.column < 80,
    ensures
        s.put_byte(b).cell(24, s.column as int) == (ScreenChar { ascii_character: b, color_code: s.color }),
        s.put_byte(b).column == s.column + 1,
        s.put_byte(b).color == s.color,
        forall|i: int| 0 <= i < 2000 && i != 1920 + s.column ==> #[trigger] s.put_byte(b).cells[i] == s.cells[i],
{
}

/// A text writer for the VGA console. It always writes on the bottom row and
/// scrolls the screen up when a line ends or the row is full.
pub struct Writer {
    column_position: usize,
    color_code: ColorCode,
    chars: Vec<ScreenChar>,
}

impl View for Writer {
    type V = Screen;

    closed spec fn view(&self) -> Screen {
        Screen { cells: self.chars@, column: self.column_position as nat, color: self.color_code }
    }
}

impl Writer {
    /// A writer over the given screen contents (row by row), with the cursor
    /// at column 0 and yellow-on-black text.
    pub fn new(cells: Vec<ScreenChar>) -> (w: Writer)
        requires
            cells.len() == BUFFER_CELLS,
        ensures
            w@.wf(),
            w@.cells == cells@,
            w@.column == 0,
            w@.color == color_code_of(Color::Yellow, Color::Black),
    {
        Writer { column_position: 0, color_code: ColorCode::new(Color::Yellow, Color::Black), chars: cells }
    }

    /// The cursor column on the bottom row.
    pub fn column_position(&self) -> (r: usize)
        ensures
            r == self@.column,
    {
        self.column_position
    }

    /// The active colour attribute.
    pub fn color_code(&self) -> (r: ColorCode)
        ensures
            r == self@.color,
    {
        self.color_code
    }

    /// The screen cells, row by row.
    pub fn cells(&self) -> (r: &Vec<ScreenChar>)
        ensures
            r@ == self@.cells,
    {
        &self.chars
    }

    /// The cell at `row`, `col`.
    pub fn cell(&self, row: usize, col: usize) -> (r: ScreenChar)
        requires
            self@.wf(),
            row < BUFFER_HEIGHT,
            col < BUFFER_WIDTH,
        ensures
            r == self@.cell(row as int, col as int),
    {
        self.chars[row * BUFFER_WIDTH + col]
    }

    /// Makes `color` the colour of everything written from now on.
    pub fn set_color_code(&mut self, color: ColorCode)
        ensures
            final(self)@ == old(self)@.with_color(color),
    {
        self.color_code = color;
    }

    /// Scrolls the screen up by one row, blanks the bottom row and returns
    /// the cursor to column 0.
    pub fn new_line(&mut self)
        requires
            old(self)@.wf(),
        ensures
            final(self)@ == old(self)@.scrolled(),
            final(self)@.wf(),
    {
        let ghost old_cells = self.chars@;
        for i in 80..2000usize
            invariant
                self.chars@.len() == 2000,
                self.column_position == old(self).column_position,
                self.color_code == old(self).color_code,
                self.column_position <= 80,
                old_cells == old(self)@.cells,
                forall|j: int| 0 <= j < i - 80 ==> self.chars@[j] == old_cells[j + 80],
                forall|j: int| i - 80 <= j < 2000 ==> self.chars@[j] == old_cells[j],
        {
            let c = self.chars[i];
            self.chars[i - 80] = c;
        }
        self.clear_row(BUFFER_HEIGHT - 1);
        self.column_position = 0;
        assert(self.chars@ =~= old(self)@.scrolled().cells);
    }

    /// Fills row `row` with blanks in the current colour.
    pub fn clear_row(&mut self, row: usize)
        requires
            old(self)@.wf(),
            row < BUFFER_HEIGHT,
        ensures
            final(self)@ == old(self)@.row_cleared(row as int),
            final(self)@.wf(),
    {
        let blank_cell = ScreenChar { ascii_character: 0x20u8, color_code: self.color_code };
        let ghost old_cells = self.chars@;
        let start = row * BUFFER_WIDTH;
        for col in 0..BUFFER_WIDTH
            invariant
                start == row * 80,
                row < 25,
                blank_cell == blank(self.color_code),
                self.color_code == old(self).color_code,
                self.column_position == old(self).column_position,
                self.chars@.len() == 2000,
                forall|j: int|
                    0 <= j < 2000 ==> self.chars@[j] == (if start <= j < start + col {
                        blank_cell
                    } else {
                        old_cells[j]
                    }),
        {
            self.chars[start + col] = blank_cell;
        }
        assert(self.chars@ =~= old(self)@.row_cleared(row as int).cells);
    }

    /// Writes one byte: `\n` scrolls; any other byte is written at the
    /// cursor on the bottom row, after scrolling if the row is full.
    pub fn write_byte(&mut self, byte: u8)
        requires
            old(self)@.wf(),
        ensures
            final(self)@ == old(self)@.put_byte(byte),
            final(self)@.wf(),
    {
        if byte == 0x0au8 {
            self.new_line();
        } else {
            if self.column_position >= BUFFER_WIDTH {
                self.new_line();
            }
            let row = BUFFER_HEIGHT - 1;
            let col = self.column_position;
            self.chars[row * BUFFER_WIDTH + col] = ScreenChar {
                ascii_character: byte,
                color_code: self.color_code,
            };
            self.column_position = self.column_position + 1;
        }
    }

    /// Writes a sequence of bytes one by one, exactly as given.
    pub fn write_bytes(&mut self, bytes: &Vec<u8>)
        requires
            old(self)@.wf(),
        ensures
            final(self)@ == old(self)@.put_bytes(bytes@),
            final(self)@.wf(),
    {
        let ghost start = self@;
        for i in 0..bytes.len()
            invariant
                self@ == start.put_bytes(bytes@.take(i as int)),
                self@.wf(),
        {
            proof {
                assert(bytes@.take(i + 1).drop_last() =~= bytes@.take(i as int));
            }
            self.write_byte(bytes[i]);
        }
        assert(bytes@.take(bytes.len() as int) =~= bytes@);
    }

    /// Writes the UTF-8 bytes of a string: printable ASCII and `\n` as
    /// they are, every other byte as the block character `0xfe`.
    pub fn write_str_bytes(&mut self, bytes: &Vec<u8>)
        requires
            old(self)@.wf(),
        ensures
            final(self)@ == old(self)@.put_str_bytes(bytes@),
            final(self)@.wf(),
    {
        let ghost start = self@;
        let ghost shown = bytes@.map_values(|b: u8| displayed_byte(b));
        for i in 0..bytes.len()
            invariant
                shown == bytes@.map_values(|b: u8| displayed_byte(b)),
                self@ == start.put_bytes(shown.take(i as int)),
                self@.wf(),
        {
            let byte = bytes[i];
            let shown_byte = if (0x20 <= byte && byte <= 0x7e) || byte == 0x0au8 {
                byte
            } else {
                0xfe
            };
            proof {
                assert(shown.take(i + 1).drop_last() =~= shown.take(i as int));
            }
            self.write_byte(shown_byte);
        }
        assert(shown.take(bytes.len() as int) =~= shown);
    }

    /// Writes a string: printable ASCII and `\n` as they are, every other
    /// byte of its UTF-8 encoding as the block character `0xfe`.
    pub fn write_string(&mut self, s: &str)
        requires
            old(self)@.wf(),
        ensures
            final(self)@ == old(self)@.put_str_bytes(s.spec_bytes()),
            final(self)@.wf(),
    {
        let bytes = s.as_bytes_vec();
        self.write_str_bytes(&bytes);
    }

    /// Erases the character before the cursor; does nothing at column 0.
    pub fn backspace(&mut self)
        requires
            old(self)@.wf(),
        ensures
            final(self)@ == old(self)@.erased_back(),
            final(self)@.wf(),
    {
        if self.column_position > 0 {
            self.column_position = self.column_position - 1;
            let row = BUFFER_HEIGHT - 1;
            let col = self.column_position;
            self.chars[row * BUFFER_WIDTH + col] = ScreenChar {
                ascii_character: 0x20u8,
                color_code: self.color_code,
            };
        }
    }
}

/// Switches the writer to white-on-red text, as the panic path does.
pub fn set_panic_color(writer: &mut Writer)
    ensures
        final(writer)@ == old(writer)@.with_color(color_code_of(Color::White, Color::Red)),
{
    writer.set_color_code(ColorCode::new(Color::White, Color::Red));
}

/// Blanks the whole screen in the current colour and moves the cursor home.
pub fn clear_screen(writer: &mut Writer)
    requires
        old(writer)@.wf(),
    ensures
        final(writer)@ == old(writer)@.cleared(),
        final(writer)@.wf(),
{
    let ghost start = writer@;
    for row in 0..BUFFER_HEIGHT
        invariant
            writer@.wf(),
            writer@.color == start.color,
            writer@.column == start.column,
            forall|j: int| 0 <= j < row * 80 ==> writer@.cells[j] == blank(start.color),
    {
        writer.clear_row(row);
    }
    writer.column_position = 0;
    assert(writer@.cells =~= start.cleared().cells);
}

/// Erases the character before the cursor (the shell's Backspace).
pub fn backspace(writer: &mut Writer)
    requires
        old(writer)@.wf(),
    ensures
        final(writer)@ == old(writer)@.erased_back(),
        final(writer)@.wf(),
{
    writer.backspace();
}

/// Writes `s` in `foreground` on `background`, then restores the previous
/// colour.
pub fn print_colored(writer: &mut Writer, s: &str, foreground: Color, background: Color)
    requires
        old(writer)@.wf(),
    ensures
        final(writer)@ == old(writer)@.with_color(color_code_of(foreground, background))
            .put_str_bytes(s.spec_bytes()).with_color(old(writer)@.color),
        final(writer)@.color == old(writer)@.color,
        final(writer)@.wf(),
{
    let saved = writer.color_code;
    writer.color_code = ColorCode::new(foreground, background);
    writer.write_string(s);
    writer.color_code = saved;
}

} // verus!
