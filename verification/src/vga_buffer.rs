//! The text console: a grid of 25 rows of 80 characters that is written at
//! the bottom row and scrolls upward.
//!
//! The writer keeps the grid as plain values. Whoever owns the display copies
//! the cells to it.

use vstd::prelude::*;
use vstd::string::StringSliceAdditionalSpecFns;

verus! {

/// The sixteen colours of the text mode, in the order of their numbers.
#[derive(Debug, Clone, Copy, PartialEq, Eq, Structural)]
pub enum Color {
    Black,
    Blue,
    Green,
    Cyan,
    Red,
    Magenta,
    Brown,
    LightGray,
    DarkGray,
    LightBlue,
    LightGreen,
    LightCyan,
    LightRed,
    Pink,
    Yellow,
    White,
}

impl Color {
    /// The number of this colour, from 0 for black to 15 for white.
    pub open spec fn spec_value(self) -> u8 {
        match self {
            Color::Black => 0,
            Color::Blue => 1,
            Color::Green => 2,
            Color::Cyan => 3,
            Color::Red => 4,
            Color::Magenta => 5,
            Color::Brown => 6,
            Color::LightGray => 7,
            Color::DarkGray => 8,
            Color::LightBlue => 9,
            Color::LightGreen => 10,
            Color::LightCyan => 11,
            Color::LightRed => 12,
            Color::Pink => 13,
            Color::Yellow => 14,
            Color::White => 15,
        }
    }

    /// The number of this colour, from 0 for black to 15 for white.
    #[verifier::when_used_as_spec(spec_value)]
    pub fn value(self) -> (value: u8)
        ensures
            value == self.spec_value(),
            value < 16,
    {
        match self {
            Color::Black => 0,
            Color::Blue => 1,
            Color::Green => 2,
            Color::Cyan => 3,
            Color::Red => 4,
            Color::Magenta => 5,
            Color::Brown => 6,
            Color::LightGray => 7,
            Color::DarkGray => 8,
            Color::LightBlue => 9,
            Color::LightGreen => 10,
            Color::LightCyan => 11,
            Color::LightRed => 12,
            Color::Pink => 13,
            Color::Yellow => 14,
            Color::White => 15,
        }
    }
}

/// The colour byte of a cell: the background in the high four bits, the
/// foreground in the low four.
#[derive(Debug, Clone, Copy, PartialEq, Eq, Structural)]
pub struct ColorCode(pub u8);

impl ColorCode {
    /// The colour byte for `foreground` on `background`.
    pub open spec fn spec_new(foreground: Color, background: Color) -> ColorCode {
        ColorCode((background.spec_value() * 16 + foreground.spec_value()) as u8)
    }

    /// The colour byte for `foreground` on `background`.
    pub fn new(foreground: Color, background: Color) -> (code: ColorCode)
        ensures
            code == ColorCode::spec_new(foreground, background),
    {
        let high = background.value();
        let low = foreground.value();
        assert((high << 4u8) | low == high * 16 + low) by (bit_vector)
            requires
                high < 16,
                low < 16,
        ;
        ColorCode((high << 4u8) | low)
    }
}

/// One cell of the grid: a character and its colours.
#[derive(Debug, Clone, Copy, PartialEq, Eq, Structural)]
pub struct ScreenChar {
    pub ascii_character: u8,
    pub color_code: ColorCode,
}

/// Number of rows of the grid.
pub const BUFFER_HEIGHT: usize = 25;

/// Number of columns of the grid.
pub const BUFFER_WIDTH: usize = 80;

/// Number of cells of the grid.
pub const BUFFER_CELLS: usize = 2000;

/// The byte that ends a line.
pub const NEWLINE: u8 = 0x0a;

/// The byte that is shown in place of one that cannot be shown.
pub const UNPRINTABLE: u8 = 0xfe;

/// The position of the cell at `row` and `col` among the cells, which are
/// kept row after row.
pub open spec fn cell_index(row: int, col: int) -> int {
    row * BUFFER_WIDTH + col
}

/// The byte that is shown for `byte`: itself if it is a printable character
/// or ends a line, the filled square otherwise.
pub open spec fn shown_byte(byte: u8) -> u8 {
    if 0x20 <= byte <= 0x7e || byte == NEWLINE {
        byte
    } else {
        UNPRINTABLE
    }
}

/// What a writer holds: the column at which the next character goes, the
/// colours it writes in, and the cells of the grid.
pub ghost struct Screen {
    pub column_position: nat,
    pub color_code: ColorCode,
    pub cells: Seq<ScreenChar>,
}

impl Screen {
    /// A space in the writer's colours.
    pub open spec fn blank(self) -> ScreenChar {
        ScreenChar { ascii_character: 0x20, color_code: self.color_code }
    }

    /// The cell at `row` and `col`.
    pub open spec fn at(self, row: int, col: int) -> ScreenChar {
        self.cells[cell_index(row, col)]
    }

    /// This screen with the row `row` blank.
    pub open spec fn clean_row(self, row: int) -> Screen {
        Screen {
            cells: Seq::new(
                BUFFER_CELLS as nat,
                |i: int|
                    if cell_index(row, 0) <= i < cell_index(row + 1, 0) {
                        self.blank()
                    } else {
                        self.cells[i]
                    },
            ),
            ..self
        }
    }

    /// This screen after a line break: every row has moved up by one, the top
    /// row is gone, the bottom row is blank, and writing goes on at its left
    /// end.
    pub open spec fn new_line(self) -> Screen {
        Screen {
            column_position: 0,
            cells: Seq::new(
                BUFFER_CELLS as nat,
                |i: int|
                    if i < cell_index(BUFFER_HEIGHT - 1, 0) {
                        self.cells[i + BUFFER_WIDTH]
                    } else {
                        self.blank()
                    },
            ),
            ..self
        }
    }

    /// This screen after `byte` was written: a line break for the byte that
    /// ends a line; otherwise the byte in the bottom row at the writer's
    /// column, after a line break if the row was full, and the column moved
    /// on by one.
    pub open spec fn write_byte(self, byte: u8) -> Screen {
        if byte == NEWLINE {
            self.new_line()
        } else {
            let screen = if self.column_position >= BUFFER_WIDTH {
                self.new_line()
            } else {
                self
            };
            Screen {
                column_position: screen.column_position + 1,
                cells: screen.cells.update(
                    cell_index(BUFFER_HEIGHT - 1, screen.column_position as int),
                    ScreenChar { ascii_character: byte, color_code: screen.color_code },
                ),
                ..screen
            }
        }
    }

    /// This screen after the bytes of a string were written, each as
    /// [`shown_byte`] shows it.
    pub open spec fn write_string(self, bytes: Seq<u8>) -> Screen
        decreases bytes.len(),
    {
        if bytes.len() == 0 {
            self
        } else {
            self.write_string(bytes.drop_last()).write_byte(shown_byte(bytes.last()))
        }
    }
}

/// Writes characters into the grid.
pub struct Writer {
    column_position: usize,
    color_code: ColorCode,
    buffer: [ScreenChar; BUFFER_CELLS],
}

impl View for Writer {
    type V = Screen;

    closed spec fn view(&self) -> Screen {
        Screen {
            column_position: self.column_position as nat,
            color_code: self.color_code,
            cells: self.buffer@,
        }
    }
}

impl Writer {
    /// A writer in the colours `color_code` on a grid of spaces, about to
    /// write at the left end of the bottom row.
    pub fn new(color_code: ColorCode) -> (writer: Writer)
        ensures
            writer@.column_position == 0,
            writer@.color_code == color_code,
            writer@.cells == Seq::new(
                BUFFER_CELLS as nat,
                |i: int| ScreenChar { ascii_character: 0x20, color_code },
            ),
    {
        let blank = ScreenChar { ascii_character: 0x20, color_code };
        let writer = Writer { column_position: 0, color_code, buffer: [blank;BUFFER_CELLS] };
        assert(writer@.cells =~= Seq::new(BUFFER_CELLS as nat, |i: int| blank));
        writer
    }

    /// The cell at `row` and `col`.
    pub fn read(&self, row: usize, col: usize) -> (cell: ScreenChar)
        requires
            row < BUFFER_HEIGHT,
            col < BUFFER_WIDTH,
        ensures
            cell == self@.at(row as int, col as int),
            self@.cells.len() == BUFFER_CELLS,
    {
        self.buffer[row * BUFFER_WIDTH + col]
    }

    /// The column at which the next character goes.
    pub fn column_position(&self) -> (column: usize)
        ensures
            column == self@.column_position,
    {
        self.column_position
    }

    /// Writes one byte: see [`Screen::write_byte`].
    pub fn write_byte(&mut self, byte: u8)
        ensures
            final(self)@ == old(self)@.write_byte(byte),
    {
        if byte == NEWLINE {
            self.new_line();
        } else {
            if self.column_position >= BUFFER_WIDTH {
                self.new_line();
            }
            let row = BUFFER_HEIGHT - 1;
            let col = self.column_position;
            let color_code = self.color_code;
            self.buffer[row * BUFFER_WIDTH + col] = ScreenChar { ascii_character: byte, color_code };
            self.column_position += 1;
        }
    }

    /// Writes a string, byte by byte; a byte that is neither a printable
    /// character nor the end of a line is written as a filled square.
    pub fn write_string(&mut self, s: &str)
        ensures
            final(self)@ == old(self)@.write_string(s.spec_bytes()),
    {
        let bytes = s.as_bytes();
        let mut i: usize = 0;
        assert(bytes@.take(0) =~= Seq::<u8>::empty());
        while i < bytes.len()
            invariant
                i <= bytes@.len(),
                bytes@ == s.spec_bytes(),
                self@ == old(self)@.write_string(bytes@.take(i as int)),
            decreases bytes@.len() - i,
        {
            let byte = bytes[i];
            proof {
                assert(bytes@.take(i + 1).drop_last() =~= bytes@.take(i as int));
                assert(bytes@.take(i + 1).last() == byte);
            }
            if (0x20 <= byte && byte <= 0x7e) || byte == NEWLINE {
                self.write_byte(byte);
            } else {
                self.write_byte(UNPRINTABLE);
            }
            i += 1;
        }
        assert(bytes@.take(i as int) =~= bytes@);
    }

    /// Breaks the line: see [`Screen::new_line`].
    pub fn new_line(&mut self)
        ensures
            final(self)@ == old(self)@.new_line(),
    {
        let moved: usize = (BUFFER_HEIGHT - 1) * BUFFER_WIDTH;
        let mut i: usize = 0;
        while i < moved
            invariant
                i <= moved,
                moved == (BUFFER_HEIGHT - 1) * BUFFER_WIDTH,
                self.column_position == old(self).column_position,
                self.color_code == old(self).color_code,
                forall|j: int| 0 <= j < i ==> self.buffer@[j] == old(self).buffer@[j + BUFFER_WIDTH],
                forall|j: int| i <= j < BUFFER_CELLS ==> self.buffer@[j] == old(self).buffer@[j],
            decreases moved - i,
        {
            let character = self.buffer[i + BUFFER_WIDTH];
            self.buffer[i] = character;
            i += 1;
        }
        self.clean_row(BUFFER_HEIGHT - 1);
        self.column_position = 0;
        assert(self@.cells =~= old(self)@.new_line().cells);
    }

    /// Fills the row `row` with spaces: see [`Screen::clean_row`].
    pub fn clean_row(&mut self, row: usize)
        requires
            row < BUFFER_HEIGHT,
        ensures
            final(self)@ == old(self)@.clean_row(row as int),
    {
        let blank = ScreenChar { ascii_character: 0x20, color_code: self.color_code };
        let first = row * BUFFER_WIDTH;
        let mut col: usize = 0;
        while col < BUFFER_WIDTH
            invariant
                col <= BUFFER_WIDTH,
                first == row * BUFFER_WIDTH,
                row < BUFFER_HEIGHT,
                blank == old(self)@.blank(),
                self.column_position == old(self).column_position,
                self.color_code == old(self).color_code,
                forall|j: int| first <= j < first + col ==> self.buffer@[j] == blank,
                forall|j: int|
                    0 <= j < BUFFER_CELLS && !(first <= j < first + col) ==> self.buffer@[j] == old(
                        self,
                    ).buffer@[j],
            decreases BUFFER_WIDTH - col,
        {
            self.buffer[first + col] = blank;
            col += 1;
        }
        assert(self@.cells =~= old(self)@.clean_row(row as int).cells);
    }
}

} // verus!
