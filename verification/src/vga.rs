//! The text-mode screen model: a fixed grid of character cells with a
//! colour code, written at the bottom row and scrolled up on line
//! breaks. The model owns its cell grid; copying the grid to the
//! screen's memory is the hardware edge outside this crate.

use vstd::prelude::*;
use vstd::string::StringSliceAdditionalSpecFns;

verus! {

/// Rows of the text screen.
pub const BUFFER_HEIGHT: usize = 25;

/// Columns of the text screen.
pub const BUFFER_WIDTH: usize = 80;

/// The sixteen text-mode colours.
#[derive(Debug, Clone, Copy, PartialEq, Eq, Structural)]
pub enum Color {
    /// Black.
    Black,
    /// Blue.
    Blue,
    /// Green.
    Green,
    /// Cyan.
    Cyan,
    /// Red.
    Red,
    /// Magenta.
    Magenta,
    /// Brown.
    Brown,
    /// Light gray.
    LightGray,
    /// Dark gray.
    DarkGray,
    /// Light blue.
    LightBlue,
    /// Light green.
    LightGreen,
    /// Light cyan.
    LightCyan,
    /// Light red.
    LightRed,
    /// Pink.
    Pink,
    /// Yellow.
    Yellow,
    /// White.
    White,
}

/// The hardware number of a colour.
pub open spec fn spec_color_code(c: Color) -> u8 {
    match c {
        Color::Black => 0,
        Color::Blue => 1,
        Color::Green => 2,
        Color::Cyan => 3,
        Color::Red => 4,
        Color::Magenta => 5,
        Color::Brown => 6,
        Color::LightGray => 7,
        Color::DarkGray => 8,
        Color::LightBlue => 9,
        Color::LightGreen => 10,
        Color::LightCyan => 11,
        Color::LightRed => 12,
        Color::Pink => 13,
        Color::Yellow => 14,
        Color::White => 15,
    }
}

impl Color {
    /// The hardware number of this colour.
    pub fn code(&self) -> (r: u8)
        ensures
            r == spec_color_code(*self),
    {
        match *self {
            Color::Black => 0,
            Color::Blue => 1,
            Color::Green => 2,
            Color::Cyan => 3,
            Color::Red => 4,
            Color::Magenta => 5,
            Color::Brown => 6,
            Color::LightGray => 7,
            Color::DarkGray => 8,
            Color::LightBlue => 9,
            Color::LightGreen => 10,
            Color::LightCyan => 11,
            Color::LightRed => 12,
            Color::Pink => 13,
            Color::Yellow => 14,
            Color::White => 15,
        }
    }
}

/// Foreground and background colour packed in one byte.
#[derive(Debug, Clone, Copy, PartialEq, Eq, Structural)]
pub struct ColorCode(pub u8);

impl ColorCode {
    /// Pack a foreground and a background colour.
    pub fn new(fgcolor: Color, bgcolor: Color) -> (r: ColorCode)
        ensures
            r.0 == spec_color_code(bgcolor) << 4 | spec_color_code(fgcolor),
    {
        ColorCode(bgcolor.code() << 4 | fgcolor.code())
    }
}

/// One character cell: an ASCII byte and its colour.
#[derive(Debug, Clone, Copy, PartialEq, Eq, Structural)]
pub struct ScreenChar {
    /// The character byte.
    pub ascii_char: u8,
    /// The cell's colour code.
    pub color_code: ColorCode,
}

/// A blank cell in the given colour.
pub open spec fn spec_blank(color: ColorCode) -> ScreenChar {
    ScreenChar { ascii_char: 0x20, color_code: color }
}

/// The grid scrolled one row up: every row moves up, the bottom row
/// becomes blank.
pub open spec fn spec_scrolled(screen: Seq<ScreenChar>, color: ColorCode) -> Seq<ScreenChar> {
    Seq::new(
        (BUFFER_HEIGHT * BUFFER_WIDTH) as nat,
        |i: int|
            if i < (BUFFER_HEIGHT - 1) * BUFFER_WIDTH {
                screen[i + BUFFER_WIDTH]
            } else {
                spec_blank(color)
            },
    )
}

/// The grid and column after writing one byte: a line break scrolls
/// and returns to column zero; any other byte lands at the bottom row
/// (after a scroll if the line is full) and advances the column.
pub open spec fn spec_write_byte(
    screen: Seq<ScreenChar>,
    column: int,
    color: ColorCode,
    byte: u8,
) -> (Seq<ScreenChar>, int) {
    if byte == 0x0A {
        (spec_scrolled(screen, color), 0)
    } else {
        let (s, c) = if column >= BUFFER_WIDTH {
            (spec_scrolled(screen, color), 0int)
        } else {
            (screen, column)
        };
        (
            s.update(
                (BUFFER_HEIGHT - 1) * BUFFER_WIDTH + c,
                ScreenChar { ascii_char: byte, color_code: color },
            ),
            c + 1,
        )
    }
}

/// The grid and column after writing a byte sequence, front to back.
pub open spec fn spec_write_bytes(
    screen: Seq<ScreenChar>,
    column: int,
    color: ColorCode,
    bytes: Seq<u8>,
) -> (Seq<ScreenChar>, int)
    decreases bytes.len(),
{
    if bytes.len() == 0 {
        (screen, column)
    } else {
        let (s, c) = spec_write_byte(screen, column, color, bytes[0]);
        spec_write_bytes(s, c, color, bytes.skip(1))
    }
}

/// The writer: the cell grid, the cursor column of the bottom row, and
/// the colour every write uses.
pub struct Writer {
    /// Cursor column in the bottom row.
    pub column_position: usize,
    /// Colour applied to every written cell.
    pub color_code: ColorCode,
    /// The cell grid, row-major.
    pub buffer: Vec<ScreenChar>,
}

impl Writer {
    /// A full grid and a column within the row.
    pub open spec fn wf(&self) -> bool {
        &&& self.buffer@.len() == BUFFER_HEIGHT * BUFFER_WIDTH
        &&& self.column_position <= BUFFER_WIDTH
    }

    /// A blank screen in the given colour.
    pub fn new(color_code: ColorCode) -> (r: Writer)
        ensures
            r.wf(),
            r.column_position == 0,
            r.color_code == color_code,
            forall|i: int|
                0 <= i < BUFFER_HEIGHT * BUFFER_WIDTH ==> r.buffer@[i] == spec_blank(color_code),
    {
        Writer {
            column_position: 0,
            color_code,
            buffer: vec![ScreenChar { ascii_char: 0x20, color_code }; BUFFER_HEIGHT * BUFFER_WIDTH],
        }
    }

    /// Blank one row.
    pub fn clear_row(&mut self, row: usize)
        requires
            old(self).wf(),
            row < BUFFER_HEIGHT,
        ensures
            final(self).wf(),
            final(self).column_position == old(self).column_position,
            final(self).color_code == old(self).color_code,
            forall|i: int|
                0 <= i < BUFFER_HEIGHT * BUFFER_WIDTH ==> final(self).buffer@[i] == (if row
                    * BUFFER_WIDTH <= i < (row + 1) * BUFFER_WIDTH {
                    spec_blank(old(self).color_code)
                } else {
                    old(self).buffer@[i]
                }),
    {
        let blank = ScreenChar { ascii_char: 0x20, color_code: self.color_code };
        let mut col: usize = 0;
        while col < BUFFER_WIDTH
            invariant
                self.wf(),
                row < BUFFER_HEIGHT,
                col <= BUFFER_WIDTH,
                self.column_position == old(self).column_position,
                self.color_code == old(self).color_code,
                blank == spec_blank(old(self).color_code),
                forall|i: int|
                    0 <= i < BUFFER_HEIGHT * BUFFER_WIDTH ==> self.buffer@[i] == (if row
                        * BUFFER_WIDTH <= i < row * BUFFER_WIDTH + col {
                        spec_blank(old(self).color_code)
                    } else {
                        old(self).buffer@[i]
                    }),
            decreases BUFFER_WIDTH - col,
        {
            self.buffer[row * BUFFER_WIDTH + col] = blank;
            col += 1;
        }
    }

    /// Scroll: every row moves one up, the bottom row is blanked, and
    /// the column returns to zero.
    pub fn new_line(&mut self)
        requires
            old(self).wf(),
        ensures
            final(self).wf(),
            final(self).column_position == 0,
            final(self).color_code == old(self).color_code,
            final(self).buffer@ == spec_scrolled(old(self).buffer@, old(self).color_code),
    {
        let mut row: usize = 1;
        while row < BUFFER_HEIGHT
            invariant
                self.wf(),
                1 <= row <= BUFFER_HEIGHT,
                self.column_position == old(self).column_position,
                self.color_code == old(self).color_code,
                forall|i: int|
                    0 <= i < (row - 1) * BUFFER_WIDTH ==> self.buffer@[i] == old(self).buffer@[i
                        + BUFFER_WIDTH],
                forall|i: int|
                    (row - 1) * BUFFER_WIDTH <= i < BUFFER_HEIGHT * BUFFER_WIDTH
                        ==> self.buffer@[i] == old(self).buffer@[i],
            decreases BUFFER_HEIGHT - row,
        {
            let mut col: usize = 0;
            while col < BUFFER_WIDTH
                invariant
                    self.wf(),
                    1 <= row < BUFFER_HEIGHT,
                    col <= BUFFER_WIDTH,
                    self.column_position == old(self).column_position,
                    self.color_code == old(self).color_code,
                    forall|i: int|
                        0 <= i < (row - 1) * BUFFER_WIDTH + col ==> self.buffer@[i] == old(
                            self,
                        ).buffer@[i + BUFFER_WIDTH],
                    forall|i: int|
                        (row - 1) * BUFFER_WIDTH + col <= i < BUFFER_HEIGHT * BUFFER_WIDTH
                            ==> self.buffer@[i] == old(self).buffer@[i],
                decreases BUFFER_WIDTH - col,
            {
                let character = self.buffer[row * BUFFER_WIDTH + col];
                self.buffer[(row - 1) * BUFFER_WIDTH + col] = character;
                col += 1;
            }
            row += 1;
        }
        self.clear_row(BUFFER_HEIGHT - 1);
        self.column_position = 0;
        proof {
            assert(self.buffer@ =~= spec_scrolled(old(self).buffer@, old(self).color_code));
        }
    }

    /// Write one byte at the cursor.
    pub fn write_byte(&mut self, byte: u8)
        requires
            old(self).wf(),
        ensures
            final(self).wf(),
            final(self).color_code == old(self).color_code,
            (final(self).buffer@, final(self).column_position as int) == spec_write_byte(
                old(self).buffer@,
                old(self).column_position as int,
                old(self).color_code,
                byte,
            ),
    {
        match byte {
            0x0A => self.new_line(),
            byte => {
                if self.column_position >= BUFFER_WIDTH {
                    self.new_line();
                }
                let row = BUFFER_HEIGHT - 1;
                let col = self.column_position;
                let color_code = self.color_code;
                self.buffer[row * BUFFER_WIDTH + col] = ScreenChar {
                    ascii_char: byte,
                    color_code,
                };
                self.column_position = self.column_position + 1;
            },
        }
    }

    /// Write every byte of a string at the cursor.
    pub fn write_str(&mut self, s: &str)
        requires
            old(self).wf(),
        ensures
            final(self).wf(),
            final(self).color_code == old(self).color_code,
            (final(self).buffer@, final(self).column_position as int) == spec_write_bytes(
                old(self).buffer@,
                old(self).column_position as int,
                old(self).color_code,
                s.spec_bytes(),
            ),
    {
        let bytes = vstd::slice::slice_to_vec(s.as_bytes());
        let n = bytes.len();
        let mut i: usize = 0;
        proof {
            assert(bytes@.skip(0) =~= bytes@);
        }
        while i < n
            invariant
                self.wf(),
                n == bytes@.len(),
                bytes@ == s.spec_bytes(),
                i <= n,
                self.color_code == old(self).color_code,
                spec_write_bytes(
                    old(self).buffer@,
                    old(self).column_position as int,
                    old(self).color_code,
                    bytes@,
                ) == spec_write_bytes(
                    self.buffer@,
                    self.column_position as int,
                    self.color_code,
                    bytes@.skip(i as int),
                ),
            decreases n - i,
        {
            let ghost before = bytes@.skip(i as int);
            self.write_byte(bytes[i]);
            proof {
                assert(before.skip(1) =~= bytes@.skip(i + 1));
            }
            i += 1;
        }
        proof {
            assert(bytes@.skip(n as int) =~= Seq::<u8>::empty());
        }
    }
}

/// Print a string through the writer.
pub fn kprint(writer: &mut Writer, s: &str)
    requires
        old(writer).wf(),
    ensures
        final(writer).wf(),
        final(writer).color_code == old(writer).color_code,
        (final(writer).buffer@, final(writer).column_position as int) == spec_write_bytes(
            old(writer).buffer@,
            old(writer).column_position as int,
            old(writer).color_code,
            s.spec_bytes(),
        ),
{
    writer.write_str(s)
}

/// Blank the whole screen by scrolling a screenful of line breaks
/// through it.
pub fn clear_screen(writer: &mut Writer)
    requires
        old(writer).wf(),
    ensures
        final(writer).wf(),
        final(writer).column_position == 0,
        final(writer).color_code == old(writer).color_code,
        forall|i: int|
            0 <= i < BUFFER_HEIGHT * BUFFER_WIDTH ==> final(writer).buffer@[i] == spec_blank(
                old(writer).color_code,
            ),
{
    let mut line: usize = 0;
    while line < BUFFER_HEIGHT
        invariant
            writer.wf(),
            line <= BUFFER_HEIGHT,
            writer.color_code == old(writer).color_code,
            line > 0 ==> writer.column_position == 0,
            line == 0 ==> writer.column_position == old(writer).column_position,
            forall|i: int|
                (BUFFER_HEIGHT - line) * BUFFER_WIDTH <= i < BUFFER_HEIGHT * BUFFER_WIDTH
                    ==> writer.buffer@[i] == spec_blank(old(writer).color_code),
        decreases BUFFER_HEIGHT - line,
    {
        writer.write_byte(0x0A);
        line += 1;
    }
}

/// Erase the character left of the cursor and step the cursor back.
pub fn clear_left_once(writer: &mut Writer)
    requires
        old(writer).wf(),
    ensures
        final(writer).wf(),
        final(writer).color_code == old(writer).color_code,
        old(writer).column_position == 0 ==> *final(writer) == *old(writer),
        old(writer).column_position > 0 ==> {
            &&& final(writer).column_position == old(writer).column_position - 1
            &&& final(writer).buffer@ == old(writer).buffer@.update(
                (BUFFER_HEIGHT - 1) * BUFFER_WIDTH + old(writer).column_position - 1,
                spec_blank(old(writer).color_code),
            )
        },
{
    if writer.column_position == 0 {
        return ;
    }
    writer.column_position = writer.column_position - 1;
    writer.write_byte(0x20);
    writer.column_position = writer.column_position - 1;
}

} // verus!
