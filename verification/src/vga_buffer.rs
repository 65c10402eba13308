//! The VGA text-mode writer.
//!
//! The screen is a 25 by 80 grid of character cells in memory-mapped video
//! memory; every cell access must be a volatile access or the compiler
//! could optimize the writes away, so the cells are held in the `volatile`
//! crate's wrapper and read and written only through it.  The writer
//! appends at the bottom row, wraps long lines, and scrolls the whole grid
//! up by one row on a newline; the top row falls off.
use vstd::prelude::*;

use volatile::Volatile;
use vstd::string::StringSliceAdditionalSpecFns;

verus! {

/// The VGA text-mode palette.
#[derive(Clone, Copy, Debug, PartialEq, Eq, Structural)]
pub enum Color {
    Black,
    Blue,
    Green,
    Cyan,
    Red,
    Magenta,
    Brown,
    LightGray,
    DarkGray,
    LightBlue,
    LightGreen,
    LightCyan,
    LightRed,
    Pink,
    Yellow,
    White,
}

/// The 4-bit palette index of a color.
pub open spec fn spec_color_value(c: Color) -> u8 {
    match c {
        Color::Black => 0,
        Color::Blue => 1,
        Color::Green => 2,
        Color::Cyan => 3,
        Color::Red => 4,
        Color::Magenta => 5,
        Color::Brown => 6,
        Color::LightGray => 7,
        Color::DarkGray => 8,
        Color::LightBlue => 9,
        Color::LightGreen => 10,
        Color::LightCyan => 11,
        Color::LightRed => 12,
        Color::Pink => 13,
        Color::Yellow => 14,
        Color::White => 15,
    }
}

/// Executable twin of [`spec_color_value`].
fn color_value(c: Color) -> (r: u8)
    ensures
        r == spec_color_value(c),
{
    match c {
        Color::Black => 0,
        Color::Blue => 1,
        Color::Green => 2,
        Color::Cyan => 3,
        Color::Red => 4,
        Color::Magenta => 5,
        Color::Brown => 6,
        Color::LightGray => 7,
        Color::DarkGray => 8,
        Color::LightBlue => 9,
        Color::LightGreen => 10,
        Color::LightCyan => 11,
        Color::LightRed => 12,
        Color::Pink => 13,
        Color::Yellow => 14,
        Color::White => 15,
    }
}

/// A foreground and a background color packed into one byte: the low four
/// bits are the foreground, the high four the background.
#[derive(Clone, Copy, Debug, PartialEq, Eq, Structural)]
pub struct ColorCode(pub u8);

impl ColorCode {
    pub fn new(foreground: Color, background: Color) -> (r: ColorCode)
        ensures
            r.0 == (spec_color_value(background) << 4) | spec_color_value(foreground),
    {
        ColorCode((color_value(background) << 4) | color_value(foreground))
    }
}

/// One screen cell: a code-page character and its color byte.
#[derive(Clone, Copy, Debug, PartialEq, Eq, Structural)]
pub struct ScreenChar {
    pub ascii_character: u8,
    pub color_code: ColorCode,
}

/// Rows on the screen.
pub const BUFFER_HEIGHT: usize = 25;

/// Columns on the screen.
pub const BUFFER_WIDTH: usize = 80;

/// What a volatile cell holds.  The cell is opaque to the verifier; the
/// access wrappers below relate every read and write to this value.
pub uninterp spec fn volatile_contents(cell: Volatile<ScreenChar>) -> ScreenChar;

#[verifier::external_type_specification]
#[verifier::external_body]
#[verifier::reject_recursive_types(T)]
pub struct ExVolatile<T: Copy>(Volatile<T>);

/// Relies on `volatile::Volatile::new`: the cell wraps exactly the given
/// value.
#[verifier::external_body]
fn volatile_new(value: ScreenChar) -> (r: Volatile<ScreenChar>)
    ensures
        volatile_contents(r) == value,
{
    Volatile::new(value)
}

/// Relies on `volatile::Volatile::read`: a volatile read returns a copy of
/// the contained value.
#[verifier::external_body]
fn buffer_read(buffer: &Vec<Vec<Volatile<ScreenChar>>>, row: usize, col: usize) -> (r: ScreenChar)
    requires
        row < buffer@.len(),
        col < buffer@[row as int]@.len(),
    ensures
        r == volatile_contents(buffer@[row as int]@[col as int]),
{
    buffer[row][col].read()
}

/// Relies on `volatile::Volatile::write`: a volatile write replaces the
/// contained value of that cell in place and touches no other cell.
#[verifier::external_body]
fn buffer_write(
    buffer: &mut Vec<Vec<Volatile<ScreenChar>>>,
    row: usize,
    col: usize,
    value: ScreenChar,
)
    requires
        row < old(buffer)@.len(),
        col < old(buffer)@[row as int]@.len(),
    ensures
        final(buffer)@.len() == old(buffer)@.len(),
        forall|i: int|
            0 <= i < old(buffer)@.len() ==> (#[trigger] final(buffer)@[i])@.len() == old(
                buffer,
            )@[i]@.len(),
        forall|i: int, j: int|
            0 <= i < old(buffer)@.len() && 0 <= j < old(buffer)@[i]@.len() && !(i == row && j
                == col) ==> volatile_contents(#[trigger] final(buffer)@[i]@[j])
                == volatile_contents(old(buffer)@[i]@[j]),
        volatile_contents(final(buffer)@[row as int]@[col as int]) == value,
{
    buffer[row][col].write(value);
}

/// A row of blanks in the given color.
pub open spec fn spec_blank_row(color: ColorCode) -> Seq<ScreenChar> {
    Seq::new(BUFFER_WIDTH as nat, |j: int| ScreenChar { ascii_character: 0x20, color_code: color })
}

/// The screen scrolled up by one row: every row moves one up, the top row
/// falls off, the bottom row is blank.
pub open spec fn spec_scroll(screen: Seq<Seq<ScreenChar>>, color: ColorCode) -> Seq<
    Seq<ScreenChar>,
> {
    Seq::new(
        screen.len(),
        |i: int|
            if i < screen.len() - 1 {
                screen[i + 1]
            } else {
                spec_blank_row(color)
            },
    )
}

/// One byte written to the screen: a newline scrolls, any other byte lands
/// at the cursor on the bottom row, scrolling first if the row is full.
/// The result is the new screen and the new cursor column.
pub open spec fn spec_write_byte(
    screen: Seq<Seq<ScreenChar>>,
    col: int,
    color: ColorCode,
    byte: u8,
) -> (Seq<Seq<ScreenChar>>, int) {
    if byte == 0x0a {
        (spec_scroll(screen, color), 0)
    } else {
        let (s1, c1): (Seq<Seq<ScreenChar>>, int) = if col >= BUFFER_WIDTH {
            (spec_scroll(screen, color), 0)
        } else {
            (screen, col)
        };
        (
            s1.update(
                BUFFER_HEIGHT - 1,
                s1[BUFFER_HEIGHT - 1].update(
                    c1,
                    ScreenChar { ascii_character: byte, color_code: color },
                ),
            ),
            c1 + 1,
        )
    }
}

/// The byte actually written for a requested byte: printable bytes and the
/// newline pass through, anything else prints as a solid square.
pub open spec fn spec_printable(byte: u8) -> u8 {
    if (0x20 <= byte && byte <= 0x7e) || byte == 0x0a {
        byte
    } else {
        0xfe
    }
}

/// A whole string written byte by byte, each one filtered through
/// [`spec_printable`].
pub open spec fn spec_write_string(
    screen: Seq<Seq<ScreenChar>>,
    col: int,
    color: ColorCode,
    bytes: Seq<u8>,
) -> (Seq<Seq<ScreenChar>>, int)
    decreases bytes.len(),
{
    if bytes.len() == 0 {
        (screen, col)
    } else {
        let (s1, c1) = spec_write_byte(screen, col, color, spec_printable(bytes[0]));
        spec_write_string(s1, c1, color, bytes.drop_first())
    }
}

/// The screen writer: current cursor column on the bottom row, current
/// color, and the volatile cell grid.
pub struct Writer {
    column_position: usize,
    color_code: ColorCode,
    buffer: Vec<Vec<Volatile<ScreenChar>>>,
}

impl Writer {
    /// The characters on screen, row by row.
    pub closed spec fn screen(self) -> Seq<Seq<ScreenChar>> {
        Seq::new(
            self.buffer@.len(),
            |i: int| Seq::new(self.buffer@[i]@.len(), |j: int| volatile_contents(self.buffer@[i]@[j])),
        )
    }

    /// The cursor column on the bottom row.
    pub closed spec fn spec_column(self) -> int {
        self.column_position as int
    }

    /// The current color.
    pub closed spec fn spec_color(self) -> ColorCode {
        self.color_code
    }

    /// Writer invariant: the grid has the screen's dimensions and the
    /// cursor is at most one past the last column.
    pub closed spec fn wf(self) -> bool {
        &&& self.buffer@.len() == BUFFER_HEIGHT
        &&& forall|i: int|
            0 <= i < BUFFER_HEIGHT ==> (#[trigger] self.buffer@[i])@.len() == BUFFER_WIDTH
        &&& self.spec_column() <= BUFFER_WIDTH
    }

    /// Each screen position shows its cell's volatile contents.
    proof fn lemma_screen_cells(self)
        requires
            self.wf(),
        ensures
            forall|i: int, j: int|
                0 <= i < BUFFER_HEIGHT && 0 <= j < BUFFER_WIDTH ==> #[trigger] self.screen()[i][j]
                    == volatile_contents(self.buffer@[i]@[j]),
    {
        assert forall|i: int, j: int|
            0 <= i < BUFFER_HEIGHT && 0 <= j < BUFFER_WIDTH implies #[trigger] self.screen()[i][j]
            == volatile_contents(self.buffer@[i]@[j]) by {
            assert(self.screen()[i] == Seq::new(
                self.buffer@[i]@.len(),
                |j: int| volatile_contents(self.buffer@[i]@[j]),
            ));
        }
    }


    /// A writer over a fresh cell grid, every cell holding `fill`.
    pub fn new(color_code: ColorCode, fill: ScreenChar) -> (r: Writer)
        ensures
            r.wf(),
            r.spec_column() == 0,
            r.spec_color() == color_code,
            forall|i: int, j: int|
                0 <= i < BUFFER_HEIGHT && 0 <= j < BUFFER_WIDTH ==> #[trigger] r.screen()[i][j]
                    == fill,
    {
        let mut buffer: Vec<Vec<Volatile<ScreenChar>>> = Vec::new();
        let mut i: usize = 0;
        while i < BUFFER_HEIGHT
            invariant
                i <= BUFFER_HEIGHT,
                buffer@.len() == i,
                forall|r: int| 0 <= r < i ==> (#[trigger] buffer@[r])@.len() == BUFFER_WIDTH,
                forall|r: int, c: int|
                    0 <= r < i && 0 <= c < BUFFER_WIDTH ==> volatile_contents(
                        #[trigger] buffer@[r]@[c],
                    ) == fill,
            decreases BUFFER_HEIGHT - i,
        {
            let mut row: Vec<Volatile<ScreenChar>> = Vec::new();
            let mut j: usize = 0;
            while j < BUFFER_WIDTH
                invariant
                    j <= BUFFER_WIDTH,
                    row@.len() == j,
                    forall|c: int|
                        0 <= c < j ==> volatile_contents(#[trigger] row@[c]) == fill,
                decreases BUFFER_WIDTH - j,
            {
                row.push(volatile_new(fill));
                j += 1;
            }
            buffer.push(row);
            i += 1;
        }
        Writer { column_position: 0, color_code, buffer }
    }

    /// The current color, for tests and diagnostics.
    pub fn color_code(&self) -> (r: ColorCode)
        ensures
            r == self.spec_color(),
    {
        self.color_code
    }

    /// The cell at a position.
    pub fn char_at(&self, row: usize, col: usize) -> (r: ScreenChar)
        requires
            self.wf(),
            row < BUFFER_HEIGHT,
            col < BUFFER_WIDTH,
        ensures
            r == self.screen()[row as int][col as int],
    {
        buffer_read(&self.buffer, row, col)
    }

    /// Writes one byte: a newline scrolls, anything else lands at the
    /// cursor, wrapping to a fresh bottom row first when the row is full.
    pub fn write_byte(&mut self, byte: u8)
        requires
            old(self).wf(),
        ensures
            final(self).wf(),
            final(self).spec_color() == old(self).spec_color(),
            ({
                let (s1, c1) = spec_write_byte(
                    old(self).screen(),
                    old(self).spec_column(),
                    old(self).spec_color(),
                    byte,
                );
                final(self).screen() == s1 && final(self).spec_column() == c1
            }),
    {
        if byte == 0x0a {
            self.new_line();
        } else {
            if self.column_position >= BUFFER_WIDTH {
                self.new_line();
            }
            let ghost mid = *self;
            let row = BUFFER_HEIGHT - 1;
            let col = self.column_position;
            let color_code = self.color_code;
            buffer_write(
                &mut self.buffer,
                row,
                col,
                ScreenChar { ascii_character: byte, color_code },
            );
            self.column_position = self.column_position + 1;
            proof {
                mid.lemma_screen_cells();
                self.lemma_screen_cells();
                assert(self.screen() =~~= mid.screen().update(
                    BUFFER_HEIGHT - 1,
                    mid.screen()[BUFFER_HEIGHT - 1].update(
                        col as int,
                        ScreenChar { ascii_character: byte, color_code },
                    ),
                ));
            }
        }
    }

    /// Scrolls: every row moves one up, the top row is lost, the bottom row
    /// is cleared, the cursor returns to the first column.
    fn new_line(&mut self)
        requires
            old(self).wf(),
        ensures
            final(self).wf(),
            final(self).spec_color() == old(self).spec_color(),
            final(self).screen() == spec_scroll(old(self).screen(), old(self).spec_color()),
            final(self).spec_column() == 0,
    {
        let mut row: usize = 1;
        while row < BUFFER_HEIGHT
            invariant
                old(self).wf(),
                self.wf(),
                1 <= row <= BUFFER_HEIGHT,
                self.spec_color() == old(self).spec_color(),
                self.spec_column() == old(self).spec_column(),
                forall|i: int, j: int|
                    0 <= i < row - 1 && 0 <= j < BUFFER_WIDTH ==> #[trigger] self.screen()[i][j]
                        == old(self).screen()[i + 1][j],
                forall|i: int, j: int|
                    row - 1 <= i < BUFFER_HEIGHT && 0 <= j < BUFFER_WIDTH
                        ==> #[trigger] self.screen()[i][j] == old(self).screen()[i][j],
            decreases BUFFER_HEIGHT - row,
        {
            let mut col: usize = 0;
            while col < BUFFER_WIDTH
                invariant
                    old(self).wf(),
                    self.wf(),
                    1 <= row < BUFFER_HEIGHT,
                    col <= BUFFER_WIDTH,
                    self.spec_color() == old(self).spec_color(),
                    self.spec_column() == old(self).spec_column(),
                    forall|i: int, j: int|
                        0 <= i < row - 1 && 0 <= j < BUFFER_WIDTH ==> #[trigger] self.screen()[i][j]
                            == old(self).screen()[i + 1][j],
                    forall|j: int|
                        0 <= j < col ==> #[trigger] self.screen()[row - 1][j] == old(
                            self,
                        ).screen()[row as int][j],
                    forall|j: int|
                        col <= j < BUFFER_WIDTH ==> #[trigger] self.screen()[row - 1][j] == old(
                            self,
                        ).screen()[row - 1][j],
                    forall|i: int, j: int|
                        row <= i < BUFFER_HEIGHT && 0 <= j < BUFFER_WIDTH
                            ==> #[trigger] self.screen()[i][j] == old(self).screen()[i][j],
                decreases BUFFER_WIDTH - col,
            {
                let ghost pre = *self;
                let character = buffer_read(&self.buffer, row, col);
                buffer_write(&mut self.buffer, row - 1, col, character);
                proof {
                    pre.lemma_screen_cells();
                    self.lemma_screen_cells();
                    old(self).lemma_screen_cells();
                    assert forall|i: int, j: int|
                        0 <= i < BUFFER_HEIGHT && 0 <= j < BUFFER_WIDTH && !(i == row - 1 && j
                            == col) implies #[trigger] self.screen()[i][j] == pre.screen()[i][j] by {
                        assert(volatile_contents(self.buffer@[i]@[j]) == volatile_contents(
                            pre.buffer@[i]@[j],
                        ));
                    }
                    assert(self.screen()[row - 1][col as int] == pre.screen()[row as int][col as int]);
                }
                col += 1;
            }
            row += 1;
        }
        self.clear_row(BUFFER_HEIGHT - 1);
        self.column_position = 0;
        proof {
            assert(self.screen() =~~= spec_scroll(old(self).screen(), old(self).spec_color()));
        }
    }

    /// Clears one row to blanks in the current color.
    fn clear_row(&mut self, row: usize)
        requires
            old(self).wf(),
            row < BUFFER_HEIGHT,
        ensures
            final(self).wf(),
            final(self).spec_color() == old(self).spec_color(),
            final(self).spec_column() == old(self).spec_column(),
            final(self).screen() == old(self).screen().update(
                row as int,
                spec_blank_row(old(self).spec_color()),
            ),
    {
        let blank = ScreenChar { ascii_character: 0x20, color_code: self.color_code };
        let mut col: usize = 0;
        while col < BUFFER_WIDTH
            invariant
                old(self).wf(),
                self.wf(),
                row < BUFFER_HEIGHT,
                col <= BUFFER_WIDTH,
                blank == (ScreenChar {
                    ascii_character: 0x20,
                    color_code: old(self).spec_color(),
                }),
                self.spec_color() == old(self).spec_color(),
                self.spec_column() == old(self).spec_column(),
                forall|j: int|
                    0 <= j < col ==> #[trigger] self.screen()[row as int][j] == blank,
                forall|j: int|
                    col <= j < BUFFER_WIDTH ==> #[trigger] self.screen()[row as int][j] == old(
                        self,
                    ).screen()[row as int][j],
                forall|i: int, j: int|
                    0 <= i < BUFFER_HEIGHT && i != row && 0 <= j < BUFFER_WIDTH
                        ==> #[trigger] self.screen()[i][j] == old(self).screen()[i][j],
            decreases BUFFER_WIDTH - col,
        {
            let ghost pre = *self;
            buffer_write(&mut self.buffer, row, col, blank);
            proof {
                pre.lemma_screen_cells();
                self.lemma_screen_cells();
                old(self).lemma_screen_cells();
                assert forall|i: int, j: int|
                    0 <= i < BUFFER_HEIGHT && 0 <= j < BUFFER_WIDTH && !(i == row && j == col)
                        implies #[trigger] self.screen()[i][j] == pre.screen()[i][j] by {
                    assert(volatile_contents(self.buffer@[i]@[j]) == volatile_contents(
                        pre.buffer@[i]@[j],
                    ));
                }
                assert(self.screen()[row as int][col as int] == blank);
            }
            col += 1;
        }
        proof {
            assert(self.screen() =~~= old(self).screen().update(
                row as int,
                spec_blank_row(old(self).spec_color()),
            ));
        }
    }

    /// Writes a string: printable bytes and newlines as they are, anything
    /// else as a solid square.
    pub fn write_string(&mut self, s: &str)
        requires
            old(self).wf(),
        ensures
            final(self).wf(),
            final(self).spec_color() == old(self).spec_color(),
            ({
                let (s1, c1) = spec_write_string(
                    old(self).screen(),
                    old(self).spec_column(),
                    old(self).spec_color(),
                    s.spec_bytes(),
                );
                final(self).screen() == s1 && final(self).spec_column() == c1
            }),
    {
        let bytes = s.as_bytes();
        let n = bytes.len();
        proof {
            assert(s.spec_bytes().skip(0) =~= s.spec_bytes());
        }
        let mut k: usize = 0;
        while k < n
            invariant
                n == s.spec_bytes().len(),
                bytes@ == s.spec_bytes(),
                k <= n,
                self.wf(),
                self.spec_color() == old(self).spec_color(),
                spec_write_string(
                    self.screen(),
                    self.spec_column(),
                    self.spec_color(),
                    s.spec_bytes().skip(k as int),
                ) == spec_write_string(
                    old(self).screen(),
                    old(self).spec_column(),
                    old(self).spec_color(),
                    s.spec_bytes(),
                ),
            decreases n - k,
        {
            let ghost pre = *self;
            let byte = bytes[k];
            if (0x20 <= byte && byte <= 0x7e) || byte == 0x0a {
                self.write_byte(byte);
            } else {
                self.write_byte(0xfe);
            }
            proof {
                let rest = s.spec_bytes().skip(k as int);
                assert(rest[0] == s.spec_bytes()[k as int]);
                assert(rest.drop_first() =~= s.spec_bytes().skip(k as int + 1));
            }
            k += 1;
        }
        proof {
            assert(s.spec_bytes().skip(n as int) =~= Seq::<u8>::empty());
        }
    }
}

/// Writes formatted diagnostic text to the screen.
pub fn print(writer: &mut Writer, s: &str)
    requires
        old(writer).wf(),
    ensures
        final(writer).wf(),
        final(writer).spec_color() == old(writer).spec_color(),
        ({
            let (s1, c1) = spec_write_string(
                old(writer).screen(),
                old(writer).spec_column(),
                old(writer).spec_color(),
                s.spec_bytes(),
            );
            final(writer).screen() == s1 && final(writer).spec_column() == c1
        }),
{
    writer.write_string(s);
}

} // verus!
