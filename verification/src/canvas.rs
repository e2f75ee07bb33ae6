//! The picture: a grid of colors, and its text in the plain PPM format.

use crate::color::Color;
use vstd::prelude::*;
use vstd::string::*;

verus! {

/// The greatest level of a channel in the PPM text.
pub const MAX_COL: usize = 255;

/// The most characters a line of pixel data may have.
pub const MAX_LINE: usize = 70;

/// The character of a decimal digit.
pub open spec fn digit_char(d: nat) -> char {
    if d == 0 {
        '0'
    } else if d == 1 {
        '1'
    } else if d == 2 {
        '2'
    } else if d == 3 {
        '3'
    } else if d == 4 {
        '4'
    } else if d == 5 {
        '5'
    } else if d == 6 {
        '6'
    } else if d == 7 {
        '7'
    } else if d == 8 {
        '8'
    } else {
        '9'
    }
}

/// A number in decimal digits, without leading zeros.
pub open spec fn decimal(n: nat) -> Seq<char>
    decreases n,
{
    if n < 10 {
        seq![digit_char(n)]
    } else {
        decimal(n / 10).push(digit_char(n % 10))
    }
}

/// The text of a row and the length of its last line, after one more level
/// is written: on a new line where the last line would grow beyond
/// `MAX_LINE` characters, else behind a space, or first on an empty line.
pub open spec fn put_level(state: (Seq<char>, nat), level: u8) -> (Seq<char>, nat) {
    let digits = decimal(level as nat);
    if state.1 + 1 + digits.len() > MAX_LINE {
        (state.0.push('\n') + digits, digits.len())
    } else if state.1 == 0 {
        (state.0 + digits, digits.len())
    } else {
        (state.0.push(' ') + digits, state.1 + 1 + digits.len())
    }
}

/// The text of a row before its closing newline, and the length of its last
/// line.
pub open spec fn put_levels(levels: Seq<u8>) -> (Seq<char>, nat)
    decreases levels.len(),
{
    if levels.len() == 0 {
        (Seq::empty(), 0)
    } else {
        put_level(put_levels(levels.drop_last()), levels.last())
    }
}

/// The text of one row of pixels: its levels in decimal, separated by
/// single spaces, broken into lines of at most `MAX_LINE` characters,
/// closed by a newline.
pub open spec fn row_text(levels: Seq<u8>) -> Seq<char> {
    put_levels(levels).0.push('\n')
}

/// The text of the first `rows` rows, each of `per_row` levels.
pub open spec fn rows_text(levels: Seq<u8>, per_row: int, rows: int) -> Seq<char>
    decreases rows,
{
    if rows <= 0 {
        Seq::empty()
    } else {
        rows_text(levels, per_row, rows - 1) + row_text(
            levels.subrange((rows - 1) * per_row, rows * per_row),
        )
    }
}

/// The head of the text: the format's mark, the width and the height, and
/// the greatest level.
pub open spec fn header_text(width: nat, height: nat) -> Seq<char> {
    seq!['P', '3', '\n'] + decimal(width) + seq![' '] + decimal(height) + seq!['\n']
        + decimal(MAX_COL as nat) + seq!['\n']
}

/// The whole text of a picture of `width` by `height` pixels, whose
/// levels stand row after row, three to a pixel.
pub open spec fn ppm_text(width: nat, height: nat, levels: Seq<u8>) -> Seq<char> {
    header_text(width, height) + rows_text(levels, (3 * width) as int, height as int)
}

/// No newline stands in `text` from place `from` up to, not including,
/// place `to`.
pub open spec fn newline_free(text: Seq<char>, from: int, to: int) -> bool {
    forall|k: int| from <= k < to ==> text[k] != '\n'
}

/// No line of `text` has more than `limit` characters: wherever more than
/// `limit` characters stand in a row, a newline is among them.
pub open spec fn lines_at_most(text: Seq<char>, limit: nat) -> bool {
    forall|i: int, j: int|
        0 <= i <= j <= text.len() && #[trigger] newline_free(text, i, j) ==> j - i <= limit
}

/// A text whose last line has the length it is said to have, and none of
/// whose lines is too long.
spec fn open_line(state: (Seq<char>, nat)) -> bool {
    let text = state.0;
    let n = state.1 as int;
    let len = text.len() as int;
    &&& n <= MAX_LINE
    &&& n <= len
    &&& newline_free(text, len - n, len)
    &&& (len - n == 0 || text[len - n - 1] == '\n')
    &&& lines_at_most(text, MAX_LINE as nat)
}

proof fn lemma_decimal_has_no_newline(n: nat)
    ensures
        decimal(n).len() >= 1,
        newline_free(decimal(n), 0, decimal(n).len() as int),
    decreases n,
{
    if n >= 10 {
        lemma_decimal_has_no_newline(n / 10);
    }
}

proof fn lemma_put_level(state: (Seq<char>, nat), level: u8)
    requires
        open_line(state),
    ensures
        open_line(put_level(state, level)),
{
    let text = state.0;
    let n = state.1 as int;
    let len = text.len() as int;
    let digits = decimal(level as nat);
    let d = digits.len() as int;
    lemma_decimal_has_no_newline(level as nat);
    assert(d <= 3) by {
        reveal_with_fuel(decimal, 3);
    }
    let next = put_level(state, level);
    let after = next.0;
    if n + 1 + d > MAX_LINE {
        assert(after =~= text.push('\n') + digits);
        assert(after[len] == '\n');
        assert forall|k: int| len + 1 <= k < after.len() implies after[k] != '\n' by {
            assert(after[k] == digits[k - len - 1]);
        }
        assert forall|i: int, j: int|
            0 <= i <= j <= after.len() && #[trigger] newline_free(after, i, j) implies j - i
            <= MAX_LINE by {
            if j <= len {
                assert forall|k: int| i <= k < j implies text[k] != '\n' by {
                    assert(after[k] == text[k]);
                }
                assert(newline_free(text, i, j));
            } else if i <= len {
                assert(after[len] != '\n');
            }
        }
    } else if n == 0 {
        assert(after =~= text + digits);
        assert forall|k: int| len <= k < after.len() implies after[k] != '\n' by {
            assert(after[k] == digits[k - len]);
        }
        assert forall|i: int, j: int|
            0 <= i <= j <= after.len() && #[trigger] newline_free(after, i, j) implies j - i
            <= MAX_LINE by {
            if j <= len {
                assert forall|k: int| i <= k < j implies text[k] != '\n' by {
                    assert(after[k] == text[k]);
                }
                assert(newline_free(text, i, j));
            } else if i < len {
                assert(after[len - 1] == text[len - 1]);
                assert(after[len - 1] != '\n');
            }
        }
        assert(len == 0 || after[len - 1] == '\n') by {
            if len > 0 {
                assert(after[len - 1] == text[len - 1]);
            }
        }
    } else {
        assert(after =~= text.push(' ') + digits);
        assert(after[len] == ' ');
        assert forall|k: int| len - n <= k < after.len() implies after[k] != '\n' by {
            if k < len {
                assert(after[k] == text[k]);
            } else if k > len {
                assert(after[k] == digits[k - len - 1]);
            }
        }
        assert(len - n == 0 || after[len - n - 1] == '\n') by {
            if len - n > 0 {
                assert(after[len - n - 1] == text[len - n - 1]);
            }
        }
        assert forall|i: int, j: int|
            0 <= i <= j <= after.len() && #[trigger] newline_free(after, i, j) implies j - i
            <= MAX_LINE by {
            if j <= len {
                assert forall|k: int| i <= k < j implies text[k] != '\n' by {
                    assert(after[k] == text[k]);
                }
                assert(newline_free(text, i, j));
            } else if i < len - n {
                assert(after[len - n - 1] != '\n');
            }
        }
    }
}

proof fn lemma_put_levels(levels: Seq<u8>)
    ensures
        open_line(put_levels(levels)),
    decreases levels.len(),
{
    if levels.len() > 0 {
        lemma_put_levels(levels.drop_last());
        lemma_put_level(put_levels(levels.drop_last()), levels.last());
    }
}

/// Two texts with short lines, the first of them empty or closed by a
/// newline, make a text with short lines.
proof fn lemma_join_lines(a: Seq<char>, b: Seq<char>, limit: nat)
    requires
        lines_at_most(a, limit),
        lines_at_most(b, limit),
        a.len() == 0 || a.last() == '\n',
    ensures
        lines_at_most(a + b, limit),
{
    let both = a + b;
    let len = a.len() as int;
    assert forall|i: int, j: int|
        0 <= i <= j <= both.len() && #[trigger] newline_free(both, i, j) implies j - i
        <= limit by {
        if j <= len {
            assert forall|k: int| i <= k < j implies a[k] != '\n' by {
                assert(both[k] == a[k]);
            }
            assert(newline_free(a, i, j));
        } else if i >= len {
            assert forall|k: int| i - len <= k < j - len implies b[k] != '\n' by {
                assert(both[k + len] == b[k]);
            }
            assert(newline_free(b, i - len, j - len));
        } else {
            assert(both[len - 1] == a[len - 1]);
            assert(both[len - 1] != '\n');
        }
    }
}

/// No line in the text of a row has more than `MAX_LINE` characters, and
/// the text ends in a newline.
pub proof fn lemma_row_lines_are_short(levels: Seq<u8>)
    ensures
        lines_at_most(row_text(levels), MAX_LINE as nat),
        row_text(levels).last() == '\n',
{
    lemma_put_levels(levels);
    let text = put_levels(levels).0;
    let row = row_text(levels);
    let len = text.len() as int;
    assert forall|i: int, j: int|
        0 <= i <= j <= row.len() && #[trigger] newline_free(row, i, j) implies j - i
        <= MAX_LINE by {
        if j <= len {
            assert forall|k: int| i <= k < j implies text[k] != '\n' by {
                assert(row[k] == text[k]);
            }
            assert(newline_free(text, i, j));
        } else if i <= len {
            assert(row[len] != '\n');
        }
    }
}

/// No line in the pixel data of a picture has more than `MAX_LINE`
/// characters, whatever the picture's width.
pub proof fn lemma_pixel_data_lines_are_short(levels: Seq<u8>, per_row: int, rows: int)
    ensures
        lines_at_most(rows_text(levels, per_row, rows), MAX_LINE as nat),
        rows_text(levels, per_row, rows).len() == 0 || rows_text(levels, per_row, rows).last()
            == '\n',
    decreases rows,
{
    if rows > 0 {
        lemma_pixel_data_lines_are_short(levels, per_row, rows - 1);
        let row = levels.subrange((rows - 1) * per_row, rows * per_row);
        lemma_row_lines_are_short(row);
        lemma_join_lines(rows_text(levels, per_row, rows - 1), row_text(row), MAX_LINE as nat);
    }
}

/// The text of a picture ends in a newline.
pub proof fn lemma_ppm_ends_with_newline(width: nat, height: nat, levels: Seq<u8>)
    ensures
        ppm_text(width, height, levels).len() > 0,
        ppm_text(width, height, levels).last() == '\n',
{
    lemma_pixel_data_lines_are_short(levels, (3 * width) as int, height as int);
    let head = header_text(width, height);
    let data = rows_text(levels, (3 * width) as int, height as int);
    assert(head.last() == '\n');
    if data.len() > 0 {
        assert((head + data).last() == data.last());
    } else {
        assert(head + data =~= head);
    }
}

fn digit_str(d: usize) -> (s: &'static str)
    requires
        d < 10,
    ensures
        s@ == seq![digit_char(d as nat)],
{
    proof {
        reveal_strlit("0");
        reveal_strlit("1");
        reveal_strlit("2");
        reveal_strlit("3");
        reveal_strlit("4");
        reveal_strlit("5");
        reveal_strlit("6");
        reveal_strlit("7");
        reveal_strlit("8");
        reveal_strlit("9");
    }
    let s: &'static str = if d == 0 {
        "0"
    } else if d == 1 {
        "1"
    } else if d == 2 {
        "2"
    } else if d == 3 {
        "3"
    } else if d == 4 {
        "4"
    } else if d == 5 {
        "5"
    } else if d == 6 {
        "6"
    } else if d == 7 {
        "7"
    } else if d == 8 {
        "8"
    } else {
        "9"
    };
    assert(s@ =~= seq![digit_char(d as nat)]);
    s
}

/// Writes `n` in decimal at the end of `text`.
fn push_decimal(text: &mut String, n: usize)
    ensures
        final(text)@ == old(text)@ + decimal(n as nat),
    decreases n,
{
    if n >= 10 {
        push_decimal(text, n / 10);
    }
    text.append(digit_str(n % 10));
    assert(text@ =~= old(text)@ + decimal(n as nat));
}

/// How many digits a level has in decimal.
fn decimal_len(level: u8) -> (n: usize)
    ensures
        n == decimal(level as nat).len(),
        1 <= n <= 3,
{
    proof {
        reveal_with_fuel(decimal, 3);
    }
    if level < 10 {
        1
    } else if level < 100 {
        2
    } else {
        3
    }
}

/// A grid of pixels, `width` across and `height` down, kept row after row.
pub struct Canvas {
    width: usize,
    height: usize,
    pixels: Vec<Color>,
}

impl Canvas {
    /// How many pixels a row has.
    pub closed spec fn columns(&self) -> nat {
        self.width as nat
    }

    /// How many rows there are.
    pub closed spec fn rows(&self) -> nat {
        self.height as nat
    }

    /// The pixels, row after row; there are `columns() * rows()` of them.
    pub closed spec fn pixels(&self) -> Seq<Color> {
        self.pixels@
    }

    /// There is one pixel for each column of each row. Every canvas that
    /// `new` makes is so, and `write_pixel` keeps it so.
    pub open spec fn well_formed(&self) -> bool {
        self.pixels().len() == self.columns() * self.rows()
    }

    /// A canvas with every pixel black.
    pub fn new(width: usize, height: usize) -> (c: Canvas)
        requires
            width * height <= usize::MAX,
        ensures
            c.columns() == width,
            c.rows() == height,
            c.pixels() == Seq::new((width * height) as nat, |i: int| Color::dark()),
            c.well_formed(),
    {
        let count: usize = width * height;
        let mut pixels: Vec<Color> = Vec::new();
        let mut i: usize = 0;
        while i < count
            invariant
                i <= count,
                pixels@ == Seq::new(i as nat, |k: int| Color::dark()),
            decreases count - i,
        {
            pixels.push(Color::black());
            assert(pixels@ =~= Seq::new((i + 1) as nat, |k: int| Color::dark()));
            i += 1;
        }
        Canvas { width, height, pixels }
    }

    pub fn width(&self) -> (w: usize)
        ensures
            w == self.columns(),
    {
        self.width
    }

    pub fn height(&self) -> (h: usize)
        ensures
            h == self.rows(),
    {
        self.height
    }

    /// The pixel in column `x` of row `y`.
    pub fn pixel_at(&self, x: usize, y: usize) -> (c: Color)
        requires
            y * self.columns() + x < self.pixels().len(),
        ensures
            c == self.pixels()[y * self.columns() + x],
    {
        let count: usize = self.pixels.len();
        assert(0 <= y * self.width <= count) by (nonlinear_arith)
            requires
                y * self.width + x < count,
        ;
        self.pixels[y * self.width + x]
    }

    /// Colors the pixel in column `x` of row `y` and no other.
    pub fn write_pixel(&mut self, x: usize, y: usize, c: Color)
        requires
            y * old(self).columns() + x < old(self).pixels().len(),
        ensures
            final(self).columns() == old(self).columns(),
            final(self).rows() == old(self).rows(),
            final(self).pixels() == old(self).pixels().update(y * old(self).columns() + x, c),
            old(self).well_formed() ==> final(self).well_formed(),
    {
        let count: usize = self.pixels.len();
        assert(0 <= y * self.width <= count) by (nonlinear_arith)
            requires
                y * self.width + x < count,
        ;
        let at: usize = y * self.width + x;
        self.pixels.set(at, c);
    }

    /// The picture as text in the plain PPM format, given its levels: for
    /// each pixel, row after row, the red, green and blue channel as a
    /// whole number from 0 to `MAX_COL`.
    pub fn to_ppm(&self, levels: &Vec<u8>) -> (text: String)
        requires
            levels@.len() == 3 * self.columns() * self.rows(),
        ensures
            text@ == ppm_text(self.columns(), self.rows(), levels@),
    {
        let mut result: String = String::new();
        proof {
            reveal_strlit("P3\n");
            reveal_strlit(" ");
            reveal_strlit("\n");
        }
        result.append("P3\n");
        push_decimal(&mut result, self.width);
        result.append(" ");
        push_decimal(&mut result, self.height);
        result.append("\n");
        push_decimal(&mut result, MAX_COL);
        result.append("\n");
        assert(result@ =~= header_text(self.columns(), self.rows()));
        let ghost header = result@;
        if self.height == 0 {
            assert(result@ =~= header + rows_text(levels@, 3 * self.width, 0));
            return result;
        }
        let total: usize = levels.len();
        assert(3 * self.width <= 3 * self.width * self.height) by (nonlinear_arith)
            requires
                self.height >= 1,
        ;
        let per_row: usize = 3 * self.width;
        let mut y: usize = 0;
        assert(result@ =~= header + rows_text(levels@, per_row as int, 0));
        while y < self.height
            invariant
                y <= self.height,
                per_row == 3 * self.width,
                total == levels@.len(),
                total == per_row * self.height,
                result@ == header + rows_text(levels@, per_row as int, y as int),
            decreases self.height - y,
        {
            let ghost done = result@;
            assert((y + 1) * per_row <= per_row * self.height && (y + 1) * per_row == y * per_row
                + per_row && 0 <= y * per_row) by (nonlinear_arith)
                requires
                    y + 1 <= self.height,
            ;
            let ghost row = levels@.subrange(y * per_row, (y + 1) * per_row);
            let start: usize = y * per_row;
            let mut line_len: usize = 0;
            let mut x: usize = 0;
            while x < per_row
                invariant
                    x <= per_row,
                    start == y * per_row,
                    total == levels@.len(),
                    start + per_row <= total,
                    row == levels@.subrange(start as int, start + per_row),
                    line_len == put_levels(row.take(x as int)).1,
                    line_len <= MAX_LINE,
                    result@ == done + put_levels(row.take(x as int)).0,
                decreases per_row - x,
            {
                let level: u8 = levels[start + x];
                let digits: usize = decimal_len(level);
                proof {
                    reveal_strlit(" ");
                    reveal_strlit("\n");
                    assert(row.take(x + 1).drop_last() =~= row.take(x as int));
                    assert(row.take(x + 1).last() == level);
                }
                let ghost state = put_levels(row.take(x as int));
                if line_len + 1 + digits > MAX_LINE {
                    result.append("\n");
                    line_len = 0;
                    assert(result@ =~= done + state.0.push('\n'));
                } else if line_len > 0 {
                    result.append(" ");
                    line_len = line_len + 1;
                    assert(result@ =~= done + state.0.push(' '));
                }
                push_decimal(&mut result, level as usize);
                line_len = line_len + digits;
                proof {
                    let next = put_level(state, level);
                    assert(result@ =~= done + next.0);
                }
                x += 1;
            }
            result.append("\n");
            proof {
                reveal_strlit("\n");
                assert(row.take(per_row as int) =~= row);
                assert(result@ =~= done + row_text(row));
                assert(result@ =~= header + rows_text(levels@, per_row as int, y + 1));
            }
            y += 1;
        }
        result
    }
}

} // verus!
