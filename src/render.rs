use vstd::arithmetic::div_mod::{
    lemma_div_plus_one, lemma_fundamental_div_mod, lemma_fundamental_div_mod_converse,
    lemma_mod_bound,
};
use vstd::prelude::*;
use vstd::slice::slice_subrange;
use vstd::string::StrSliceExecFns;

use crate::app::{address_pane_width, lemma_usize_hex_digits, max_scroll, row_count, App};
use crate::movement::Command;
use crate::display::{
    address_text, ascii_row, count_hexdigits, format_address, hex_digit_count, hex_row,
    lemma_bytes_per_row_bound, line_format_ascii, line_format_hex, ADDR_PANE_PADDING,
    MIN_BYTES_PER_ROW, PANE_BORDERS,
};

verus! {

/// Footer text on the left.
pub const HELP_FOOTER: &'static str = "Press (h) for help";

/// Footer text on the right.
pub const DETAILS_FOOTER: &'static str = "Press (i) for file details";

/// Columns around and between the two footer texts.
pub const FOOTER_PADDING: u16 = 6;

/// Width that a row of `MIN_BYTES_PER_ROW` bytes needs, with its address
/// column of `digits` hex digits and the borders.
pub open spec fn min_body_width(digits: nat, grouping: nat) -> int {
    MIN_BYTES_PER_ROW * 3 + (MIN_BYTES_PER_ROW as nat) / grouping - 1 + MIN_BYTES_PER_ROW + PANE_BORDERS
        + ADDR_PANE_PADDING + digits
}

/// Width that the footer needs.
pub open spec fn min_footer_width() -> int {
    HELP_FOOTER@.len() + DETAILS_FOOTER@.len() + FOOTER_PADDING
}

/// Narrowest terminal on which the three panes are drawn.
pub open spec fn min_width(digits: nat, grouping: nat) -> int {
    let body = min_body_width(digits, grouping);
    let footer = min_footer_width();
    if body >= footer {
        body
    } else {
        footer
    }
}

/// The smaller of two numbers.
pub open spec fn min_nat(a: nat, b: nat) -> nat {
    if a <= b {
        a
    } else {
        b
    }
}

/// Rows `start_row <= row < end_row` that hold bytes, counted.
pub open spec fn rows_between(start_row: nat, end_row: nat, rows: nat) -> nat {
    let stop = min_nat(end_row, rows);
    if stop > start_row {
        (stop - start_row) as nat
    } else {
        0
    }
}

/// The bytes of row `row`: `bytes_per_row` of them from `row * bytes_per_row`
/// on, fewer at the end of the content.
pub open spec fn row_bytes(content: Seq<u8>, row: nat, bytes_per_row: nat) -> Seq<u8> {
    let lo = row * bytes_per_row;
    content.subrange(lo as int, min_nat(lo + bytes_per_row, content.len()) as int)
}

/// The text of each string.
pub open spec fn strings_view(lines: Seq<String>) -> Seq<Seq<char>> {
    lines.map_values(|s: String| s@)
}

/// What the three panes show.
pub struct Panes {
    /// Width of the address pane.
    pub address_width: u16,
    /// Width of the ASCII pane.
    pub ascii_width: u16,
    /// First row shown.
    pub start_row: usize,
    /// Row after the last one shown.
    pub end_row: usize,
    /// Rows in the whole file.
    pub row_count: usize,
    pub address: Vec<String>,
    pub hex: Vec<String>,
    pub ascii: Vec<String>,
}

/// What the screen shows: the three panes, or a note that the terminal is
/// too narrow for them.
pub enum Screen {
    TooNarrow,
    Panes(Panes),
}

/// `row * bytes_per_row` lies in the file for each row that holds bytes.
pub proof fn lemma_row_start_in_file(row: nat, file_len: nat, bytes_per_row: nat)
    requires
        bytes_per_row > 0,
        row < row_count(file_len, bytes_per_row),
    ensures
        row * bytes_per_row < file_len,
{
    let b = bytes_per_row as int;
    let n = file_len as int;
    let c = (n + b - 1) / b;
    let m = (n + b - 1) % b;
    lemma_fundamental_div_mod(n + b - 1, b);
    lemma_mod_bound(n + b - 1, b);
    assert(row * b < n) by (nonlinear_arith)
        requires
            row < c,
            b > 0,
            n + b - 1 == b * c + m,
            0 <= m,
    ;
}

/// The rows of a file are one more than its last row, when it has any.
pub proof fn lemma_row_count_max_scroll(file_len: nat, bytes_per_row: nat)
    requires
        bytes_per_row > 0,
        file_len > 0,
    ensures
        row_count(file_len, bytes_per_row) == max_scroll(file_len, bytes_per_row) + 1,
{
    lemma_div_plus_one(file_len - 1, bytes_per_row as int);
    assert(bytes_per_row + (file_len - 1) == file_len + bytes_per_row - 1);
}

/// Number of rows that `file_len` bytes fill, as `row_count` gives it.
pub fn rows_in(file_len: usize, bytes_per_row: usize) -> (r: usize)
    ensures
        r == row_count(file_len as nat, bytes_per_row as nat),
{
    if bytes_per_row == 0 {
        return 0;
    }
    let q = file_len / bytes_per_row;
    let rem = file_len % bytes_per_row;
    proof {
        let b = bytes_per_row as int;
        let n = file_len as int;
        lemma_fundamental_div_mod(n, b);
        lemma_mod_bound(n, b);
        if rem == 0 {
            assert(n + b - 1 == q * b + (b - 1)) by (nonlinear_arith)
                requires
                    n == b * q + rem,
                    rem == 0,
            ;
            lemma_fundamental_div_mod_converse(n + b - 1, b, q as int, b - 1);
        } else {
            assert(n + b - 1 == (q + 1) * b + (rem - 1)) by (nonlinear_arith)
                requires
                    n == b * q + rem,
            ;
            lemma_fundamental_div_mod_converse(n + b - 1, b, q + 1, rem - 1);
            assert(q * b <= n) by (nonlinear_arith)
                requires
                    n == b * q + rem,
                    rem >= 0,
            ;
            assert(q < n) by (nonlinear_arith)
                requires
                    q * b <= n,
                    b > 0,
                    rem > 0,
                    n == b * q + rem,
            ;
        }
    }
    if rem != 0 {
        q + 1
    } else {
        q
    }
}

impl App {
    /// Rows in the file.
    pub open spec fn rows(&self) -> nat {
        row_count(self.fileinfo.size as nat, self.bytes_per_row as nat)
    }

    /// Rows `start_row <= row < end_row` that hold bytes, counted.
    pub open spec fn shown_rows(&self, start_row: nat, end_row: nat) -> nat {
        rows_between(start_row, end_row, self.rows())
    }

    /// The row after the last one on screen.
    pub open spec fn end_row(&self) -> nat {
        min_nat((self.scroll_pos + self.visible_rows()) as nat, self.rows())
    }

    /// Address lines of rows `start_row <= row < end_row` that hold bytes.
    pub open spec fn address_lines(&self, start_row: nat, end_row: nat) -> Seq<Seq<char>> {
        Seq::new(
            self.shown_rows(start_row, end_row),
            |k: int|
                address_text(
                    (start_row + k) as nat,
                    self.bytes_per_row as nat,
                    hex_digit_count(self.fileinfo.size as nat),
                ),
        )
    }

    /// Hex lines of rows `start_row <= row < end_row` that hold bytes.
    pub open spec fn hex_lines(&self, start_row: nat, end_row: nat) -> Seq<Seq<char>> {
        Seq::new(
            self.shown_rows(start_row, end_row),
            |k: int|
                hex_row(
                    row_bytes(
                        self.fileinfo.content@,
                        (start_row + k) as nat,
                        self.bytes_per_row as nat,
                    ),
                    self.blocksize as nat,
                ),
        )
    }

    /// ASCII lines of rows `start_row <= row < end_row` that hold bytes.
    pub open spec fn ascii_lines(&self, start_row: nat, end_row: nat) -> Seq<Seq<char>> {
        Seq::new(
            self.shown_rows(start_row, end_row),
            |k: int|
                ascii_row(
                    row_bytes(
                        self.fileinfo.content@,
                        (start_row + k) as nat,
                        self.bytes_per_row as nat,
                    ),
                ),
        )
    }

    /// The terminal is too narrow for the three panes.
    pub open spec fn too_narrow(&self) -> bool {
        ||| self.frame_size.0 < min_width(
            hex_digit_count(self.fileinfo.size as nat),
            self.blocksize as nat,
        )
        ||| self.bytes_per_row == 0
    }

    /// The bytes of row `row`.
    fn row_slice(&self, row: usize) -> (r: &[u8])
        requires
            self.wf(),
            row < self.rows(),
        ensures
            r@ == row_bytes(self.fileinfo.content@, row as nat, self.bytes_per_row as nat),
    {
        let bpr = self.bytes_per_row;
        let size = self.fileinfo.size;
        proof {
            lemma_row_start_in_file(row as nat, size as nat, bpr as nat);
        }
        let lo = row * bpr;
        let hi = if size - lo > bpr {
            lo + bpr
        } else {
            size
        };
        slice_subrange(self.fileinfo.content.as_slice(), lo, hi)
    }

    /// The addresses of rows `start_row <= row < end_row` that hold bytes, one
    /// line a row, zero-padded to the hex digits of the file size.
    pub fn get_address_to_lines(&self, start_line_idx: usize, end_line_idx: usize) -> (r: Vec<
        String,
    >)
        requires
            self.wf(),
        ensures
            strings_view(r@) == self.address_lines(start_line_idx as nat, end_line_idx as nat),
    {
        let cap = count_hexdigits(self.fileinfo.size);
        let rows = rows_in(self.fileinfo.size, self.bytes_per_row);
        let stop = if end_line_idx < rows {
            end_line_idx
        } else {
            rows
        };
        let mut text: Vec<String> = Vec::new();
        let mut idx = start_line_idx;
        while idx < stop
            invariant
                self.wf(),
                rows == self.rows(),
                stop <= rows,
                stop == min_nat(end_line_idx as nat, rows as nat),
                start_line_idx <= idx,
                idx < stop ==> text@.len() == idx - start_line_idx,
                idx >= stop ==> text@.len() == self.shown_rows(
                    start_line_idx as nat,
                    end_line_idx as nat,
                ),
                cap == hex_digit_count(self.fileinfo.size as nat),
                forall|k: int|
                    0 <= k < text@.len() ==> (#[trigger] text@[k])@ == address_text(
                        (start_line_idx + k) as nat,
                        self.bytes_per_row as nat,
                        cap as nat,
                    ),
            decreases stop - idx,
        {
            proof {
                lemma_row_start_in_file(idx as nat, self.fileinfo.size as nat, self.bytes_per_row as nat);
            }
            text.push(format_address(idx, self.bytes_per_row, cap));
            idx = idx + 1;
        }
        assert(strings_view(text@) =~= self.address_lines(start_line_idx as nat, end_line_idx as nat));
        text
    }

    /// The hex text of rows `start_row <= row < end_row` that hold bytes.
    pub fn get_hexdump(&self, start_line_idx: usize, end_line_idx: usize) -> (r: Vec<String>)
        requires
            self.wf(),
        ensures
            strings_view(r@) == self.hex_lines(start_line_idx as nat, end_line_idx as nat),
    {
        let rows = rows_in(self.fileinfo.size, self.bytes_per_row);
        let stop = if end_line_idx < rows {
            end_line_idx
        } else {
            rows
        };
        let mut text: Vec<String> = Vec::new();
        let mut idx = start_line_idx;
        while idx < stop
            invariant
                self.wf(),
                rows == self.rows(),
                stop <= rows,
                stop == min_nat(end_line_idx as nat, rows as nat),
                start_line_idx <= idx,
                idx < stop ==> text@.len() == idx - start_line_idx,
                idx >= stop ==> text@.len() == self.shown_rows(
                    start_line_idx as nat,
                    end_line_idx as nat,
                ),
                forall|k: int|
                    0 <= k < text@.len() ==> (#[trigger] text@[k])@ == hex_row(
                        row_bytes(
                            self.fileinfo.content@,
                            (start_line_idx + k) as nat,
                            self.bytes_per_row as nat,
                        ),
                        self.blocksize as nat,
                    ),
            decreases stop - idx,
        {
            let chunk = self.row_slice(idx);
            text.push(line_format_hex(chunk, self.blocksize));
            idx = idx + 1;
        }
        assert(strings_view(text@) =~= self.hex_lines(start_line_idx as nat, end_line_idx as nat));
        text
    }

    /// The ASCII text of rows `start_row <= row < end_row` that hold bytes.
    pub fn get_asciidump(&self, start_line_idx: usize, end_line_idx: usize) -> (r: Vec<String>)
        requires
            self.wf(),
        ensures
            strings_view(r@) == self.ascii_lines(start_line_idx as nat, end_line_idx as nat),
    {
        let rows = rows_in(self.fileinfo.size, self.bytes_per_row);
        let stop = if end_line_idx < rows {
            end_line_idx
        } else {
            rows
        };
        let mut text: Vec<String> = Vec::new();
        let mut idx = start_line_idx;
        while idx < stop
            invariant
                self.wf(),
                rows == self.rows(),
                stop <= rows,
                stop == min_nat(end_line_idx as nat, rows as nat),
                start_line_idx <= idx,
                idx < stop ==> text@.len() == idx - start_line_idx,
                idx >= stop ==> text@.len() == self.shown_rows(
                    start_line_idx as nat,
                    end_line_idx as nat,
                ),
                forall|k: int|
                    0 <= k < text@.len() ==> (#[trigger] text@[k])@ == ascii_row(
                        row_bytes(
                            self.fileinfo.content@,
                            (start_line_idx + k) as nat,
                            self.bytes_per_row as nat,
                        ),
                    ),
            decreases stop - idx,
        {
            let chunk = self.row_slice(idx);
            text.push(line_format_ascii(chunk));
            idx = idx + 1;
        }
        assert(strings_view(text@) =~= self.ascii_lines(start_line_idx as nat, end_line_idx as nat));
        text
    }

    /// What the screen shows for the current state: a note when the
    /// terminal is too narrow, else the three panes for the rows from the
    /// scroll position to the bottom of the terminal or the end of the file,
    /// whichever comes first.
    pub fn screen(&self) -> (r: Screen)
        requires
            self.wf(),
        ensures
            self.too_narrow() <==> r is TooNarrow,
            r matches Screen::Panes(p) ==> {
                &&& p.start_row == self.scroll_pos
                &&& p.end_row == self.end_row()
                &&& p.row_count == self.rows()
                &&& p.address_width == address_pane_width(self.fileinfo.size as nat)
                &&& p.ascii_width == self.bytes_per_row + 1
                &&& strings_view(p.address@) == self.address_lines(
                    p.start_row as nat,
                    p.end_row as nat,
                )
                &&& strings_view(p.hex@) == self.hex_lines(p.start_row as nat, p.end_row as nat)
                &&& strings_view(p.ascii@) == self.ascii_lines(
                    p.start_row as nat,
                    p.end_row as nat,
                )
            },
    {
        let size = self.fileinfo.size;
        let digits = count_hexdigits(size);
        proof {
            lemma_usize_hex_digits(size);
            reveal_strlit("Press (h) for help");
            reveal_strlit("Press (i) for file details");
        }
        let min_row = MIN_BYTES_PER_ROW as usize;
        let body = min_row * 3 + min_row / (self.blocksize as usize) + min_row
            + PANE_BORDERS as usize + ADDR_PANE_PADDING as usize + digits - 1;
        let footer = HELP_FOOTER.unicode_len() + DETAILS_FOOTER.unicode_len()
            + FOOTER_PADDING as usize;
        let min_width = if body >= footer {
            body
        } else {
            footer
        };
        if (self.frame_size.0 as usize) < min_width || self.bytes_per_row == 0 {
            return Screen::TooNarrow;
        }
        let bpr = self.bytes_per_row;
        let rows = rows_in(size, bpr);
        proof {
            lemma_bytes_per_row_bound(
                self.frame_size.0 as int,
                address_pane_width(size as nat) as int,
                self.blocksize as int,
            );
            if size > 0 {
                lemma_row_count_max_scroll(size as nat, bpr as nat);
            }
        }
        let start = self.scroll_pos;
        let visible = self.visible_row_count();
        let end = if visible >= rows - start {
            rows
        } else {
            start + visible
        };
        let panes = Panes {
            address_width: ADDR_PANE_PADDING + digits as u16,
            ascii_width: bpr as u16 + 1,
            start_row: start,
            end_row: end,
            row_count: rows,
            address: self.get_address_to_lines(start, end),
            hex: self.get_hexdump(start, end),
            ascii: self.get_asciidump(start, end),
        };
        Screen::Panes(panes)
    }
}

/// On an empty file the last row is row zero, the view stands there, no
/// navigation command moves it, and no rows are shown.
pub proof fn lemma_empty_file(app: App, cmd: Command, start_row: nat, end_row: nat)
    requires
        app.wf(),
        app.fileinfo.size == 0,
    ensures
        app.max_scroll() == 0,
        app.scroll_pos == 0,
        app.moved(cmd) == app,
        app.rows() == 0,
        app.address_lines(start_row, end_row).len() == 0,
        app.hex_lines(start_row, end_row).len() == 0,
        app.ascii_lines(start_row, end_row).len() == 0,
{
    if app.bytes_per_row > 0 {
        let b = app.bytes_per_row as int;
        assert((b - 1) / b == 0) by {
            lemma_fundamental_div_mod_converse(b - 1, b, 0, b - 1);
        }
    }
}

} // verus!
