use vstd::prelude::*;

use crate::display::{
    bytes_per_row_for, count_hexdigits, get_bytes_per_row, hex_digit_count, ADDR_PANE_PADDING,
};
use crate::file::FileInfo;

verus! {

/// Rows of the terminal that the borders and the footer take.
pub const VERTICAL_MARGIN: usize = 3;

/// Bytes in a group of the hex pane when the command line names no size.
pub const DEFAULT_BLOCKSIZE: u16 = 8;

/// The state of the viewer: the file, the terminal geometry, the layout
/// derived from it, the scroll position and the dialogs that are open.
pub struct App {
    /// Index of the first row on screen.
    pub scroll_pos: usize,
    pub vertical_margin: usize,
    /// Width and height of the terminal.
    pub frame_size: (u16, u16),
    pub show_help: bool,
    pub show_fileinfo: bool,
    pub fileinfo: FileInfo,
    /// Set once the user asked to leave.
    pub quit: bool,
    /// Bytes shown on a row, derived from the geometry and the blocksize.
    pub bytes_per_row: usize,
    /// Bytes in a group of the hex pane.
    pub blocksize: u16,
}

/// Sixteen to the power `k`.
pub open spec fn pow16(k: nat) -> nat
    decreases k,
{
    if k == 0 {
        1
    } else {
        16 * pow16((k - 1) as nat)
    }
}

/// A number below `16^k` has at most `k` hex digits.
proof fn lemma_hex_digit_count_bound(v: nat, k: nat)
    requires
        v < pow16(k),
    ensures
        hex_digit_count(v) <= k,
    decreases k,
{
    if v > 0 && k > 0 {
        lemma_hex_digit_count_bound(v / 16, (k - 1) as nat);
    }
}

/// A `usize` has at most 16 hex digits.
pub proof fn lemma_usize_hex_digits(v: usize)
    ensures
        hex_digit_count(v as nat) <= 16,
{
    reveal_with_fuel(pow16, 17);
    assert(pow16(16) == 0x1_0000_0000_0000_0000nat);
    lemma_hex_digit_count_bound(v as nat, 16);
}

/// Number of rows of `bytes_per_row` bytes that `file_len` bytes fill, the last
/// one possibly short; none when no byte fits on a row.
pub open spec fn row_count(file_len: nat, bytes_per_row: nat) -> nat {
    if bytes_per_row == 0 {
        0
    } else {
        ((file_len + bytes_per_row - 1) / (bytes_per_row as int)) as nat
    }
}

/// The last row that may stand first on screen: the last row of the file, and
/// row zero when the file is empty or no byte fits on a row.
pub open spec fn max_scroll(file_len: nat, bytes_per_row: nat) -> nat {
    if bytes_per_row == 0 || file_len == 0 {
        0
    } else {
        ((file_len - 1) / (bytes_per_row as int)) as nat
    }
}

/// Width of the address pane for a file of `file_len` bytes.
pub open spec fn address_pane_width(file_len: nat) -> nat {
    (ADDR_PANE_PADDING + hex_digit_count(file_len)) as nat
}

impl App {
    /// Rows of the terminal on which file rows are drawn.
    pub open spec fn visible_rows(&self) -> nat {
        if self.frame_size.1 as int >= self.vertical_margin {
            (self.frame_size.1 - self.vertical_margin) as nat
        } else {
            0
        }
    }

    /// Bytes per row for the current geometry, blocksize and file length.
    pub open spec fn layout_bytes_per_row(&self) -> nat {
        bytes_per_row_for(
            self.frame_size.0 as int,
            address_pane_width(self.fileinfo.size as nat) as int,
            self.blocksize as int,
        ) as nat
    }

    /// The last row that may stand first on screen.
    pub open spec fn max_scroll(&self) -> nat {
        max_scroll(self.fileinfo.size as nat, self.bytes_per_row as nat)
    }

    /// The state is consistent: a positive blocksize, a file whose size is
    /// its length, a row width derived from the current geometry, and a
    /// scroll position within `[0, max_scroll]`.
    pub open spec fn wf(&self) -> bool {
        &&& self.blocksize >= 1
        &&& self.fileinfo.wf()
        &&& self.bytes_per_row == self.layout_bytes_per_row()
        &&& self.scroll_pos <= self.max_scroll()
    }

    /// The state after the terminal took the size `(width, height)`: the row
    /// width is derived anew and the scroll position clamped to the new last
    /// row.
    pub open spec fn resized(self, width: u16, height: u16) -> App {
        let a = App { frame_size: (width, height), ..self };
        let bpr = a.layout_bytes_per_row();
        let max = max_scroll(self.fileinfo.size as nat, bpr);
        App {
            bytes_per_row: bpr as usize,
            scroll_pos: if self.scroll_pos <= max {
                self.scroll_pos
            } else {
                max as usize
            },
            ..a
        }
    }

    /// Records the new terminal size, derives the bytes per row from it and
    /// clamps the scroll position into the new `[0, max_scroll]`.
    pub fn update_frame_size(&mut self, new_width: u16, new_height: u16)
        requires
            old(self).blocksize >= 1,
            old(self).fileinfo.wf(),
        ensures
            *final(self) == old(self).resized(new_width, new_height),
            final(self).wf(),
    {
        self.frame_size = (new_width, new_height);
        let size = self.fileinfo.size;
        let digits = count_hexdigits(size);
        proof {
            lemma_usize_hex_digits(size);
        }
        let addr_width = ADDR_PANE_PADDING + digits as u16;
        let bpr = get_bytes_per_row(new_width, addr_width, self.blocksize);
        self.bytes_per_row = bpr;
        let max = last_row(size, bpr);
        if self.scroll_pos > max {
            self.scroll_pos = max;
        }
    }

    /// A viewer on `fileinfo` in a terminal of `frame_size`, with groups of
    /// `blocksize` bytes (`DEFAULT_BLOCKSIZE` when `None`), scrolled to the
    /// top.
    pub fn new(fileinfo: FileInfo, blocksize: Option<u16>, frame_size: (u16, u16)) -> (r: App)
        requires
            fileinfo.wf(),
            blocksize matches Some(b) ==> b >= 1,
        ensures
            r.wf(),
            r.fileinfo == fileinfo,
            r.blocksize == match blocksize {
                Some(b) => b,
                None => DEFAULT_BLOCKSIZE,
            },
            r.frame_size == frame_size,
            r.scroll_pos == 0,
            r.vertical_margin == VERTICAL_MARGIN,
            !r.show_help,
            !r.show_fileinfo,
            !r.quit,
    {
        let mut app = App::default();
        app.fileinfo = fileinfo;
        if let Some(b) = blocksize {
            app.blocksize = b;
        }
        app.update_frame_size(frame_size.0, frame_size.1);
        app
    }
}

/// The last row that may stand first on screen, as `max_scroll` gives it.
pub fn last_row(file_len: usize, bytes_per_row: usize) -> (r: usize)
    ensures
        r == max_scroll(file_len as nat, bytes_per_row as nat),
{
    if bytes_per_row == 0 || file_len == 0 {
        0
    } else {
        (file_len - 1) / bytes_per_row
    }
}

impl Default for App {
    /// An empty file in a terminal of no size.
    fn default() -> (r: App)
        ensures
            r.wf(),
            r.scroll_pos == 0,
            r.vertical_margin == VERTICAL_MARGIN,
            r.frame_size == (0u16, 0u16),
            !r.show_help,
            !r.show_fileinfo,
            !r.quit,
            r.blocksize == DEFAULT_BLOCKSIZE,
            r.fileinfo.content@.len() == 0,
    {
        let mut app = App {
            scroll_pos: 0,
            vertical_margin: VERTICAL_MARGIN,
            frame_size: (0, 0),
            show_help: false,
            show_fileinfo: false,
            fileinfo: FileInfo::default(),
            quit: false,
            bytes_per_row: 0,
            blocksize: DEFAULT_BLOCKSIZE,
        };
        app.update_frame_size(0, 0);
        app
    }
}

} // verus!
