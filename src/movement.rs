use vstd::prelude::*;

use crate::app::{last_row, App};

verus! {

/// A navigation command of the viewer.
#[derive(Clone, Copy, Debug, PartialEq, Eq, Structural)]
pub enum Command {
    LineDown,
    LineUp,
    PageDown,
    PageUp,
    HalfPageDown,
    HalfPageUp,
    JumpStart,
    JumpEnd,
}

/// Scroll position after moving `by` rows down from `pos`; the move is not
/// made when it would pass `max`.
pub open spec fn shifted_down(pos: nat, by: nat, max: nat) -> nat {
    if pos + by <= max {
        pos + by
    } else {
        pos
    }
}

/// Scroll position after moving `by` rows up from `pos`, stopping at zero.
pub open spec fn shifted_up(pos: nat, by: nat) -> nat {
    if pos >= by {
        (pos - by) as nat
    } else {
        0
    }
}

/// Scroll position after `cmd`, from `pos`, with `max` the last row that may
/// stand first and `page` the rows on screen.
pub open spec fn scroll_after(cmd: Command, pos: nat, max: nat, page: nat) -> nat {
    match cmd {
        Command::LineDown => shifted_down(pos, 1, max),
        Command::LineUp => shifted_up(pos, 1),
        Command::PageDown => shifted_down(pos, page, max),
        Command::PageUp => shifted_up(pos, page),
        Command::HalfPageDown => shifted_down(pos, page / 2, max),
        Command::HalfPageUp => shifted_up(pos, page / 2),
        Command::JumpStart => 0,
        Command::JumpEnd => max,
    }
}

impl App {
    /// The state after `cmd`: only the scroll position changes.
    pub open spec fn moved(self, cmd: Command) -> App {
        App {
            scroll_pos: scroll_after(
                cmd,
                self.scroll_pos as nat,
                self.max_scroll(),
                self.visible_rows(),
            ) as usize,
            ..self
        }
    }

    /// Rows of the terminal on which file rows are drawn.
    pub fn visible_row_count(&self) -> (r: usize)
        ensures
            r == self.visible_rows(),
    {
        let height = self.frame_size.1 as usize;
        if height >= self.vertical_margin {
            height - self.vertical_margin
        } else {
            0
        }
    }

    /// Moves `by` rows down, unless that passes the last row.
    fn shift_down(&mut self, by: usize)
        requires
            old(self).wf(),
        ensures
            *final(self) == (App {
                scroll_pos: shifted_down(
                    old(self).scroll_pos as nat,
                    by as nat,
                    old(self).max_scroll(),
                ) as usize,
                ..*old(self)
            }),
    {
        let max = last_row(self.fileinfo.size, self.bytes_per_row);
        if by <= max - self.scroll_pos {
            self.scroll_pos = self.scroll_pos + by;
        }
    }

    /// Moves one row down, unless the last row is first on screen.
    pub fn move_line_down(&mut self)
        requires
            old(self).wf(),
        ensures
            *final(self) == old(self).moved(Command::LineDown),
            final(self).wf(),
    {
        self.shift_down(1);
    }

    /// Moves one row up, stopping at the first row.
    pub fn move_line_up(&mut self)
        requires
            old(self).wf(),
        ensures
            *final(self) == old(self).moved(Command::LineUp),
            final(self).wf(),
    {
        self.scroll_pos = self.scroll_pos.saturating_sub(1);
    }

    /// Moves half a page up, stopping at the first row.
    pub fn move_page_half_up(&mut self)
        requires
            old(self).wf(),
        ensures
            *final(self) == old(self).moved(Command::HalfPageUp),
            final(self).wf(),
    {
        let height = self.visible_row_count();
        self.scroll_pos = self.scroll_pos.saturating_sub(height / 2);
    }

    /// Moves half a page down, unless that passes the last row.
    pub fn move_page_half_down(&mut self)
        requires
            old(self).wf(),
        ensures
            *final(self) == old(self).moved(Command::HalfPageDown),
            final(self).wf(),
    {
        let height = self.visible_row_count();
        self.shift_down(height / 2);
    }

    /// Moves a page up, stopping at the first row.
    pub fn move_page_up(&mut self)
        requires
            old(self).wf(),
        ensures
            *final(self) == old(self).moved(Command::PageUp),
            final(self).wf(),
    {
        let height = self.visible_row_count();
        self.scroll_pos = self.scroll_pos.saturating_sub(height);
    }

    /// Moves a page down, unless that passes the last row.
    pub fn move_page_down(&mut self)
        requires
            old(self).wf(),
        ensures
            *final(self) == old(self).moved(Command::PageDown),
            final(self).wf(),
    {
        let height = self.visible_row_count();
        self.shift_down(height);
    }

    /// Goes to the first row.
    pub fn jump_start(&mut self)
        requires
            old(self).wf(),
        ensures
            *final(self) == old(self).moved(Command::JumpStart),
            final(self).wf(),
    {
        self.scroll_pos = 0;
    }

    /// Goes to the last row of the file.
    pub fn jump_end(&mut self)
        requires
            old(self).wf(),
        ensures
            *final(self) == old(self).moved(Command::JumpEnd),
            final(self).wf(),
    {
        self.scroll_pos = last_row(self.fileinfo.size, self.bytes_per_row);
    }

    /// Carries out a navigation command.
    pub fn apply_command(&mut self, cmd: Command)
        requires
            old(self).wf(),
        ensures
            *final(self) == old(self).moved(cmd),
            final(self).wf(),
    {
        match cmd {
            Command::LineDown => self.move_line_down(),
            Command::LineUp => self.move_line_up(),
            Command::PageDown => self.move_page_down(),
            Command::PageUp => self.move_page_up(),
            Command::HalfPageDown => self.move_page_half_down(),
            Command::HalfPageUp => self.move_page_half_up(),
            Command::JumpStart => self.jump_start(),
            Command::JumpEnd => self.jump_end(),
        }
    }
}

} // verus!
