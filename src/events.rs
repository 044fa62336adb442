use vstd::prelude::*;

use crate::app::{address_pane_width, App};
use crate::display::lemma_bytes_per_row_bound;
use crate::movement::{scroll_after, Command};

verus! {

/// A key of the keyboard, as far as the viewer tells keys apart.
#[derive(Clone, Copy, Debug, PartialEq, Eq, Structural)]
pub enum KeyCode {
    Char(char),
    PageUp,
    PageDown,
    Other,
}

/// The modifier keys held with a key: none, exactly Shift, exactly Control,
/// or any other combination.
#[derive(Clone, Copy, Debug, PartialEq, Eq, Structural)]
pub enum Modifiers {
    Plain,
    Shift,
    Control,
    Other,
}

/// An input event of the terminal.
#[derive(Clone, Copy, Debug, PartialEq, Eq, Structural)]
pub enum Event {
    /// A key; `press` is false for a release or a repeat.
    Key { code: KeyCode, modifiers: Modifiers, press: bool },
    ScrollDown,
    ScrollUp,
    Resize(u16, u16),
    Other,
}

/// What the viewer does on an event.
#[derive(Clone, Copy, Debug, PartialEq, Eq, Structural)]
pub enum Action {
    Move(Command),
    Quit,
    ToggleHelp,
    ToggleFileInfo,
    Resize(u16, u16),
    Nothing,
}

/// The action bound to a pressed key.
pub open spec fn key_action(code: KeyCode, modifiers: Modifiers) -> Action {
    match (code, modifiers) {
        (KeyCode::Char('q'), Modifiers::Plain) => Action::Quit,
        (KeyCode::Char('j'), Modifiers::Plain) => Action::Move(Command::LineDown),
        (KeyCode::Char('k'), Modifiers::Plain) => Action::Move(Command::LineUp),
        (KeyCode::Char('u'), Modifiers::Control) => Action::Move(Command::HalfPageUp),
        (KeyCode::Char('d'), Modifiers::Control) => Action::Move(Command::HalfPageDown),
        (KeyCode::PageUp, Modifiers::Plain) => Action::Move(Command::PageUp),
        (KeyCode::PageDown, Modifiers::Plain) => Action::Move(Command::PageDown),
        (KeyCode::Char('g'), Modifiers::Plain) => Action::Move(Command::JumpStart),
        (KeyCode::Char('G'), Modifiers::Shift) => Action::Move(Command::JumpEnd),
        (KeyCode::Char('h'), Modifiers::Plain) => Action::ToggleHelp,
        (KeyCode::Char('i'), Modifiers::Plain) => Action::ToggleFileInfo,
        _ => Action::Nothing,
    }
}

/// The action of an event: pressed keys by the key map, the mouse wheel one
/// row down or up, a resize as such; nothing for the rest.
pub open spec fn action_of(event: Event) -> Action {
    match event {
        Event::Key { code, modifiers, press } => if press {
            key_action(code, modifiers)
        } else {
            Action::Nothing
        },
        Event::ScrollDown => Action::Move(Command::LineDown),
        Event::ScrollUp => Action::Move(Command::LineUp),
        Event::Resize(w, h) => Action::Resize(w, h),
        Event::Other => Action::Nothing,
    }
}

/// The action of an event, as `action_of` gives it.
pub fn action_for(event: &Event) -> (r: Action)
    ensures
        r == action_of(*event),
{
    match *event {
        Event::Key { code, modifiers, press } => {
            if !press {
                return Action::Nothing;
            }
            match (code, modifiers) {
                (KeyCode::Char('q'), Modifiers::Plain) => Action::Quit,
                (KeyCode::Char('j'), Modifiers::Plain) => Action::Move(Command::LineDown),
                (KeyCode::Char('k'), Modifiers::Plain) => Action::Move(Command::LineUp),
                (KeyCode::Char('u'), Modifiers::Control) => Action::Move(Command::HalfPageUp),
                (KeyCode::Char('d'), Modifiers::Control) => Action::Move(Command::HalfPageDown),
                (KeyCode::PageUp, Modifiers::Plain) => Action::Move(Command::PageUp),
                (KeyCode::PageDown, Modifiers::Plain) => Action::Move(Command::PageDown),
                (KeyCode::Char('g'), Modifiers::Plain) => Action::Move(Command::JumpStart),
                (KeyCode::Char('G'), Modifiers::Shift) => Action::Move(Command::JumpEnd),
                (KeyCode::Char('h'), Modifiers::Plain) => Action::ToggleHelp,
                (KeyCode::Char('i'), Modifiers::Plain) => Action::ToggleFileInfo,
                _ => Action::Nothing,
            }
        },
        Event::ScrollDown => Action::Move(Command::LineDown),
        Event::ScrollUp => Action::Move(Command::LineUp),
        Event::Resize(w, h) => Action::Resize(w, h),
        Event::Other => Action::Nothing,
    }
}

impl App {
    /// The state after `action`.
    pub open spec fn applied(self, action: Action) -> App {
        match action {
            Action::Move(cmd) => self.moved(cmd),
            Action::Quit => App { quit: true, ..self },
            Action::ToggleHelp => App { show_help: !self.show_help, ..self },
            Action::ToggleFileInfo => App { show_fileinfo: !self.show_fileinfo, ..self },
            Action::Resize(w, h) => self.resized(w, h),
            Action::Nothing => self,
        }
    }

    /// The state after `event`.
    pub open spec fn after(self, event: Event) -> App {
        self.applied(action_of(event))
    }

    /// The state after the events, in order.
    pub open spec fn after_all(self, events: Seq<Event>) -> App
        decreases events.len(),
    {
        if events.len() == 0 {
            self
        } else {
            self.after(events[0]).after_all(events.drop_first())
        }
    }

    /// Carries out an action.
    pub fn apply(&mut self, action: Action)
        requires
            old(self).wf(),
        ensures
            *final(self) == old(self).applied(action),
            final(self).wf(),
    {
        match action {
            Action::Move(cmd) => self.apply_command(cmd),
            Action::Quit => self.quit = true,
            Action::ToggleHelp => self.show_help = !self.show_help,
            Action::ToggleFileInfo => self.show_fileinfo = !self.show_fileinfo,
            Action::Resize(w, h) => self.update_frame_size(w, h),
            Action::Nothing => {},
        }
    }

    /// Reacts to an input event: navigation, the dialogs, quitting, a new
    /// terminal size.
    pub fn handle_event(&mut self, event: Event)
        requires
            old(self).wf(),
        ensures
            *final(self) == old(self).after(event),
            final(self).wf(),
    {
        let action = action_for(&event);
        self.apply(action);
    }
}

/// Every action keeps the state consistent.
pub proof fn lemma_applied_wf(app: App, action: Action)
    requires
        app.wf(),
    ensures
        app.applied(action).wf(),
{
    match action {
        Action::Move(cmd) => {
            let max = app.max_scroll();
            assert(scroll_after(cmd, app.scroll_pos as nat, max, app.visible_rows()) <= max);
        },
        Action::Resize(w, h) => {
            let a = App { frame_size: (w, h), ..app };
            lemma_bytes_per_row_bound(
                w as int,
                address_pane_width(app.fileinfo.size as nat) as int,
                app.blocksize as int,
            );
            assert(a.layout_bytes_per_row() <= 0xffff);
        },
        _ => {},
    }
}

/// Whatever events come, in whatever order, the state stays consistent: in
/// particular the scroll position lies in `[0, max_scroll]`, with `max_scroll`
/// taken from the current bytes per row.
pub proof fn lemma_events_keep_scroll_in_range(app: App, events: Seq<Event>)
    requires
        app.wf(),
    ensures
        app.after_all(events).wf(),
        app.after_all(events).scroll_pos <= app.after_all(events).max_scroll(),
    decreases events.len(),
{
    if events.len() > 0 {
        lemma_applied_wf(app, action_of(events[0]));
        lemma_events_keep_scroll_in_range(app.after(events[0]), events.drop_first());
    }
}

/// Jumping to the start, then to the end, then to the start again, leaves the
/// state that the first jump to the start gave: scrolled to row zero.
pub proof fn lemma_jump_start_end_start(app: App)
    requires
        app.wf(),
    ensures
        app.moved(Command::JumpStart).moved(Command::JumpEnd).moved(Command::JumpStart)
            == app.moved(Command::JumpStart),
        app.moved(Command::JumpStart).moved(Command::JumpEnd).moved(
            Command::JumpStart,
        ).scroll_pos == 0,
{
}

} // verus!
