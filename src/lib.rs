//! Viewport and layout engine of a terminal hex viewer: how many bytes fit on a
//! row, where the scroll position may stand, and the text of the address, hex
//! and ASCII panes.

pub mod app;
pub mod cli;
pub mod display;
pub mod events;
pub mod file;
pub mod movement;
pub mod render;

pub use app::App;
pub use cli::{blocksize_in_range, Args};
pub use display::{
    count_hexdigits, format_address, get_bytes_per_row, line_format_ascii, line_format_hex,
};
pub use events::{Action, Event, KeyCode, Modifiers};
pub use file::FileInfo;
pub use movement::Command;
pub use render::{Panes, Screen};
