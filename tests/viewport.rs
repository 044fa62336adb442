use hexplore::{Action, App, Command, Event, FileInfo, KeyCode, Modifiers, Screen};

fn info(n: usize) -> FileInfo {
    let content: Vec<u8> = (0..n).map(|i| i as u8).collect();
    FileInfo::new("data.bin".to_string(), content, "data".to_string())
}

fn key(c: char, modifiers: Modifiers) -> Event {
    Event::Key { code: KeyCode::Char(c), modifiers, press: true }
}

#[test]
fn new_derives_layout() {
    let app = App::new(info(100), Some(2), (55, 24));
    assert_eq!(app.bytes_per_row, 10);
    assert_eq!(app.scroll_pos, 0);
    assert_eq!(app.blocksize, 2);
    assert_eq!(app.vertical_margin, 3);
    assert_eq!(app.frame_size, (55, 24));
    assert!(!app.quit && !app.show_help && !app.show_fileinfo);
}

#[test]
fn new_default_blocksize() {
    let app = App::new(info(100), None, (80, 24));
    assert_eq!(app.blocksize, 8);
    // 8 * floor((80 - 6 - 3 + 1) / 33)
    assert_eq!(app.bytes_per_row, 16);
}

#[test]
fn default_app_is_empty() {
    let app = App::default();
    assert_eq!(app.bytes_per_row, 0);
    assert_eq!(app.scroll_pos, 0);
    assert_eq!(app.blocksize, 8);
    assert_eq!(app.fileinfo.size, 0);
}

#[test]
fn resize_clamps_scroll_position() {
    let mut app = App::new(info(100), Some(2), (55, 24));
    assert_eq!(app.bytes_per_row, 10);
    app.jump_end();
    assert_eq!(app.scroll_pos, 9);
    app.update_frame_size(100, 24);
    assert_eq!(app.bytes_per_row, 20);
    assert_eq!(app.scroll_pos, 4);
}

#[test]
fn resize_keeps_position_in_range() {
    let mut app = App::new(info(1000), Some(2), (55, 24));
    app.scroll_pos = 5;
    app.update_frame_size(100, 30);
    assert_eq!(app.scroll_pos, 5);
    assert_eq!(app.frame_size, (100, 30));
}

#[test]
fn resize_too_narrow_resets_to_top() {
    let mut app = App::new(info(1000), Some(2), (55, 24));
    app.jump_end();
    app.update_frame_size(5, 24);
    assert_eq!(app.bytes_per_row, 0);
    assert_eq!(app.scroll_pos, 0);
}

#[test]
fn line_moves_saturate() {
    let mut app = App::new(info(100), Some(2), (55, 24));
    app.move_line_up();
    assert_eq!(app.scroll_pos, 0);
    app.move_line_down();
    assert_eq!(app.scroll_pos, 1);
    app.jump_end();
    app.move_line_down();
    assert_eq!(app.scroll_pos, 9);
}

#[test]
fn page_moves() {
    // 1000 bytes, 10 a row: rows 0..=99; 21 rows on screen
    let mut app = App::new(info(1000), Some(2), (55, 24));
    assert_eq!(app.bytes_per_row, 10);
    app.move_page_down();
    assert_eq!(app.scroll_pos, 21);
    app.move_page_half_down();
    assert_eq!(app.scroll_pos, 31);
    app.move_page_up();
    assert_eq!(app.scroll_pos, 10);
    app.move_page_half_up();
    assert_eq!(app.scroll_pos, 0);
    app.move_page_up();
    assert_eq!(app.scroll_pos, 0);
    app.move_page_half_up();
    assert_eq!(app.scroll_pos, 0);
}

#[test]
fn page_down_stops_before_passing_the_end() {
    let mut app = App::new(info(1000), Some(2), (55, 24));
    app.scroll_pos = 80;
    app.move_page_down();
    assert_eq!(app.scroll_pos, 80);
    app.move_page_half_down();
    assert_eq!(app.scroll_pos, 90);
    app.move_page_half_down();
    assert_eq!(app.scroll_pos, 90);
}

#[test]
fn page_down_on_short_file_is_no_op() {
    let mut app = App::new(info(100), Some(2), (55, 24));
    app.move_page_down();
    assert_eq!(app.scroll_pos, 0);
}

#[test]
fn jump_end_on_partial_last_row() {
    // 95 bytes, 10 a row: the last row, row 9, holds 5 bytes
    let mut app = App::new(info(95), Some(2), (55, 24));
    app.jump_end();
    assert_eq!(app.scroll_pos, 9);
}

#[test]
fn jump_start_end_start_lands_at_zero() {
    let mut app = App::new(info(1000), Some(2), (55, 24));
    app.scroll_pos = 42;
    app.jump_start();
    let once = app.scroll_pos;
    app.jump_end();
    assert_eq!(app.scroll_pos, 99);
    app.jump_start();
    assert_eq!(app.scroll_pos, 0);
    assert_eq!(app.scroll_pos, once);
}

#[test]
fn apply_command_matches_methods() {
    let mut a = App::new(info(1000), Some(2), (55, 24));
    let mut b = App::new(info(1000), Some(2), (55, 24));
    for cmd in [
        Command::PageDown,
        Command::LineDown,
        Command::HalfPageDown,
        Command::LineUp,
        Command::JumpEnd,
        Command::PageUp,
        Command::HalfPageUp,
        Command::JumpStart,
    ] {
        a.apply_command(cmd);
        match cmd {
            Command::LineDown => b.move_line_down(),
            Command::LineUp => b.move_line_up(),
            Command::PageDown => b.move_page_down(),
            Command::PageUp => b.move_page_up(),
            Command::HalfPageDown => b.move_page_half_down(),
            Command::HalfPageUp => b.move_page_half_up(),
            Command::JumpStart => b.jump_start(),
            Command::JumpEnd => b.jump_end(),
        }
        assert_eq!(a.scroll_pos, b.scroll_pos);
    }
}

#[test]
fn navigation_sequence_stays_in_range() {
    let mut app = App::new(info(1000), Some(2), (55, 24));
    let events = [
        key('G', Modifiers::Shift),
        Event::Resize(100, 24),
        key('j', Modifiers::Plain),
        Event::ScrollDown,
        Event::Resize(55, 10),
        key('d', Modifiers::Control),
        Event::Key { code: KeyCode::PageDown, modifiers: Modifiers::Plain, press: true },
        Event::Resize(200, 50),
        key('k', Modifiers::Plain),
        Event::ScrollUp,
        key('u', Modifiers::Control),
        Event::Key { code: KeyCode::PageUp, modifiers: Modifiers::Plain, press: true },
    ];
    for e in events {
        app.handle_event(e);
        let max = if app.bytes_per_row == 0 { 0 } else { (app.fileinfo.size - 1) / app.bytes_per_row };
        assert!(app.scroll_pos <= max);
    }
}

#[test]
fn key_map() {
    let mut app = App::new(info(1000), Some(2), (55, 24));
    app.handle_event(key('j', Modifiers::Plain));
    assert_eq!(app.scroll_pos, 1);
    app.handle_event(Event::ScrollDown);
    assert_eq!(app.scroll_pos, 2);
    app.handle_event(key('k', Modifiers::Plain));
    assert_eq!(app.scroll_pos, 1);
    app.handle_event(Event::ScrollUp);
    assert_eq!(app.scroll_pos, 0);
    app.handle_event(Event::Key { code: KeyCode::PageDown, modifiers: Modifiers::Plain, press: true });
    assert_eq!(app.scroll_pos, 21);
    app.handle_event(key('u', Modifiers::Control));
    assert_eq!(app.scroll_pos, 11);
    app.handle_event(key('d', Modifiers::Control));
    assert_eq!(app.scroll_pos, 21);
    app.handle_event(Event::Key { code: KeyCode::PageUp, modifiers: Modifiers::Plain, press: true });
    assert_eq!(app.scroll_pos, 0);
    app.handle_event(key('G', Modifiers::Shift));
    assert_eq!(app.scroll_pos, 99);
    app.handle_event(key('g', Modifiers::Plain));
    assert_eq!(app.scroll_pos, 0);
    app.handle_event(key('h', Modifiers::Plain));
    assert!(app.show_help);
    app.handle_event(key('h', Modifiers::Plain));
    assert!(!app.show_help);
    app.handle_event(key('i', Modifiers::Plain));
    assert!(app.show_fileinfo);
    assert!(!app.quit);
    app.handle_event(key('q', Modifiers::Plain));
    assert!(app.quit);
}

#[test]
fn keys_need_their_modifiers() {
    let mut app = App::new(info(1000), Some(2), (55, 24));
    app.handle_event(key('d', Modifiers::Plain));
    app.handle_event(key('G', Modifiers::Plain));
    app.handle_event(key('j', Modifiers::Control));
    app.handle_event(Event::Key { code: KeyCode::Char('j'), modifiers: Modifiers::Plain, press: false });
    app.handle_event(key('x', Modifiers::Plain));
    app.handle_event(Event::Other);
    app.handle_event(Event::Key { code: KeyCode::Other, modifiers: Modifiers::Plain, press: true });
    assert_eq!(app.scroll_pos, 0);
    assert!(!app.quit);
}

#[test]
fn resize_event() {
    let mut app = App::new(info(100), Some(2), (55, 24));
    app.handle_event(key('G', Modifiers::Shift));
    app.handle_event(Event::Resize(100, 24));
    assert_eq!(app.frame_size, (100, 24));
    assert_eq!(app.bytes_per_row, 20);
    assert_eq!(app.scroll_pos, 4);
}

#[test]
fn apply_actions() {
    let mut app = App::new(info(100), Some(2), (55, 24));
    app.apply(Action::ToggleFileInfo);
    assert!(app.show_fileinfo);
    app.apply(Action::Nothing);
    assert!(app.show_fileinfo);
    app.apply(Action::Resize(100, 24));
    assert_eq!(app.bytes_per_row, 20);
}

#[test]
fn empty_file_navigation_is_no_op() {
    let mut app = App::new(info(0), None, (80, 24));
    assert_eq!(app.bytes_per_row, 16);
    for cmd in [
        Command::LineDown,
        Command::LineUp,
        Command::PageDown,
        Command::PageUp,
        Command::HalfPageDown,
        Command::HalfPageUp,
        Command::JumpStart,
        Command::JumpEnd,
    ] {
        app.apply_command(cmd);
        assert_eq!(app.scroll_pos, 0);
    }
}

#[test]
fn empty_file_renders_nothing() {
    let app = App::new(info(0), None, (80, 24));
    assert!(app.get_address_to_lines(0, 21).is_empty());
    assert!(app.get_hexdump(0, 21).is_empty());
    assert!(app.get_asciidump(0, 21).is_empty());
    match app.screen() {
        Screen::Panes(p) => {
            assert_eq!(p.row_count, 0);
            assert_eq!(p.start_row, 0);
            assert_eq!(p.end_row, 0);
            assert!(p.address.is_empty() && p.hex.is_empty() && p.ascii.is_empty());
        }
        Screen::TooNarrow => panic!("80 columns are wide enough"),
    }
}

#[test]
fn dumps_of_first_and_last_rows() {
    let app = App::new(info(100), Some(2), (55, 24));
    let hex = app.get_hexdump(0, 21);
    let ascii = app.get_asciidump(0, 21);
    let address = app.get_address_to_lines(0, 21);
    assert_eq!(hex.len(), 10);
    assert_eq!(ascii.len(), 10);
    assert_eq!(address.len(), 10);
    assert_eq!(hex[0], "00 01  02 03  04 05  06 07  08 09");
    assert_eq!(ascii[0], "..........");
    assert_eq!(address[0], "00");
    assert_eq!(hex[9], "5A 5B  5C 5D  5E 5F  60 61  62 63");
    assert_eq!(ascii[9], "Z[\\]^_`abc");
    assert_eq!(address[9], "5a");
}

#[test]
fn dumps_of_short_last_row() {
    let app = App::new(info(25), Some(2), (55, 24));
    assert_eq!(app.bytes_per_row, 10);
    let hex = app.get_hexdump(2, 5);
    assert_eq!(hex, vec!["14 15  16 17  18".to_string()]);
    assert_eq!(app.get_asciidump(2, 5), vec![".....".to_string()]);
    assert_eq!(app.get_address_to_lines(2, 5), vec!["14".to_string()]);
}

#[test]
fn dumps_of_empty_range() {
    let app = App::new(info(100), Some(2), (55, 24));
    assert!(app.get_hexdump(5, 5).is_empty());
    assert!(app.get_hexdump(7, 3).is_empty());
    assert!(app.get_asciidump(20, 30).is_empty());
    assert!(app.get_address_to_lines(20, 30).is_empty());
}

#[test]
fn screen_panes() {
    let mut app = App::new(info(100), Some(2), (55, 24));
    app.move_line_down();
    match app.screen() {
        Screen::Panes(p) => {
            assert_eq!(p.address_width, 6);
            assert_eq!(p.ascii_width, 11);
            assert_eq!(p.start_row, 1);
            assert_eq!(p.end_row, 10);
            assert_eq!(p.row_count, 10);
            assert_eq!(p.address.len(), 9);
            assert_eq!(p.address[0], "0a");
            assert_eq!(p.hex[0], "0A 0B  0C 0D  0E 0F  10 11  12 13");
            assert_eq!(p.ascii[8], "Z[\\]^_`abc");
        }
        Screen::TooNarrow => panic!("55 columns are wide enough"),
    }
}

#[test]
fn screen_stops_at_bottom_of_terminal() {
    let mut app = App::new(info(1000), Some(2), (55, 24));
    app.move_line_down();
    match app.screen() {
        Screen::Panes(p) => {
            assert_eq!(p.start_row, 1);
            assert_eq!(p.end_row, 22);
            assert_eq!(p.hex.len(), 21);
            assert_eq!(p.address[0], "00a");
        }
        Screen::TooNarrow => panic!("55 columns are wide enough"),
    }
}

#[test]
fn screen_too_narrow() {
    // the footer alone needs 50 columns
    let app = App::new(info(100), Some(2), (49, 24));
    assert!(matches!(app.screen(), Screen::TooNarrow));
    let app = App::new(info(100), Some(2), (50, 24));
    assert!(matches!(app.screen(), Screen::Panes(_)));
}

#[test]
fn screen_too_narrow_for_body() {
    // blocksize 1 and a 5-digit address: the body needs 24 + 8 - 1 + 8 + 3 + 4 + 5 = 51 columns
    let app = App::new(info(65536), Some(1), (50, 24));
    assert!(matches!(app.screen(), Screen::TooNarrow));
    let app = App::new(info(65536), Some(1), (51, 24));
    assert_eq!(app.bytes_per_row, 8);
    assert!(matches!(app.screen(), Screen::Panes(_)));
}

#[test]
fn screen_with_no_room_for_rows() {
    let app = App::new(info(100), Some(2), (55, 2));
    match app.screen() {
        Screen::Panes(p) => {
            assert_eq!(p.start_row, 0);
            assert_eq!(p.end_row, 0);
            assert!(p.hex.is_empty());
        }
        Screen::TooNarrow => panic!("55 columns are wide enough"),
    }
}
