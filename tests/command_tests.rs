use rust_os::command::{init_command_handler, Command, CommandHandler};
use rust_os::keyboard::{listen_to_keyboard_events, KeyDecoder};
use rust_os::manager::ScreenManager;

fn row_text(m: &ScreenManager, id: usize, r: usize) -> String {
    let s = m.get_screen(id).unwrap();
    let bytes: Vec<u8> = s.buffer.chars[r].iter().map(|c| c.ascii_character).collect();
    String::from_utf8(bytes).unwrap().trim_end().to_string()
}

fn line(h: &CommandHandler) -> Vec<u8> {
    h.buffer[..h.get_buffer_len()].to_vec()
}

/// A handler whose prompt sits at the start of screen 2, after "> ".
fn prompted(m: &mut ScreenManager) -> CommandHandler {
    let mut h = CommandHandler::new();
    m.write_to_screen(2, "> ");
    let (row, col) = {
        let s = m.get_screen(2).unwrap();
        (s.row_position, s.column_position)
    };
    h.set_prompt_position(row, col);
    h
}

fn scancode_of(b: u8) -> u8 {
    match b {
        b'h' => 0x23,
        b'e' => 0x12,
        b'l' => 0x26,
        b'p' => 0x19,
        b'x' => 0x2D,
        b'y' => 0x15,
        b'z' => 0x2C,
        b'c' => 0x2E,
        b'o' => 0x18,
        b'b' => 0x30,
        b'a' => 0x1E,
        b'r' => 0x13,
        b't' => 0x14,
        b' ' => 0x39,
        _ => panic!("no scancode"),
    }
}

fn type_line(d: &mut KeyDecoder, h: &mut CommandHandler, m: &mut ScreenManager, text: &str) -> Option<Command> {
    for b in text.bytes() {
        assert_eq!(listen_to_keyboard_events(d, h, m, scancode_of(b)), None);
    }
    listen_to_keyboard_events(d, h, m, 0x1C)
}

#[test]
fn appending_keeps_bytes_in_order() {
    let mut m = ScreenManager::new();
    let mut h = prompted(&mut m);
    for b in b"abc".iter() {
        h.add_char(*b, &mut m);
    }
    assert_eq!(line(&h), b"abc".to_vec());
    assert_eq!(h.cursor, 3);
    assert_eq!(h.get_buffer_len(), 3);
    assert_eq!(row_text(&m, 2, 0), "> abc");
    assert_eq!(h.get_command_str(), "abc");
}

#[test]
fn insert_in_the_middle_redraws_tail() {
    let mut m = ScreenManager::new();
    let mut h = prompted(&mut m);
    h.add_char(b'a', &mut m);
    h.add_char(b'c', &mut m);
    h.move_cursor_left(&mut m);
    h.add_char(b'b', &mut m);
    assert_eq!(line(&h), b"abc".to_vec());
    assert_eq!(h.cursor, 2);
    assert_eq!(row_text(&m, 2, 0), "> abc");
    let s = m.get_screen(2).unwrap();
    assert_eq!((s.row_position, s.column_position), (0, 4));
}

#[test]
fn add_then_backspace_restores_state() {
    let mut m = ScreenManager::new();
    let mut h = prompted(&mut m);
    h.add_char(b'a', &mut m);
    h.add_char(b'b', &mut m);
    h.move_cursor_left(&mut m);
    let before = h.buffer;
    let (len, cur) = (h.buffer_len, h.cursor);
    h.add_char(b'x', &mut m);
    h.backspace(&mut m);
    assert_eq!(h.buffer, before);
    assert_eq!((h.buffer_len, h.cursor), (len, cur));
    assert_eq!(row_text(&m, 2, 0), "> ab");
}

#[test]
fn full_buffer_refuses_more() {
    let mut m = ScreenManager::new();
    let mut h = CommandHandler::new();
    for _ in 0..300 {
        h.add_char(b'k', &mut m);
    }
    assert_eq!(h.get_buffer_len(), 255);
    assert_eq!(h.cursor, 255);
    let before = h.buffer;
    assert!(!h.add_char(b'q', &mut m));
    assert_eq!(h.buffer, before);
    assert_eq!(h.get_buffer_len(), 255);
    assert!(h.cursor <= h.get_buffer_len());
}

#[test]
fn newline_is_refused() {
    let mut m = ScreenManager::new();
    let mut h = prompted(&mut m);
    assert!(!h.add_char(b'\n', &mut m));
    assert!(h.add_char(b'a', &mut m));
    h.backspace(&mut m);
    assert_eq!(h.get_buffer_len(), 0);
    assert_eq!(row_text(&m, 2, 1), "");
}

#[test]
fn delete_and_backspace_edit_the_line() {
    let mut m = ScreenManager::new();
    let mut h = prompted(&mut m);
    for b in b"abcd".iter() {
        h.add_char(*b, &mut m);
    }
    h.move_cursor_home(&mut m);
    h.delete_char(&mut m);
    assert_eq!(line(&h), b"bcd".to_vec());
    assert_eq!(h.cursor, 0);
    assert_eq!(row_text(&m, 2, 0), "> bcd");
    h.move_cursor_end(&mut m);
    h.delete_char(&mut m);
    assert_eq!(line(&h), b"bcd".to_vec());
    h.move_cursor_left(&mut m);
    h.backspace(&mut m);
    assert_eq!(line(&h), b"bd".to_vec());
    assert_eq!(h.cursor, 1);
    assert_eq!(row_text(&m, 2, 0), "> bd");
    let s = m.get_screen(2).unwrap();
    assert_eq!(s.column_position, 3);
    h.move_cursor_home(&mut m);
    h.backspace(&mut m);
    assert_eq!(line(&h), b"bd".to_vec());
    h.move_cursor_right(&mut m);
    assert_eq!(h.cursor, 1);
}

#[test]
fn help_command_prints_usage_and_resets_line() {
    let mut d = KeyDecoder::new();
    let mut m = ScreenManager::new();
    let mut h = prompted(&mut m);
    let r = type_line(&mut d, &mut h, &mut m, "help");
    assert_eq!(r, Some(Command::Help));
    assert_eq!(row_text(&m, 2, 0), "> help");
    assert_eq!(row_text(&m, 2, 1), "Available commands:");
    assert_eq!(row_text(&m, 2, 2), "  help   - Show this help message");
    assert_eq!(row_text(&m, 2, 3), "  clear  - Clear the screen");
    assert_eq!(row_text(&m, 2, 4), "  reboot - Restart the system");
    assert_eq!(row_text(&m, 2, 5), "  halt   - Halt the system (safe to power off)");
    assert_eq!(row_text(&m, 2, 6), "");
    assert_eq!(row_text(&m, 2, 7), ">");
    assert_eq!(h.get_buffer_len(), 0);
    assert_eq!(h.cursor, 0);
    assert!(h.buffer.iter().all(|b| *b == 0));
    assert_eq!((h.prompt_start_row, h.prompt_start_col), (7, 2));
}

#[test]
fn unknown_command_names_the_verb() {
    let mut d = KeyDecoder::new();
    let mut m = ScreenManager::new();
    let mut h = prompted(&mut m);
    let r = type_line(&mut d, &mut h, &mut m, "xyz");
    assert_eq!(r, Some(Command::Unknown));
    assert_eq!(row_text(&m, 2, 1), "unknown command: xyz");
    assert_eq!(row_text(&m, 2, 2), "Type 'help' for available commands.");
    assert_eq!(row_text(&m, 2, 3), ">");
    assert_eq!(h.get_buffer_len(), 0);
    assert_eq!(h.cursor, 0);
    assert_eq!((h.prompt_start_row, h.prompt_start_col), (3, 2));
}

#[test]
fn verb_is_first_word_after_trimming() {
    let mut d = KeyDecoder::new();
    let mut m = ScreenManager::new();
    let mut h = prompted(&mut m);
    let r = type_line(&mut d, &mut h, &mut m, "  help  extra ");
    assert_eq!(r, Some(Command::Help));
    assert_eq!(row_text(&m, 2, 1), "Available commands:");
}

#[test]
fn clear_command_blanks_screen() {
    let mut d = KeyDecoder::new();
    let mut m = ScreenManager::new();
    let mut h = prompted(&mut m);
    let r = type_line(&mut d, &mut h, &mut m, "clear");
    assert_eq!(r, Some(Command::Clear));
    assert_eq!(row_text(&m, 2, 0), ">");
    assert_eq!(row_text(&m, 2, 1), "");
    assert_eq!((h.prompt_start_row, h.prompt_start_col), (0, 2));
}

#[test]
fn reboot_and_halt_write_notice_without_prompt() {
    let mut d = KeyDecoder::new();
    let mut m = ScreenManager::new();
    let mut h = prompted(&mut m);
    assert_eq!(type_line(&mut d, &mut h, &mut m, "reboot"), Some(Command::Reboot));
    assert_eq!(row_text(&m, 2, 1), "Rebooting system...");
    assert_eq!(row_text(&m, 2, 2), "");
    let mut m2 = ScreenManager::new();
    let mut h2 = prompted(&mut m2);
    for b in b"halt".iter() {
        h2.add_char(*b, &mut m2);
    }
    assert_eq!(h2.handle_enter(&mut m2), Some(Command::Halt));
    assert_eq!(row_text(&m2, 2, 1), "System halted. Safe to power off.");
    assert_eq!(row_text(&m2, 2, 2), "");
}

#[test]
fn empty_line_runs_nothing() {
    let mut m = ScreenManager::new();
    let mut h = prompted(&mut m);
    assert_eq!(h.execute_command(&mut m), None);
    assert_eq!(h.handle_enter(&mut m), None);
    assert_eq!(row_text(&m, 2, 1), ">");
}

#[test]
fn invalid_utf8_line_is_an_empty_verb() {
    let mut m = ScreenManager::new();
    let mut h = prompted(&mut m);
    h.add_char(0xFF, &mut m);
    h.add_char(b'h', &mut m);
    assert_eq!(h.get_command_str(), "");
    assert_eq!(h.execute_command(&mut m), Some(Command::Unknown));
    let row0: Vec<u8> = m.get_screen(2).unwrap().buffer.chars[0][4..21].iter().map(|c| c.ascii_character).collect();
    assert_eq!(row0, b"unknown command: ".to_vec());
    assert_eq!(row_text(&m, 2, 1), "Type 'help' for available commands.");
    assert_eq!(h.get_buffer_len(), 0);
}

#[test]
fn welcome_banner_and_anchor() {
    let mut m = ScreenManager::new();
    let h = init_command_handler(&mut m);
    assert_eq!(row_text(&m, 2, 0), "#                             Welcome to the User Terminal                     #");
    assert_eq!(row_text(&m, 2, 1), "");
    assert_eq!(row_text(&m, 2, 2), "");
    assert_eq!(row_text(&m, 2, 3), "Type 'help' for available commands.");
    assert_eq!(row_text(&m, 2, 4), ">");
    assert_eq!((h.prompt_start_row, h.prompt_start_col), (4, 2));
    assert_eq!(h.get_buffer_len(), 0);
}

#[test]
fn editing_user_screen_shows_only_when_active() {
    let mut m = ScreenManager::new();
    let mut h = prompted(&mut m);
    h.add_char(b'a', &mut m);
    assert_eq!(m.physical_buffer().chars[0][2].ascii_character, b' ');
    m.switch_screen(2);
    h.add_char(b'b', &mut m);
    assert_eq!(m.physical_buffer().chars[0][3].ascii_character, b'b');
    assert_eq!(m.hardware_cursor(), 4);
}
