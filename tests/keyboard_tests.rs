use rust_os::command::CommandHandler;
use rust_os::keyboard::{
    handle_backspace, handle_delete, listen_to_keyboard_events, move_cursor_down, move_cursor_end,
    move_cursor_home, move_cursor_left, move_cursor_right, move_cursor_up, scancode_to_ascii,
    shift_symbol, write_at_cursor, KeyDecoder, KeyEvents,
};
use rust_os::manager::ScreenManager;

#[test]
fn ctrl_left_switches_screen_left() {
    let mut d = KeyDecoder::new();
    assert_eq!(d.decode(0x1D), None);
    assert!(d.ctrl_pressed);
    assert_eq!(d.decode(0xE0), None);
    assert_eq!(d.decode(0x4B), Some(KeyEvents::SwitchScreenLeft));
    assert_eq!(d.decode(0xE0), None);
    assert_eq!(d.decode(0x4D), Some(KeyEvents::SwitchScreenRight));
}

#[test]
fn left_arrow_without_ctrl_is_arrow_left() {
    let mut d = KeyDecoder::new();
    assert_eq!(d.decode(0xE0), None);
    assert!(d.wait_for_extended);
    assert_eq!(d.decode(0x4B), Some(KeyEvents::ArrowLeft));
    assert!(!d.wait_for_extended);
}

#[test]
fn shift_press_and_release_toggle_without_events() {
    let mut d = KeyDecoder::new();
    assert_eq!(d.decode(0x2A), None);
    assert!(d.shift_pressed);
    assert_eq!(d.decode(0x1E), Some(KeyEvents::Character(b'A')));
    assert_eq!(d.decode(0x02), Some(KeyEvents::Character(b'!')));
    assert_eq!(d.decode(0xAA), None);
    assert!(!d.shift_pressed);
    assert_eq!(d.decode(0x1E), Some(KeyEvents::Character(b'a')));
}

#[test]
fn releases_and_error_byte_yield_nothing() {
    let mut d = KeyDecoder::new();
    assert_eq!(d.decode(0x9E), None);
    assert_eq!(d.decode(0xFF), None);
    assert_eq!(d.decode(0x3B), None);
    assert_eq!(d, KeyDecoder::new());
}

#[test]
fn plain_keys_decode() {
    let mut d = KeyDecoder::new();
    assert_eq!(d.decode(0x0E), Some(KeyEvents::BackSpace));
    assert_eq!(d.decode(0x1C), Some(KeyEvents::Enter));
    assert_eq!(d.decode(0x39), Some(KeyEvents::Character(b' ')));
    assert_eq!(d.decode(0x23), Some(KeyEvents::Character(b'h')));
    assert_eq!(d.decode(0xE0), None);
    assert_eq!(d.decode(0x53), Some(KeyEvents::Delete));
    assert_eq!(d.decode(0xE0), None);
    assert_eq!(d.decode(0x47), Some(KeyEvents::Home));
    assert_eq!(d.decode(0xE0), None);
    assert_eq!(d.decode(0x4F), Some(KeyEvents::End));
    assert_eq!(d.decode(0xE0), None);
    assert_eq!(d.decode(0x48), Some(KeyEvents::ArrowUp));
    assert_eq!(d.decode(0xE0), None);
    assert_eq!(d.decode(0x50), Some(KeyEvents::ArrowDown));
    assert_eq!(d.decode(0xE0), None);
    assert_eq!(d.decode(0x10), None);
}

#[test]
fn tables_and_reset() {
    assert_eq!(scancode_to_ascii(0x10), b'q');
    assert_eq!(scancode_to_ascii(0x2B), b'\\');
    assert_eq!(scancode_to_ascii(0x53), b'.');
    assert_eq!(scancode_to_ascii(0x7F), 0);
    assert_eq!(shift_symbol(b'`'), b'~');
    assert_eq!(shift_symbol(b'z'), b'Z');
    assert_eq!(shift_symbol(b'/'), b'?');
    assert_eq!(shift_symbol(b'*'), b'*');
    let mut d = KeyDecoder::new();
    d.decode(0x38);
    d.decode(0x36);
    d.decode(0xE0);
    assert!(d.alt_pressed && d.shift_pressed && d.wait_for_extended);
    d.reset();
    assert_eq!(d, KeyDecoder::new());
    assert_eq!(d.handle_scancode(0x4B, true), Some(KeyEvents::ArrowLeft));
}

#[test]
fn active_screen_cursor_moves() {
    let mut m = ScreenManager::new();
    move_cursor_up(&mut m);
    move_cursor_left(&mut m);
    assert_eq!(m.get_cursor_position(), (0, 0));
    move_cursor_down(&mut m);
    move_cursor_right(&mut m);
    assert_eq!(m.get_cursor_position(), (1, 1));
    assert_eq!(m.hardware_cursor(), 81);
    move_cursor_end(&mut m);
    assert_eq!(m.get_cursor_position(), (24, 79));
    move_cursor_down(&mut m);
    move_cursor_right(&mut m);
    assert_eq!(m.get_cursor_position(), (24, 79));
    move_cursor_home(&mut m);
    assert_eq!(m.get_cursor_position(), (0, 0));
}

#[test]
fn raw_edits_on_active_screen() {
    let mut m = ScreenManager::new();
    write_at_cursor(&mut m, b'a');
    write_at_cursor(&mut m, b'b');
    assert_eq!(m.physical_buffer().chars[0][1].ascii_character, b'b');
    handle_backspace(&mut m);
    assert_eq!(m.get_cursor_position(), (0, 1));
    assert_eq!(m.physical_buffer().chars[0][1].ascii_character, b' ');
    move_cursor_left(&mut m);
    handle_delete(&mut m);
    assert_eq!(m.physical_buffer().chars[0][0].ascii_character, b' ');
}

#[test]
fn switch_keys_flip_between_screens() {
    let mut d = KeyDecoder::new();
    let mut h = CommandHandler::new();
    let mut m = ScreenManager::new();
    listen_to_keyboard_events(&mut d, &mut h, &mut m, 0x1D);
    listen_to_keyboard_events(&mut d, &mut h, &mut m, 0xE0);
    listen_to_keyboard_events(&mut d, &mut h, &mut m, 0x4D);
    assert_eq!(m.get_active_screen_id(), 2);
    listen_to_keyboard_events(&mut d, &mut h, &mut m, 0xE0);
    listen_to_keyboard_events(&mut d, &mut h, &mut m, 0x4B);
    assert_eq!(m.get_active_screen_id(), 1);
}

#[test]
fn failed_switch_is_logged() {
    let mut d = KeyDecoder::new();
    let mut h = CommandHandler::new();
    let mut m = ScreenManager::with_screens(1);
    for b in [0x1D, 0xE0, 0x4D] {
        listen_to_keyboard_events(&mut d, &mut h, &mut m, b);
    }
    assert_eq!(m.get_active_screen_id(), 1);
    let row: Vec<u8> = m.get_screen(1).unwrap().buffer.chars[0].iter().map(|c| c.ascii_character).collect();
    assert_eq!(String::from_utf8(row).unwrap().trim_end(), "<2> Fatal error switching the screen");
}
