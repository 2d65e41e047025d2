use rust_os::manager::ScreenManager;

fn row_text(m: &ScreenManager, id: usize, r: usize) -> String {
    let s = m.get_screen(id).unwrap();
    let bytes: Vec<u8> = s.buffer.chars[r].iter().map(|c| c.ascii_character).collect();
    String::from_utf8(bytes).unwrap().trim_end().to_string()
}

fn physical_row(m: &ScreenManager, r: usize) -> String {
    let bytes: Vec<u8> = m.physical_buffer().chars[r].iter().map(|c| c.ascii_character).collect();
    String::from_utf8(bytes).unwrap().trim_end().to_string()
}

#[test]
fn new_manager_has_two_screens_and_screen_one_active() {
    let m = ScreenManager::new();
    assert_eq!(m.get_active_screen_id(), 1);
    assert_eq!(m.get_screen(1).unwrap().id, 1);
    assert_eq!(m.get_screen(2).unwrap().id, 2);
    assert!(m.get_screen(0).is_none());
    assert!(m.get_screen(3).is_none());
    assert_eq!(m.get_active_screen().id, 1);
    assert_eq!(m.hardware_cursor(), 0);
}

#[test]
fn switch_to_missing_screen_changes_nothing() {
    let mut m = ScreenManager::with_screens(1);
    m.write_to_screen(1, "keep");
    let before_phys = physical_row(&m, 0);
    let before_cursor = m.hardware_cursor();
    assert!(!m.switch_screen(2));
    assert!(!m.switch_screen(0));
    assert!(!m.switch_screen(7));
    assert_eq!(m.get_active_screen_id(), 1);
    assert!(m.get_screen(2).is_none());
    assert_eq!(physical_row(&m, 0), before_phys);
    assert_eq!(m.hardware_cursor(), before_cursor);
    assert_eq!(row_text(&m, 1, 0), "keep");
}

#[test]
fn switch_screen_shows_the_new_screen() {
    let mut m = ScreenManager::new();
    m.write_to_screen(2, "hello\nab");
    assert_eq!(physical_row(&m, 0), "");
    assert!(m.switch_screen(2));
    assert_eq!(m.get_active_screen_id(), 2);
    assert_eq!(physical_row(&m, 0), "hello");
    assert_eq!(physical_row(&m, 1), "ab");
    assert_eq!(m.hardware_cursor(), 80 + 2);
}

#[test]
fn write_to_screen_reports_missing_slot() {
    let mut m = ScreenManager::new();
    assert!(!m.write_to_screen(3, "x"));
    assert!(!m.write_to_screen(0, "x"));
    assert!(m.write_to_screen(1, "abc"));
    assert_eq!(physical_row(&m, 0), "abc");
    assert_eq!(m.hardware_cursor(), 3);
}

#[test]
fn write_to_active_screen_flushes() {
    let mut m = ScreenManager::new();
    m.write_to_active_screen("one\ntwo");
    assert_eq!(physical_row(&m, 1), "two");
    assert_eq!(m.get_cursor_position(), (1, 3));
}

#[test]
fn create_screen_fills_lowest_free_slot() {
    let mut m = ScreenManager::with_screens(1);
    assert_eq!(m.create_screen(), Some(2));
    assert_eq!(m.get_screen(2).unwrap().id, 2);
    assert_eq!(m.create_screen(), None);
    let mut full = ScreenManager::new();
    assert_eq!(full.create_screen(), None);
}

#[test]
fn clear_screen_and_clear_active_screen() {
    let mut m = ScreenManager::new();
    m.write_to_screen(2, "text");
    assert!(m.clear_screen(2));
    assert_eq!(row_text(&m, 2, 0), "");
    assert!(!m.clear_screen(5));
    m.write_to_screen(1, "log");
    m.clear_active_screen();
    assert_eq!(row_text(&m, 1, 0), "");
    assert_eq!(m.get_cursor_position(), (0, 0));
}

#[test]
fn update_cursor_clamps_into_grid() {
    let mut m = ScreenManager::new();
    m.set_cursor_position(25, 80);
    assert_eq!(m.get_cursor_position(), (25, 80));
    assert_eq!(m.hardware_cursor(), (24 * 80 + 79) as u16);
    m.set_cursor_position(2, 5);
    m.update_cursor();
    assert_eq!(m.hardware_cursor(), 165);
}

#[test]
fn flush_copies_active_grid() {
    let mut m = ScreenManager::new();
    m.get_screen_mut(1).unwrap().write_byte(b'Z');
    assert_eq!(physical_row(&m, 0), "");
    m.flush_to_physical();
    assert_eq!(physical_row(&m, 0), "Z");
    m.get_active_screen_mut().write_byte(b'Y');
    m.flush_to_physical();
    assert_eq!(physical_row(&m, 0), "ZY");
    assert!(m.get_screen_mut(9).is_none());
}
