use rust_os::screen::{Buffer, Screen, ScreenChar, Writer, BUFFER_HEIGHT, BUFFER_WIDTH};

fn row_text(s: &Screen, r: usize) -> String {
    let bytes: Vec<u8> = s.buffer.chars[r].iter().map(|c| c.ascii_character).collect();
    String::from_utf8(bytes).unwrap().trim_end().to_string()
}

#[test]
fn new_screen_is_blank_at_origin() {
    let s = Screen::new(3);
    assert_eq!(s.id, 3);
    assert_eq!((s.row_position(), s.column_position()), (0, 0));
    for r in 0..BUFFER_HEIGHT {
        for c in 0..BUFFER_WIDTH {
            assert_eq!(s.buffer.chars[r][c], ScreenChar { ascii_character: b' ', color_code: 0x0f });
        }
    }
    let b = Buffer::new();
    assert_eq!(b.chars[24][79].ascii_character, b' ');
}

#[test]
fn write_byte_advances_and_newline_resets_column() {
    let mut s = Screen::new(1);
    s.write_byte(b'h');
    s.write_byte(b'i');
    assert_eq!((s.row_position, s.column_position), (0, 2));
    assert_eq!(s.buffer.chars[0][0], ScreenChar { ascii_character: b'h', color_code: 0x0f });
    s.write_byte(b'\n');
    assert_eq!((s.row_position, s.column_position), (1, 0));
    assert_eq!(row_text(&s, 0), "hi");
}

#[test]
fn writer_wraps_at_the_width() {
    let mut s = Screen::new(1);
    {
        let mut w = Writer::new(&mut s);
        for _ in 0..BUFFER_WIDTH {
            w.write_byte(b'x');
        }
        w.write_byte(b'y');
    }
    assert_eq!(s.buffer.chars[0][79].ascii_character, b'x');
    assert_eq!(s.buffer.chars[1][0].ascii_character, b'y');
    assert_eq!((s.row_position, s.column_position), (1, 1));
}

#[test]
fn newline_on_last_row_scrolls_only_at_next_glyph() {
    let mut s = Screen::new(1);
    s.set_cursor_position(24, 0);
    s.write_str("last");
    s.write_byte(b'\n');
    assert_eq!(s.row_position, 25);
    assert_eq!(row_text(&s, 24), "last");
    s.write_byte(b'\n');
    assert_eq!(s.row_position, 26);
    assert_eq!(s.column_position, 0);
    assert_eq!(row_text(&s, 24), "last");
    s.write_byte(b'z');
    assert_eq!(row_text(&s, 23), "last");
    assert_eq!(row_text(&s, 24), "z");
    assert_eq!((s.row_position, s.column_position), (24, 1));
}

#[test]
fn scroll_up_moves_rows_and_blanks_bottom() {
    let mut s = Screen::new(1);
    s.write_str("top\nsecond\n");
    s.set_cursor_position(24, 0);
    s.write_str("bottom");
    Writer::new(&mut s).scroll_up();
    assert_eq!(row_text(&s, 0), "second");
    assert_eq!(row_text(&s, 23), "bottom");
    assert_eq!(row_text(&s, 24), "");
    assert_eq!((s.row_position, s.column_position), (24, 6));
}

#[test]
fn height_plus_one_lines_drop_the_first() {
    let mut s = Screen::new(1);
    for i in 0..=BUFFER_HEIGHT {
        s.write_str(&format!("line {}\n", i));
    }
    for r in 0..BUFFER_HEIGHT {
        assert_eq!(row_text(&s, r), format!("line {}", r + 1));
    }
    for r in 0..BUFFER_HEIGHT {
        assert_ne!(row_text(&s, r), "line 0");
    }
}

#[test]
fn write_byte_at_leaves_cursor() {
    let mut s = Screen::new(1);
    s.write_byte_at(3, 7, b'Q');
    assert_eq!(s.buffer.chars[3][7].ascii_character, b'Q');
    assert_eq!((s.row_position, s.column_position), (0, 0));
}

#[test]
fn clear_blanks_and_homes() {
    let mut s = Screen::new(1);
    s.write_str("abc\ndef");
    s.clear();
    assert_eq!(row_text(&s, 0), "");
    assert_eq!(row_text(&s, 1), "");
    assert_eq!((s.row_position, s.column_position), (0, 0));
}

#[test]
fn setters_and_buffer_access() {
    let mut s = Screen::new(1);
    s.set_row_position(5);
    s.set_column_position(9);
    assert_eq!((s.row_position(), s.column_position()), (5, 9));
    s.buffer_mut().chars[0][0].ascii_character = b'#';
    assert_eq!(s.buffer.chars[0][0].ascii_character, b'#');
    s.write_byte(b'k');
    assert_eq!(s.buffer.chars[5][9].ascii_character, b'k');
}

#[test]
fn writer_write_str_and_full_column_wraps_first() {
    let mut s = Screen::new(1);
    s.set_cursor_position(2, BUFFER_WIDTH);
    Writer::new(&mut s).write_str("ab");
    assert_eq!(row_text(&s, 3), "ab");
    assert_eq!((s.row_position, s.column_position), (3, 2));
}
