use rust_os::gdt::{gdt_limit, kernel_gdt, SegmentDescriptor};
use rust_os::manager::ScreenManager;
use rust_os::printk::{LogLevel, Logger};

#[test]
fn level_tags() {
    assert_eq!(LogLevel::Emergency.as_str(), "<0> ");
    assert_eq!(LogLevel::Critical.as_str(), "<2> ");
    assert_eq!(LogLevel::Info.as_str(), "<6> ");
    assert_eq!(LogLevel::Debug.as_str(), "<7> ");
    assert_eq!(LogLevel::Default.as_str(), "");
}

#[test]
fn logger_writes_tagged_line_to_screen_one() {
    let mut m = ScreenManager::new();
    Logger::new(LogLevel::Info).write_str(&mut m, "ready\n");
    let row: Vec<u8> = m.physical_buffer().chars[0].iter().map(|c| c.ascii_character).collect();
    assert_eq!(String::from_utf8(row).unwrap().trim_end(), "<6> ready");
    assert_eq!(m.get_cursor_position(), (1, 0));
    let untouched: Vec<u8> = m.get_screen(2).unwrap().buffer.chars[0].iter().map(|c| c.ascii_character).collect();
    assert!(untouched.iter().all(|b| *b == b' '));
}

#[test]
fn flat_code_descriptor_bytes() {
    let d = SegmentDescriptor::new(0, 0xFFFFF, 0x9A);
    assert_eq!(d.to_bytes(), [0xFF, 0xFF, 0x00, 0x00, 0x00, 0x9A, 0xCF, 0x00]);
    let e = SegmentDescriptor::new(0x1234_5678, 0xABCDE, 0x92);
    assert_eq!(e.to_bytes(), [0xDE, 0xBC, 0x78, 0x56, 0x34, 0x92, 0xCA, 0x12]);
    assert_eq!(SegmentDescriptor::null().to_bytes(), [0; 8]);
}

#[test]
fn kernel_table() {
    let t = kernel_gdt();
    assert_eq!(t[0], SegmentDescriptor::null());
    assert_eq!(t[1].access, 0x9A);
    assert_eq!(t[6].access, 0xF6);
    assert_eq!(t[4].to_bytes(), [0xFF, 0xFF, 0, 0, 0, 0xFA, 0xCF, 0]);
    assert_eq!(gdt_limit(), 55);
}
