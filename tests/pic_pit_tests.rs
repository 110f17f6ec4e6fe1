use rust_os_console::pic::{self, Pics, PortWrite};
use rust_os_console::pit::{self, Pit};

fn w(port: u16, value: u8) -> PortWrite {
    PortWrite { port, value }
}

#[test]
fn eoi_on_secondary_vector_signals_both() {
    let pics = Pics::new();
    for v in [40u8, 41, 47] {
        assert_eq!(pics.end_of_interrupt(v), vec![w(0xA0, 0x20), w(0x20, 0x20)]);
    }
}

#[test]
fn eoi_on_primary_vector_signals_primary_only() {
    let pics = Pics::new();
    for v in [32u8, 33, 39] {
        assert_eq!(pic::end_of_interrupt(&pics, v), vec![w(0x20, 0x20)]);
    }
}

#[test]
fn pic_initialization_sequence() {
    let mut pics = Pics::new();
    let seq = pic::init(&mut pics);
    let wait = w(0x80, 0);
    assert_eq!(
        seq,
        vec![
            w(0x21, 0xFF), w(0xA1, 0xFF),
            w(0x20, 0x11), wait, w(0xA0, 0x11), wait,
            w(0x21, 32), wait, w(0xA1, 40), wait,
            w(0x21, 4), wait, w(0xA1, 2), wait,
            w(0x21, 1), wait, w(0xA1, 1), wait,
            w(0x21, 0xFF), w(0xA1, 0xFF),
        ]
    );
}

#[test]
fn enabling_lines_clears_mask_bits() {
    let mut pics = Pics::new();
    pic::init(&mut pics);
    assert_eq!(pic::enable_keyboard(&mut pics), vec![w(0x21, 0xFD)]);
    assert_eq!(pic::enable_timer(&mut pics), vec![w(0x21, 0xFC)]);
    // a secondary line also opens the cascade line on the primary
    assert_eq!(pics.enable_interrupt(12), vec![w(0xA1, 0xEF), w(0x21, 0xF8)]);
}

#[test]
fn pit_programming() {
    let mut pit = Pit::new();
    assert!(!pit::is_initialized(&pit));
    let seq = pit::init(&mut pit);
    let wait = w(0x80, 0);
    // 1193182 / 100 = 11931 = 0x2E9B
    assert_eq!(seq, vec![w(0x43, 0x34), wait, w(0x40, 0x9B), wait, w(0x40, 0x2E), wait]);
    assert!(pit.is_initialized());
    assert_eq!(pit::get_info(&pit), (100, 10));
    assert_eq!(pit.get_frequency(), 100);
    assert_eq!(pit.get_interval_ms(), 10);
}
