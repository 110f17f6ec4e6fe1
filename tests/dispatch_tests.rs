use rust_os_console::console::{Color, FrameGeometry, Writer};
use rust_os_console::dispatch::{apply_console, handle_shell_char, set_text_color, InterruptEvent, Machine};
use rust_os_console::keyboard::KeyboardState;
use rust_os_console::output::ConsoleOp;
use rust_os_console::pic::{Pics, PortWrite};
use rust_os_console::shell::Shell;
use rust_os_console::time::TimeManager;

fn machine() -> Machine {
    let mut clock = TimeManager::new();
    clock.initialize(10);
    Machine { keyboard: KeyboardState::new(), shell: Shell::new(), clock, pics: Pics::new() }
}

fn text(ops: &[ConsoleOp]) -> String {
    let mut s = String::new();
    for op in ops {
        if let ConsoleOp::Text(t) = op {
            s.extend(t.iter());
        }
    }
    s
}

fn key(m: &mut Machine, sc: u8) -> Vec<ConsoleOp> {
    let r = m.handle(InterruptEvent::Keyboard { scancode: sc });
    assert_eq!(r.ports, vec![PortWrite { port: 0x20, value: 0x20 }]);
    r.console
}

#[test]
fn timer_ticks_clock_and_acknowledges() {
    let mut m = machine();
    for _ in 0..3 {
        let r = m.handle(InterruptEvent::Timer);
        assert!(r.console.is_empty());
        assert_eq!(r.ports, vec![PortWrite { port: 0x20, value: 0x20 }]);
    }
    assert_eq!(m.clock.get_uptime_ms(), 30);
}

#[test]
fn breakpoint_reports_without_acknowledgment() {
    let mut m = machine();
    let r = m.handle(InterruptEvent::Breakpoint);
    assert!(r.ports.is_empty());
    assert_eq!(text(&r.console), "EXCEPTION: BREAKPOINT\n");
}

#[test]
fn typed_command_runs_through_the_shell() {
    let mut m = machine();
    // e c h o space h i
    for sc in [0x12u8, 0x2E, 0x23, 0x18, 0x39, 0x23, 0x17] {
        key(&mut m, sc);
    }
    let out = key(&mut m, 0x1C);
    assert_eq!(text(&out), "\nhi\nrust-os> ");
    assert_eq!(m.shell.get_command_count(), 1);
}

#[test]
fn caps_lock_toggles_with_status() {
    let mut m = machine();
    let out = key(&mut m, 0x3A);
    assert_eq!(text(&out), " [CAPS ON] ");
    let out = key(&mut m, 0x1E);
    assert_eq!(out[0], ConsoleOp::Colors { fg: Color::red(), bg: Color::black() });
    assert_eq!(text(&out), "A");
    let out = key(&mut m, 0x3A);
    assert_eq!(text(&out), " [CAPS OFF] ");
    assert_eq!(m.shell.get_buffer_len(), 1);
}

#[test]
fn shifted_characters_echo_in_blue() {
    let mut m = machine();
    assert!(key(&mut m, 0x2A).is_empty());
    let out = key(&mut m, 0x02);
    assert_eq!(out[0], ConsoleOp::Colors { fg: Color::blue(), bg: Color::black() });
    assert_eq!(text(&out), "!");
    key(&mut m, 0xAA);
    let out = key(&mut m, 0x02);
    assert_eq!(out[0], ConsoleOp::Colors { fg: Color::green(), bg: Color::black() });
    assert_eq!(text(&out), "1");
}

#[test]
fn backspace_only_when_line_has_content() {
    let mut m = machine();
    assert!(key(&mut m, 0x0E).is_empty());
    key(&mut m, 0x1E);
    assert_eq!(key(&mut m, 0x0E), vec![ConsoleOp::Backspace]);
    assert_eq!(m.shell.get_buffer_len(), 0);
}

#[test]
fn unmapped_key_shows_scancode_and_release_is_silent() {
    let mut m = machine();
    assert_eq!(text(&key(&mut m, 0x3B)), "[59]");
    assert!(key(&mut m, 0x9E).is_empty());
}

#[test]
fn tab_prints_indent_only() {
    let mut m = machine();
    assert_eq!(text(&key(&mut m, 0x0F)), ">   ");
    assert_eq!(m.shell.get_buffer_len(), 0);
}

#[test]
fn console_ops_reach_the_surface() {
    let g = FrameGeometry { width: 64, height: 48, stride: 64, bytes_per_pixel: 4 };
    let mut surface = vec![0u8; 64 * 48 * 4];
    let mut w = Writer::new(g, vec![0u8; 1024]);
    let mut sh = Shell::new();
    let clock = TimeManager::new();
    let ops = handle_shell_char(&mut sh, '\n', &clock);
    apply_console(&mut w, &mut surface, &ops);
    assert_eq!(w.get_cursor(), (16, 32));
    set_text_color(&mut w, Color::white(), Color::black());
    apply_console(&mut w, &mut surface, &vec![ConsoleOp::Clear]);
    assert_eq!(w.get_cursor(), (0, 0));
}

#[test]
fn console_ops_end_with_last_colors() {
    let g = FrameGeometry { width: 64, height: 48, stride: 64, bytes_per_pixel: 4 };
    let mut surface = vec![0u8; 64 * 48 * 4];
    let mut w = Writer::new(g, vec![0u8; 1024]);
    let ops = vec![
        ConsoleOp::Colors { fg: Color::red(), bg: Color::blue() },
        ConsoleOp::Text(vec!['a', 'b']),
        ConsoleOp::Backspace,
        ConsoleOp::Colors { fg: Color::green(), bg: Color::yellow() },
    ];
    apply_console(&mut w, &mut surface, &ops);
    assert_eq!(w.get_cursor(), (16, 0));
    // the backspaced cell was blanked in the blue background
    assert_eq!(&surface[16 * 4..16 * 4 + 4], &[255, 0, 0, 255]);
    apply_console(&mut w, &mut surface, &vec![ConsoleOp::Clear]);
    assert_eq!(w.get_cursor(), (0, 0));
    assert_eq!(&surface[0..4], &[0, 255, 255, 255]);
}
