use rust_os_console::console::Color;
use rust_os_console::output::ConsoleOp;
use rust_os_console::shell::Shell;
use rust_os_console::time::TimeManager;

fn text(ops: &[ConsoleOp]) -> String {
    let mut s = String::new();
    for op in ops {
        if let ConsoleOp::Text(t) = op {
            s.extend(t.iter());
        }
    }
    s
}

fn type_line(shell: &mut Shell, clock: &TimeManager, line: &str) -> Vec<ConsoleOp> {
    let mut all = Vec::new();
    for ch in line.chars() {
        all.extend(shell.handle_char(ch, clock));
    }
    all
}

fn running_clock(ticks: u64) -> TimeManager {
    let mut c = TimeManager::new();
    c.initialize(10);
    for _ in 0..ticks {
        c.tick();
    }
    c
}

#[test]
fn echo_joins_arguments_with_single_spaces() {
    let clock = running_clock(0);
    let mut sh = Shell::new();
    assert!(type_line(&mut sh, &clock, "echo a b c").is_empty());
    let out = sh.handle_char('\n', &clock);
    assert_eq!(out[0], ConsoleOp::Text(vec!['\n']));
    assert_eq!(out[1], ConsoleOp::Colors { fg: Color::white(), bg: Color::black() });
    assert_eq!(out[2], ConsoleOp::Text("a b c\n".chars().collect()));
    assert_eq!(text(&out), "\na b c\nrust-os> ");
    assert_eq!(sh.get_command_count(), 1);
}

#[test]
fn echo_squeezes_extra_spaces() {
    let clock = running_clock(0);
    let mut sh = Shell::new();
    type_line(&mut sh, &clock, "  echo   a  b   c  ");
    let out = sh.handle_char('\n', &clock);
    assert_eq!(text(&out), "\na b c\nrust-os> ");
}

#[test]
fn empty_line_only_redraws_prompt() {
    let clock = running_clock(0);
    let mut sh = Shell::new();
    let out = sh.handle_char('\n', &clock);
    assert_eq!(sh.get_command_count(), 0);
    assert_eq!(
        out,
        vec![
            ConsoleOp::Text(vec!['\n']),
            ConsoleOp::Colors { fg: Color::green(), bg: Color::black() },
            ConsoleOp::Text("rust-os".chars().collect()),
            ConsoleOp::Colors { fg: Color::white(), bg: Color::black() },
            ConsoleOp::Text("> ".chars().collect()),
        ]
    );
    type_line(&mut sh, &clock, "   ");
    let out = sh.handle_char('\n', &clock);
    assert_eq!(sh.get_command_count(), 0);
    assert_eq!(text(&out), "\nrust-os> ");
}

#[test]
fn full_buffer_drops_character_with_diagnostic() {
    let clock = running_clock(0);
    let mut sh = Shell::new();
    for _ in 0..255 {
        assert!(sh.handle_char('x', &clock).is_empty());
    }
    assert_eq!(sh.get_buffer_len(), 255);
    let out = sh.handle_char('y', &clock);
    assert_eq!(sh.get_buffer_len(), 255);
    assert_eq!(
        out,
        vec![
            ConsoleOp::Colors { fg: Color::red(), bg: Color::black() },
            ConsoleOp::Text(" [BUFFER FULL] ".chars().collect()),
            ConsoleOp::Colors { fg: Color::white(), bg: Color::black() },
        ]
    );
}

#[test]
fn backspace_is_bounded_by_line_start() {
    let clock = running_clock(0);
    let mut sh = Shell::new();
    assert!(!sh.can_backspace());
    sh.handle_char('\x08', &clock);
    assert_eq!(sh.get_buffer_len(), 0);
    type_line(&mut sh, &clock, "ab");
    assert!(sh.can_backspace());
    sh.handle_char('\x08', &clock);
    assert_eq!(sh.get_buffer_len(), 1);
    type_line(&mut sh, &clock, "cho hi");
    // "a" + "cho hi" is not a command
    let out = sh.handle_char('\n', &clock);
    assert!(text(&out).contains("Unknown command: 'acho'\n"));
}

#[test]
fn control_characters_are_ignored() {
    let clock = running_clock(0);
    let mut sh = Shell::new();
    assert!(sh.handle_char('\t', &clock).is_empty());
    assert!(sh.handle_char('\u{7f}', &clock).is_empty());
    assert!(sh.handle_char('\u{e9}', &clock).is_empty());
    assert_eq!(sh.get_buffer_len(), 0);
}

#[test]
fn unknown_verb_names_token_and_hints_help() {
    let clock = running_clock(0);
    let mut sh = Shell::new();
    type_line(&mut sh, &clock, "Help me");
    let out = sh.handle_char('\n', &clock);
    assert_eq!(
        text(&out),
        "\nUnknown command: 'Help'\nType 'help' for available commands.\nrust-os> "
    );
    assert_eq!(sh.get_command_count(), 1);
}

#[test]
fn help_lists_commands() {
    let clock = running_clock(0);
    let mut sh = Shell::new();
    type_line(&mut sh, &clock, "help");
    let t = text(&sh.handle_char('\n', &clock));
    assert!(t.starts_with("\n=== Rust OS Shell Commands ===\n"));
    for verb in ["help", "clear", "version", "echo", "uptime", "sysinfo", "stats"] {
        assert!(t.contains(&format!("\n{}", verb)));
    }
}

#[test]
fn clear_clears_then_prints_banner() {
    let clock = running_clock(0);
    let mut sh = Shell::new();
    type_line(&mut sh, &clock, "clear");
    let out = sh.handle_char('\n', &clock);
    assert_eq!(out[1], ConsoleOp::Clear);
    assert_eq!(
        text(&out),
        "\n=== Rust OS v0.3.0 - Time System ===\nScreen cleared. Type 'help' for commands.\nrust-os> "
    );
}

#[test]
fn version_prints_build_fields() {
    let clock = running_clock(0);
    let mut sh = Shell::new();
    type_line(&mut sh, &clock, "version");
    let t = text(&sh.handle_char('\n', &clock));
    assert!(t.contains("Version:      0.3.0\n"));
    assert!(t.contains("Codename:     \"Temporal\"\n"));
}

#[test]
fn uptime_reports_elapsed_time() {
    // 1 day, 01:02:03.450
    let ms: u64 = 86_400_000 + 3_600_000 + 2 * 60_000 + 3_000 + 450;
    let clock = running_clock(ms / 10);
    let mut sh = Shell::new();
    type_line(&mut sh, &clock, "uptime");
    let t = text(&sh.handle_char('\n', &clock));
    assert!(t.contains("Uptime: 1 days, 01:02:03.450\n"));
    assert!(t.contains(&format!("  Total milliseconds: {}\n", ms)));
    assert!(t.contains(&format!("  Timer ticks:        {}\n", ms / 10)));
    assert!(t.contains("  Average per tick:   10.00 ms\n"));
}

#[test]
fn uptime_without_days_and_without_ticks() {
    let clock = running_clock(0);
    let mut sh = Shell::new();
    type_line(&mut sh, &clock, "uptime");
    let t = text(&sh.handle_char('\n', &clock));
    assert!(t.contains("Uptime: 00:00:00.000\n"));
    assert!(!t.contains("Average per tick"));
}

#[test]
fn uptime_before_clock_starts() {
    let clock = TimeManager::new();
    let mut sh = Shell::new();
    type_line(&mut sh, &clock, "uptime");
    let t = text(&sh.handle_char('\n', &clock));
    assert_eq!(t, "\nTime system not initialized!\nrust-os> ");
}

#[test]
fn sysinfo_shows_uptime_hours_with_days() {
    let clock = running_clock((2 * 86_400_000 + 5 * 60_000 + 7_000) / 10);
    let mut sh = Shell::new();
    type_line(&mut sh, &clock, "sysinfo");
    let t = text(&sh.handle_char('\n', &clock));
    assert!(t.contains("Uptime:           48:05:07\n"));
    assert!(t.contains("Kernel:           Rust OS v0.3.0\n"));
}

#[test]
fn stats_reports_counts_and_rate() {
    // two minutes of uptime
    let clock = running_clock(12_000);
    let mut sh = Shell::new();
    type_line(&mut sh, &clock, "echo x");
    sh.handle_char('\n', &clock);
    type_line(&mut sh, &clock, "stats");
    let t = text(&sh.handle_char('\n', &clock));
    assert!(t.contains("Commands executed:    2\n"));
    assert!(t.contains("Current buffer used:  5 bytes\n"));
    assert!(t.contains("Avg time per command: 60000 ms\n"));
    assert!(t.contains("  Commands per minute: 1\n"));
}

#[test]
fn stats_skips_rate_without_uptime() {
    let clock = running_clock(0);
    let mut sh = Shell::new();
    type_line(&mut sh, &clock, "stats");
    let t = text(&sh.handle_char('\n', &clock));
    assert!(t.contains("Commands executed:    1\n"));
    assert!(!t.contains("Commands per minute"));
    assert!(!t.contains("Avg time per command"));
}

#[test]
fn show_prompt_draws_prompt() {
    let mut sh = Shell::new();
    assert_eq!(text(&sh.show_prompt()), "rust-os> ");
}
