use vstd::prelude::*;
use crate::console::Color;
use crate::output::{
    ConsoleOp, OpView, ops_view, dec, pad2, pad3, push_str, push_decimal, push_pad2, push_pad3,
    say, say_chars, set_colors, chars_of,
};
use crate::time::{TimeManager, breakdown};

verus! {

/// Bytes of the input buffer; one is kept free, so a line holds one less.
pub const INPUT_BUFFER_SIZE: usize = 256;

/// Whether `c` is stored in the input line: printable ASCII.
pub open spec fn printable(c: char) -> bool {
    ' ' <= c <= '~'
}

/// The whitespace-separated words of `s`, in order.
pub open spec fn tokens(s: Seq<char>) -> Seq<Seq<char>>
    decreases s.len(),
{
    if s.len() == 0 {
        Seq::empty()
    } else {
        let t = tokens(s.drop_last());
        let c = s.last();
        if c == ' ' {
            t
        } else if s.len() >= 2 && s[s.len() - 2] != ' ' && t.len() > 0 {
            t.update(t.len() - 1, t.last().push(c))
        } else {
            t.push(seq![c])
        }
    }
}

/// Words joined with single spaces.
pub open spec fn join(ws: Seq<Seq<char>>) -> Seq<char>
    decreases ws.len(),
{
    if ws.len() == 0 {
        Seq::empty()
    } else if ws.len() == 1 {
        ws[0]
    } else {
        join(ws.drop_last()) + seq![' '] + ws.last()
    }
}

/// A counter step that stops at the largest value.
pub open spec fn bump(c: u64) -> u64 {
    if c < u64::MAX { (c + 1) as u64 } else { c }
}

pub open spec fn words_view(v: Seq<Vec<char>>) -> Seq<Seq<char>> {
    v.map_values(|w: Vec<char>| w@)
}

/// What `help` prints: the command list, examples and tips.
pub open spec fn help_output() -> Seq<OpView> {
    seq![
        OpView::Colors(Color { r: 0, g: 255, b: 255 }, Color { r: 0, g: 0, b: 0 }),
        OpView::Text("=== Rust OS Shell Commands ===\n"@),
        OpView::Colors(Color { r: 255, g: 255, b: 255 }, Color { r: 0, g: 0, b: 0 }),
        OpView::Text("help              - Show this help message\n"@),
        OpView::Text("clear             - Clear the screen\n"@),
        OpView::Text("version           - Show OS version information\n"@),
        OpView::Text("echo <message>    - Display a message\n"@),
        OpView::Text("uptime            - Show system runtime\n"@),
        OpView::Text("sysinfo           - Show system information\n"@),
        OpView::Text("stats             - Show shell statistics\n"@),
        OpView::Text("\n"@),
        OpView::Colors(Color { r: 255, g: 255, b: 0 }, Color { r: 0, g: 0, b: 0 }),
        OpView::Text("Examples:\n"@),
        OpView::Text("  echo Hello from Rust OS!\n"@),
        OpView::Text("  uptime\n"@),
        OpView::Text("  sysinfo\n"@),
        OpView::Text("  stats\n"@),
        OpView::Text("\n"@),
        OpView::Text("Tips:\n"@),
        OpView::Text("- Use Shift/Caps Lock for uppercase\n"@),
        OpView::Text("- Use Backspace to edit your input\n"@),
        OpView::Text("- Use Tab for indentation\n"@),
        OpView::Text("- All commands are case-sensitive\n"@),
        OpView::Colors(Color { r: 255, g: 255, b: 255 }, Color { r: 0, g: 0, b: 0 }),
    ]
}

fn emit_help_output(ops: &mut Vec<ConsoleOp>)
    ensures
        ops_view(final(ops)@) == ops_view(old(ops)@) + help_output(),
{
    set_colors(ops, Color::cyan(), Color::black());
    say(ops, "=== Rust OS Shell Commands ===\n");
    set_colors(ops, Color::white(), Color::black());
    say(ops, "help              - Show this help message\n");
    say(ops, "clear             - Clear the screen\n");
    say(ops, "version           - Show OS version information\n");
    say(ops, "echo <message>    - Display a message\n");
    say(ops, "uptime            - Show system runtime\n");
    say(ops, "sysinfo           - Show system information\n");
    say(ops, "stats             - Show shell statistics\n");
    say(ops, "\n");
    set_colors(ops, Color::yellow(), Color::black());
    say(ops, "Examples:\n");
    say(ops, "  echo Hello from Rust OS!\n");
    say(ops, "  uptime\n");
    say(ops, "  sysinfo\n");
    say(ops, "  stats\n");
    say(ops, "\n");
    say(ops, "Tips:\n");
    say(ops, "- Use Shift/Caps Lock for uppercase\n");
    say(ops, "- Use Backspace to edit your input\n");
    say(ops, "- Use Tab for indentation\n");
    say(ops, "- All commands are case-sensitive\n");
    set_colors(ops, Color::white(), Color::black());
    assert(ops_view(ops@) =~= ops_view(old(ops)@) + help_output());
}

/// What `version` prints: build fields and the feature list.
pub open spec fn version_output() -> Seq<OpView> {
    seq![
        OpView::Colors(Color { r: 0, g: 255, b: 255 }, Color { r: 0, g: 0, b: 0 }),
        OpView::Text("=== Rust OS Version Information ===\n"@),
        OpView::Colors(Color { r: 255, g: 255, b: 255 }, Color { r: 0, g: 0, b: 0 }),
        OpView::Text("OS Name:      Rust OS\n"@),
        OpView::Text("Version:      0.3.0\n"@),
        OpView::Text("Codename:     \"Temporal\"\n"@),
        OpView::Text("Architecture: x86_64\n"@),
        OpView::Text("Build:        Debug\n"@),
        OpView::Text("Compiler:     rustc (nightly)\n"@),
        OpView::Text("\n"@),
        OpView::Colors(Color { r: 0, g: 255, b: 0 }, Color { r: 0, g: 0, b: 0 }),
        OpView::Text("Core Features:\n"@),
        OpView::Colors(Color { r: 255, g: 255, b: 255 }, Color { r: 0, g: 0, b: 0 }),
        OpView::Text("✓ Graphical framebuffer output\n"@),
        OpView::Text("✓ 8259 PIC interrupt controller\n"@),
        OpView::Text("✓ PS/2 keyboard driver with full layout\n"@),
        OpView::Text("✓ Interactive shell with command parsing\n"@),
        OpView::Text("✓ PIT 8253 timer driver (100 Hz precision)\n"@),
        OpView::Text("✓ Real-time system clock and uptime tracking\n"@),
        OpView::Text("✓ Memory-safe kernel (no_std Rust)\n"@),
    ]
}

fn emit_version_output(ops: &mut Vec<ConsoleOp>)
    ensures
        ops_view(final(ops)@) == ops_view(old(ops)@) + version_output(),
{
    set_colors(ops, Color::cyan(), Color::black());
    say(ops, "=== Rust OS Version Information ===\n");
    set_colors(ops, Color::white(), Color::black());
    say(ops, "OS Name:      Rust OS\n");
    say(ops, "Version:      0.3.0\n");
    say(ops, "Codename:     \"Temporal\"\n");
    say(ops, "Architecture: x86_64\n");
    say(ops, "Build:        Debug\n");
    say(ops, "Compiler:     rustc (nightly)\n");
    say(ops, "\n");
    set_colors(ops, Color::green(), Color::black());
    say(ops, "Core Features:\n");
    set_colors(ops, Color::white(), Color::black());
    say(ops, "✓ Graphical framebuffer output\n");
    say(ops, "✓ 8259 PIC interrupt controller\n");
    say(ops, "✓ PS/2 keyboard driver with full layout\n");
    say(ops, "✓ Interactive shell with command parsing\n");
    say(ops, "✓ PIT 8253 timer driver (100 Hz precision)\n");
    say(ops, "✓ Real-time system clock and uptime tracking\n");
    say(ops, "✓ Memory-safe kernel (no_std Rust)\n");
    assert(ops_view(ops@) =~= ops_view(old(ops)@) + version_output());
}

/// The fixed opening of what `sysinfo` prints.
pub open spec fn sysinfo_head() -> Seq<OpView> {
    seq![
        OpView::Colors(Color { r: 0, g: 255, b: 255 }, Color { r: 0, g: 0, b: 0 }),
        OpView::Text("=== System Information ===\n"@),
        OpView::Colors(Color { r: 255, g: 255, b: 255 }, Color { r: 0, g: 0, b: 0 }),
        OpView::Text("Kernel:           Rust OS v0.3.0\n"@),
        OpView::Text("Architecture:     x86_64\n"@),
        OpView::Text("Boot Protocol:    UEFI/BIOS (bootloader 0.11)\n"@),
    ]
}

fn emit_sysinfo_head(ops: &mut Vec<ConsoleOp>)
    ensures
        ops_view(final(ops)@) == ops_view(old(ops)@) + sysinfo_head(),
{
    set_colors(ops, Color::cyan(), Color::black());
    say(ops, "=== System Information ===\n");
    set_colors(ops, Color::white(), Color::black());
    say(ops, "Kernel:           Rust OS v0.3.0\n");
    say(ops, "Architecture:     x86_64\n");
    say(ops, "Boot Protocol:    UEFI/BIOS (bootloader 0.11)\n");
    assert(ops_view(ops@) =~= ops_view(old(ops)@) + sysinfo_head());
}

/// The fixed close of what `sysinfo` prints: hardware and memory summary.
pub open spec fn sysinfo_tail() -> Seq<OpView> {
    seq![
        OpView::Text("\n"@),
        OpView::Colors(Color { r: 255, g: 255, b: 0 }, Color { r: 0, g: 0, b: 0 }),
        OpView::Text("Hardware:\n"@),
        OpView::Colors(Color { r: 255, g: 255, b: 255 }, Color { r: 0, g: 0, b: 0 }),
        OpView::Text("  CPU:            x86_64 compatible\n"@),
        OpView::Text("  Timer:          Intel 8253 PIT @ 100 Hz\n"@),
        OpView::Text("  Interrupt:      Intel 8259 PIC\n"@),
        OpView::Text("  Keyboard:       PS/2 compatible\n"@),
        OpView::Text("  Display:        Framebuffer graphics\n"@),
        OpView::Text("\n"@),
        OpView::Colors(Color { r: 255, g: 255, b: 0 }, Color { r: 0, g: 0, b: 0 }),
        OpView::Text("Memory:\n"@),
        OpView::Colors(Color { r: 255, g: 255, b: 255 }, Color { r: 0, g: 0, b: 0 }),
        OpView::Text("  Kernel size:    ~60 KB\n"@),
        OpView::Text("  Runtime usage:  < 1 MB\n"@),
        OpView::Text("  Memory model:   Static allocation\n"@),
        OpView::Text("\n"@),
        OpView::Colors(Color { r: 0, g: 255, b: 0 }, Color { r: 0, g: 0, b: 0 }),
        OpView::Text("✓ All systems operational\n"@),
        OpView::Colors(Color { r: 255, g: 255, b: 255 }, Color { r: 0, g: 0, b: 0 }),
    ]
}

fn emit_sysinfo_tail(ops: &mut Vec<ConsoleOp>)
    ensures
        ops_view(final(ops)@) == ops_view(old(ops)@) + sysinfo_tail(),
{
    say(ops, "\n");
    set_colors(ops, Color::yellow(), Color::black());
    say(ops, "Hardware:\n");
    set_colors(ops, Color::white(), Color::black());
    say(ops, "  CPU:            x86_64 compatible\n");
    say(ops, "  Timer:          Intel 8253 PIT @ 100 Hz\n");
    say(ops, "  Interrupt:      Intel 8259 PIC\n");
    say(ops, "  Keyboard:       PS/2 compatible\n");
    say(ops, "  Display:        Framebuffer graphics\n");
    say(ops, "\n");
    set_colors(ops, Color::yellow(), Color::black());
    say(ops, "Memory:\n");
    set_colors(ops, Color::white(), Color::black());
    say(ops, "  Kernel size:    ~60 KB\n");
    say(ops, "  Runtime usage:  < 1 MB\n");
    say(ops, "  Memory model:   Static allocation\n");
    say(ops, "\n");
    set_colors(ops, Color::green(), Color::black());
    say(ops, "✓ All systems operational\n");
    set_colors(ops, Color::white(), Color::black());
    assert(ops_view(ops@) =~= ops_view(old(ops)@) + sysinfo_tail());
}

/// The banner `clear` prints on the cleared screen.
pub open spec fn clear_banner() -> Seq<OpView> {
    seq![
        OpView::Colors(Color { r: 0, g: 255, b: 255 }, Color { r: 0, g: 0, b: 0 }),
        OpView::Text("=== Rust OS v0.3.0 - Time System ===\n"@),
        OpView::Colors(Color { r: 255, g: 255, b: 255 }, Color { r: 0, g: 0, b: 0 }),
        OpView::Text("Screen cleared. Type 'help' for commands.\n"@),
    ]
}

fn emit_clear_banner(ops: &mut Vec<ConsoleOp>)
    ensures
        ops_view(final(ops)@) == ops_view(old(ops)@) + clear_banner(),
{
    set_colors(ops, Color::cyan(), Color::black());
    say(ops, "=== Rust OS v0.3.0 - Time System ===\n");
    set_colors(ops, Color::white(), Color::black());
    say(ops, "Screen cleared. Type 'help' for commands.\n");
    assert(ops_view(ops@) =~= ops_view(old(ops)@) + clear_banner());
}

/// The prompt: `rust-os` in green, then `> ` in white.
pub open spec fn prompt_output() -> Seq<OpView> {
    seq![
        OpView::Colors(Color { r: 0, g: 255, b: 0 }, Color { r: 0, g: 0, b: 0 }),
        OpView::Text("rust-os"@),
        OpView::Colors(Color { r: 255, g: 255, b: 255 }, Color { r: 0, g: 0, b: 0 }),
        OpView::Text("> "@),
    ]
}

fn emit_prompt_output(ops: &mut Vec<ConsoleOp>)
    ensures
        ops_view(final(ops)@) == ops_view(old(ops)@) + prompt_output(),
{
    set_colors(ops, Color::green(), Color::black());
    say(ops, "rust-os");
    set_colors(ops, Color::white(), Color::black());
    say(ops, "> ");
    assert(ops_view(ops@) =~= ops_view(old(ops)@) + prompt_output());
}

/// The diagnostic shown when a character does not fit in the input line.
pub open spec fn buffer_full_output() -> Seq<OpView> {
    seq![
        OpView::Colors(Color { r: 255, g: 0, b: 0 }, Color { r: 0, g: 0, b: 0 }),
        OpView::Text(" [BUFFER FULL] "@),
        OpView::Colors(Color { r: 255, g: 255, b: 255 }, Color { r: 0, g: 0, b: 0 }),
    ]
}

fn emit_buffer_full_output(ops: &mut Vec<ConsoleOp>)
    ensures
        ops_view(final(ops)@) == ops_view(old(ops)@) + buffer_full_output(),
{
    set_colors(ops, Color::red(), Color::black());
    say(ops, " [BUFFER FULL] ");
    set_colors(ops, Color::white(), Color::black());
    assert(ops_view(ops@) =~= ops_view(old(ops)@) + buffer_full_output());
}

/// What `uptime` prints when the clock is not running.
pub open spec fn not_initialized_output() -> Seq<OpView> {
    seq![
        OpView::Colors(Color { r: 255, g: 0, b: 0 }, Color { r: 0, g: 0, b: 0 }),
        OpView::Text("Time system not initialized!\n"@),
        OpView::Colors(Color { r: 255, g: 255, b: 255 }, Color { r: 0, g: 0, b: 0 }),
    ]
}

fn emit_not_initialized_output(ops: &mut Vec<ConsoleOp>)
    ensures
        ops_view(final(ops)@) == ops_view(old(ops)@) + not_initialized_output(),
{
    set_colors(ops, Color::red(), Color::black());
    say(ops, "Time system not initialized!\n");
    set_colors(ops, Color::white(), Color::black());
    assert(ops_view(ops@) =~= ops_view(old(ops)@) + not_initialized_output());
}

/// What `echo` prints: its arguments joined by single spaces, then a newline.
pub open spec fn echo_output(args: Seq<Seq<char>>) -> Seq<OpView> {
    seq![
        OpView::Colors(Color { r: 255, g: 255, b: 255 }, Color { r: 0, g: 0, b: 0 }),
        OpView::Text(join(args) + seq!['\n']),
    ]
}

/// What an unknown verb prints.
pub open spec fn unknown_output(verb: Seq<char>) -> Seq<OpView> {
    seq![
        OpView::Colors(Color { r: 255, g: 0, b: 0 }, Color { r: 0, g: 0, b: 0 }),
        OpView::Text("Unknown command: '"@ + verb + "'\n"@),
        OpView::Colors(Color { r: 255, g: 255, b: 0 }, Color { r: 0, g: 0, b: 0 }),
        OpView::Text("Type 'help' for available commands.\n"@),
        OpView::Colors(Color { r: 255, g: 255, b: 255 }, Color { r: 0, g: 0, b: 0 }),
    ]
}

/// What `clear` does: clear the screen, then print the banner.
pub open spec fn clear_output() -> Seq<OpView> {
    seq![OpView::Clear] + clear_banner()
}

/// The line `uptime` prints for `total_ms` elapsed milliseconds.
pub open spec fn uptime_line(total_ms: u64) -> Seq<char> {
    let u = breakdown(total_ms);
    let clock = pad2(u.hours as nat) + seq![':'] + pad2(u.minutes as nat) + seq![':']
        + pad2(u.seconds as nat) + seq!['.'] + pad3(u.milliseconds as nat) + seq!['\n'];
    if u.days > 0 {
        "Uptime: "@ + dec(u.days as nat) + " days, "@ + clock
    } else {
        "Uptime: "@ + clock
    }
}

/// Average milliseconds per tick with two decimals (truncated).
pub open spec fn average_line(total_ms: u64, ticks: u64) -> Seq<char> {
    let h = (total_ms as nat * 100) / (ticks as nat);
    "  Average per tick:   "@ + dec(h / 100) + seq!['.'] + pad2(h % 100) + " ms\n"@
}

/// What `uptime` prints on a running clock.
pub open spec fn uptime_output(total_ms: u64, ticks: u64) -> Seq<OpView> {
    let body = seq![
        OpView::Colors(Color { r: 0, g: 255, b: 255 }, Color { r: 0, g: 0, b: 0 }),
        OpView::Text("=== System Uptime ===\n"@),
        OpView::Colors(Color { r: 255, g: 255, b: 255 }, Color { r: 0, g: 0, b: 0 }),
        OpView::Text(uptime_line(total_ms)),
        OpView::Text("\n"@),
        OpView::Colors(Color { r: 255, g: 255, b: 0 }, Color { r: 0, g: 0, b: 0 }),
        OpView::Text("Timer Details:\n"@),
        OpView::Colors(Color { r: 255, g: 255, b: 255 }, Color { r: 0, g: 0, b: 0 }),
        OpView::Text("  Total milliseconds: "@ + dec(total_ms as nat) + "\n"@),
        OpView::Text("  Timer ticks:        "@ + dec(ticks as nat) + "\n"@),
        OpView::Text("  Timer frequency:    100 Hz\n"@),
        OpView::Text("  Tick interval:      10 ms\n"@),
    ];
    if ticks > 0 { body.push(OpView::Text(average_line(total_ms, ticks))) } else { body }
}

/// What `sysinfo` prints; the uptime line appears only on a running clock.
pub open spec fn sysinfo_output(clock: TimeManager) -> Seq<OpView> {
    if clock.ready() {
        let u = breakdown(clock.uptime() as u64);
        sysinfo_head() + seq![OpView::Text(
            "Uptime:           "@ + pad2((u.days * 24 + u.hours) as nat) + seq![':']
                + pad2(u.minutes as nat) + seq![':'] + pad2(u.seconds as nat) + seq!['\n'],
        )] + sysinfo_tail()
    } else {
        sysinfo_head() + sysinfo_tail()
    }
}

/// What `stats` prints for `count` commands run and `used` buffered bytes.
pub open spec fn stats_output(count: u64, used: nat, clock: TimeManager) -> Seq<OpView> {
    let ms = clock.uptime();
    let secs = clock.uptime() / 1000;
    let head = seq![
        OpView::Colors(Color { r: 0, g: 255, b: 255 }, Color { r: 0, g: 0, b: 0 }),
        OpView::Text("=== Shell Statistics ===\n"@),
        OpView::Colors(Color { r: 255, g: 255, b: 255 }, Color { r: 0, g: 0, b: 0 }),
        OpView::Text("Commands executed:    "@ + dec(count as nat) + "\n"@),
        OpView::Text("Input buffer size:    256 bytes\n"@),
        OpView::Text("Current buffer used:  "@ + dec(used) + " bytes\n"@),
        OpView::Text("Available commands:   7\n"@),
    ];
    let avg = if clock.ready() && ms > 0 && count > 0 {
        seq![OpView::Text("Avg time per command: "@ + dec((ms / count as int) as nat) + " ms\n"@)]
    } else {
        Seq::empty()
    };
    let mid = seq![
        OpView::Text("\n"@),
        OpView::Colors(Color { r: 255, g: 255, b: 0 }, Color { r: 0, g: 0, b: 0 }),
        OpView::Text("Session Information:\n"@),
        OpView::Colors(Color { r: 255, g: 255, b: 255 }, Color { r: 0, g: 0, b: 0 }),
    ];
    let rate = if clock.ready() && secs > 0 {
        seq![OpView::Text("  Commands per minute: "@ + dec(((count * 60) as int / secs) as nat) + "\n"@)]
    } else {
        Seq::empty()
    };
    let tail = seq![
        OpView::Text("  Shell status:        Active\n"@),
        OpView::Text("  Error count:         0\n"@),
        OpView::Colors(Color { r: 0, g: 255, b: 0 }, Color { r: 0, g: 0, b: 0 }),
        OpView::Text("\n"@),
        OpView::Text("\u{2713} Shell running smoothly!\n"@),
        OpView::Colors(Color { r: 255, g: 255, b: 255 }, Color { r: 0, g: 0, b: 0 }),
    ];
    head + avg + mid + rate + tail
}

/// What the command `words` prints; `count` already includes it and `used`
/// is the length of its line.
pub open spec fn command_output(words: Seq<Seq<char>>, count: u64, used: nat, clock: TimeManager) -> Seq<OpView> {
    let verb = words[0];
    if verb == "help"@ {
        help_output()
    } else if verb == "clear"@ {
        clear_output()
    } else if verb == "version"@ {
        version_output()
    } else if verb == "echo"@ {
        echo_output(words.drop_first())
    } else if verb == "uptime"@ {
        if clock.ready() {
            uptime_output(clock.uptime() as u64, clock.ticks())
        } else {
            not_initialized_output()
        }
    } else if verb == "sysinfo"@ {
        sysinfo_output(clock)
    } else if verb == "stats"@ {
        stats_output(count, used, clock)
    } else {
        unknown_output(verb)
    }
}

/// What submitting `line` prints: a newline, the command's output when the
/// line holds a word, then a fresh prompt.
pub open spec fn dispatch_output(line: Seq<char>, count: u64, clock: TimeManager) -> Seq<OpView> {
    let words = tokens(line);
    let body = if words.len() > 0 {
        command_output(words, bump(count), line.len(), clock)
    } else {
        Seq::empty()
    };
    seq![OpView::Text("\n"@)] + body + prompt_output()
}

/// The line after `line` is full: one slot of the buffer stays free.
pub open spec fn line_full(line: Seq<char>) -> bool {
    line.len() >= INPUT_BUFFER_SIZE - 1
}

/// The line after typing a printable character: appended unless full.
pub open spec fn append_step(line: Seq<char>, ch: char) -> Seq<char> {
    if line_full(line) { line } else { line.push(ch) }
}

/// The line after consuming `ch`.
pub open spec fn line_after(line: Seq<char>, ch: char) -> Seq<char> {
    if ch == '\n' {
        Seq::empty()
    } else if ch == '\x08' {
        if line.len() > 0 { line.drop_last() } else { line }
    } else if printable(ch) {
        append_step(line, ch)
    } else {
        line
    }
}

/// The command count after consuming `ch`: one more when a newline submits
/// a line that holds a word.
pub open spec fn count_after(line: Seq<char>, count: u64, ch: char) -> u64 {
    if ch == '\n' && tokens(line).len() > 0 { bump(count) } else { count }
}

/// What consuming `ch` prints.
pub open spec fn char_output(line: Seq<char>, count: u64, clock: TimeManager, ch: char) -> Seq<OpView> {
    if ch == '\n' {
        dispatch_output(line, count, clock)
    } else if ch != '\x08' && printable(ch) && line_full(line) {
        buffer_full_output()
    } else {
        Seq::empty()
    }
}

/// Whether word `w` spells `s`.
fn word_is(w: &Vec<char>, s: &str) -> (r: bool)
    ensures
        r == (w@ == s@),
{
    let n = s.unicode_len();
    if w.len() != n {
        return false;
    }
    let mut i: usize = 0;
    while i < n
        invariant
            n == s@.len(),
            w@.len() == n,
            i <= n,
            forall|k: int| 0 <= k < i ==> w@[k] == s@[k],
        decreases n - i,
    {
        if w[i] != s.get_char(i) {
            return false;
        }
        i = i + 1;
    }
    assert(w@ =~= s@);
    true
}

/// The words of `line`, in order.
fn split_words(line: &Vec<char>) -> (r: Vec<Vec<char>>)
    ensures
        words_view(r@) == tokens(line@),
{
    let mut words: Vec<Vec<char>> = Vec::new();
    let mut cur: Vec<char> = Vec::new();
    let mut i: usize = 0;
    while i < line.len()
        invariant
            i <= line@.len(),
            cur@.len() > 0 <==> (i > 0 && line@[i - 1] != ' '),
            cur@.len() > 0 ==> tokens(line@.take(i as int)) == words_view(words@).push(cur@),
            cur@.len() == 0 ==> tokens(line@.take(i as int)) == words_view(words@),
        decreases line@.len() - i,
    {
        let c = line[i];
        assert(line@.take(i + 1).drop_last() =~= line@.take(i as int));
        if c == ' ' {
            if cur.len() > 0 {
                let ghost cv = cur@;
                let ghost before = words_view(words@);
                let w = cur;
                words.push(w);
                cur = Vec::new();
                assert(words_view(words@) =~= before.push(cv));
            }
        } else {
            let ghost before = words_view(words@);
            let ghost had = cur@;
            cur.push(c);
            if cur.len() > 1 {
                assert(words_view(words@).push(cur@) =~= before.push(had).update(before.len() as int, had.push(c)));
            } else {
                assert(cur@ =~= seq![c]);
                assert(words_view(words@).push(cur@) =~= before.push(seq![c]));
            }
        }
        i = i + 1;
    }
    assert(line@.take(line@.len() as int) =~= line@);
    if cur.len() > 0 {
        let ghost before = words_view(words@);
        let ghost cv = cur@;
        words.push(cur);
        assert(words_view(words@) =~= before.push(cv));
    }
    words
}

/// Appends `words` joined by single spaces.
fn push_joined(out: &mut Vec<char>, words: &Vec<Vec<char>>, from: usize)
    requires
        from <= words@.len(),
    ensures
        final(out)@ == old(out)@ + join(words_view(words@).subrange(from as int, words@.len() as int)),
{
    let mut i: usize = from;
    let ghost ws = words_view(words@);
    assert(ws.subrange(from as int, from as int) =~= Seq::<Seq<char>>::empty());
    while i < words.len()
        invariant
            from <= i <= words@.len(),
            ws == words_view(words@),
            out@ == old(out)@ + join(ws.subrange(from as int, i as int)),
        decreases words@.len() - i,
    {
        if i > from {
            out.push(' ');
        }
        let w = &words[i];
        let mut k: usize = 0;
        let ghost mid = out@;
        while k < w.len()
            invariant
                k <= w@.len(),
                out@ == mid + w@.take(k as int),
            decreases w@.len() - k,
        {
            out.push(w[k]);
            assert(w@.take(k + 1) =~= w@.take(k as int).push(w@[k as int]));
            k = k + 1;
        }
        assert(w@.take(w@.len() as int) =~= w@);
        let ghost sub = ws.subrange(from as int, i + 1);
        assert(sub.drop_last() =~= ws.subrange(from as int, i as int));
        assert(sub.last() == w@);
        if i > from {
            assert(out@ =~= old(out)@ + join(sub));
        } else {
            assert(sub =~= seq![w@]);
            assert(out@ =~= old(out)@ + join(sub));
        }
        i = i + 1;
    }
}

/// The line-editing shell: the input line and the number of commands run.
pub struct Shell {
    input_buffer: Vec<char>,
    buffer_pos: usize,
    cursor_at_prompt_start: bool,
    command_count: u64,
}

impl Shell {
    /// The characters typed since the last dispatch.
    pub closed spec fn line(&self) -> Seq<char> {
        self.input_buffer@.take(self.buffer_pos as int)
    }

    /// Commands run so far.
    pub closed spec fn count(&self) -> u64 {
        self.command_count
    }

    /// Whether the last output was a fresh prompt.
    pub closed spec fn at_prompt(&self) -> bool {
        self.cursor_at_prompt_start
    }

    /// The buffer keeps its size, the line leaves one slot free and holds
    /// printable characters only, and the rest of the buffer is zero.
    pub closed spec fn wf(&self) -> bool {
        &&& self.input_buffer@.len() == INPUT_BUFFER_SIZE
        &&& self.buffer_pos < INPUT_BUFFER_SIZE
        &&& forall|i: int| 0 <= i < self.buffer_pos ==> printable(#[trigger] self.input_buffer@[i])
        &&& forall|i: int| self.buffer_pos <= i < INPUT_BUFFER_SIZE ==> #[trigger] self.input_buffer@[i] == '\0'
    }

    /// The line is never longer than the buffer less its reserved slot, and
    /// holds printable characters only.
    pub proof fn lemma_line_bounds(&self)
        requires
            self.wf(),
        ensures
            self.line().len() <= INPUT_BUFFER_SIZE - 1,
            forall|i: int| 0 <= i < self.line().len() ==> printable(#[trigger] self.line()[i]),
    {
    }

    /// An empty shell that has run no command.
    pub fn new() -> (r: Shell)
        ensures
            r.wf(),
            r.line() == Seq::<char>::empty(),
            r.count() == 0,
            !r.at_prompt(),
    {
        let mut buf: Vec<char> = Vec::new();
        let mut i: usize = 0;
        while i < INPUT_BUFFER_SIZE
            invariant
                i <= INPUT_BUFFER_SIZE,
                buf@.len() == i,
                forall|k: int| 0 <= k < i ==> #[trigger] buf@[k] == '\0',
            decreases INPUT_BUFFER_SIZE - i,
        {
            buf.push('\0');
            i = i + 1;
        }
        let r = Shell { input_buffer: buf, buffer_pos: 0, cursor_at_prompt_start: false, command_count: 0 };
        assert(r.line() =~= Seq::<char>::empty());
        r
    }

    /// Consumes one character: a newline dispatches the line, a backspace
    /// deletes the last character, a printable character is appended (or
    /// dropped with a diagnostic when the line is full), anything else is
    /// ignored. Returns what to show on the console.
    pub fn handle_char(&mut self, ch: char, clock: &TimeManager) -> (r: Vec<ConsoleOp>)
        requires
            old(self).wf(),
        ensures
            final(self).wf(),
            final(self).line() == line_after(old(self).line(), ch),
            final(self).count() == count_after(old(self).line(), old(self).count(), ch),
            ops_view(r@) == char_output(old(self).line(), old(self).count(), *clock, ch),
            ch == '\n' ==> final(self).at_prompt(),
    {
        let mut ops: Vec<ConsoleOp> = Vec::new();
        if ch == '\n' {
            ops = self.process_command(clock);
        } else if ch == '\x08' {
            self.handle_backspace();
        } else if ' ' <= ch && ch <= '~' {
            self.add_char(ch, &mut ops);
        }
        assert(ops_view(ops@) =~= char_output(old(self).line(), old(self).count(), *clock, ch));
        ops
    }

    fn add_char(&mut self, ch: char, ops: &mut Vec<ConsoleOp>)
        requires
            old(self).wf(),
            printable(ch),
            old(ops)@.len() == 0,
        ensures
            final(self).wf(),
            final(self).count() == old(self).count(),
            final(self).at_prompt() == old(self).at_prompt(),
            if old(self).line().len() < INPUT_BUFFER_SIZE - 1 {
                final(self).line() == old(self).line().push(ch) && final(ops)@.len() == 0
            } else {
                final(self).line() == old(self).line() && ops_view(final(ops)@) == buffer_full_output()
            },
    {
        if self.buffer_pos < INPUT_BUFFER_SIZE - 1 {
            self.input_buffer.set(self.buffer_pos, ch);
            self.buffer_pos = self.buffer_pos + 1;
            assert(self.line() =~= old(self).line().push(ch));
        } else {
            emit_buffer_full_output(ops);
            assert(ops_view(ops@) =~= buffer_full_output());
        }
    }

    /// Deletes the last character of the line, if any.
    fn handle_backspace(&mut self)
        requires
            old(self).wf(),
        ensures
            final(self).wf(),
            final(self).count() == old(self).count(),
            final(self).at_prompt() == old(self).at_prompt(),
            final(self).line() == if old(self).line().len() > 0 {
                old(self).line().drop_last()
            } else {
                old(self).line()
            },
    {
        if self.buffer_pos > 0 {
            self.buffer_pos = self.buffer_pos - 1;
            self.input_buffer.set(self.buffer_pos, '\0');
            assert(self.line() =~= old(self).line().drop_last());
        }
    }

    /// Empties the line and zeroes the whole buffer.
    fn clear_buffer(&mut self)
        requires
            old(self).input_buffer@.len() == INPUT_BUFFER_SIZE,
        ensures
            final(self).wf(),
            final(self).line() == Seq::<char>::empty(),
            final(self).count() == old(self).count(),
            final(self).at_prompt() == old(self).at_prompt(),
    {
        self.buffer_pos = 0;
        let mut i: usize = 0;
        while i < INPUT_BUFFER_SIZE
            invariant
                i <= INPUT_BUFFER_SIZE,
                self.input_buffer@.len() == INPUT_BUFFER_SIZE,
                self.buffer_pos == 0,
                self.command_count == old(self).command_count,
                self.cursor_at_prompt_start == old(self).cursor_at_prompt_start,
                forall|k: int| 0 <= k < i ==> #[trigger] self.input_buffer@[k] == '\0',
            decreases INPUT_BUFFER_SIZE - i,
        {
            self.input_buffer.set(i, '\0');
            i = i + 1;
        }
        assert(self.line() =~= Seq::<char>::empty());
    }

    /// Snapshot of the current line.
    fn snapshot(&self) -> (r: Vec<char>)
        requires
            self.wf(),
        ensures
            r@ == self.line(),
    {
        let mut r: Vec<char> = Vec::new();
        let mut i: usize = 0;
        while i < self.buffer_pos
            invariant
                self.wf(),
                i <= self.buffer_pos,
                r@ == self.input_buffer@.take(i as int),
            decreases self.buffer_pos - i,
        {
            r.push(self.input_buffer[i]);
            assert(self.input_buffer@.take(i + 1) =~= self.input_buffer@.take(i as int).push(self.input_buffer@[i as int]));
            i = i + 1;
        }
        r
    }

    /// Dispatches the line: echoes a newline, runs the command if the line
    /// holds a word (counting it), clears the line and shows a new prompt.
    fn process_command(&mut self, clock: &TimeManager) -> (r: Vec<ConsoleOp>)
        requires
            old(self).wf(),
        ensures
            final(self).wf(),
            final(self).line() == Seq::<char>::empty(),
            final(self).count() == if tokens(old(self).line()).len() > 0 {
                bump(old(self).count())
            } else {
                old(self).count()
            },
            final(self).at_prompt(),
            ops_view(r@) == dispatch_output(old(self).line(), old(self).count(), *clock),
    {
        let line = self.snapshot();
        let mut ops: Vec<ConsoleOp> = Vec::new();
        say(&mut ops, "\n");
        let words = split_words(&line);
        if words.len() > 0 {
            if self.command_count < u64::MAX {
                self.command_count = self.command_count + 1;
            }
            self.execute_command(&words, clock, &mut ops);
        }
        self.clear_buffer();
        self.emit_prompt(&mut ops);
        assert(ops_view(ops@) =~= dispatch_output(old(self).line(), old(self).count(), *clock));
        ops
    }

    /// Runs the command whose words are `words`.
    fn execute_command(&self, words: &Vec<Vec<char>>, clock: &TimeManager, ops: &mut Vec<ConsoleOp>)
        requires
            self.wf(),
            words@.len() > 0,
        ensures
            ops_view(final(ops)@) == ops_view(old(ops)@) + command_output(
                words_view(words@), self.count(), self.line().len(), *clock),
    {
        let verb = &words[0];
        assert(words_view(words@)[0] == verb@);
        if word_is(verb, "help") {
            emit_help_output(ops);
        } else if word_is(verb, "clear") {
            ops.push(ConsoleOp::Clear);
            assert(ops_view(ops@) =~= ops_view(old(ops)@).push(OpView::Clear));
            emit_clear_banner(ops);
            assert(ops_view(ops@) =~= ops_view(old(ops)@) + clear_output());
        } else if word_is(verb, "version") {
            emit_version_output(ops);
        } else if word_is(verb, "echo") {
            set_colors(ops, Color::white(), Color::black());
            let mut text: Vec<char> = Vec::new();
            push_joined(&mut text, words, 1);
            text.push('\n');
            assert(words_view(words@).subrange(1, words@.len() as int) =~= words_view(words@).drop_first());
            assert(text@ =~= join(words_view(words@).drop_first()) + seq!['\n']);
            say_chars(ops, text);
            assert(ops_view(ops@) =~= ops_view(old(ops)@) + echo_output(words_view(words@).drop_first()));
        } else if word_is(verb, "uptime") {
            cmd_uptime(clock, ops);
        } else if word_is(verb, "sysinfo") {
            cmd_sysinfo(clock, ops);
        } else if word_is(verb, "stats") {
            cmd_stats(self.command_count, self.buffer_pos, clock, ops);
        } else {
            set_colors(ops, Color::red(), Color::black());
            let mut text = chars_of("Unknown command: '");
            let ghost t0 = text@;
            let mut k: usize = 0;
            while k < verb.len()
                invariant
                    k <= verb@.len(),
                    text@ == t0 + verb@.take(k as int),
                decreases verb@.len() - k,
            {
                text.push(verb[k]);
                assert(verb@.take(k + 1) =~= verb@.take(k as int).push(verb@[k as int]));
                k = k + 1;
            }
            assert(verb@.take(verb@.len() as int) =~= verb@);
            push_str(&mut text, "'\n");
            say_chars(ops, text);
            set_colors(ops, Color::yellow(), Color::black());
            say(ops, "Type 'help' for available commands.\n");
            set_colors(ops, Color::white(), Color::black());
            assert(ops_view(ops@) =~= ops_view(old(ops)@) + unknown_output(verb@));
        }
    }

    fn emit_prompt(&mut self, ops: &mut Vec<ConsoleOp>)
        ensures
            ops_view(final(ops)@) == ops_view(old(ops)@) + prompt_output(),
            final(self).at_prompt(),
            final(self).line() == old(self).line(),
            final(self).count() == old(self).count(),
            final(self).wf() == old(self).wf(),
    {
        emit_prompt_output(ops);
        self.cursor_at_prompt_start = true;
    }

    /// Shows the prompt; returns what to show.
    pub fn show_prompt(&mut self) -> (r: Vec<ConsoleOp>)
        ensures
            ops_view(r@) == prompt_output(),
            final(self).at_prompt(),
            final(self).line() == old(self).line(),
            final(self).count() == old(self).count(),
            final(self).wf() == old(self).wf(),
    {
        let mut ops: Vec<ConsoleOp> = Vec::new();
        self.emit_prompt(&mut ops);
        assert(ops_view(ops@) =~= prompt_output());
        ops
    }

    /// Whether the line has a character to delete.
    pub fn can_backspace(&self) -> (r: bool)
        requires
            self.wf(),
        ensures
            r == (self.line().len() > 0),
    {
        self.buffer_pos > 0
    }

    /// Commands run so far.
    pub fn get_command_count(&self) -> (r: u64)
        ensures
            r == self.count(),
    {
        self.command_count
    }

    /// Length of the current line.
    pub fn get_buffer_len(&self) -> (r: usize)
        requires
            self.wf(),
        ensures
            r == self.line().len(),
    {
        self.buffer_pos
    }
}

/// The line after typing the characters of `s` in order from `line`.
pub open spec fn typed(line: Seq<char>, s: Seq<char>) -> Seq<char>
    decreases s.len(),
{
    if s.len() == 0 { line } else { line_after(typed(line, s.drop_last()), s.last()) }
}

/// From an empty line, up to the line's capacity of printable characters are
/// all kept, in order.
pub proof fn lemma_typed_kept(s: Seq<char>)
    requires
        s.len() <= INPUT_BUFFER_SIZE - 1,
        forall|i: int| 0 <= i < s.len() ==> printable(#[trigger] s[i]),
    ensures
        typed(Seq::empty(), s) == s,
    decreases s.len(),
{
    if s.len() > 0 {
        let t = s.drop_last();
        assert forall|i: int| 0 <= i < t.len() implies printable(#[trigger] t[i]) by {
            assert(t[i] == s[i]);
        }
        lemma_typed_kept(t);
        assert(printable(s[s.len() - 1]));
        assert(t.push(s.last()) =~= s);
    }
}

/// Typing as many printable characters as the buffer has bytes, with no
/// dispatch, leaves a line one shorter than the buffer; the last character is
/// dropped and reported with the buffer-full diagnostic.
pub proof fn lemma_buffer_fills(s: Seq<char>, count: u64, clock: TimeManager)
    requires
        s.len() == INPUT_BUFFER_SIZE,
        forall|i: int| 0 <= i < s.len() ==> printable(#[trigger] s[i]),
    ensures
        typed(Seq::empty(), s).len() == INPUT_BUFFER_SIZE - 1,
        typed(Seq::empty(), s) == s.take(INPUT_BUFFER_SIZE - 1),
        char_output(typed(Seq::empty(), s.drop_last()), count, clock, s.last()) == buffer_full_output(),
{
    let t = s.drop_last();
    assert forall|i: int| 0 <= i < t.len() implies printable(#[trigger] t[i]) by {
        assert(t[i] == s[i]);
    }
    lemma_typed_kept(t);
    assert(printable(s[s.len() - 1]));
    assert(t =~= s.take(INPUT_BUFFER_SIZE - 1));
    assert(s.last() != '\n' && s.last() != '\x08');
}

/// Submitting an empty line runs nothing, so the count stays, and prints
/// only the newline and a fresh prompt.
pub proof fn lemma_empty_line(count: u64, clock: TimeManager)
    ensures
        count_after(Seq::empty(), count, '\n') == count,
        char_output(Seq::empty(), count, clock, '\n') == seq![OpView::Text("\n"@)] + prompt_output(),
        line_after(Seq::empty(), '\n') == Seq::<char>::empty(),
{
    assert(tokens(Seq::<char>::empty()).len() == 0);
    assert(seq![OpView::Text("\n"@)] + Seq::<OpView>::empty() + prompt_output()
        =~= seq![OpView::Text("\n"@)] + prompt_output());
}

/// The joined arguments of `echo` have single spaces between words and none
/// at either end, when no word is empty or holds a space.
pub proof fn lemma_join_spacing(ws: Seq<Seq<char>>)
    requires
        forall|i: int| 0 <= i < ws.len() ==> #[trigger] ws[i].len() > 0,
        forall|i: int, k: int| 0 <= i < ws.len() && 0 <= k < ws[i].len() ==> #[trigger] ws[i][k] != ' ',
    ensures
        ws.len() > 0 ==> join(ws)[0] != ' ' && join(ws).last() != ' ',
        forall|k: int| 0 <= k < join(ws).len() - 1 ==> !(#[trigger] join(ws)[k] == ' ' && join(ws)[k + 1] == ' '),
    decreases ws.len(),
{
    if ws.len() > 1 {
        let t = ws.drop_last();
        assert forall|i: int| 0 <= i < t.len() implies #[trigger] t[i].len() > 0 by {
            assert(t[i] == ws[i]);
        }
        assert forall|i: int, k: int| 0 <= i < t.len() && 0 <= k < t[i].len() implies #[trigger] t[i][k] != ' ' by {
            assert(t[i] == ws[i]);
        }
        lemma_join_spacing(t);
        let j = join(t);
        let l = ws.last();
        assert(l.len() > 0);
        assert forall|k: int| 0 <= k < l.len() implies l[k] != ' ' by {
            assert(ws[ws.len() - 1][k] != ' ');
        }
        let all = j + seq![' '] + l;
        assert(join(ws) == all);
        assert(j.len() > 0);
        assert forall|k: int| 0 <= k < all.len() - 1 implies !(#[trigger] all[k] == ' ' && all[k + 1] == ' ') by {
            if k < j.len() - 1 {
                assert(all[k] == j[k] && all[k + 1] == j[k + 1]);
            } else if k == j.len() - 1 {
                assert(all[k] == j.last());
            } else if k == j.len() {
                assert(all[k + 1] == l[0]);
            } else {
                assert(all[k + 1] == l[k + 1 - j.len() - 1]);
            }
        }
        assert(all[0] == j[0]);
        assert(all.last() == l.last());
    } else if ws.len() == 1 {
        assert(ws[0].len() > 0);
        assert forall|k: int| 0 <= k < ws[0].len() implies ws[0][k] != ' ' by {}
    }
}

fn cmd_uptime(clock: &TimeManager, ops: &mut Vec<ConsoleOp>)
    ensures
        ops_view(final(ops)@) == ops_view(old(ops)@) + if clock.ready() {
            uptime_output(clock.uptime() as u64, clock.ticks())
        } else {
            not_initialized_output()
        },
{
    if !clock.is_initialized() {
        emit_not_initialized_output(ops);
        return;
    }
    let info = clock.get_uptime_formatted();
    let formatted = info.format_detailed();
    let (days, hours, minutes, seconds, milliseconds) = formatted.detailed_format();
    let total_ms = formatted.total_milliseconds();
    let tick_count = clock.get_tick_count();
    set_colors(ops, Color::cyan(), Color::black());
    say(ops, "=== System Uptime ===\n");
    set_colors(ops, Color::white(), Color::black());
    let mut line = chars_of("Uptime: ");
    if days > 0 {
        push_decimal(&mut line, days as u128);
        push_str(&mut line, " days, ");
    }
    push_pad2(&mut line, hours as u128);
    line.push(':');
    push_pad2(&mut line, minutes as u128);
    line.push(':');
    push_pad2(&mut line, seconds as u128);
    line.push('.');
    push_pad3(&mut line, milliseconds as u128);
    line.push('\n');
    assert(line@ =~= uptime_line(total_ms));
    say_chars(ops, line);
    say(ops, "\n");
    set_colors(ops, Color::yellow(), Color::black());
    say(ops, "Timer Details:\n");
    set_colors(ops, Color::white(), Color::black());
    let mut t1 = chars_of("  Total milliseconds: ");
    push_decimal(&mut t1, total_ms as u128);
    push_str(&mut t1, "\n");
    say_chars(ops, t1);
    let mut t2 = chars_of("  Timer ticks:        ");
    push_decimal(&mut t2, tick_count as u128);
    push_str(&mut t2, "\n");
    say_chars(ops, t2);
    say(ops, "  Timer frequency:    100 Hz\n");
    say(ops, "  Tick interval:      10 ms\n");
    if tick_count > 0 {
        let hundredths = (total_ms as u128 * 100) / (tick_count as u128);
        let mut t3 = chars_of("  Average per tick:   ");
        push_decimal(&mut t3, hundredths / 100);
        t3.push('.');
        push_pad2(&mut t3, hundredths % 100);
        push_str(&mut t3, " ms\n");
        assert(t3@ =~= average_line(total_ms, tick_count));
        say_chars(ops, t3);
    }
    assert(ops_view(ops@) =~= ops_view(old(ops)@) + uptime_output(clock.uptime() as u64, clock.ticks()));
}

fn cmd_sysinfo(clock: &TimeManager, ops: &mut Vec<ConsoleOp>)
    ensures
        ops_view(final(ops)@) == ops_view(old(ops)@) + sysinfo_output(*clock),
{
    emit_sysinfo_head(ops);
    if clock.is_initialized() {
        let info = clock.get_uptime_formatted();
        let formatted = info.format_detailed();
        let (hours, minutes, seconds) = formatted.short_format();
        let mut line = chars_of("Uptime:           ");
        push_pad2(&mut line, hours as u128);
        line.push(':');
        push_pad2(&mut line, minutes as u128);
        line.push(':');
        push_pad2(&mut line, seconds as u128);
        line.push('\n');
        let ghost u = breakdown(clock.uptime() as u64);
        assert(hours as nat == (u.days * 24 + u.hours) as nat);
        assert(line@ =~= "Uptime:           "@ + pad2((u.days * 24 + u.hours) as nat) + seq![':']
            + pad2(u.minutes as nat) + seq![':'] + pad2(u.seconds as nat) + seq!['\n']);
        say_chars(ops, line);
        assert(ops_view(ops@) =~= ops_view(old(ops)@) + sysinfo_head() + seq![OpView::Text(
            "Uptime:           "@ + pad2((u.days * 24 + u.hours) as nat) + seq![':']
                + pad2(u.minutes as nat) + seq![':'] + pad2(u.seconds as nat) + seq!['\n'])]);
    }
    emit_sysinfo_tail(ops);
    assert(ops_view(ops@) =~= ops_view(old(ops)@) + sysinfo_output(*clock));
}

fn cmd_stats(count: u64, used: usize, clock: &TimeManager, ops: &mut Vec<ConsoleOp>)
    ensures
        ops_view(final(ops)@) == ops_view(old(ops)@) + stats_output(count, used as nat, *clock),
{
    set_colors(ops, Color::cyan(), Color::black());
    say(ops, "=== Shell Statistics ===\n");
    set_colors(ops, Color::white(), Color::black());
    let mut t1 = chars_of("Commands executed:    ");
    push_decimal(&mut t1, count as u128);
    push_str(&mut t1, "\n");
    say_chars(ops, t1);
    say(ops, "Input buffer size:    256 bytes\n");
    let mut t2 = chars_of("Current buffer used:  ");
    push_decimal(&mut t2, used as u128);
    push_str(&mut t2, " bytes\n");
    say_chars(ops, t2);
    say(ops, "Available commands:   7\n");
    if clock.is_initialized() {
        let uptime_ms = clock.get_uptime_ms();
        if uptime_ms > 0 && count > 0 {
            let mut t3 = chars_of("Avg time per command: ");
            push_decimal(&mut t3, (uptime_ms / count) as u128);
            push_str(&mut t3, " ms\n");
            say_chars(ops, t3);
        }
    }
    say(ops, "\n");
    set_colors(ops, Color::yellow(), Color::black());
    say(ops, "Session Information:\n");
    set_colors(ops, Color::white(), Color::black());
    if clock.is_initialized() {
        let uptime_seconds = clock.get_uptime_formatted().get_uptime_seconds();
        if uptime_seconds > 0 {
            let rate = (count as u128 * 60) / (uptime_seconds as u128);
            let mut t4 = chars_of("  Commands per minute: ");
            push_decimal(&mut t4, rate);
            push_str(&mut t4, "\n");
            say_chars(ops, t4);
        }
    }
    say(ops, "  Shell status:        Active\n");
    say(ops, "  Error count:         0\n");
    set_colors(ops, Color::green(), Color::black());
    say(ops, "\n");
    say(ops, "\u{2713} Shell running smoothly!\n");
    set_colors(ops, Color::white(), Color::black());
    assert(ops_view(ops@) =~= ops_view(old(ops)@) + stats_output(count, used as nat, *clock));
}

} // verus!
