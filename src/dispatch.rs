use vstd::prelude::*;
use crate::console::{
    Color, Writer, CELL, FrameGeometry, backspace_effect, cleared, cursor_after_all, text_effect,
};
use crate::keyboard::{
    KeyboardState, CAPS_LOCK_PRESS, decoded, handle_modifier_key, is_modifier, modifier_step,
    scancode_to_char,
};
use crate::output::{ConsoleOp, OpView, ops_view, dec, push_decimal, say, say_chars, set_colors};
use crate::pic::{Pics, PortWrite, eoi_sequence, KEYBOARD_INTERRUPT_ID, TIMER_INTERRUPT_ID};
use crate::shell::{Shell, char_output, count_after, line_after};
use crate::time::TimeManager;

verus! {

/// A hardware event delivered to the processor.
#[derive(Debug, Clone, Copy, PartialEq, Eq, Structural)]
pub enum InterruptEvent {
    /// The breakpoint trap (a CPU exception, not a controller line).
    Breakpoint,
    /// A timer pulse.
    Timer,
    /// A byte read from the keyboard's data port.
    Keyboard { scancode: u8 },
}

/// What handling one event asks of the hardware: console output first, then
/// the port writes, which end with the controller acknowledgment.
pub struct Response {
    pub console: Vec<ConsoleOp>,
    pub ports: Vec<PortWrite>,
}

/// The state the interrupt handlers share with the foreground.
pub struct Machine {
    pub keyboard: KeyboardState,
    pub shell: Shell,
    pub clock: TimeManager,
    pub pics: Pics,
}

pub open spec fn white_on_black() -> OpView {
    OpView::Colors(Color { r: 255, g: 255, b: 255 }, Color { r: 0, g: 0, b: 0 })
}

pub open spec fn yellow_on_black() -> OpView {
    OpView::Colors(Color { r: 255, g: 255, b: 0 }, Color { r: 0, g: 0, b: 0 })
}

/// Whether `c` is an ASCII letter.
pub open spec fn is_letter(c: char) -> bool {
    ('a' <= c <= 'z') || ('A' <= c <= 'Z')
}

/// Color a typed character is echoed in: red for a letter under Caps Lock,
/// blue under Shift, green otherwise.
pub open spec fn echo_color(s: KeyboardState, c: char) -> Color {
    if s.caps_lock && is_letter(c) {
        Color { r: 255, g: 0, b: 0 }
    } else if s.shift_pressed {
        Color { r: 0, g: 0, b: 255 }
    } else {
        Color { r: 0, g: 255, b: 0 }
    }
}

/// What a keyboard byte prints, given the modifier state before it and the
/// shell's line, count and clock.
pub open spec fn key_output(
    s: KeyboardState,
    scancode: u8,
    line: Seq<char>,
    count: u64,
    clock: TimeManager,
) -> Seq<OpView> {
    if is_modifier(scancode) {
        if scancode == CAPS_LOCK_PRESS {
            seq![
                yellow_on_black(),
                OpView::Text(if !s.caps_lock { " [CAPS ON] "@ } else { " [CAPS OFF] "@ }),
                white_on_black(),
            ]
        } else {
            Seq::empty()
        }
    } else if scancode >= 0x80 {
        Seq::empty()
    } else {
        match decoded(scancode, s.shift_pressed, s.caps_lock) {
            Some(c) => {
                if c == '\x08' {
                    if line.len() > 0 { seq![OpView::Backspace] } else { Seq::empty() }
                } else if c == '\n' {
                    char_output(line, count, clock, c)
                } else if c == '\t' {
                    seq![yellow_on_black(), OpView::Text(">   "@), white_on_black()]
                } else {
                    char_output(line, count, clock, c) + seq![
                        OpView::Colors(echo_color(s, c), Color { r: 0, g: 0, b: 0 }),
                        OpView::Text(seq![c]),
                        white_on_black(),
                    ]
                }
            },
            None => seq![
                yellow_on_black(),
                OpView::Text(seq!['['] + dec(scancode as nat) + seq![']']),
                white_on_black(),
            ],
        }
    }
}

/// The character a keyboard byte hands to the shell, if any: a decoded key
/// press other than Tab, and Backspace only when there is something to delete.
pub open spec fn key_to_shell(s: KeyboardState, scancode: u8, line: Seq<char>) -> Option<char> {
    if is_modifier(scancode) || scancode >= 0x80 {
        None
    } else {
        match decoded(scancode, s.shift_pressed, s.caps_lock) {
            Some(c) => {
                if c == '\t' || (c == '\x08' && line.len() == 0) { None } else { Some(c) }
            },
            None => None,
        }
    }
}

/// Sets the writer's colors.
pub fn set_text_color(writer: &mut Writer, fg: Color, bg: Color)
    ensures
        final(writer).fg() == fg,
        final(writer).bg() == bg,
        final(writer).cursor() == old(writer).cursor(),
        final(writer).geometry() == old(writer).geometry(),
        final(writer).glyphs() == old(writer).glyphs(),
{
    writer.set_fg_color(fg);
    writer.set_bg_color(bg);
}

/// Erases the character before the cursor on screen.
pub fn handle_backspace(writer: &mut Writer, surface: &mut [u8])
    requires
        old(writer).wf(),
    ensures
        final(writer).wf(),
        final(writer).cursor() == if old(writer).cursor().0 >= crate::console::CELL {
            ((old(writer).cursor().0 - crate::console::CELL) as usize, old(writer).cursor().1)
        } else {
            old(writer).cursor()
        },
        final(writer).fg() == old(writer).fg(),
        final(writer).bg() == old(writer).bg(),
        final(writer).geometry() == old(writer).geometry(),
        final(writer).glyphs() == old(writer).glyphs(),
        backspace_effect(old(writer).geometry(), old(writer).glyphs(), old(writer).fg(), old(writer).bg(),
            old(writer).cursor().0, old(writer).cursor().1, old(surface)@, final(surface)@),
{
    writer.backspace(surface);
}

/// Hands one character to the shell; returns what to show.
pub fn handle_shell_char(shell: &mut Shell, ch: char, clock: &TimeManager) -> (r: Vec<ConsoleOp>)
    requires
        old(shell).wf(),
    ensures
        final(shell).wf(),
        final(shell).line() == line_after(old(shell).line(), ch),
        final(shell).count() == count_after(old(shell).line(), old(shell).count(), ch),
        ops_view(r@) == char_output(old(shell).line(), old(shell).count(), *clock, ch),
{
    shell.handle_char(ch, clock)
}

/// Cursor column, cursor row, foreground and background of a writer.
pub open spec fn pen_of(w: Writer) -> (usize, usize, Color, Color) {
    (w.cursor().0, w.cursor().1, w.fg(), w.bg())
}

/// Cursor and colors after one operation.
pub open spec fn pen_step(g: FrameGeometry, p: (usize, usize, Color, Color), op: OpView) -> (usize, usize, Color, Color) {
    match op {
        OpView::Colors(f, b) => (p.0, p.1, f, b),
        OpView::Text(t) => {
            let c = cursor_after_all(g, p.0, p.1, t);
            (c.0, c.1, p.2, p.3)
        },
        OpView::Clear => (0usize, 0usize, p.2, p.3),
        OpView::Backspace => if p.0 >= CELL { ((p.0 - CELL) as usize, p.1, p.2, p.3) } else { p },
    }
}

/// Cursor and colors after a list of operations.
pub open spec fn ops_pen(g: FrameGeometry, p: (usize, usize, Color, Color), ops: Seq<OpView>) -> (usize, usize, Color, Color)
    decreases ops.len(),
{
    if ops.len() == 0 { p } else { pen_step(g, ops_pen(g, p, ops.drop_last()), ops.last()) }
}

/// Surface effect of one operation with cursor and colors `p`: a color switch
/// leaves the surface alone, text is drawn character by character, a clear
/// fills the screen with the background and a backspace blanks the previous
/// cell.
pub open spec fn op_effect(
    g: FrameGeometry,
    glyphs: Seq<u8>,
    p: (usize, usize, Color, Color),
    op: OpView,
    before: Seq<u8>,
    after: Seq<u8>,
) -> bool {
    match op {
        OpView::Colors(_, _) => after == before,
        OpView::Text(t) => text_effect(g, glyphs, p.2, p.3, p.0, p.1, t, before, after),
        OpView::Clear => cleared(g, p.3, before, after),
        OpView::Backspace => backspace_effect(g, glyphs, p.2, p.3, p.0, p.1, before, after),
    }
}

/// Surface effect of a list of operations applied in order from `p`.
pub open spec fn ops_effect(
    g: FrameGeometry,
    glyphs: Seq<u8>,
    p: (usize, usize, Color, Color),
    ops: Seq<OpView>,
    before: Seq<u8>,
    after: Seq<u8>,
) -> bool
    decreases ops.len(),
{
    if ops.len() == 0 {
        after == before
    } else {
        exists|mid: Seq<u8>|
            ops_effect(g, glyphs, p, ops.drop_last(), before, mid)
                && #[trigger] op_effect(g, glyphs, ops_pen(g, p, ops.drop_last()), ops.last(), mid, after)
    }
}

proof fn lemma_ops_step(
    g: FrameGeometry,
    glyphs: Seq<u8>,
    p: (usize, usize, Color, Color),
    ops: Seq<OpView>,
    before: Seq<u8>,
    mid: Seq<u8>,
    after: Seq<u8>,
)
    requires
        ops.len() > 0,
        ops_effect(g, glyphs, p, ops.drop_last(), before, mid),
        op_effect(g, glyphs, ops_pen(g, p, ops.drop_last()), ops.last(), mid, after),
    ensures
        ops_effect(g, glyphs, p, ops, before, after),
{
}

/// Applies console operations to the writer and surface, in order.
pub fn apply_console(writer: &mut Writer, surface: &mut [u8], ops: &Vec<ConsoleOp>)
    requires
        old(writer).wf(),
    ensures
        final(writer).wf(),
        final(writer).geometry() == old(writer).geometry(),
        final(writer).glyphs() == old(writer).glyphs(),
        pen_of(*final(writer)) == ops_pen(old(writer).geometry(), pen_of(*old(writer)), ops_view(ops@)),
        ops_effect(old(writer).geometry(), old(writer).glyphs(), pen_of(*old(writer)), ops_view(ops@),
            old(surface)@, final(surface)@),
{
    let ghost g = writer.geometry();
    let ghost p0 = pen_of(*writer);
    let ghost all = ops_view(ops@);
    let mut i: usize = 0;
    assert(all.take(0) =~= Seq::<OpView>::empty());
    while i < ops.len()
        invariant
            i <= ops@.len(),
            all == ops_view(ops@),
            writer.wf(),
            g == old(writer).geometry(),
            p0 == pen_of(*old(writer)),
            writer.geometry() == g,
            writer.glyphs() == old(writer).glyphs(),
            pen_of(*writer) == ops_pen(g, p0, all.take(i as int)),
            ops_effect(g, old(writer).glyphs(), p0, all.take(i as int), old(surface)@, surface@),
        decreases ops@.len() - i,
    {
        let ghost before = surface@;
        let ghost pre = all.take(i + 1);
        assert(pre.drop_last() =~= all.take(i as int));
        assert(pre.last() == ops@[i as int]@);
        match &ops[i] {
            ConsoleOp::Colors { fg, bg } => set_text_color(writer, *fg, *bg),
            ConsoleOp::Text(t) => writer.write_chars(surface, t),
            ConsoleOp::Clear => writer.clear_screen(surface),
            ConsoleOp::Backspace => writer.backspace(surface),
        }
        proof {
            lemma_ops_step(g, old(writer).glyphs(), p0, pre, old(surface)@, before, surface@);
        }
        i = i + 1;
    }
    assert(all.take(ops@.len() as int) =~= all);
}

impl Machine {
    pub open spec fn wf(&self) -> bool {
        self.shell.wf() && self.pics.wf()
    }

    /// Handles one event, as its interrupt handler does. The breakpoint trap
    /// prints a notice and needs no acknowledgment; the timer counts one tick;
    /// a keyboard byte goes through the decoder to the shell and the screen.
    /// Every controller line is acknowledged, as the last port writes.
    pub fn handle(&mut self, event: InterruptEvent) -> (r: Response)
        requires
            old(self).wf(),
        ensures
            final(self).wf(),
            final(self).pics == old(self).pics,
            event == InterruptEvent::Breakpoint ==> {
                &&& r.ports@.len() == 0
                &&& ops_view(r.console@) == seq![OpView::Text("EXCEPTION: BREAKPOINT\n"@)]
                &&& final(self).keyboard == old(self).keyboard
                &&& final(self).shell == old(self).shell
                &&& final(self).clock == old(self).clock
            },
            event == InterruptEvent::Timer ==> {
                &&& r.ports@ == eoi_sequence(TIMER_INTERRUPT_ID)
                &&& r.console@.len() == 0
                &&& final(self).keyboard == old(self).keyboard
                &&& final(self).shell == old(self).shell
                &&& final(self).clock.ready() == old(self).clock.ready()
                &&& final(self).clock.ms_tick() == old(self).clock.ms_tick()
                &&& final(self).clock.ticks() == old(self).clock.ticked()
            },
            event is Keyboard ==> {
                let sc = event->scancode;
                let s = old(self).keyboard;
                let line = old(self).shell.line();
                &&& r.ports@ == eoi_sequence(KEYBOARD_INTERRUPT_ID)
                &&& final(self).keyboard == modifier_step(s, sc)
                &&& final(self).clock == old(self).clock
                &&& ops_view(r.console@) == key_output(s, sc, line, old(self).shell.count(), old(self).clock)
                &&& match key_to_shell(s, sc, line) {
                    Some(c) => final(self).shell.line() == line_after(line, c)
                        && final(self).shell.count() == count_after(line, old(self).shell.count(), c),
                    None => final(self).shell.line() == line
                        && final(self).shell.count() == old(self).shell.count(),
                }
            },
    {
        match event {
            InterruptEvent::Breakpoint => {
                let mut console: Vec<ConsoleOp> = Vec::new();
                say(&mut console, "EXCEPTION: BREAKPOINT\n");
                assert(ops_view(console@) =~= seq![OpView::Text("EXCEPTION: BREAKPOINT\n"@)]);
                Response { console, ports: Vec::new() }
            },
            InterruptEvent::Timer => {
                crate::time::tick(&mut self.clock);
                let ports = crate::pic::end_of_interrupt(&self.pics, TIMER_INTERRUPT_ID);
                Response { console: Vec::new(), ports }
            },
            InterruptEvent::Keyboard { scancode } => {
                let console = self.keyboard_interrupt(scancode);
                let ports = crate::pic::end_of_interrupt(&self.pics, KEYBOARD_INTERRUPT_ID);
                Response { console, ports }
            },
        }
    }

    /// The keyboard handler's work on one byte; returns what to show.
    fn keyboard_interrupt(&mut self, scancode: u8) -> (r: Vec<ConsoleOp>)
        requires
            old(self).wf(),
        ensures
            final(self).wf(),
            final(self).pics == old(self).pics,
            final(self).clock == old(self).clock,
            final(self).keyboard == modifier_step(old(self).keyboard, scancode),
            ops_view(r@) == key_output(old(self).keyboard, scancode, old(self).shell.line(),
                old(self).shell.count(), old(self).clock),
            match key_to_shell(old(self).keyboard, scancode, old(self).shell.line()) {
                Some(c) => final(self).shell.line() == line_after(old(self).shell.line(), c)
                    && final(self).shell.count() == count_after(old(self).shell.line(), old(self).shell.count(), c),
                None => final(self).shell.line() == old(self).shell.line()
                    && final(self).shell.count() == old(self).shell.count(),
            },
    {
        let mut console: Vec<ConsoleOp> = Vec::new();
        if handle_modifier_key(&mut self.keyboard, scancode) {
            if scancode == CAPS_LOCK_PRESS {
                set_colors(&mut console, Color::yellow(), Color::black());
                if self.keyboard.caps_lock {
                    say(&mut console, " [CAPS ON] ");
                } else {
                    say(&mut console, " [CAPS OFF] ");
                }
                set_colors(&mut console, Color::white(), Color::black());
            }
            assert(ops_view(console@) =~= key_output(old(self).keyboard, scancode,
                old(self).shell.line(), old(self).shell.count(), old(self).clock));
            return console;
        }
        if scancode < 0x80 {
            let state = self.keyboard;
            match scancode_to_char(scancode, state.shift_pressed, state.caps_lock) {
                Some(ch) => {
                    if ch == '\x08' {
                        if self.shell.can_backspace() {
                            let _deleted = handle_shell_char(&mut self.shell, '\x08', &self.clock);
                            console.push(ConsoleOp::Backspace);
                        }
                    } else if ch == '\n' {
                        console = handle_shell_char(&mut self.shell, '\n', &self.clock);
                    } else if ch == '\t' {
                        set_colors(&mut console, Color::yellow(), Color::black());
                        say(&mut console, ">   ");
                        set_colors(&mut console, Color::white(), Color::black());
                    } else {
                        console = handle_shell_char(&mut self.shell, ch, &self.clock);
                        let fg = if state.caps_lock && (('a' <= ch && ch <= 'z') || ('A' <= ch && ch <= 'Z')) {
                            Color::red()
                        } else if state.shift_pressed {
                            Color::blue()
                        } else {
                            Color::green()
                        };
                        set_colors(&mut console, fg, Color::black());
                        let mut t: Vec<char> = Vec::new();
                        t.push(ch);
                        assert(t@ =~= seq![ch]);
                        say_chars(&mut console, t);
                        set_colors(&mut console, Color::white(), Color::black());
                    }
                },
                None => {
                    set_colors(&mut console, Color::yellow(), Color::black());
                    let mut t: Vec<char> = Vec::new();
                    t.push('[');
                    push_decimal(&mut t, scancode as u128);
                    t.push(']');
                    assert(t@ =~= seq!['['] + dec(scancode as nat) + seq![']']);
                    say_chars(&mut console, t);
                    set_colors(&mut console, Color::white(), Color::black());
                },
            }
        }
        assert(ops_view(console@) =~= key_output(old(self).keyboard, scancode,
            old(self).shell.line(), old(self).shell.count(), old(self).clock));
        console
    }
}

} // verus!
