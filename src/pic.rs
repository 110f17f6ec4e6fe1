use vstd::prelude::*;

verus! {

/// One byte written to one I/O port.
#[derive(Clone, Copy, Debug, PartialEq, Eq, Structural)]
pub struct PortWrite {
    pub port: u16,
    pub value: u8,
}

/// Command port of the primary interrupt controller.
pub const PIC1_COMMAND: u16 = 0x20;
/// Data (mask) port of the primary interrupt controller.
pub const PIC1_DATA: u16 = 0x21;
/// Command port of the secondary interrupt controller.
pub const PIC2_COMMAND: u16 = 0xA0;
/// Data (mask) port of the secondary interrupt controller.
pub const PIC2_DATA: u16 = 0xA1;
/// Unused port written to give the hardware a moment between commands.
pub const IO_WAIT_PORT: u16 = 0x80;

/// Initialization command word: start the sequence, expect a fourth word.
pub const ICW1_INIT: u8 = 0x11;
/// Fourth initialization word: 8086 mode.
pub const ICW4_8086: u8 = 0x01;
/// End-of-interrupt command.
pub const EOI: u8 = 0x20;
/// Line of the primary controller that the secondary one is wired to.
pub const CASCADE_LINE: u8 = 2;

/// First vector of the primary controller's lines (past the CPU exceptions).
pub const PIC1_OFFSET: u8 = 32;
/// First vector of the secondary controller's lines.
pub const PIC2_OFFSET: u8 = 40;
/// Vector of the timer line (line 0).
pub const TIMER_INTERRUPT_ID: u8 = 32;
/// Vector of the keyboard line (line 1).
pub const KEYBOARD_INTERRUPT_ID: u8 = 33;

pub open spec fn out(port: u16, value: u8) -> PortWrite {
    PortWrite { port, value }
}

pub open spec fn io_wait() -> PortWrite {
    out(IO_WAIT_PORT, 0)
}

/// The controllers' initialization: mask every line, run the four command
/// words on both controllers, then mask every line again.
pub open spec fn pic_init_sequence() -> Seq<PortWrite> {
    seq![
        out(PIC1_DATA, 0xFF), out(PIC2_DATA, 0xFF),
        out(PIC1_COMMAND, ICW1_INIT), io_wait(), out(PIC2_COMMAND, ICW1_INIT), io_wait(),
        out(PIC1_DATA, PIC1_OFFSET), io_wait(), out(PIC2_DATA, PIC2_OFFSET), io_wait(),
        out(PIC1_DATA, 4), io_wait(), out(PIC2_DATA, 2), io_wait(),
        out(PIC1_DATA, ICW4_8086), io_wait(), out(PIC2_DATA, ICW4_8086), io_wait(),
        out(PIC1_DATA, 0xFF), out(PIC2_DATA, 0xFF),
    ]
}

/// `mask` with bit `bit` cleared.
pub open spec fn unmasked(mask: u8, bit: u8) -> u8 {
    mask & !(1u8 << bit)
}

/// The acknowledgments for `vector`: the secondary controller first when the
/// vector is one of its lines, then always the primary.
pub open spec fn eoi_sequence(vector: u8) -> Seq<PortWrite> {
    if vector >= PIC2_OFFSET {
        seq![out(PIC2_COMMAND, EOI), out(PIC1_COMMAND, EOI)]
    } else {
        seq![out(PIC1_COMMAND, EOI)]
    }
}

pub(crate) fn push_wait(v: &mut Vec<PortWrite>)
    ensures
        final(v)@ == old(v)@.push(io_wait()),
{
    v.push(PortWrite { port: IO_WAIT_PORT, value: 0 });
}

/// The pair of cascaded interrupt controllers, with the mask each holds.
pub struct Pics {
    primary_mask: u8,
    secondary_mask: u8,
}

impl Pics {
    /// Mask register of the primary controller.
    pub closed spec fn primary(&self) -> u8 {
        self.primary_mask
    }

    /// Mask register of the secondary controller.
    pub closed spec fn secondary(&self) -> u8 {
        self.secondary_mask
    }

    /// The cascade line is open whenever a secondary line is.
    pub open spec fn wf(&self) -> bool {
        self.secondary() != 0xFF ==> unmasked(self.primary(), CASCADE_LINE) == self.primary()
    }

    /// Controllers with every line masked.
    pub fn new() -> (r: Pics)
        ensures
            r.wf(),
            r.primary() == 0xFF,
            r.secondary() == 0xFF,
    {
        Pics { primary_mask: 0xFF, secondary_mask: 0xFF }
    }

    /// Remaps both controllers to their vector offsets and masks every line.
    /// Returns the port writes to perform, in order.
    pub fn initialize(&mut self) -> (r: Vec<PortWrite>)
        ensures
            r@ == pic_init_sequence(),
            final(self).wf(),
            final(self).primary() == 0xFF,
            final(self).secondary() == 0xFF,
    {
        let mut v: Vec<PortWrite> = Vec::new();
        v.push(PortWrite { port: PIC1_DATA, value: 0xFF });
        v.push(PortWrite { port: PIC2_DATA, value: 0xFF });
        v.push(PortWrite { port: PIC1_COMMAND, value: ICW1_INIT });
        push_wait(&mut v);
        v.push(PortWrite { port: PIC2_COMMAND, value: ICW1_INIT });
        push_wait(&mut v);
        v.push(PortWrite { port: PIC1_DATA, value: PIC1_OFFSET });
        push_wait(&mut v);
        v.push(PortWrite { port: PIC2_DATA, value: PIC2_OFFSET });
        push_wait(&mut v);
        v.push(PortWrite { port: PIC1_DATA, value: 4 });
        push_wait(&mut v);
        v.push(PortWrite { port: PIC2_DATA, value: 2 });
        push_wait(&mut v);
        v.push(PortWrite { port: PIC1_DATA, value: ICW4_8086 });
        push_wait(&mut v);
        v.push(PortWrite { port: PIC2_DATA, value: ICW4_8086 });
        push_wait(&mut v);
        v.push(PortWrite { port: PIC1_DATA, value: 0xFF });
        v.push(PortWrite { port: PIC2_DATA, value: 0xFF });
        self.primary_mask = 0xFF;
        self.secondary_mask = 0xFF;
        assert(v@ =~= pic_init_sequence());
        v
    }

    /// Unmasks line `irq`: lines 0 to 7 on the primary controller, 8 to 15 on
    /// the secondary one, whose cascade line on the primary is opened too.
    /// Returns the mask writes to perform.
    pub fn enable_interrupt(&mut self, irq: u8) -> (r: Vec<PortWrite>)
        requires
            old(self).wf(),
            irq < 16,
        ensures
            final(self).wf(),
            irq < 8 ==> {
                &&& final(self).primary() == unmasked(old(self).primary(), irq)
                &&& final(self).secondary() == old(self).secondary()
                &&& r@ == seq![out(PIC1_DATA, final(self).primary())]
            },
            irq >= 8 ==> {
                &&& final(self).secondary() == unmasked(old(self).secondary(), (irq - 8) as u8)
                &&& final(self).primary() == unmasked(old(self).primary(), CASCADE_LINE)
                &&& r@ == seq![
                    out(PIC2_DATA, final(self).secondary()),
                    out(PIC1_DATA, final(self).primary()),
                ]
            },
    {
        let mut v: Vec<PortWrite> = Vec::new();
        if irq < 8 {
            let m = self.primary_mask & !(1u8 << irq);
            proof {
                let p = self.primary_mask;
                let c = CASCADE_LINE;
                assert(p & !(1u8 << c) == p ==> (p & !(1u8 << irq)) & !(1u8 << c)
                    == p & !(1u8 << irq)) by (bit_vector)
                    requires irq < 8, c == 2;
            }
            self.primary_mask = m;
            v.push(PortWrite { port: PIC1_DATA, value: m });
        } else {
            let s = self.secondary_mask & !(1u8 << (irq - 8));
            let p = self.primary_mask & !(1u8 << CASCADE_LINE);
            proof {
                let q = self.primary_mask;
                let c = CASCADE_LINE;
                assert((q & !(1u8 << c)) & !(1u8 << c) == q & !(1u8 << c)) by (bit_vector)
                    requires c == 2;
            }
            self.secondary_mask = s;
            self.primary_mask = p;
            v.push(PortWrite { port: PIC2_DATA, value: s });
            v.push(PortWrite { port: PIC1_DATA, value: p });
        }
        assert(irq < 8 ==> v@ =~= seq![out(PIC1_DATA, self.primary())]);
        assert(irq >= 8 ==> v@ =~= seq![out(PIC2_DATA, self.secondary()), out(PIC1_DATA, self.primary())]);
        v
    }

    /// The acknowledgment writes for an interrupt delivered on `interrupt_id`.
    pub fn end_of_interrupt(&self, interrupt_id: u8) -> (r: Vec<PortWrite>)
        ensures
            r@ == eoi_sequence(interrupt_id),
    {
        let mut v: Vec<PortWrite> = Vec::new();
        if interrupt_id >= PIC2_OFFSET {
            v.push(PortWrite { port: PIC2_COMMAND, value: EOI });
        }
        v.push(PortWrite { port: PIC1_COMMAND, value: EOI });
        assert(v@ =~= eoi_sequence(interrupt_id));
        v
    }
}

/// Initializes the given controllers; returns the port writes to perform.
pub fn init(pics: &mut Pics) -> (r: Vec<PortWrite>)
    ensures
        r@ == pic_init_sequence(),
        final(pics).wf(),
        final(pics).primary() == 0xFF,
        final(pics).secondary() == 0xFF,
{
    pics.initialize()
}

/// Unmasks the timer line (line 0).
pub fn enable_timer(pics: &mut Pics) -> (r: Vec<PortWrite>)
    requires
        old(pics).wf(),
    ensures
        final(pics).wf(),
        final(pics).primary() == unmasked(old(pics).primary(), 0),
        final(pics).secondary() == old(pics).secondary(),
        r@ == seq![out(PIC1_DATA, final(pics).primary())],
{
    pics.enable_interrupt(0)
}

/// Unmasks the keyboard line (line 1).
pub fn enable_keyboard(pics: &mut Pics) -> (r: Vec<PortWrite>)
    requires
        old(pics).wf(),
    ensures
        final(pics).wf(),
        final(pics).primary() == unmasked(old(pics).primary(), 1),
        final(pics).secondary() == old(pics).secondary(),
        r@ == seq![out(PIC1_DATA, final(pics).primary())],
{
    pics.enable_interrupt(1)
}

/// The acknowledgment writes for an interrupt delivered on `interrupt_id`.
pub fn end_of_interrupt(pics: &Pics, interrupt_id: u8) -> (r: Vec<PortWrite>)
    ensures
        r@ == eoi_sequence(interrupt_id),
{
    pics.end_of_interrupt(interrupt_id)
}

/// A vector of the secondary controller is acknowledged with exactly two
/// writes, secondary then primary; any other vector with exactly one, to the
/// primary.
pub proof fn lemma_eoi_count(vector: u8)
    ensures
        vector >= PIC2_OFFSET ==> eoi_sequence(vector).len() == 2
            && eoi_sequence(vector)[0] == out(PIC2_COMMAND, EOI)
            && eoi_sequence(vector)[1] == out(PIC1_COMMAND, EOI),
        vector < PIC2_OFFSET ==> eoi_sequence(vector).len() == 1
            && eoi_sequence(vector)[0] == out(PIC1_COMMAND, EOI),
{
}

} // verus!
