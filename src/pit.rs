use vstd::prelude::*;
use crate::pic::{PortWrite, out, io_wait, push_wait};

verus! {

/// Timer channel 0 data port.
pub const PIT_CHANNEL_0: u16 = 0x40;
/// Timer command port.
pub const PIT_COMMAND: u16 = 0x43;
/// Base frequency of the timer's counter, in Hz.
pub const PIT_BASE_FREQUENCY: u32 = 1193182;
/// Rate the timer is programmed to, in Hz.
pub const TARGET_FREQUENCY: u32 = 100;
/// Channel 0, low byte then high byte, rate generator, binary.
pub const PIT_COMMAND_BYTE: u8 = 0x34;

/// The divisor that makes the timer fire at `TARGET_FREQUENCY`.
pub open spec fn pit_divisor() -> u32 {
    PIT_BASE_FREQUENCY / TARGET_FREQUENCY
}

/// The timer's programming: mode command, then the divisor's low byte, then
/// its high byte, each followed by a pause.
pub open spec fn pit_init_sequence() -> Seq<PortWrite> {
    seq![
        out(PIT_COMMAND, PIT_COMMAND_BYTE), io_wait(),
        out(PIT_CHANNEL_0, (pit_divisor() % 256) as u8), io_wait(),
        out(PIT_CHANNEL_0, ((pit_divisor() / 256) % 256) as u8), io_wait(),
    ]
}

/// The periodic timer.
pub struct Pit {
    initialized: bool,
}

impl Pit {
    /// Whether the timer has been programmed.
    pub closed spec fn ready(&self) -> bool {
        self.initialized
    }

    /// A timer that has not been programmed.
    pub fn new() -> (r: Pit)
        ensures
            !r.ready(),
    {
        Pit { initialized: false }
    }

    /// Programs channel 0 to fire at `TARGET_FREQUENCY`; returns the port
    /// writes to perform.
    pub fn initialize(&mut self) -> (r: Vec<PortWrite>)
        ensures
            r@ == pit_init_sequence(),
            final(self).ready(),
    {
        let divisor: u32 = PIT_BASE_FREQUENCY / TARGET_FREQUENCY;
        let low = (divisor % 256) as u8;
        let high = ((divisor / 256) % 256) as u8;
        let mut v: Vec<PortWrite> = Vec::new();
        v.push(PortWrite { port: PIT_COMMAND, value: PIT_COMMAND_BYTE });
        push_wait(&mut v);
        v.push(PortWrite { port: PIT_CHANNEL_0, value: low });
        push_wait(&mut v);
        v.push(PortWrite { port: PIT_CHANNEL_0, value: high });
        push_wait(&mut v);
        self.initialized = true;
        assert(v@ =~= pit_init_sequence());
        v
    }

    /// Whether the timer has been programmed.
    pub fn is_initialized(&self) -> (r: bool)
        ensures
            r == self.ready(),
    {
        self.initialized
    }

    /// The programmed rate in Hz.
    pub fn get_frequency(&self) -> (r: u32)
        ensures
            r == TARGET_FREQUENCY,
    {
        TARGET_FREQUENCY
    }

    /// Milliseconds between two ticks.
    pub fn get_interval_ms(&self) -> (r: u32)
        ensures
            r == 1000u32 / TARGET_FREQUENCY,
    {
        1000 / TARGET_FREQUENCY
    }
}

/// Programs the given timer; returns the port writes to perform.
pub fn init(pit: &mut Pit) -> (r: Vec<PortWrite>)
    ensures
        r@ == pit_init_sequence(),
        final(pit).ready(),
{
    pit.initialize()
}

/// The timer's rate in Hz and its period in milliseconds.
pub fn get_info(pit: &Pit) -> (r: (u32, u32))
    ensures
        r == (TARGET_FREQUENCY, 1000u32 / TARGET_FREQUENCY),
{
    (pit.get_frequency(), pit.get_interval_ms())
}

/// Whether the given timer has been programmed.
pub fn is_initialized(pit: &Pit) -> (r: bool)
    ensures
        r == pit.ready(),
{
    pit.is_initialized()
}

} // verus!
