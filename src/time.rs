use vstd::prelude::*;

verus! {

/// Milliseconds per second.
pub const MS_PER_SECOND: u64 = 1000;
/// Seconds per day.
pub const SECONDS_PER_DAY: u64 = 86400;
/// Seconds per hour.
pub const SECONDS_PER_HOUR: u64 = 3600;
/// Seconds per minute.
pub const SECONDS_PER_MINUTE: u64 = 60;

/// The system clock: a tick counter advanced by the timer interrupt.
pub struct TimeManager {
    system_ticks: u64,
    ms_per_tick: u32,
    initialized: bool,
}

impl TimeManager {
    /// Ticks counted since the last initialization.
    pub closed spec fn ticks(&self) -> u64 {
        self.system_ticks
    }

    /// Length of one tick in milliseconds.
    pub closed spec fn ms_tick(&self) -> u32 {
        self.ms_per_tick
    }

    /// Whether the clock has been initialized.
    pub closed spec fn ready(&self) -> bool {
        self.initialized
    }

    /// Elapsed time in milliseconds: ticks times the tick length, held at
    /// `u64::MAX` should the product not fit; zero before initialization.
    pub open spec fn uptime(&self) -> int {
        if !self.ready() {
            0
        } else if self.ticks() as int * self.ms_tick() as int > u64::MAX as int {
            u64::MAX as int
        } else {
            self.ticks() as int * self.ms_tick() as int
        }
    }

    /// Tick count after one timer tick: one more when initialized, unless the
    /// counter is already at its largest value.
    pub open spec fn ticked(&self) -> u64 {
        if self.ready() && self.ticks() < u64::MAX { (self.ticks() + 1) as u64 } else { self.ticks() }
    }

    /// A clock that has not been initialized; ticks are ignored until it is.
    pub fn new() -> (r: TimeManager)
        ensures
            !r.ready(),
            r.ticks() == 0,
            r.ms_tick() == 10,
    {
        TimeManager { system_ticks: 0, ms_per_tick: 10, initialized: false }
    }

    /// Starts (or restarts) the clock at zero with the given tick length.
    pub fn initialize(&mut self, ms_per_tick: u32)
        ensures
            final(self).ready(),
            final(self).ticks() == 0,
            final(self).ms_tick() == ms_per_tick,
    {
        self.ms_per_tick = ms_per_tick;
        self.system_ticks = 0;
        self.initialized = true;
    }

    /// Counts one timer tick if the clock is initialized.
    pub fn tick(&mut self)
        ensures
            final(self).ready() == old(self).ready(),
            final(self).ms_tick() == old(self).ms_tick(),
            final(self).ticks() == old(self).ticked(),
    {
        if self.initialized && self.system_ticks < u64::MAX {
            self.system_ticks = self.system_ticks + 1;
        }
    }

    /// Elapsed milliseconds (see `uptime`).
    pub fn get_uptime_ms(&self) -> (r: u64)
        ensures
            r == self.uptime(),
    {
        if self.initialized {
            proof {
                let (a, b) = (self.system_ticks as int, self.ms_per_tick as int);
                assert(a * b <= u64::MAX as int * u32::MAX as int) by (nonlinear_arith)
                    requires 0 <= a <= u64::MAX as int, 0 <= b <= u32::MAX as int;
            }
            let product = (self.system_ticks as u128) * (self.ms_per_tick as u128);
            if product > u64::MAX as u128 {
                u64::MAX
            } else {
                product as u64
            }
        } else {
            0
        }
    }

    /// Elapsed whole seconds.
    pub fn get_uptime_seconds(&self) -> (r: u64)
        ensures
            r == self.uptime() / 1000,
    {
        self.get_uptime_ms() / MS_PER_SECOND
    }

    /// Elapsed time broken down into days, hours, minutes, seconds and milliseconds.
    pub fn get_uptime_formatted(&self) -> (r: UptimeInfo)
        ensures
            r == breakdown(self.uptime() as u64),
            r.wf(),
    {
        let total_ms = self.get_uptime_ms();
        let total_seconds = self.get_uptime_seconds();
        let days = total_seconds / SECONDS_PER_DAY;
        let hours = (total_seconds % SECONDS_PER_DAY) / SECONDS_PER_HOUR;
        let minutes = (total_seconds % SECONDS_PER_HOUR) / SECONDS_PER_MINUTE;
        let seconds = total_seconds % SECONDS_PER_MINUTE;
        let milliseconds = (total_ms % MS_PER_SECOND) as u16;
        let r = UptimeInfo { days, hours, minutes, seconds, milliseconds, total_ms, total_seconds };
        proof {
            lemma_breakdown_wf(total_ms);
        }
        r
    }

    /// Ticks counted since initialization.
    pub fn get_tick_count(&self) -> (r: u64)
        ensures
            r == self.ticks(),
    {
        self.system_ticks
    }

    /// Whether the clock has been initialized.
    pub fn is_initialized(&self) -> (r: bool)
        ensures
            r == self.ready(),
    {
        self.initialized
    }
}

/// Elapsed time split into calendar-like parts.
#[derive(Debug, Clone, Copy, PartialEq, Eq, Structural)]
pub struct UptimeInfo {
    pub days: u64,
    pub hours: u64,
    pub minutes: u64,
    pub seconds: u64,
    pub milliseconds: u16,
    pub total_ms: u64,
    pub total_seconds: u64,
}

/// The breakdown of `total_ms` milliseconds.
pub open spec fn breakdown(total_ms: u64) -> UptimeInfo {
    let s = total_ms / 1000;
    UptimeInfo {
        days: s / 86400,
        hours: (s % 86400) / 3600,
        minutes: (s % 3600) / 60,
        seconds: s % 60,
        milliseconds: (total_ms % 1000) as u16,
        total_ms,
        total_seconds: s,
    }
}

proof fn lemma_breakdown_wf(total_ms: u64)
    ensures
        breakdown(total_ms).wf(),
{
    let s = total_ms / 1000;
    assert(s / 86400 <= u64::MAX / 86400) by (nonlinear_arith)
        requires s <= u64::MAX;
}

impl UptimeInfo {
    /// Whole hours, days included, fit in 64 bits.
    pub open spec fn wf(&self) -> bool {
        self.days * 24 + self.hours <= u64::MAX
    }

    /// Wraps the breakdown for display.
    pub fn format_detailed(&self) -> (r: FormattedUptime)
        ensures
            r.info() == *self,
    {
        FormattedUptime { uptime_info: *self }
    }

    /// Elapsed whole seconds.
    pub fn get_uptime_seconds(&self) -> (r: u64)
        ensures
            r == self.total_seconds,
    {
        self.total_seconds
    }
}

/// An uptime breakdown prepared for display.
pub struct FormattedUptime {
    uptime_info: UptimeInfo,
}

impl FormattedUptime {
    /// The breakdown being displayed.
    pub closed spec fn info(&self) -> UptimeInfo {
        self.uptime_info
    }

    /// Hours (days folded in), minutes and seconds.
    pub fn short_format(&self) -> (r: (u64, u64, u64))
        requires
            self.info().wf(),
        ensures
            r == (
                (self.info().days * 24 + self.info().hours) as u64,
                self.info().minutes,
                self.info().seconds,
            ),
    {
        (
            self.uptime_info.hours + self.uptime_info.days * 24,
            self.uptime_info.minutes,
            self.uptime_info.seconds,
        )
    }

    /// Days, hours, minutes, seconds and milliseconds.
    pub fn detailed_format(&self) -> (r: (u64, u64, u64, u64, u16))
        ensures
            r == (
                self.info().days,
                self.info().hours,
                self.info().minutes,
                self.info().seconds,
                self.info().milliseconds,
            ),
    {
        (
            self.uptime_info.days,
            self.uptime_info.hours,
            self.uptime_info.minutes,
            self.uptime_info.seconds,
            self.uptime_info.milliseconds,
        )
    }

    /// Total elapsed milliseconds.
    pub fn total_milliseconds(&self) -> (r: u64)
        ensures
            r == self.info().total_ms,
    {
        self.uptime_info.total_ms
    }
}

/// Initializes the given clock with the tick length.
pub fn init(clock: &mut TimeManager, ms_per_tick: u32)
    ensures
        final(clock).ready(),
        final(clock).ticks() == 0,
        final(clock).ms_tick() == ms_per_tick,
{
    clock.initialize(ms_per_tick);
}

/// Counts one timer tick on the given clock.
pub fn tick(clock: &mut TimeManager)
    ensures
        final(clock).ready() == old(clock).ready(),
        final(clock).ms_tick() == old(clock).ms_tick(),
        final(clock).ticks() == old(clock).ticked(),
{
    clock.tick();
}

/// The uptime breakdown of the given clock.
pub fn get_uptime(clock: &TimeManager) -> (r: UptimeInfo)
    ensures
        r == breakdown(clock.uptime() as u64),
        r.wf(),
{
    clock.get_uptime_formatted()
}

/// Elapsed milliseconds of the given clock.
pub fn get_uptime_ms(clock: &TimeManager) -> (r: u64)
    ensures
        r == clock.uptime(),
{
    clock.get_uptime_ms()
}

/// Tick count of the given clock.
pub fn get_tick_count(clock: &TimeManager) -> (r: u64)
    ensures
        r == clock.ticks(),
{
    clock.get_tick_count()
}

/// Whether the given clock has been initialized.
pub fn is_initialized(clock: &TimeManager) -> (r: bool)
    ensures
        r == clock.ready(),
{
    clock.is_initialized()
}

/// Counts `ticks` timer ticks in a row, as that many timer interrupts would.
pub fn simulate_time_passage(clock: &mut TimeManager, ticks: u64)
    requires
        old(clock).ready() ==> old(clock).ticks() as int + ticks as int <= u64::MAX as int,
    ensures
        final(clock).ready() == old(clock).ready(),
        final(clock).ms_tick() == old(clock).ms_tick(),
        final(clock).ticks() == if old(clock).ready() {
            (old(clock).ticks() + ticks) as u64
        } else {
            old(clock).ticks()
        },
{
    let mut i: u64 = 0;
    while i < ticks
        invariant
            i <= ticks,
            clock.ready() == old(clock).ready(),
            clock.ms_tick() == old(clock).ms_tick(),
            clock.ticks() == if old(clock).ready() {
                (old(clock).ticks() + i) as u64
            } else {
                old(clock).ticks()
            },
            old(clock).ready() ==> old(clock).ticks() as int + ticks as int <= u64::MAX as int,
        decreases ticks - i,
    {
        clock.tick();
        i = i + 1;
    }
}

/// After initializing with ten-millisecond ticks and counting `n` ticks, the
/// uptime is `10 * n` milliseconds and `(10 * n) / 1000` seconds, as long as
/// `10 * n` fits in 64 bits (beyond that the uptime holds at `u64::MAX`).
pub proof fn lemma_uptime_after_ticks(before: TimeManager, after: TimeManager, n: u64)
    requires
        before.ready(),
        before.ticks() == 0,
        before.ms_tick() == 10,
        after.ready(),
        after.ms_tick() == 10,
        after.ticks() == n,
        10 * n <= u64::MAX,
    ensures
        after.uptime() == 10 * n,
        after.uptime() / 1000 == (10 * n) / 1000,
{
}

/// One tick of an initialized clock below the counter's limit adds exactly
/// one to the count, whatever the tick length.
pub proof fn lemma_tick_adds_one(c: TimeManager)
    requires
        c.ready(),
        c.ticks() < u64::MAX,
    ensures
        c.ticked() == c.ticks() + 1,
{
}

} // verus!
