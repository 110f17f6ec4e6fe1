use rust_os_console::time::{self, TimeManager};

#[test]
fn uninitialized_clock_ignores_ticks() {
    let mut c = TimeManager::new();
    c.tick();
    c.tick();
    assert!(!c.is_initialized());
    assert_eq!(c.get_tick_count(), 0);
    assert_eq!(c.get_uptime_ms(), 0);
    assert_eq!(c.get_uptime_seconds(), 0);
}

#[test]
fn ticks_accumulate_ten_ms_each() {
    for n in [0u64, 1, 99, 100, 250, 12345] {
        let mut c = TimeManager::new();
        c.initialize(10);
        for _ in 0..n {
            c.tick();
        }
        assert_eq!(c.get_uptime_ms(), 10 * n);
        assert_eq!(c.get_uptime_seconds(), (10 * n) / 1000);
        assert_eq!(c.get_tick_count(), n);
    }
}

#[test]
fn initialize_again_resets() {
    let mut c = TimeManager::new();
    time::init(&mut c, 10);
    time::simulate_time_passage(&mut c, 500);
    assert_eq!(time::get_uptime_ms(&c), 5000);
    time::init(&mut c, 10);
    assert_eq!(time::get_tick_count(&c), 0);
    assert!(time::is_initialized(&c));
}

#[test]
fn uptime_breakdown() {
    let mut c = TimeManager::new();
    time::init(&mut c, 10);
    // one day, two hours, three minutes, four seconds and 560 ms
    let ms: u64 = 86_400_000 + 2 * 3_600_000 + 3 * 60_000 + 4_000 + 560;
    time::simulate_time_passage(&mut c, ms / 10);
    let u = time::get_uptime(&c);
    assert_eq!((u.days, u.hours, u.minutes, u.seconds, u.milliseconds), (1, 2, 3, 4, 560));
    assert_eq!(u.total_ms, ms);
    assert_eq!(u.get_uptime_seconds(), ms / 1000);
    let f = u.format_detailed();
    assert_eq!(f.short_format(), (26, 3, 4));
    assert_eq!(f.detailed_format(), (1, 2, 3, 4, 560));
    assert_eq!(f.total_milliseconds(), ms);
    assert_eq!(c.get_uptime_formatted(), u);
}

#[test]
fn long_ticks_still_count_one_each() {
    let mut c = TimeManager::new();
    c.initialize(u32::MAX);
    for _ in 0..3 {
        c.tick();
    }
    assert_eq!(c.get_tick_count(), 3);
    assert_eq!(c.get_uptime_ms(), 3 * u32::MAX as u64);
    assert_eq!(c.get_uptime_seconds(), 3 * u32::MAX as u64 / 1000);
}
