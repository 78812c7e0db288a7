use bifrost_ecs::countdown::{Timer, TimerScheduler, Timers};
use bifrost_ecs::time::Time;

const SECOND: u64 = 1_000_000;

#[test]
fn once_timer_fires_on_third_tick_then_is_purged() {
    let mut timers: Timers<u8> = Timers::new();
    timers.add_timer(Timer::new("boom", 2 * SECOND, TimerScheduler::Once, Some(7)));
    assert!(timers.update(SECOND).is_empty());
    assert_eq!(timers.timers.len(), 1);
    assert!(timers.update(SECOND / 2).is_empty());
    assert_eq!(timers.timers[0].time, 3 * SECOND / 2);
    assert_eq!(timers.update(6 * SECOND / 10), vec![7]);
    assert!(timers.timers.is_empty());
    assert!(timers.update(SECOND).is_empty());
}

#[test]
fn repeat_timer_fires_once_per_crossing() {
    let mut timers: Timers<u8> = Timers::new();
    timers.add_timer(Timer::new("tick", SECOND, TimerScheduler::Repeat, Some(1)));
    let step = 6 * SECOND / 10;
    assert!(timers.update(step).is_empty());
    assert_eq!(timers.update(step), vec![1]);
    assert_eq!(timers.timers[0].time, 0);
    assert!(timers.update(step).is_empty());
    assert_eq!(timers.update(step), vec![1]);
    assert_eq!(timers.timers.len(), 1);
}

#[test]
fn stopped_timer_is_purged_without_firing() {
    let mut timers: Timers<u8> = Timers::new();
    timers.add_timer(Timer::new("a", SECOND, TimerScheduler::Repeat, Some(1)));
    timers.add_timer(Timer::new("b", SECOND, TimerScheduler::Repeat, Some(2)));
    timers.add_timer(Timer::new("a", SECOND, TimerScheduler::Repeat, Some(3)));
    timers.stop_timer("a");
    assert!(timers.timers[0].mark_destroy);
    assert!(!timers.timers[2].mark_destroy);
    assert_eq!(timers.update(SECOND), vec![2, 3]);
    assert_eq!(timers.timers.len(), 2);
    assert_eq!(timers.timers[0].name, "b");
    timers.stop_timer("missing");
    assert_eq!(timers.timers.len(), 2);
}

#[test]
fn timer_without_callback_still_fires() {
    let mut t: Timer<u8> = Timer::new("x", 5, TimerScheduler::Once, None);
    assert!(!t.update(4));
    assert!(t.update(1));
    assert!(t.mark_destroy);
    assert!(!t.update(10));
    let mut timers: Timers<u8> = Timers::new();
    timers.add_timer(Timer::new("y", 5, TimerScheduler::Once, None));
    assert!(timers.update(5).is_empty());
    assert!(timers.timers.is_empty());
}

#[test]
fn timer_time_saturates() {
    let mut t: Timer<u8> = Timer::new("x", u64::MAX, TimerScheduler::Once, None);
    assert!(!t.update(u64::MAX - 1));
    assert!(t.update(5));
    assert_eq!(t.time, u64::MAX);
}

#[test]
fn clock_update_measures_delta() {
    let mut c = Time::new(1_000);
    assert_eq!(c.delta_time, 0);
    c.update(1_500);
    assert_eq!(c.delta_time, 500);
    assert_eq!(c.time, 500);
    assert_eq!(c.last_time, 1_500);
    c.update(1_200);
    assert_eq!(c.delta_time, 0);
    assert_eq!(c.time, 500);
    c.update(2_200);
    assert_eq!(c.delta_time, 1_000);
    assert_eq!(c.time, 1_500);
}
