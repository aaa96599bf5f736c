use opnsense_dashboard::cpu::{Cpu, CpuUsage, Ticks};
use opnsense_dashboard::rate::{CounterState, Rate, Sample};
use opnsense_dashboard::usage::Usage;

#[test]
fn first_sample_has_no_rate() {
    let mut counter = CounterState::new();
    assert_eq!(counter.rate(), None);
    assert_eq!(counter.observe(Sample { value: 1000, at: 0 }), None);
    assert_eq!(counter.latest(), Some(Sample { value: 1000, at: 0 }));
}

#[test]
fn rate_is_difference_over_elapsed_time() {
    let mut counter = CounterState::new();
    counter.record(Sample { value: 1000, at: 0 });
    let rate = counter.observe(Sample { value: 3000, at: 1_000_000 });
    assert_eq!(rate, Some(Rate { change: 2000, elapsed: 1_000_000 }));
    assert_eq!(rate.unwrap().per_second(), Some(2000));
}

#[test]
fn rate_follows_every_pair_of_samples() {
    let samples = [(10u64, 5u64), (40, 15), (40, 25), (100, 26)];
    let mut counter = CounterState::new();
    let mut rates = Vec::new();
    for (value, at) in samples {
        rates.push(counter.observe(Sample { value, at }));
    }
    assert_eq!(
        rates,
        vec![
            None,
            Some(Rate { change: 30, elapsed: 10 }),
            Some(Rate { change: 0, elapsed: 10 }),
            Some(Rate { change: 60, elapsed: 1 }),
        ]
    );
}

#[test]
fn same_instant_has_no_rate() {
    let mut counter = CounterState::new();
    counter.record(Sample { value: 1, at: 7 });
    assert_eq!(counter.observe(Sample { value: 9, at: 7 }), None);
}

#[test]
fn decreasing_counter_gives_negative_rate() {
    let mut counter = CounterState::new();
    counter.record(Sample { value: 5000, at: 0 });
    let rate = counter.observe(Sample { value: 2000, at: 2_000_000 }).unwrap();
    assert_eq!(rate, Rate { change: -3000, elapsed: 2_000_000 });
    assert_eq!(rate.per_second(), Some(-1500));
}

#[test]
fn per_second_rounds_toward_zero() {
    assert_eq!(Rate { change: 10, elapsed: 3_000_000 }.per_second(), Some(3));
    assert_eq!(Rate { change: -10, elapsed: 3_000_000 }.per_second(), Some(-3));
    assert_eq!(Rate { change: 10, elapsed: -3_000_000 }.per_second(), Some(-3));
    assert_eq!(Rate { change: -10, elapsed: -3_000_000 }.per_second(), Some(3));
    assert_eq!(Rate { change: 1, elapsed: 1 }.per_second(), Some(1_000_000));
    assert_eq!(Rate { change: 1, elapsed: i128::MIN }.per_second(), Some(0));
}

#[test]
fn per_second_is_unknown_without_time_or_room() {
    assert_eq!(Rate { change: 5, elapsed: 0 }.per_second(), None);
    assert_eq!(Rate { change: i128::MAX, elapsed: 1 }.per_second(), None);
    assert_eq!(Rate { change: i128::MIN, elapsed: 1 }.per_second(), None);
    let most = i128::MAX / 1_000_000;
    assert_eq!(Rate { change: most, elapsed: 1 }.per_second(), Some(most * 1_000_000));
    assert_eq!(Rate { change: most + 1, elapsed: 1 }.per_second(), None);
}

#[test]
fn cpu_usage_is_one_minus_idle_share() {
    let mut cpu = Cpu::new();
    assert_eq!(cpu.usage(), None);
    cpu.record(Ticks { user: 100, nice: 0, system: 50, interrupt: 10, idle: 840 });
    assert_eq!(cpu.usage(), None);
    cpu.record(Ticks { user: 150, nice: 0, system: 70, interrupt: 20, idle: 1760 });
    assert_eq!(cpu.usage(), Some(CpuUsage { busy: 80, total: 1000 }));
}

#[test]
fn cpu_usage_unknown_without_ticks() {
    let mut cpu = Cpu::new();
    let ticks = Ticks { user: 1, nice: 2, system: 3, interrupt: 4, idle: 5 };
    cpu.record(ticks);
    cpu.record(ticks);
    assert_eq!(cpu.usage(), None);
}

#[test]
fn usage_in_percent() {
    assert_eq!(Usage { used: 50, max: 100 }.percent(), Some(50));
    assert_eq!(Usage { used: 1, max: 3 }.percent(), Some(33));
    assert_eq!(Usage { used: 1, max: 3 }.per_mille(), Some(333));
    assert_eq!(Usage { used: 1, max: 0 }.percent(), None);
    assert_eq!(Usage { used: u64::MAX, max: 1 }.per_mille(), Some(u64::MAX as u128 * 1000));
}
