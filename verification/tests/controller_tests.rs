use libserpix_rs::controller::{
    sleep_remainder, ActuationController, Command, DEFAULT_LEVEL, DEFAULT_SCALE,
    DEFAULT_THRESHOLD_LOW, DEFAULT_TICK_RATE, TICK_PERIOD_MILLIS,
};
use libserpix_rs::record::TelemetryRecord;

const K: u64 = 160_000;
const FULL: u64 = 2 * K;

/// Steps that make up this many thousandths of full intensity at scale `K`.
fn per_mille(x: u64) -> u64 {
    x * FULL / 1000
}

fn healing(amount: u64) -> TelemetryRecord {
    TelemetryRecord { healing: amount, overhealing: 0 }
}

fn controller(threshold_low: u64, tick_rate: u64, level: u64) -> ActuationController {
    ActuationController::new(K, threshold_low, tick_rate, level).unwrap()
}

#[test]
fn healing_then_decay_to_zero() {
    let mut c = controller(0, per_mille(25), per_mille(200));
    c.apply_record(&healing(32_000));
    assert_eq!(c.level(), per_mille(400));
    assert_eq!(c.level() as f64 / c.full_scale() as f64, 0.40);
    for tick in 1..=8u64 {
        c.tick(None);
        assert_eq!(c.level(), per_mille(400) - tick * per_mille(25));
    }
    assert_eq!(c.level(), per_mille(200));
    for _ in 0..7 {
        c.tick(None);
    }
    assert_eq!(c.level(), per_mille(25));
    c.tick(None);
    assert_eq!(c.level(), 0);
    for _ in 0..100 {
        assert_eq!(c.tick(None), Command::Stop);
        assert_eq!(c.level(), 0);
    }
}

#[test]
fn healing_is_capped_at_full() {
    let mut c = controller(0, 0, per_mille(900));
    c.apply_record(&healing(K));
    assert_eq!(c.level(), FULL);
    c.apply_record(&healing(1));
    assert_eq!(c.level(), FULL);
    c.apply_record(&healing(u64::MAX));
    assert_eq!(c.level(), FULL);

    let mut c = controller(0, 0, 0);
    c.apply_record(&healing(K / 2));
    assert_eq!(c.level(), FULL / 2);
    c.apply_record(&healing(K / 2 - 1));
    assert_eq!(c.level(), FULL - 2);
    c.apply_record(&healing(1));
    assert_eq!(c.level(), FULL);
}

#[test]
fn overhealing_counts_half_below_the_threshold() {
    let mut c = controller(per_mille(500), 0, per_mille(100));
    c.apply_record(&TelemetryRecord { healing: 16_000, overhealing: 32_000 });
    assert_eq!(c.level(), per_mille(100) + 2 * 16_000 + 32_000);
    assert_eq!(c.level(), per_mille(300));

    let mut c = controller(per_mille(500), 0, per_mille(450));
    c.apply_record(&TelemetryRecord { healing: 16_000, overhealing: 32_000 });
    assert_eq!(c.level(), per_mille(550));

    let mut c = controller(per_mille(500), 0, per_mille(100));
    c.apply_record(&TelemetryRecord { healing: 0, overhealing: 7 });
    assert_eq!(c.level(), per_mille(100) + 7);
}

#[test]
fn overhealing_is_capped_at_full() {
    let mut c = controller(per_mille(500), 0, per_mille(100));
    c.apply_record(&TelemetryRecord { healing: 0, overhealing: 10 * K });
    assert_eq!(c.level(), FULL);
    let mut c = controller(u64::MAX, 0, 0);
    c.apply_record(&TelemetryRecord { healing: u64::MAX, overhealing: u64::MAX });
    assert_eq!(c.level(), FULL);
}

#[test]
fn decay_clamps_small_and_negative_to_zero() {
    let mut c = controller(0, per_mille(25), per_mille(20));
    c.decay();
    assert_eq!(c.level(), 0);

    let mut c = controller(0, per_mille(25), per_mille(30));
    c.decay();
    assert_eq!(c.level(), 0);

    let mut c = controller(0, per_mille(25), per_mille(35));
    c.decay();
    assert_eq!(c.level(), per_mille(10));

    let mut c = controller(0, per_mille(25), per_mille(35) - 1);
    c.decay();
    assert_eq!(c.level(), 0);

    let mut c = controller(0, 0, per_mille(10) - 1);
    c.decay();
    assert_eq!(c.level(), 0);

    let mut c = controller(0, 0, per_mille(10));
    c.decay();
    assert_eq!(c.level(), per_mille(10));

    let mut c = controller(0, u64::MAX, FULL);
    c.decay();
    assert_eq!(c.level(), 0);
}

#[test]
fn command_is_stop_at_or_below_two_hundredths() {
    assert_eq!(controller(0, 0, 0).command(), Command::Stop);
    assert_eq!(controller(0, 0, per_mille(20)).command(), Command::Stop);
    assert_eq!(
        controller(0, 0, per_mille(20) + 1).command(),
        Command::SetSpeed { level: per_mille(20) + 1, full_scale: FULL }
    );
    assert_eq!(
        controller(0, 0, FULL).command(),
        Command::SetSpeed { level: FULL, full_scale: FULL }
    );
}

#[test]
fn tick_commands_before_it_decays() {
    let mut c = controller(0, per_mille(25), per_mille(30));
    assert_eq!(c.tick(None), Command::SetSpeed { level: per_mille(30), full_scale: FULL });
    assert_eq!(c.level(), 0);
    assert_eq!(c.tick(None), Command::Stop);

    let mut c = controller(0, per_mille(25), 0);
    let command = c.tick(Some(healing(32_000)));
    assert_eq!(command, Command::SetSpeed { level: per_mille(200), full_scale: FULL });
    assert_eq!(c.level(), per_mille(175));
}

#[test]
fn intensity_stays_in_range_under_any_input() {
    let mut state: u64 = 0x9e37_79b9_7f4a_7c15;
    let mut next = move || {
        state ^= state << 13;
        state ^= state >> 7;
        state ^= state << 17;
        state
    };
    for round in 0..200 {
        let scale = 1 + next() % 1_000_000;
        let full = 2 * scale;
        let level = next() % (full + 1);
        let mut c =
            ActuationController::new(scale, next() % (3 * full), next() % full, level).unwrap();
        for _ in 0..200 {
            let input = match next() % 4 {
                0 => None,
                1 => Some(TelemetryRecord { healing: next() % scale, overhealing: next() % scale }),
                2 => Some(TelemetryRecord { healing: next(), overhealing: next() }),
                _ => Some(TelemetryRecord { healing: 0, overhealing: next() % 10 }),
            };
            let before = c.level();
            let command = c.tick(input);
            assert!(c.level() <= full, "round {}", round);
            match command {
                Command::Stop => assert!(input.is_some() || 50 * before as u128 <= full as u128),
                Command::SetSpeed { level, full_scale } => {
                    assert_eq!(full_scale, full);
                    assert!(level <= full);
                    assert!(50 * level as u128 > full as u128);
                    assert!(input.is_some() || level == before);
                }
            }
        }
    }
}

#[test]
fn controller_rejects_settings_out_of_range() {
    assert!(ActuationController::new(0, 0, 0, 0).is_none());
    assert!(ActuationController::new(1, 0, 0, 3).is_none());
    assert!(ActuationController::new(1, 0, 0, 2).is_some());
    assert!(ActuationController::new(u64::MAX / 2, 0, 0, u64::MAX - 1).is_some());
    assert!(ActuationController::new(u64::MAX / 2 + 1, 0, 0, 0).is_none());
    assert!(ActuationController::new(u64::MAX, 0, 0, 0).is_none());
}

#[test]
fn defaults_are_a_fifth_of_full_and_a_slow_decay() {
    let mut c = ActuationController::with_defaults();
    assert_eq!(c.full_scale(), 2 * DEFAULT_SCALE);
    assert_eq!(c.level(), DEFAULT_LEVEL);
    assert_eq!(c.level() as f64 / c.full_scale() as f64, 0.20);
    assert_eq!(DEFAULT_TICK_RATE as f64 / c.full_scale() as f64, 60.0 / 1000.0 / 40.0);
    assert_eq!(DEFAULT_THRESHOLD_LOW as f64 / c.full_scale() as f64, 20.0);
    c.tick(None);
    assert_eq!(c.level(), DEFAULT_LEVEL - DEFAULT_TICK_RATE);
    c.apply_record(&TelemetryRecord { healing: 1, overhealing: 1 });
    assert_eq!(c.level(), DEFAULT_LEVEL - DEFAULT_TICK_RATE + 3);
}

#[test]
fn sleep_is_the_rest_of_the_period() {
    assert_eq!(TICK_PERIOD_MILLIS, 1000 / 60);
    assert_eq!(sleep_remainder(16, 0), 16);
    assert_eq!(sleep_remainder(16, 5), 11);
    assert_eq!(sleep_remainder(16, 15), 1);
    assert_eq!(sleep_remainder(16, 16), 0);
    assert_eq!(sleep_remainder(16, 17), 0);
    assert_eq!(sleep_remainder(16, u64::MAX), 0);
    assert_eq!(sleep_remainder(0, 0), 0);
    assert_eq!(sleep_remainder(u64::MAX, 1), u64::MAX - 1);
}
