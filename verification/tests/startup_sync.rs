use airsonos2::ids::ZoneId;
use airsonos2::sync::{
    combine_sync_delay, delays_from_offsets, StartupDelayEstimator, ZoneStartupTiming,
};
use airsonos2::text_map::TextMap;

fn lag(ms: u64) -> ZoneStartupTiming {
    ZoneStartupTiming {
        first_bytes_ms: Some(ms),
        ..ZoneStartupTiming::default()
    }
}

#[test]
fn the_lag_is_the_latest_step() {
    assert_eq!(ZoneStartupTiming::default().lag_ms(), None);
    let timing = ZoneStartupTiming {
        set_uri_ms: Some(10),
        subscriber_connect_ms: Some(40),
        first_bytes_ms: None,
        play_ms: Some(30),
    };
    assert_eq!(timing.lag_ms(), Some(40));
}

#[test]
fn faster_rooms_wait_for_the_slowest() {
    let (kitchen, office) = (ZoneId::new("Kitchen"), ZoneId::new("Office"));
    let rooms = vec![kitchen.clone(), office.clone()];
    let mut estimator = StartupDelayEstimator::new(20, 3);
    for ms in [300, 100, 200] {
        estimator.record(&kitchen, &lag(ms));
    }
    assert_eq!(estimator.automatic_delay_ms(&rooms, &kitchen, 1_000), 0);
    for ms in [500, 900, 700, 600] {
        estimator.record(&office, &lag(ms));
    }
    // The medians are 200 and 650.
    assert_eq!(estimator.automatic_delay_ms(&rooms, &kitchen, 1_000), 450);
    assert_eq!(estimator.automatic_delay_ms(&rooms, &kitchen, 400), 400);
    assert_eq!(estimator.automatic_delay_ms(&rooms, &office, 1_000), 0);
    assert_eq!(
        estimator.automatic_delay_ms(&[kitchen.clone()], &kitchen, 1_000),
        0
    );
}

#[test]
fn rooms_without_enough_samples_are_left_alone() {
    let (kitchen, office) = (ZoneId::new("Kitchen"), ZoneId::new("Office"));
    let rooms = vec![kitchen.clone(), office.clone()];
    let mut estimator = StartupDelayEstimator::new(20, 2);
    estimator.record(&kitchen, &lag(100));
    estimator.record(&kitchen, &ZoneStartupTiming::default());
    for _ in 0..2 {
        estimator.record(&office, &lag(400));
    }
    assert_eq!(estimator.automatic_delay_ms(&rooms, &kitchen, 1_000), 0);
    estimator.record(&kitchen, &lag(100));
    assert_eq!(estimator.automatic_delay_ms(&rooms, &kitchen, 1_000), 300);
}

#[test]
fn old_samples_are_forgotten() {
    let (kitchen, office) = (ZoneId::new("Kitchen"), ZoneId::new("Office"));
    let rooms = vec![kitchen.clone(), office.clone()];
    let mut estimator = StartupDelayEstimator::new(2, 1);
    estimator.record(&office, &lag(500));
    for ms in [5_000, 100, 300] {
        estimator.record(&kitchen, &lag(ms));
    }
    assert_eq!(estimator.automatic_delay_ms(&rooms, &kitchen, 1_000), 300);
    let mut none = StartupDelayEstimator::new(0, 0);
    none.record(&kitchen, &lag(1));
    none.record(&office, &lag(9));
    assert_eq!(none.automatic_delay_ms(&rooms, &kitchen, 1_000), 0);
}

#[test]
fn delays_add_up_and_never_fall_below_zero() {
    assert_eq!(combine_sync_delay(100, 80, 20), 200);
    assert_eq!(combine_sync_delay(100, -80, 0), 20);
    assert_eq!(combine_sync_delay(100, -80, -40), 0);
    assert_eq!(combine_sync_delay(u64::MAX, i64::MAX, 0), u64::MAX);
    assert_eq!(combine_sync_delay(0, i64::MIN, i64::MIN), 0);
}

#[test]
fn zones_are_delayed_to_the_greatest_offset() {
    let mut offsets = TextMap::new();
    offsets.insert("Office".to_owned(), 80);
    offsets.insert("Kitchen".to_owned(), 120);
    offsets.insert("Den".to_owned(), -10);
    let delays = delays_from_offsets(&offsets);
    let plan: Vec<(&str, u64)> = delays
        .iter()
        .map(|delay| (delay.zone_id.as_str(), delay.delay_ms))
        .collect();
    assert_eq!(plan, vec![("Den", 130), ("Kitchen", 0), ("Office", 40)]);
    let mut far = TextMap::new();
    far.insert("a".to_owned(), i64::MIN);
    far.insert("b".to_owned(), i64::MAX);
    assert_eq!(delays_from_offsets(&far)[0].delay_ms, u64::MAX);
    assert!(delays_from_offsets(&TextMap::new()).is_empty());
}
