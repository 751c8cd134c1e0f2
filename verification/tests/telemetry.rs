use monolith::telemetry::{MeasurementSnapshot, TelemetryStore};

#[test]
fn push_updates_latest() {
    let mut store = TelemetryStore::new(10);

    store.push(MeasurementSnapshot { timestamp_ms: 1, value: 10.0f64 });

    let latest = store.latest().unwrap();
    assert_eq!(latest.value, 10.0);
}

#[test]
fn push_adds_history() {
    let mut store = TelemetryStore::new(10);

    store.push(MeasurementSnapshot { timestamp_ms: 1, value: 10.0f64 });
    store.push(MeasurementSnapshot { timestamp_ms: 2, value: 20.0f64 });

    let history = store.history();

    assert_eq!(history.len(), 2);
    assert_eq!(history[0].y, 10.0);
    assert_eq!(history[1].y, 20.0);
}

#[test]
fn respects_max_points() {
    let mut store = TelemetryStore::new(2);

    store.push(MeasurementSnapshot { timestamp_ms: 1, value: 10.0f64 });
    store.push(MeasurementSnapshot { timestamp_ms: 2, value: 20.0f64 });
    store.push(MeasurementSnapshot { timestamp_ms: 3, value: 30.0f64 });

    let history = store.history();

    assert_eq!(history.len(), 2);
    assert_eq!(history[0].x, 2);
    assert_eq!(history[1].x, 3);
}

#[test]
fn new_store_is_empty() {
    let store: TelemetryStore<f64> = TelemetryStore::new(3);
    assert!(store.latest().is_none());
    assert!(store.history().is_empty());
}

#[test]
fn zero_capacity_keeps_no_history_but_a_latest() {
    let mut store = TelemetryStore::new(0);
    store.push(MeasurementSnapshot { timestamp_ms: 7, value: 1u8 });
    assert!(store.history().is_empty());
    assert_eq!(store.latest().unwrap().timestamp_ms, 7);
}

#[test]
fn history_is_the_last_window_of_pushes() {
    let mut store = TelemetryStore::new(3);
    for t in 0..10i64 {
        store.push(MeasurementSnapshot { timestamp_ms: t, value: t * 10 });
    }
    let xs: Vec<i64> = store.history().iter().map(|p| p.x).collect();
    let ys: Vec<i64> = store.history().iter().map(|p| p.y).collect();
    assert_eq!(xs, vec![7, 8, 9]);
    assert_eq!(ys, vec![70, 80, 90]);
    assert_eq!(store.latest().unwrap().value, 90);
}
