use trip_engine::CanonicalEvent;
use trip_engine::DateTime;
use trip_engine::MessageDestination;
use trip_engine::ProcessOutcome;
use trip_engine::ProcessingError;
use trip_engine::TripStore;

fn ts(hour: u32, minute: u32) -> DateTime {
    DateTime {
        year: 2025,
        month: 12,
        day: 3,
        hour,
        minute,
        second: 0,
    }
}

fn event(
    device: &str,
    id: u128,
    stamp: DateTime,
    lat: i64,
    lon: i64,
    alert: Option<&str>,
) -> CanonicalEvent {
    CanonicalEvent {
        device_id: device.to_string(),
        event_id: id,
        timestamp: stamp,
        latitude: lat,
        longitude: lon,
        speed: lat / 2,
        heading: 0,
        odometer: 0,
        alert: alert.map(|a| a.to_string()),
        raw_code: None,
        metadata_json: "{}".to_string(),
    }
}

fn state_of<'a>(
    store: &'a TripStore,
    device: &str,
) -> Option<&'a trip_engine::DeviceCurrentState> {
    store.states.iter().find(|s| s.device_id == device)
}

#[test]
fn scenario_engine_on_creates_trip() {
    let mut store = TripStore::new();
    let t1 = ts(8, 0);
    let e1 = event("dev-a", 0xE1, t1, 1_000_000, 2_000_000, Some("ENGINE ON"));
    let r = store.handle_event(&e1, 0xA1);
    assert_eq!(r, Ok(MessageDestination::NewTrip));

    assert_eq!(store.trips.len(), 1);
    assert_eq!(store.trips[0].trip_id, 0xE1);
    assert_eq!(store.trips[0].device_id, "dev-a");
    assert_eq!(store.trips[0].start_time, t1);
    assert_eq!(store.trips[0].start_lat, 1_000_000);
    assert_eq!(store.trips[0].start_lng, 2_000_000);
    assert!(store.trips[0].end_time.is_none());

    let st = state_of(&store, "dev-a").unwrap();
    assert!(st.ignition_on);
    assert_eq!(st.current_trip_id, Some(0xE1));
    assert_eq!(st.last_point_at, t1);
    assert_eq!(st.last_speed, Some(500_000));

    assert_eq!(store.alerts.len(), 1);
    assert_eq!(store.alerts[0].alert_type, "ignition_on");
    assert_eq!(store.alerts[0].trip_id, 0xE1);
    assert_eq!(store.alerts[0].alert_id, 0xA1);
    assert_eq!(store.alerts[0].severity, 1);
    assert_eq!(store.points.len(), 0);
    assert_eq!(store.idle.len(), 0);
}

#[test]
fn scenario_point_appended_to_open_trip() {
    let mut store = TripStore::new();
    let t1 = ts(8, 0);
    let t2 = ts(8, 5);
    store
        .handle_event(
            &event("dev-a", 0xE1, t1, 0, 0, Some("ENGINE ON")),
            0xA1,
        )
        .unwrap();
    let e2 = event("dev-a", 0xE2, t2, 1_000_000, 2_000_000, None);
    let r = store.handle_event(&e2, 0xA2);
    assert_eq!(r, Ok(MessageDestination::TripPoint));

    assert_eq!(store.points.len(), 1);
    assert_eq!(store.points[0].trip_id, 0xE1);
    assert_eq!(store.points[0].timestamp, t2);
    assert_eq!(store.points[0].lat, 1_000_000);
    assert_eq!(store.points[0].lng, 2_000_000);
    assert_eq!(store.points[0].correlation_id, 0xE2);

    let st = state_of(&store, "dev-a").unwrap();
    assert_eq!(st.last_point_at, t2);
    assert_eq!(st.last_lat, 1_000_000);
    assert_eq!(st.last_lng, 2_000_000);
    assert_eq!(st.last_correlation_id, 0xE2);
    assert_eq!(store.trips.len(), 1);
    assert_eq!(store.alerts.len(), 1);
}

#[test]
fn scenario_turn_off_closes_trip() {
    let mut store = TripStore::new();
    let t1 = ts(8, 0);
    let t3 = ts(9, 0);
    store
        .handle_event(
            &event("dev-a", 0xE1, t1, 0, 0, Some("ENGINE ON")),
            0xA1,
        )
        .unwrap();
    let e3 = event("dev-a", 0xE3, t3, 3_000_000, 4_000_000, Some("TURN OFF"));
    let r = store.handle_event(&e3, 0xA3);
    assert_eq!(r, Ok(MessageDestination::EndTrip));

    assert_eq!(store.trips.len(), 1);
    assert_eq!(store.trips[0].end_time, Some(t3));
    assert_eq!(store.trips[0].end_lat, Some(3_000_000));
    assert_eq!(store.trips[0].end_lng, Some(4_000_000));

    let st = state_of(&store, "dev-a").unwrap();
    assert!(!st.ignition_on);
    assert_eq!(st.current_trip_id, None);

    assert_eq!(store.alerts.len(), 2);
    assert_eq!(store.alerts[1].alert_type, "ignition_off");
    assert_eq!(store.alerts[1].trip_id, 0xE1);
}

#[test]
fn scenario_idle_alert_archived_without_trip() {
    let mut store = TripStore::new();
    let t1 = ts(7, 0);
    let e = CanonicalEvent {
        metadata_json: "{\"WORKER_ID\":3}".to_string(),
        ..event("dev-b", 0xE9, t1, 5, 6, Some("LOW BATTERY"))
    };
    let r = store.handle_event(&e, 0xA9);
    assert_eq!(r, Ok(MessageDestination::IdleActivity));

    assert_eq!(store.trips.len(), 0);
    assert_eq!(store.alerts.len(), 0);
    assert_eq!(store.points.len(), 0);
    assert_eq!(store.idle.len(), 1);
    assert_eq!(store.idle[0].activity_type, "LOW BATTERY");
    assert_eq!(store.idle[0].metadata, "{\"WORKER_ID\":3}");
    assert_eq!(store.idle[0].idle_id, 0xA9);

    let st = state_of(&store, "dev-b").unwrap();
    assert!(!st.ignition_on);
    assert_eq!(st.last_point_at, t1);
}

#[test]
fn scenario_malformed_payload_writes_nothing() {
    let mut store = TripStore::new();
    let r = store.process_message(b"{not json at all");
    assert_eq!(r, Ok(ProcessOutcome::Dropped));
    assert_eq!(store.states.len(), 0);
    assert_eq!(store.trips.len(), 0);
    assert_eq!(store.points.len(), 0);
    assert_eq!(store.alerts.len(), 0);
    assert_eq!(store.idle.len(), 0);

    // A well-formed document that names no device is dropped the same way.
    let r2 = store.process_message(
        b"{\"data\":{\"GPS_DATETIME\":\"2025-12-03 19:58:16\"},\"metadata\":{},\"uuid\":\"x\"}",
    );
    assert_eq!(r2, Ok(ProcessOutcome::Dropped));
    assert_eq!(store.states.len(), 0);
}

#[test]
fn serialized_ignitions_create_one_trip() {
    let mut store = TripStore::new();
    let r1 = store.handle_event(
        &event("dev-a", 0xE1, ts(8, 0), 0, 0, Some("ENGINE ON")),
        0xA1,
    );
    let r2 = store.handle_event(
        &event("dev-a", 0xE2, ts(8, 1), 0, 0, Some("Turn On")),
        0xA2,
    );
    assert_eq!(r1, Ok(MessageDestination::NewTrip));
    assert_eq!(r2, Ok(MessageDestination::IgnoredIgnitionOn));
    assert_eq!(store.trips.len(), 1);
    let open: Vec<_> = store
        .trips
        .iter()
        .filter(|t| t.end_time.is_none())
        .collect();
    assert_eq!(open.len(), 1);
}

#[test]
fn last_point_updated_on_every_destination() {
    let mut store = TripStore::new();
    let steps = [
        (0xE1u128, Some("LOW BATTERY")), // idle
        (0xE2, Some("TURN OFF")),        // ignored ignition off
        (0xE3, Some("ENGINE ON")),       // new trip
        (0xE4, Some("Engine On")),       // ignored ignition on
        (0xE5, Some("SPEEDING")),        // trip alert
        (0xE6, None),                    // trip point
        (0xE7, Some("ENGINE OFF")),      // end trip
    ];
    for (i, (id, alert)) in steps.iter().enumerate() {
        let stamp = ts(10, i as u32);
        let lat = (i as i64 + 1) * 10;
        store
            .handle_event(&event("dev-a", *id, stamp, lat, -lat, *alert), *id + 0x100)
            .unwrap();
        let st = state_of(&store, "dev-a").unwrap();
        assert_eq!(st.last_point_at, stamp);
        assert_eq!(st.last_lat, lat);
        assert_eq!(st.last_lng, -lat);
        assert_eq!(st.last_speed, Some(lat / 2));
        assert_eq!(st.last_correlation_id, *id);
    }
}

#[test]
fn duplicate_trip_id_is_refused_whole() {
    let mut store = TripStore::new();
    store
        .handle_event(&event("dev-a", 0xE1, ts(8, 0), 0, 0, Some("ENGINE ON")), 0xA1)
        .unwrap();
    store
        .handle_event(&event("dev-a", 0xE2, ts(9, 0), 0, 0, Some("ENGINE OFF")), 0xA2)
        .unwrap();
    let trips_before = store.trips.len();
    let alerts_before = store.alerts.len();
    // The same event id arrives again as an ignition-on: the trip insert
    // would violate the primary key, so nothing of the step lands.
    let r = store.handle_event(&event("dev-a", 0xE1, ts(10, 0), 7, 8, Some("ENGINE ON")), 0xA3);
    assert_eq!(r, Err(ProcessingError::DuplicateTrip));
    assert_eq!(store.trips.len(), trips_before);
    assert_eq!(store.alerts.len(), alerts_before);
    let st = state_of(&store, "dev-a").unwrap();
    assert_ne!(st.last_correlation_id, 0xE1);
}

#[test]
fn unresolvable_alert_is_dropped_with_state_refresh() {
    // A drifted store: the ignition flag claims a trip, but there is no
    // trip row to attach the alert to. The alert write is skipped; the
    // last-seen fields still move.
    let mut store = TripStore::new();
    store
        .handle_event(&event("dev-a", 0xE1, ts(8, 0), 0, 0, Some("ENGINE ON")), 0xA1)
        .unwrap();
    store.trips.clear();
    store.states[0].current_trip_id = None;
    let r = store.handle_event(&event("dev-a", 0xE2, ts(8, 5), 9, 9, Some("SPEEDING")), 0xA2);
    assert_eq!(r, Ok(MessageDestination::TripAlert));
    assert_eq!(store.alerts.len(), 1); // only the synthetic ignition_on
    let st = state_of(&store, "dev-a").unwrap();
    assert_eq!(st.last_correlation_id, 0xE2);
    assert!(st.ignition_on);
}

#[test]
fn recovery_finds_open_trip_when_state_lost_its_id() {
    // State drift the other way: the trip row is there, the state row no
    // longer names it. The engine recovers the id from the open trip.
    let mut store = TripStore::new();
    store
        .handle_event(&event("dev-a", 0xE1, ts(8, 0), 0, 0, Some("ENGINE ON")), 0xA1)
        .unwrap();
    store.states[0].current_trip_id = None;
    let r = store.handle_event(&event("dev-a", 0xE2, ts(8, 5), 1, 2, None), 0xA2);
    assert_eq!(r, Ok(MessageDestination::TripPoint));
    assert_eq!(store.points.len(), 1);
    assert_eq!(store.points[0].trip_id, 0xE1);
}

#[test]
fn process_message_end_to_end_creates_trip() {
    let payload = r#"
    {
        "data": {
            "ALERT": "Turn On",
            "COURSE": "128",
            "DEVICE_ID": "867564050638581",
            "GPS_DATETIME": "2025-12-03 19:58:16",
            "LATITUD": "20.605243",
            "LONGITUD": "-100.384140",
            "ODOMETER": "121.8",
            "SPEED": "33.9"
        },
        "metadata": {
            "BYTES": 158,
            "WORKER_ID": 3
        },
        "uuid": "40f8ef36-4d01-50cd-88da-06fad8a19bac"
    }
    "#;
    let mut store = TripStore::new();
    let r = store.process_message(payload.as_bytes());
    assert_eq!(r, Ok(ProcessOutcome::Handled(MessageDestination::NewTrip)));
    assert_eq!(store.trips.len(), 1);
    assert_eq!(store.trips[0].trip_id, 0x40f8ef364d0150cd88da06fad8a19bacu128);
    assert_eq!(store.trips[0].device_id, "867564050638581");
    assert_eq!(store.trips[0].start_lat, 20_605_243);
    assert_eq!(store.trips[0].start_lng, -100_384_140);
    assert_eq!(
        store.trips[0].start_time,
        DateTime {
            year: 2025,
            month: 12,
            day: 3,
            hour: 19,
            minute: 58,
            second: 16
        }
    );
    assert_eq!(store.alerts.len(), 1);
    assert_eq!(store.alerts[0].alert_type, "ignition_on");
}
