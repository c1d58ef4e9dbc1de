use trip_engine::determine_destination;
use trip_engine::is_ignition_off;
use trip_engine::is_ignition_on;
use trip_engine::MessageDestination;

#[test]
fn test_is_ignition_on_engine_on() {
    assert!(is_ignition_on(Some("ENGINE ON")));
    assert!(is_ignition_on(Some("engine on")));
    assert!(is_ignition_on(Some("Engine On")));
}

#[test]
fn test_is_ignition_on_turn_on_queclink() {
    assert!(is_ignition_on(Some("TURN ON")));
    assert!(is_ignition_on(Some("turn on")));
    assert!(is_ignition_on(Some("Turn On")));
}

#[test]
fn test_is_ignition_on_negative_cases() {
    assert!(!is_ignition_on(None));
    assert!(!is_ignition_on(Some("")));
    assert!(!is_ignition_on(Some("ENGINE OFF")));
    assert!(!is_ignition_on(Some("TURN OFF")));
    assert!(!is_ignition_on(Some("SPEEDING")));
    assert!(!is_ignition_on(Some("LOW BATTERY")));
}

#[test]
fn test_is_ignition_off_engine_off() {
    assert!(is_ignition_off(Some("ENGINE OFF")));
    assert!(is_ignition_off(Some("engine off")));
    assert!(is_ignition_off(Some("Engine Off")));
}

#[test]
fn test_is_ignition_off_turn_off_queclink() {
    assert!(is_ignition_off(Some("TURN OFF")));
    assert!(is_ignition_off(Some("turn off")));
    assert!(is_ignition_off(Some("Turn Off")));
}

#[test]
fn test_is_ignition_off_negative_cases() {
    assert!(!is_ignition_off(None));
    assert!(!is_ignition_off(Some("")));
    assert!(!is_ignition_off(Some("ENGINE ON")));
    assert!(!is_ignition_off(Some("TURN ON")));
    assert!(!is_ignition_off(Some("SPEEDING")));
}

#[test]
fn test_destination_queclink_turn_on_no_active_trip() {
    let dest = determine_destination(Some("Turn On"), false);
    assert_eq!(dest, MessageDestination::NewTrip);
}

#[test]
fn test_destination_queclink_turn_on_with_active_trip() {
    let dest = determine_destination(Some("Turn On"), true);
    assert_eq!(dest, MessageDestination::IgnoredIgnitionOn);
}

#[test]
fn test_destination_queclink_turn_off_with_active_trip() {
    let dest = determine_destination(Some("Turn Off"), true);
    assert_eq!(dest, MessageDestination::EndTrip);
}

#[test]
fn test_destination_queclink_turn_off_no_active_trip() {
    let dest = determine_destination(Some("Turn Off"), false);
    assert_eq!(dest, MessageDestination::IgnoredIgnitionOff);
}

#[test]
fn test_destination_engine_on_no_active_trip() {
    let dest = determine_destination(Some("ENGINE ON"), false);
    assert_eq!(dest, MessageDestination::NewTrip);
}

#[test]
fn test_destination_engine_off_with_active_trip() {
    let dest = determine_destination(Some("ENGINE OFF"), true);
    assert_eq!(dest, MessageDestination::EndTrip);
}

#[test]
fn test_destination_alert_with_active_trip() {
    let dest = determine_destination(Some("SPEEDING"), true);
    assert_eq!(dest, MessageDestination::TripAlert);

    let dest = determine_destination(Some("LOW BATTERY"), true);
    assert_eq!(dest, MessageDestination::TripAlert);
}

#[test]
fn test_destination_no_alert_with_active_trip() {
    let dest = determine_destination(None, true);
    assert_eq!(dest, MessageDestination::TripPoint);

    let dest = determine_destination(Some(""), true);
    assert_eq!(dest, MessageDestination::TripPoint);

    let dest = determine_destination(Some("   "), true);
    assert_eq!(dest, MessageDestination::TripPoint);
}

#[test]
fn test_destination_no_alert_no_active_trip() {
    let dest = determine_destination(None, false);
    assert_eq!(dest, MessageDestination::IdleActivity);
}

#[test]
fn test_destination_other_alert_no_active_trip() {
    let dest = determine_destination(Some("LOW BATTERY"), false);
    assert_eq!(dest, MessageDestination::IdleActivity);

    let dest = determine_destination(Some("SPEEDING"), false);
    assert_eq!(dest, MessageDestination::IdleActivity);
}

#[test]
fn test_queclink_gtvgn_message_should_create_trip() {
    let alert = Some("Turn On");
    let is_trip_active = false;

    let dest = determine_destination(alert, is_trip_active);

    assert_eq!(
        dest,
        MessageDestination::NewTrip,
        "El mensaje GTVGN de Queclink con 'Turn On' debe crear un nuevo trip"
    );
}
