use trip_engine::message::decode_message;
use trip_engine::message::FieldMap;
use trip_engine::CanonicalEvent;
use trip_engine::DateTime;

#[test]
fn test_parsing_problematic_payload() {
    let payload = r#"
    {
        "data": {
            "BACKUP_BATTERY_VOLTAGE": "12.34",
            "CELL_ID": "0376C501",
            "COURSE": "0.00",
            "DELIVERY_TYPE": "REAL TIME",
            "DEVICE_ID": "0848086072",
            "ENGINE_STATUS": "OFF",
            "FIRMWARE": "1.0.17",
            "FIX_": "1",
            "GPS_DATETIME": "2025-11-29 06:15:15",
            "GPS_EPOCH": "1764396915",
            "IDLE_TIME": "0",
            "LAC": "5B10",
            "LATITUD": "+20.652494",
            "LONGITUD": "-100.391404",
            "MAIN_BATTERY_VOLTAGE": "252",
            "MCC": "334",
            "MNC": "20",
            "MODEL": "84",
            "MSG_CLASS": "STATUS",
            "MSG_COUNTER": "0123",
            "ODOMETER": "0",
            "RX_LVL": "45",
            "SATELLITES": "9",
            "SPEED": "0.00",
            "SPEED_TIME": "1300",
            "TOTAL_DISTANCE": "0",
            "TRIP_DISTANCE": "0"
        },
        "decoded": {},
        "metadata": {
            "BYTES": 188,
            "CLIENT_IP": "44.204.32.23",
            "CLIENT_PORT": 47884,
            "DECODED_EPOCH": 1764398681921,
            "RECEIVED_EPOCH": 1764398681920,
            "WORKER_ID": 3
        },
        "raw": "...",
        "uuid": "d52b1454-d43d-50fa-99ca-79515c904162"
    }
    "#;

    let msg = decode_message(payload.as_bytes()).unwrap();
    assert_eq!(msg.data.latitude, Some(20_652_494));
    assert_eq!(msg.data.longitude, Some(-100_391_404));
    assert_eq!(msg.data.speed, Some(0));
    assert_eq!(msg.data.odometer, Some(0));
    assert_eq!(msg.data.device_id, Some("0848086072".to_string()));
}

#[test]
fn test_parsing_queclink_ignition_on() {
    let payload = r#"
    {
        "data": {
            "ALERT": "Turn On",
            "ALTITUDE": "1820.7",
            "CELL_ID": "03673721",
            "COURSE": "128",
            "DEVICE_ID": "867564050638581",
            "FIX_": "1",
            "GPS_DATETIME": "2025-12-03 19:58:16",
            "GPS_EPOCH": "1764791896",
            "LAC": "17AE",
            "LATITUD": "20.605243",
            "LONGITUD": "-100.384140",
            "MCC": "0334",
            "MNC": "0050",
            "MSG_CLASS": "ALERT",
            "MSG_COUNTER": "06C5",
            "ODOMETER": "121.8",
            "SPEED": "33.9"
        },
        "decoded": {
            "QueclinkRaw": {
                "ALTITUDE": "1820.7",
                "CELL_ID": "03673721",
                "CRS": "128",
                "DEVICE_ID": "867564050638581",
                "FIX": "1",
                "GPS_DATE_TIME": "20251203195816",
                "HEADER": "+RESP:GTVGN",
                "KILOMETERS": "121.8",
                "LAC": "17AE",
                "LAT": "20.605243",
                "LON": "-100.384140",
                "MCC": "0334",
                "MNC": "0050",
                "MSG_NUM": "06C5",
                "OFF_DURATION": "110",
                "PROTOCOL_VERSION": "8020070305",
                "RESERVED": "00",
                "RPT_TYPE": "4",
                "SEND_DATE_TIME": "20251203195818",
                "SPD": "33.9",
                "TRIP_HOURMETER": ""
            }
        },
        "metadata": {
            "BYTES": 158,
            "CLIENT_IP": "44.204.32.23",
            "CLIENT_PORT": 14362,
            "DECODED_EPOCH": 1764791898674,
            "RECEIVED_EPOCH": 1764791898673,
            "WORKER_ID": 3
        },
        "raw": "+RESP:GTVGN,8020070305,867564050638581,,00,4,110,1,33.9,128,1820.7,-100.384140,20.605243,20251203195816,0334,0050,17AE,03673721,00,,121.8,20251203195818,06C5$",
        "uuid": "40f8ef36-4d01-50cd-88da-06fad8a19bac"
    }
    "#;

    let msg = decode_message(payload.as_bytes()).unwrap();

    assert_eq!(msg.data.device_id, Some("867564050638581".to_string()));
    assert_eq!(msg.data.latitude, Some(20_605_243));
    assert_eq!(msg.data.longitude, Some(-100_384_140));
    assert_eq!(msg.data.speed, Some(33_900_000));
    assert_eq!(msg.data.heading, Some(128_000_000));
    assert_eq!(msg.data.odometer, Some(121_800_000));
    assert_eq!(
        msg.data.gps_datetime,
        Some("2025-12-03 19:58:16".to_string())
    );
    assert_eq!(msg.data.msg_class, Some("ALERT".to_string()));
    assert_eq!(msg.uuid, "40f8ef36-4d01-50cd-88da-06fad8a19bac");

    assert_eq!(msg.data.alert, Some("Turn On".to_string()));

    assert_eq!(msg.get_device_id(), Some(&"867564050638581".to_string()));
}

#[test]
fn field_map_normalizes_like_the_json_shape() {
    let mut fields = FieldMap::new();
    fields.push("DEVICE_ID".to_string(), "867564050638581".to_string());
    fields.push("ALERT".to_string(), "Turn On".to_string());
    fields.push("GPS_DATETIME".to_string(), "2025-12-03 19:58:16".to_string());
    fields.push("LATITUD".to_string(), "20.605243".to_string());
    fields.push("LONGITUD".to_string(), "-100.384140".to_string());
    fields.push("SPEED".to_string(), "33.9".to_string());
    fields.push("COURSE".to_string(), "128".to_string());
    fields.push("ODOMETER".to_string(), "121.8".to_string());
    fields.push("UUID".to_string(), "40f8ef36-4d01-50cd-88da-06fad8a19bac".to_string());

    let now = DateTime {
        year: 2025,
        month: 12,
        day: 3,
        hour: 20,
        minute: 0,
        second: 0,
    };
    let ev = CanonicalEvent::from_field_map(&fields, now, 5, "{\"WORKER_ID\":3}".to_string())
        .unwrap();
    assert_eq!(ev.device_id, "867564050638581");
    assert_eq!(ev.event_id, 0x40f8ef364d0150cd88da06fad8a19bacu128);
    assert_eq!(ev.timestamp.hour, 19);
    assert_eq!(ev.latitude, 20_605_243);
    assert_eq!(ev.longitude, -100_384_140);
    assert_eq!(ev.speed, 33_900_000);
    assert_eq!(ev.heading, 128_000_000);
    assert_eq!(ev.odometer, 121_800_000);
    assert_eq!(ev.alert, Some("Turn On".to_string()));
    assert_eq!(ev.metadata_json, "{\"WORKER_ID\":3}");
}

#[test]
fn field_map_falls_back_to_receipt_time_and_requires_a_device() {
    let now = DateTime {
        year: 2025,
        month: 12,
        day: 3,
        hour: 20,
        minute: 0,
        second: 0,
    };

    // An unreadable timestamp falls back to the adapter's instant.
    let mut fields = FieldMap::new();
    fields.push("DEVICE_ID".to_string(), "d1".to_string());
    fields.push("GPS_DATETIME".to_string(), "garbage".to_string());
    let ev = CanonicalEvent::from_field_map(&fields, now, 5, "{}".to_string()).unwrap();
    assert_eq!(ev.timestamp, now);
    assert_eq!(ev.event_id, 5);
    assert_eq!(ev.latitude, 0);

    // No device id: the event is dropped.
    let empty = FieldMap::new();
    assert!(CanonicalEvent::from_field_map(&empty, now, 5, "{}".to_string()).is_none());
}
