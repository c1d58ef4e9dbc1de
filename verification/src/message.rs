//! The canonical in-memory event and its normalization.
//!
//! Whatever the transport, a payload decodes into an `MqttMessage`: the raw
//! textual fields of the `data` block, the metadata bag, and the message id.
//! Normalization then builds the `CanonicalEvent` the engine consumes: the
//! device id resolved from either block, the id and timestamp parsed, every
//! numeric field read as fixed-point millionths with zero as default.

use vstd::prelude::*;

verus! {

use crate::datetime::datetime_of;
use crate::datetime::parse_datetime;
use crate::datetime::DateTime;
use crate::ids::parse_uuid;
use crate::ids::uuid_of;
use crate::json::doc_data_numeric;
use crate::json::doc_data_text;
use crate::json::doc_meta_device;
use crate::json::doc_meta_json;
use crate::json::doc_uuid;
use crate::json::payload_data_numeric;
use crate::json::payload_data_text;
use crate::json::payload_meta_device;
use crate::json::payload_meta_json;
use crate::json::payload_shape_ok;
use crate::json::payload_uuid;
use crate::num::i32_of;
use crate::num::micro_of;
use crate::num::parse_i32;
use crate::num::parse_micro;

/// The raw fields of a payload's `data` block. Numeric fields are already
/// coerced to fixed-point millionths; text fields are kept as they arrived.
pub struct Data {
    pub alert: Option<String>,
    pub msg_class: Option<String>,
    pub gps_datetime: Option<String>,
    pub latitude: Option<i64>,
    pub longitude: Option<i64>,
    pub speed: Option<i64>,
    pub odometer: Option<i64>,
    pub heading: Option<i64>,
    pub device_id: Option<String>,
    pub raw_code: Option<String>,
    pub correlation_id: Option<String>,
}

/// The payload's metadata bag: the device id it may carry, and the whole
/// block kept verbatim as JSON text for idle-activity archiving.
pub struct Metadata {
    pub device_id: Option<String>,
    pub raw_json: String,
}

/// A decoded payload: data block, metadata bag, and message id text.
pub struct MqttMessage {
    pub data: Data,
    pub metadata: Metadata,
    pub uuid: String,
}

/// The device id a message names: the data block's, or the metadata's.
pub open spec fn device_id_view(m: &MqttMessage) -> Option<Seq<char>> {
    match m.data.device_id {
        Some(d) => Some(d@),
        None => match m.metadata.device_id {
            Some(d) => Some(d@),
            None => None,
        },
    }
}

impl MqttMessage {
    /// The device id, taken from the data block when present, else from the
    /// metadata block.
    pub fn get_device_id(&self) -> (r: Option<&String>)
        ensures
            match r {
                Some(d) => device_id_view(self) == Some(d@),
                None => device_id_view(self) is None,
            },
    {
        match &self.data.device_id {
            Some(d) => Some(d),
            None => match &self.metadata.device_id {
                Some(d) => Some(d),
                None => None,
            },
        }
    }
}

/// The decoded value of an optional text field matches its named reading:
/// absent or null reads as `None`, a string as its content; any other
/// shape has no decoded value.
pub open spec fn text_field_is(o: Option<String>, n: Result<Option<Seq<char>>, ()>) -> bool {
    match n {
        Ok(Some(t)) => o is Some && o->0@ == t,
        Ok(None) => o is None,
        Err(_) => false,
    }
}

/// The fixed-point value a numeric field of the payload carries: its text
/// read as millionths, with anything unreadable counting as absent (the
/// engine defaults it to zero). A JSON number of a magnitude so extreme
/// that it prints in exponent form is outside the fixed-point grammar and
/// likewise reads as absent.
pub open spec fn micro_field_of(payload: Seq<u8>, key: Seq<char>) -> Option<i64> {
    match payload_data_numeric(payload, key) {
        Ok(Some(t)) => micro_of(t),
        _ => None,
    }
}

/// The payload decodes: the envelope shape holds, every text field is
/// absent, null or a string, and every numeric field is absent, null, a
/// string or a number.
pub open spec fn decode_accepted(payload: Seq<u8>) -> bool {
    &&& payload_shape_ok(payload)
    &&& payload_data_text(payload, "ALERT"@) is Ok
    &&& payload_data_text(payload, "MSG_CLASS"@) is Ok
    &&& payload_data_text(payload, "GPS_DATETIME"@) is Ok
    &&& payload_data_text(payload, "DEVICE_ID"@) is Ok
    &&& payload_data_text(payload, "raw_code"@) is Ok
    &&& payload_data_text(payload, "correlation_id"@) is Ok
    &&& payload_data_numeric(payload, "LATITUD"@) is Ok
    &&& payload_data_numeric(payload, "LONGITUD"@) is Ok
    &&& payload_data_numeric(payload, "SPEED"@) is Ok
    &&& payload_data_numeric(payload, "ODOMETER"@) is Ok
    &&& payload_data_numeric(payload, "COURSE"@) is Ok
    &&& payload_meta_device(payload) is Ok
}

/// Reads one numeric field of the payload as fixed-point millionths.
fn read_micro_field(payload: &[u8], key: &str) -> (r: Result<Option<i64>, ()>)
    ensures
        match r {
            Ok(v) => payload_data_numeric(payload@, key@) is Ok && v == micro_field_of(
                payload@,
                key@,
            ),
            Err(()) => payload_data_numeric(payload@, key@) is Err,
        },
{
    match doc_data_numeric(payload, key) {
        Ok(Some(t)) => Ok(parse_micro(t.as_str())),
        Ok(None) => Ok(None),
        Err(()) => Err(()),
    }
}

/// Decodes a payload into the canonical message shape.
///
/// The document must be the canonical envelope — a JSON object with an
/// object under `data`, an object under `metadata` and a string under
/// `uuid` — with text fields absent, null or strings, and numeric fields
/// absent, null, strings or numbers. Anything else is a malformed payload:
/// `None`, and the event is dropped. Each field of the result equals the
/// payload's named reading, numeric fields coerced to millionths.
pub fn decode_message(payload: &[u8]) -> (r: Option<MqttMessage>)
    ensures
        r is Some <==> decode_accepted(payload@),
        match r {
            Some(msg) => {
                &&& msg.uuid@ == payload_uuid(payload@)
                &&& text_field_is(msg.data.alert, payload_data_text(payload@, "ALERT"@))
                &&& text_field_is(msg.data.msg_class, payload_data_text(payload@, "MSG_CLASS"@))
                &&& text_field_is(
                    msg.data.gps_datetime,
                    payload_data_text(payload@, "GPS_DATETIME"@),
                )
                &&& text_field_is(msg.data.device_id, payload_data_text(payload@, "DEVICE_ID"@))
                &&& text_field_is(msg.data.raw_code, payload_data_text(payload@, "raw_code"@))
                &&& text_field_is(
                    msg.data.correlation_id,
                    payload_data_text(payload@, "correlation_id"@),
                )
                &&& msg.data.latitude == micro_field_of(payload@, "LATITUD"@)
                &&& msg.data.longitude == micro_field_of(payload@, "LONGITUD"@)
                &&& msg.data.speed == micro_field_of(payload@, "SPEED"@)
                &&& msg.data.odometer == micro_field_of(payload@, "ODOMETER"@)
                &&& msg.data.heading == micro_field_of(payload@, "COURSE"@)
                &&& text_field_is(msg.metadata.device_id, payload_meta_device(payload@))
                &&& msg.metadata.raw_json@ == payload_meta_json(payload@)
            },
            None => true,
        },
{
    let uuid_text = match doc_uuid(payload) {
        Some(u) => u,
        None => {
            return None;
        },
    };
    let alert = match doc_data_text(payload, "ALERT") {
        Ok(v) => v,
        Err(()) => {
            return None;
        },
    };
    let msg_class = match doc_data_text(payload, "MSG_CLASS") {
        Ok(v) => v,
        Err(()) => {
            return None;
        },
    };
    let gps_datetime = match doc_data_text(payload, "GPS_DATETIME") {
        Ok(v) => v,
        Err(()) => {
            return None;
        },
    };
    let device_id = match doc_data_text(payload, "DEVICE_ID") {
        Ok(v) => v,
        Err(()) => {
            return None;
        },
    };
    let raw_code = match doc_data_text(payload, "raw_code") {
        Ok(v) => v,
        Err(()) => {
            return None;
        },
    };
    let correlation_id = match doc_data_text(payload, "correlation_id") {
        Ok(v) => v,
        Err(()) => {
            return None;
        },
    };
    let latitude = match read_micro_field(payload, "LATITUD") {
        Ok(v) => v,
        Err(()) => {
            return None;
        },
    };
    let longitude = match read_micro_field(payload, "LONGITUD") {
        Ok(v) => v,
        Err(()) => {
            return None;
        },
    };
    let speed = match read_micro_field(payload, "SPEED") {
        Ok(v) => v,
        Err(()) => {
            return None;
        },
    };
    let odometer = match read_micro_field(payload, "ODOMETER") {
        Ok(v) => v,
        Err(()) => {
            return None;
        },
    };
    let heading = match read_micro_field(payload, "COURSE") {
        Ok(v) => v,
        Err(()) => {
            return None;
        },
    };
    let meta_device_id = match doc_meta_device(payload) {
        Ok(v) => v,
        Err(()) => {
            return None;
        },
    };
    let raw_json = match doc_meta_json(payload) {
        Some(t) => t,
        None => {
            // The envelope shape held above, so the metadata text exists.
            assert(false);
            return None;
        },
    };
    Some(
        MqttMessage {
            data: Data {
                alert,
                msg_class,
                gps_datetime,
                latitude,
                longitude,
                speed,
                odometer,
                heading,
                device_id,
                raw_code,
                correlation_id,
            },
            metadata: Metadata { device_id: meta_device_id, raw_json },
            uuid: uuid_text,
        },
    )
}

/// The canonical event the engine consumes: one per accepted message, all
/// fields plain values.
pub struct CanonicalEvent {
    pub device_id: String,
    pub event_id: u128,
    pub timestamp: DateTime,
    pub latitude: i64,
    pub longitude: i64,
    pub speed: i64,
    pub heading: i64,
    pub odometer: i64,
    pub alert: Option<String>,
    pub raw_code: Option<i32>,
    pub metadata_json: String,
}

/// A numeric field's value, with the absent default of zero.
pub open spec fn or_zero(v: Option<i64>) -> i64 {
    match v {
        Some(x) => x,
        None => 0,
    }
}

/// The timestamp text a message carries (empty when absent).
pub open spec fn timestamp_text(m: &MqttMessage) -> Seq<char> {
    match m.data.gps_datetime {
        Some(s) => s@,
        None => Seq::empty(),
    }
}

/// The event id a message carries: its uuid text when it parses, else the
/// given fallback id.
pub open spec fn event_id_view(m: &MqttMessage, fallback_id: u128) -> u128 {
    match uuid_of(m.uuid@) {
        Some(u) => u,
        None => fallback_id,
    }
}

/// The diagnostic code a message carries, when its text parses.
pub open spec fn raw_code_view(m: &MqttMessage) -> Option<i32> {
    match m.data.raw_code {
        Some(s) => i32_of(s@),
        None => None,
    }
}

/// Views of two optional strings agree.
pub open spec fn opt_str_eq(a: Option<String>, b: Option<String>) -> bool {
    match a {
        Some(x) => b is Some && x@ == b->0@,
        None => b is None,
    }
}

/// Clones an optional string.
fn clone_opt_string(o: &Option<String>) -> (r: Option<String>)
    ensures
        opt_str_eq(r, *o),
{
    match o {
        Some(s) => Some(s.clone()),
        None => None,
    }
}

impl CanonicalEvent {
    /// Normalizes a decoded message into the canonical event.
    ///
    /// The message is dropped (`None`) exactly when it names no device id or
    /// its timestamp text does not parse. The event id is the message's uuid
    /// text when that parses as a UUID, else the given (freshly drawn)
    /// fallback id; numeric fields default to zero.
    pub fn from_message(msg: &MqttMessage, fallback_id: u128) -> (r: Option<CanonicalEvent>)
        ensures
            r is Some <==> (device_id_view(msg) is Some && datetime_of(timestamp_text(msg))
                is Some),
            match r {
                Some(ev) => {
                    &&& Some(ev.device_id@) == device_id_view(msg)
                    &&& ev.event_id == event_id_view(msg, fallback_id)
                    &&& Some(ev.timestamp) == datetime_of(timestamp_text(msg))
                    &&& ev.timestamp.wf()
                    &&& ev.latitude == or_zero(msg.data.latitude)
                    &&& ev.longitude == or_zero(msg.data.longitude)
                    &&& ev.speed == or_zero(msg.data.speed)
                    &&& ev.heading == or_zero(msg.data.heading)
                    &&& ev.odometer == or_zero(msg.data.odometer)
                    &&& opt_str_eq(ev.alert, msg.data.alert)
                    &&& ev.raw_code == raw_code_view(msg)
                    &&& ev.metadata_json@ == msg.metadata.raw_json@
                },
                None => true,
            },
    {
        let device_id = match msg.get_device_id() {
            Some(d) => d.clone(),
            None => {
                return None;
            },
        };
        let timestamp = match &msg.data.gps_datetime {
            Some(s) => match parse_datetime(s.as_str()) {
                Some(t) => t,
                None => {
                    return None;
                },
            },
            None => {
                return None;
            },
        };
        let event_id = match parse_uuid(msg.uuid.as_str()) {
            Some(u) => u,
            None => fallback_id,
        };
        let raw_code = match &msg.data.raw_code {
            Some(s) => parse_i32(s.as_str()),
            None => None,
        };
        Some(
            CanonicalEvent {
                device_id,
                event_id,
                timestamp,
                latitude: unwrap_or_zero(msg.data.latitude),
                longitude: unwrap_or_zero(msg.data.longitude),
                speed: unwrap_or_zero(msg.data.speed),
                heading: unwrap_or_zero(msg.data.heading),
                odometer: unwrap_or_zero(msg.data.odometer),
                alert: clone_opt_string(&msg.data.alert),
                raw_code,
                metadata_json: msg.metadata.raw_json.clone(),
            },
        )
    }
}

/// The device id the payload names, resolved as the engine does: the
/// `data` block's, or the `metadata` block's.
pub open spec fn payload_device(payload: Seq<u8>) -> Option<Seq<char>> {
    match payload_data_text(payload, "DEVICE_ID"@) {
        Ok(Some(d)) => Some(d),
        _ => match payload_meta_device(payload) {
            Ok(Some(d)) => Some(d),
            _ => None,
        },
    }
}

/// The timestamp the payload names, when its text reads as one.
pub open spec fn payload_timestamp(payload: Seq<u8>) -> Option<DateTime> {
    datetime_of(
        match payload_data_text(payload, "GPS_DATETIME"@) {
            Ok(Some(t)) => t,
            _ => Seq::empty(),
        },
    )
}

/// The payload yields a canonical event: it decodes, names a device, and
/// carries a readable timestamp.
pub open spec fn payload_event_ok(payload: Seq<u8>) -> bool {
    &&& decode_accepted(payload)
    &&& payload_device(payload) is Some
    &&& payload_timestamp(payload) is Some
}

/// `ev` is the canonical event the payload names: every field equals the
/// payload's named reading after normalization. The event id is pinned
/// when the payload's uuid text reads as one; otherwise it is the freshly
/// drawn fallback, of which nothing is promised.
pub open spec fn event_from_payload(ev: CanonicalEvent, payload: Seq<u8>) -> bool {
    &&& Some(ev.device_id@) == payload_device(payload)
    &&& Some(ev.timestamp) == payload_timestamp(payload)
    &&& (uuid_of(payload_uuid(payload)) matches Some(u) ==> ev.event_id == u)
    &&& ev.latitude == or_zero(micro_field_of(payload, "LATITUD"@))
    &&& ev.longitude == or_zero(micro_field_of(payload, "LONGITUD"@))
    &&& ev.speed == or_zero(micro_field_of(payload, "SPEED"@))
    &&& ev.heading == or_zero(micro_field_of(payload, "COURSE"@))
    &&& ev.odometer == or_zero(micro_field_of(payload, "ODOMETER"@))
    &&& text_field_is(ev.alert, payload_data_text(payload, "ALERT"@))
    &&& ev.raw_code == (match payload_data_text(payload, "raw_code"@) {
        Ok(Some(t)) => i32_of(t),
        _ => None,
    })
    &&& ev.metadata_json@ == payload_meta_json(payload)
}

/// A numeric field's value, with the absent default of zero.
fn unwrap_or_zero(v: Option<i64>) -> (r: i64)
    ensures
        r == or_zero(v),
{
    match v {
        Some(x) => x,
        None => 0,
    }
}

/// The flat string-keyed field map a binary-sourced payload decodes to: an
/// immutable mapping from field name to text.
pub struct FieldMap {
    pub entries: Vec<(String, String)>,
}

/// The text under the first entry with the given name, if any.
pub open spec fn map_text(entries: Seq<(String, String)>, key: Seq<char>) -> Option<Seq<char>>
    decreases entries.len(),
{
    if entries.len() == 0 {
        None
    } else if entries[0].0@ == key {
        Some(entries[0].1@)
    } else {
        map_text(entries.drop_first(), key)
    }
}

impl FieldMap {
    /// An empty map.
    pub fn new() -> (r: FieldMap)
        ensures
            r.entries@.len() == 0,
    {
        FieldMap { entries: Vec::new() }
    }

    /// Adds a field at the end; an earlier entry with the same name wins.
    pub fn push(&mut self, name: String, text: String)
        ensures
            final(self).entries@ == old(self).entries@.push((name, text)),
    {
        self.entries.push((name, text));
    }

    /// Looks the field up by name.
    pub fn get(&self, key: &str) -> (r: Option<&String>)
        ensures
            match r {
                Some(t) => map_text(self.entries@, key@) == Some(t@),
                None => map_text(self.entries@, key@) is None,
            },
    {
        let n = self.entries.len();
        proof {
            assert(self.entries@.subrange(0, n as int) =~= self.entries@);
        }
        let mut i: usize = 0;
        while i < n
            invariant
                0 <= i <= n,
                n == self.entries@.len(),
                map_text(self.entries@, key@) == map_text(
                    self.entries@.subrange(i as int, n as int),
                    key@,
                ),
            decreases n - i,
        {
            proof {
                assert(self.entries@.subrange(i as int, n as int)[0] == self.entries@[i as int]);
                assert(self.entries@.subrange(i as int, n as int).drop_first()
                    =~= self.entries@.subrange(i + 1, n as int));
            }
            if compare_str(self.entries[i].0.as_str(), key) {
                return Some(&self.entries[i].1);
            }
            i += 1;
        }
        assert(self.entries@.subrange(n as int, n as int) =~= Seq::<(String, String)>::empty());
        None
    }
}

/// Character-for-character equality of two texts.
fn compare_str(a: &str, b: &str) -> (r: bool)
    ensures
        r == (a@ == b@),
{
    let n = a.unicode_len();
    let m = b.unicode_len();
    if n != m {
        return false;
    }
    let mut i: usize = 0;
    while i < n
        invariant
            0 <= i <= n,
            n == a@.len(),
            n == b@.len(),
            forall|k: int| 0 <= k < i ==> a@[k] == b@[k],
        decreases n - i,
    {
        if a.get_char(i) != b.get_char(i) {
            return false;
        }
        i += 1;
    }
    proof {
        assert(a@ =~= b@);
    }
    true
}

/// The timestamp a field map names: its `GPS_DATETIME` text when that
/// parses, else the fallback instant the adapter supplies (its receipt time
/// metadata, or its processing-time now).
pub open spec fn map_timestamp(entries: Seq<(String, String)>, fallback_time: DateTime) -> DateTime {
    match map_text(entries, "GPS_DATETIME"@) {
        Some(t) => match datetime_of(t) {
            Some(dt) => dt,
            None => fallback_time,
        },
        None => fallback_time,
    }
}

/// A numeric field of the map, under the same coercion as the JSON shape:
/// trimmed and parsed, with nothing readable counting as absent.
pub open spec fn map_micro(entries: Seq<(String, String)>, key: Seq<char>) -> Option<i64> {
    match map_text(entries, key) {
        Some(t) => micro_of(t),
        None => None,
    }
}

impl CanonicalEvent {
    /// Normalizes a binary-sourced field map into the canonical event, with
    /// the same field names and coercion rules as the JSON shape.
    ///
    /// The message is dropped (`None`) exactly when the map names no device
    /// id. An unreadable timestamp falls back to the given instant — the
    /// adapter's receipt-time metadata or its now — unlike the JSON shape,
    /// which drops such an event. The metadata text is the adapter's own
    /// record, carried verbatim into idle-activity archiving.
    pub fn from_field_map(
        fields: &FieldMap,
        fallback_time: DateTime,
        fallback_id: u128,
        metadata_json: String,
    ) -> (r: Option<CanonicalEvent>)
        ensures
            r is Some <==> map_text(fields.entries@, "DEVICE_ID"@) is Some,
            match r {
                Some(ev) => {
                    &&& Some(ev.device_id@) == map_text(fields.entries@, "DEVICE_ID"@)
                    &&& ev.event_id == match map_text(fields.entries@, "UUID"@) {
                        Some(u) => match uuid_of(u) {
                            Some(v) => v,
                            None => fallback_id,
                        },
                        None => fallback_id,
                    }
                    &&& ev.timestamp == map_timestamp(fields.entries@, fallback_time)
                    &&& ev.latitude == or_zero(map_micro(fields.entries@, "LATITUD"@))
                    &&& ev.longitude == or_zero(map_micro(fields.entries@, "LONGITUD"@))
                    &&& ev.speed == or_zero(map_micro(fields.entries@, "SPEED"@))
                    &&& ev.heading == or_zero(map_micro(fields.entries@, "COURSE"@))
                    &&& ev.odometer == or_zero(map_micro(fields.entries@, "ODOMETER"@))
                    &&& match map_text(fields.entries@, "ALERT"@) {
                        Some(a) => ev.alert is Some && ev.alert->0@ == a,
                        None => ev.alert is None,
                    }
                    &&& ev.raw_code == match map_text(fields.entries@, "raw_code"@) {
                        Some(t) => i32_of(t),
                        None => None,
                    }
                    &&& ev.metadata_json@ == metadata_json@
                },
                None => true,
            },
    {
        let device_id = match fields.get("DEVICE_ID") {
            Some(d) => d.clone(),
            None => {
                return None;
            },
        };
        let event_id = match fields.get("UUID") {
            Some(u) => match parse_uuid(u.as_str()) {
                Some(v) => v,
                None => fallback_id,
            },
            None => fallback_id,
        };
        let timestamp = match fields.get("GPS_DATETIME") {
            Some(t) => match parse_datetime(t.as_str()) {
                Some(dt) => dt,
                None => fallback_time,
            },
            None => fallback_time,
        };
        let alert = match fields.get("ALERT") {
            Some(a) => Some(a.clone()),
            None => None,
        };
        let raw_code = match fields.get("raw_code") {
            Some(t) => parse_i32(t.as_str()),
            None => None,
        };
        Some(
            CanonicalEvent {
                device_id,
                event_id,
                timestamp,
                latitude: map_micro_field(fields, "LATITUD"),
                longitude: map_micro_field(fields, "LONGITUD"),
                speed: map_micro_field(fields, "SPEED"),
                heading: map_micro_field(fields, "COURSE"),
                odometer: map_micro_field(fields, "ODOMETER"),
                alert,
                raw_code,
                metadata_json,
            },
        )
    }
}

/// Reads one numeric field of the map, with the absent default of zero.
fn map_micro_field(fields: &FieldMap, key: &str) -> (r: i64)
    ensures
        r == or_zero(map_micro(fields.entries@, key@)),
{
    match fields.get(key) {
        Some(t) => match parse_micro(t.as_str()) {
            Some(v) => v,
            None => 0,
        },
        None => 0,
    }
}

} // verus!
