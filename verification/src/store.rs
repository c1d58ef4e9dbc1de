//! The relational model of the persistence store, and the transaction
//! engine that writes it.
//!
//! Five tables: one current-state row per device, trips, trip points, trip
//! alerts and idle activity. `handle_event` is the atomic unit of work the
//! real store executes under the per-device row lock: it reads the device's
//! state, classifies the event, and applies every write of the chosen
//! destination, or none. The model is written by this engine alone, so its
//! invariants — at most one open trip per device above all — are proved
//! preserved by every step.

use vstd::prelude::*;

verus! {

use crate::classify::classify_spec;
use crate::classify::determine_destination;
use crate::classify::has_content;
use crate::classify::trimmed_nonempty;
use crate::classify::view_opt_str;
use crate::classify::MessageDestination;
use crate::datetime::DateTime;
use crate::message::event_from_payload;
use crate::message::payload_event_ok;
use crate::message::CanonicalEvent;

/// Why a transaction was rolled back: the event's id is already a trip's
/// primary key, so the trip insert is refused by the store.
#[derive(Debug, Clone, Copy, PartialEq, Eq, Structural)]
pub enum ProcessingError {
    DuplicateTrip,
}

/// One row per device: whether a trip is open, and the last known position.
#[derive(Debug)]
pub struct DeviceCurrentState {
    pub device_id: String,
    pub current_trip_id: Option<u128>,
    pub ignition_on: bool,
    pub last_point_at: DateTime,
    pub last_lat: i64,
    pub last_lng: i64,
    pub last_speed: Option<i64>,
    pub last_correlation_id: u128,
}

/// A trip: created open at ignition-on, closed once at ignition-off.
#[derive(Debug)]
pub struct Trip {
    pub trip_id: u128,
    pub device_id: String,
    pub start_time: DateTime,
    pub start_lat: i64,
    pub start_lng: i64,
    pub end_time: Option<DateTime>,
    pub end_lat: Option<i64>,
    pub end_lng: Option<i64>,
    pub start_odometer: Option<i64>,
    pub end_odometer: Option<i64>,
}

/// One GPS sample of an open trip.
#[derive(Debug)]
pub struct TripPoint {
    pub trip_id: u128,
    pub device_id: String,
    pub timestamp: DateTime,
    pub lat: i64,
    pub lng: i64,
    pub speed: i64,
    pub heading: i64,
    pub correlation_id: u128,
}

/// One alert attached to a trip, including the synthetic ignition alerts
/// the engine writes at trip boundaries.
#[derive(Debug)]
pub struct TripAlert {
    pub alert_id: u128,
    pub trip_id: u128,
    pub timestamp: DateTime,
    pub lat: i64,
    pub lon: i64,
    pub alert_type: String,
    pub raw_code: Option<i32>,
    pub severity: i16,
    pub device_id: String,
    pub correlation_id: u128,
}

/// One event archived while no trip was open, with the metadata bag kept
/// verbatim as JSON text.
#[derive(Debug)]
pub struct DeviceIdleActivity {
    pub idle_id: u128,
    pub device_id: String,
    pub timestamp: DateTime,
    pub lat: i64,
    pub lon: i64,
    pub activity_type: String,
    pub raw_code: Option<i32>,
    pub severity: i16,
    pub metadata: String,
    pub correlation_id: u128,
}

/// A device has a current-state row.
pub open spec fn has_state(states: Seq<DeviceCurrentState>, d: Seq<char>) -> bool {
    exists|i: int| 0 <= i < states.len() && states[i].device_id@ == d
}

/// The index of a device's current-state row.
pub open spec fn state_idx(states: Seq<DeviceCurrentState>, d: Seq<char>) -> int {
    choose|i: int| 0 <= i < states.len() && states[i].device_id@ == d
}

/// The device's current-state row, if any.
pub open spec fn state_of(states: Seq<DeviceCurrentState>, d: Seq<char>) -> Option<
    DeviceCurrentState,
> {
    if has_state(states, d) {
        Some(states[state_idx(states, d)])
    } else {
        None
    }
}

/// Whether the store says a trip is active for the device: the ignition
/// flag of its state row, with no row meaning never seen, so inactive.
pub open spec fn trip_active_of(states: Seq<DeviceCurrentState>, d: Seq<char>) -> bool {
    match state_of(states, d) {
        Some(st) => st.ignition_on,
        None => false,
    }
}

/// The trip row is still open.
pub open spec fn trip_open(t: Trip) -> bool {
    t.end_time is None
}

/// The device has an open trip row.
pub open spec fn has_open_trip(trips: Seq<Trip>, d: Seq<char>) -> bool {
    exists|i: int| 0 <= i < trips.len() && trips[i].device_id@ == d && trip_open(trips[i])
}

/// The index of the device's open trip row.
pub open spec fn open_trip_idx(trips: Seq<Trip>, d: Seq<char>) -> int {
    choose|i: int| 0 <= i < trips.len() && trips[i].device_id@ == d && trip_open(trips[i])
}

/// The five tables of the store, as one value.
pub struct TripStore {
    pub states: Vec<DeviceCurrentState>,
    pub trips: Vec<Trip>,
    pub points: Vec<TripPoint>,
    pub alerts: Vec<TripAlert>,
    pub idle: Vec<DeviceIdleActivity>,
}

impl TripStore {
    /// At most one current-state row per device.
    pub open spec fn states_unique(self) -> bool {
        forall|i: int, j: int|
            0 <= i < self.states@.len() && 0 <= j < self.states@.len()
                && self.states@[i].device_id@ == self.states@[j].device_id@ ==> i == j
    }

    /// Trip ids are unique (the trip id is the starting event's id, the
    /// store's primary key).
    pub open spec fn trips_unique(self) -> bool {
        forall|i: int, j: int|
            0 <= i < self.trips@.len() && 0 <= j < self.trips@.len() && self.trips@[i].trip_id
                == self.trips@[j].trip_id ==> i == j
    }

    /// At most one trip row per device is open at any instant.
    pub open spec fn at_most_one_open(self) -> bool {
        forall|i: int, j: int|
            0 <= i < self.trips@.len() && 0 <= j < self.trips@.len() && self.trips@[i].device_id@
                == self.trips@[j].device_id@ && trip_open(self.trips@[i]) && trip_open(
                self.trips@[j],
            ) ==> i == j
    }

    /// An open trip is reflected in its device's ignition flag.
    pub open spec fn open_implies_ignition(self) -> bool {
        forall|i: int|
            0 <= i < self.trips@.len() && trip_open(#[trigger] self.trips@[i]) ==> trip_active_of(
                self.states@,
                self.trips@[i].device_id@,
            )
    }

    /// A state row naming a current trip names an open trip of its own
    /// device, and only while the ignition flag is set.
    pub open spec fn trip_ref_valid(self) -> bool {
        forall|i: int|
            0 <= i < self.states@.len() && (#[trigger] self.states@[i]).current_trip_id is Some
                ==> self.states@[i].ignition_on && exists|j: int|
                0 <= j < self.trips@.len() && (#[trigger] self.trips@[j]).trip_id
                    == self.states@[i].current_trip_id->0 && self.trips@[j].device_id@
                    == self.states@[i].device_id@ && trip_open(self.trips@[j])
    }

    /// The store's invariant, established empty and preserved by every step.
    pub open spec fn wf(self) -> bool {
        &&& self.states_unique()
        &&& self.trips_unique()
        &&& self.at_most_one_open()
        &&& self.open_implies_ignition()
        &&& self.trip_ref_valid()
    }

    /// An empty store: no device ever seen.
    pub fn new() -> (r: TripStore)
        ensures
            r.wf(),
            r.states@ == Seq::<DeviceCurrentState>::empty(),
            r.trips@ == Seq::<Trip>::empty(),
            r.points@ == Seq::<TripPoint>::empty(),
            r.alerts@ == Seq::<TripAlert>::empty(),
            r.idle@ == Seq::<DeviceIdleActivity>::empty(),
    {
        TripStore {
            states: Vec::new(),
            trips: Vec::new(),
            points: Vec::new(),
            alerts: Vec::new(),
            idle: Vec::new(),
        }
    }
}

/// With unique devices, the row at a matching index is the device's row.
pub proof fn lemma_state_at_index(s: Seq<DeviceCurrentState>, d: Seq<char>, i: int)
    requires
        forall|a: int, b: int|
            0 <= a < s.len() && 0 <= b < s.len() && s[a].device_id@ == s[b].device_id@ ==> a == b,
        0 <= i < s.len(),
        s[i].device_id@ == d,
    ensures
        has_state(s, d),
        state_idx(s, d) == i,
        state_of(s, d) == Some(s[i]),
{
    assert(has_state(s, d));
    let j = state_idx(s, d);
    assert(0 <= j < s.len() && s[j].device_id@ == d);
}

/// Replacing a device's row updates its lookup and no other device's.
pub proof fn lemma_state_update(s: Seq<DeviceCurrentState>, i: int, st: DeviceCurrentState)
    requires
        forall|a: int, b: int|
            0 <= a < s.len() && 0 <= b < s.len() && s[a].device_id@ == s[b].device_id@ ==> a == b,
        0 <= i < s.len(),
        st.device_id@ == s[i].device_id@,
    ensures
        forall|a: int, b: int|
            0 <= a < s.update(i, st).len() && 0 <= b < s.update(i, st).len() && s.update(i, st)[a]
                .device_id@ == s.update(i, st)[b].device_id@ ==> a == b,
        state_of(s.update(i, st), st.device_id@) == Some(st),
        forall|d2: Seq<char>|
            d2 != st.device_id@ ==> #[trigger] state_of(s.update(i, st), d2) == state_of(s, d2),
{
    let s2 = s.update(i, st);
    assert forall|a: int, b: int|
        0 <= a < s2.len() && 0 <= b < s2.len() && s2[a].device_id@ == s2[b].device_id@ implies a
        == b by {
        assert(s2[a].device_id@ == s[a].device_id@);
        assert(s2[b].device_id@ == s[b].device_id@);
    }
    lemma_state_at_index(s2, st.device_id@, i);
    assert forall|d2: Seq<char>| d2 != st.device_id@ implies #[trigger] state_of(s2, d2)
        == state_of(s, d2) by {
        if has_state(s2, d2) {
            let j = state_idx(s2, d2);
            assert(0 <= j < s2.len() && s2[j].device_id@ == d2);
            assert(j != i);
            assert(s[j].device_id@ == d2);
            lemma_state_at_index(s, d2, j);
        } else {
            if has_state(s, d2) {
                let j = state_idx(s, d2);
                assert(0 <= j < s.len() && s[j].device_id@ == d2);
                assert(j != i);
                assert(s2[j].device_id@ == d2);
                assert(has_state(s2, d2));
            }
        }
    }
}

/// Appending a row for a device not yet present adds its lookup and changes
/// no other device's.
pub proof fn lemma_state_push(s: Seq<DeviceCurrentState>, st: DeviceCurrentState)
    requires
        forall|a: int, b: int|
            0 <= a < s.len() && 0 <= b < s.len() && s[a].device_id@ == s[b].device_id@ ==> a == b,
        !has_state(s, st.device_id@),
    ensures
        forall|a: int, b: int|
            0 <= a < s.push(st).len() && 0 <= b < s.push(st).len() && s.push(st)[a].device_id@
                == s.push(st)[b].device_id@ ==> a == b,
        state_of(s.push(st), st.device_id@) == Some(st),
        forall|d2: Seq<char>|
            d2 != st.device_id@ ==> #[trigger] state_of(s.push(st), d2) == state_of(s, d2),
{
    let s2 = s.push(st);
    assert forall|a: int, b: int|
        0 <= a < s2.len() && 0 <= b < s2.len() && s2[a].device_id@ == s2[b].device_id@ implies a
        == b by {
        if a < s.len() && b < s.len() {
        } else if a == s.len() && b < s.len() {
            assert(s[b].device_id@ == st.device_id@);
            assert(has_state(s, st.device_id@));
        } else if b == s.len() && a < s.len() {
            assert(s[a].device_id@ == st.device_id@);
            assert(has_state(s, st.device_id@));
        }
    }
    lemma_state_at_index(s2, st.device_id@, s.len() as int);
    assert forall|d2: Seq<char>| d2 != st.device_id@ implies #[trigger] state_of(s2, d2)
        == state_of(s, d2) by {
        if has_state(s2, d2) {
            let j = state_idx(s2, d2);
            assert(0 <= j < s2.len() && s2[j].device_id@ == d2);
            assert(j != s.len());
            assert(s[j].device_id@ == d2);
            lemma_state_at_index(s, d2, j);
        } else {
            if has_state(s, d2) {
                let j = state_idx(s, d2);
                assert(s2[j].device_id@ == d2);
                assert(has_state(s2, d2));
            }
        }
    }
}

impl TripStore {
    /// Finds the index of a device's current-state row.
    fn state_index(&self, device: &String) -> (r: Option<usize>)
        requires
            self.states_unique(),
        ensures
            match r {
                Some(i) => i < self.states@.len() && self.states@[i as int].device_id@ == device@
                    && state_of(self.states@, device@) == Some(self.states@[i as int]),
                None => !has_state(self.states@, device@),
            },
    {
        let n = self.states.len();
        let mut i: usize = 0;
        while i < n
            invariant
                0 <= i <= n,
                n == self.states@.len(),
                self.states_unique(),
                forall|k: int| 0 <= k < i ==> self.states@[k].device_id@ != device@,
            decreases n - i,
        {
            if self.states[i].device_id == *device {
                proof {
                    lemma_state_at_index(self.states@, device@, i as int);
                }
                return Some(i);
            }
            i += 1;
        }
        None
    }

    /// Finds the index of the device's open trip row, if one exists.
    fn open_trip_index(&self, device: &String) -> (r: Option<usize>)
        ensures
            match r {
                Some(i) => i < self.trips@.len() && self.trips@[i as int].device_id@ == device@
                    && trip_open(self.trips@[i as int]),
                None => !has_open_trip(self.trips@, device@),
            },
    {
        let n = self.trips.len();
        let mut i: usize = 0;
        while i < n
            invariant
                0 <= i <= n,
                n == self.trips@.len(),
                forall|k: int|
                    0 <= k < i ==> !(self.trips@[k].device_id@ == device@ && trip_open(
                        self.trips@[k],
                    )),
            decreases n - i,
        {
            let open = match &self.trips[i].end_time {
                Option::None => true,
                Option::Some(_) => false,
            };
            if open && self.trips[i].device_id == *device {
                return Some(i);
            }
            i += 1;
        }
        None
    }

    /// Finds the index of the trip row with the given id.
    fn trip_index(&self, trip_id: u128) -> (r: Option<usize>)
        ensures
            match r {
                Some(i) => i < self.trips@.len() && self.trips@[i as int].trip_id == trip_id,
                None => forall|k: int|
                    0 <= k < self.trips@.len() ==> self.trips@[k].trip_id != trip_id,
            },
    {
        let n = self.trips.len();
        let mut i: usize = 0;
        while i < n
            invariant
                0 <= i <= n,
                n == self.trips@.len(),
                forall|k: int| 0 <= k < i ==> self.trips@[k].trip_id != trip_id,
            decreases n - i,
        {
            if self.trips[i].trip_id == trip_id {
                return Some(i);
            }
            i += 1;
        }
        None
    }

    /// Writes a device's current-state row: replaces the existing row, or
    /// inserts one. Touches no other table and no other device's row.
    fn put_state(&mut self, st: DeviceCurrentState) -> (had: bool)
        requires
            old(self).states_unique(),
        ensures
            final(self).states_unique(),
            state_of(final(self).states@, st.device_id@) == Some(st),
            forall|d2: Seq<char>|
                d2 != st.device_id@ ==> #[trigger] state_of(final(self).states@, d2) == state_of(
                    old(self).states@,
                    d2,
                ),
            had == has_state(old(self).states@, st.device_id@),
            final(self).states@.len() == old(self).states@.len() + (if had {
                0int
            } else {
                1int
            }),
            final(self).trips@ == old(self).trips@,
            final(self).points@ == old(self).points@,
            final(self).alerts@ == old(self).alerts@,
            final(self).idle@ == old(self).idle@,
    {
        let found = self.state_index(&st.device_id);
        match found {
            Some(i) => {
                proof {
                    lemma_state_update(self.states@, i as int, st);
                }
                self.states.set(i, st);
                true
            },
            None => {
                proof {
                    lemma_state_push(self.states@, st);
                }
                self.states.push(st);
                false
            },
        }
    }
}

/// The alert text an event carries, as a character sequence.
pub open spec fn alert_view(ev: &CanonicalEvent) -> Option<Seq<char>> {
    match ev.alert {
        Some(s) => Some(s@),
        None => None,
    }
}

/// A state row with the last-seen fields refreshed from the event; trip
/// flags untouched.
pub open spec fn point_updated(st: DeviceCurrentState, ev: &CanonicalEvent) -> DeviceCurrentState {
    DeviceCurrentState {
        last_point_at: ev.timestamp,
        last_lat: ev.latitude,
        last_lng: ev.longitude,
        last_speed: Some(ev.speed),
        last_correlation_id: ev.event_id,
        ..st
    }
}

/// The state row created on the first event ever seen for a device, outside
/// a trip: no trip open, last-seen fields from the event.
pub open spec fn fresh_idle_state(ev: &CanonicalEvent) -> DeviceCurrentState {
    DeviceCurrentState {
        device_id: ev.device_id,
        current_trip_id: None,
        ignition_on: false,
        last_point_at: ev.timestamp,
        last_lat: ev.latitude,
        last_lng: ev.longitude,
        last_speed: Some(ev.speed),
        last_correlation_id: ev.event_id,
    }
}

/// The state upsert every non-boundary destination performs: refresh the
/// row, or create it for a device never seen.
pub open spec fn upserted_point_state(
    old_st: Option<DeviceCurrentState>,
    ev: &CanonicalEvent,
) -> DeviceCurrentState {
    match old_st {
        Some(st) => point_updated(st, ev),
        None => fresh_idle_state(ev),
    }
}

/// The state row after a new trip starts: ignition on, the new trip as the
/// device's current trip, every last-seen field — speed included —
/// refreshed from the event, as the unconditional per-branch state update
/// demands.
///
/// The row stores the new trip's id directly; the ignition flag stays the
/// sole authoritative signal that a trip is open, and the open-trip lookup
/// recovers the id should the stored one ever drift away.
pub open spec fn new_trip_state(ev: &CanonicalEvent) -> DeviceCurrentState {
    DeviceCurrentState {
        device_id: ev.device_id,
        current_trip_id: Some(ev.event_id),
        ignition_on: true,
        last_point_at: ev.timestamp,
        last_lat: ev.latitude,
        last_lng: ev.longitude,
        last_speed: Some(ev.speed),
        last_correlation_id: ev.event_id,
    }
}

/// The state row after a trip ends: ignition off, no current trip,
/// last-seen fields refreshed.
pub open spec fn end_trip_state(st: DeviceCurrentState, ev: &CanonicalEvent) -> DeviceCurrentState {
    DeviceCurrentState {
        current_trip_id: None,
        ignition_on: false,
        last_point_at: ev.timestamp,
        last_lat: ev.latitude,
        last_lng: ev.longitude,
        last_speed: Some(ev.speed),
        last_correlation_id: ev.event_id,
        ..st
    }
}

/// The trip row a new trip inserts: keyed by the starting event's id, open.
pub open spec fn new_trip_row(ev: &CanonicalEvent) -> Trip {
    Trip {
        trip_id: ev.event_id,
        device_id: ev.device_id,
        start_time: ev.timestamp,
        start_lat: ev.latitude,
        start_lng: ev.longitude,
        end_time: None,
        end_lat: None,
        end_lng: None,
        start_odometer: None,
        end_odometer: None,
    }
}

/// A trip row closed by the event: end fields set, all else kept. A closed
/// trip is never touched again.
pub open spec fn closed_trip(t: Trip, ev: &CanonicalEvent) -> Trip {
    Trip {
        end_time: Some(ev.timestamp),
        end_lat: Some(ev.latitude),
        end_lng: Some(ev.longitude),
        ..t
    }
}

/// The point row an in-trip GPS sample inserts.
pub open spec fn trip_point_row(ev: &CanonicalEvent, trip_id: u128) -> TripPoint {
    TripPoint {
        trip_id,
        device_id: ev.device_id,
        timestamp: ev.timestamp,
        lat: ev.latitude,
        lng: ev.longitude,
        speed: ev.speed,
        heading: ev.heading,
        correlation_id: ev.event_id,
    }
}

/// The alert row written for the event: the given text (a raw alert, or the
/// synthetic ignition markers), severity 1, the event id as correlation.
pub open spec fn alert_row_matches(
    a: TripAlert,
    ev: &CanonicalEvent,
    fresh_row_id: u128,
    trip_id: u128,
    kind: Seq<char>,
) -> bool {
    &&& a.alert_id == fresh_row_id
    &&& a.trip_id == trip_id
    &&& a.timestamp == ev.timestamp
    &&& a.lat == ev.latitude
    &&& a.lon == ev.longitude
    &&& a.alert_type@ == kind
    &&& a.raw_code == ev.raw_code
    &&& a.severity == 1
    &&& a.device_id@ == ev.device_id@
    &&& a.correlation_id == ev.event_id
}

/// The activity text an idle event archives: the alert verbatim when it has
/// content, else the idle-point sentinel.
pub open spec fn idle_activity_text(ev: &CanonicalEvent) -> Seq<char> {
    match ev.alert {
        Some(a) => if trimmed_nonempty(a@) {
            a@
        } else {
            "gps_idle_point"@
        },
        None => "gps_idle_point"@,
    }
}

/// The idle-activity row written for an event outside any trip, carrying
/// the metadata bag verbatim.
pub open spec fn idle_row_matches(
    x: DeviceIdleActivity,
    ev: &CanonicalEvent,
    fresh_row_id: u128,
) -> bool {
    &&& x.idle_id == fresh_row_id
    &&& x.device_id@ == ev.device_id@
    &&& x.timestamp == ev.timestamp
    &&& x.lat == ev.latitude
    &&& x.lon == ev.longitude
    &&& x.activity_type@ == idle_activity_text(ev)
    &&& x.raw_code == ev.raw_code
    &&& x.severity == 1
    &&& x.metadata@ == ev.metadata_json@
    &&& x.correlation_id == ev.event_id
}

/// The trip the event belongs to, as the engine resolves it under the lock:
/// the state row's current trip, or — recovering from state drift — the
/// device's open trip row (unique while the store is well formed; the real
/// store picks the most recently started).
pub open spec fn resolved_trip_id(
    states: Seq<DeviceCurrentState>,
    trips: Seq<Trip>,
    d: Seq<char>,
) -> Option<u128> {
    match state_of(states, d) {
        Some(st) => if st.current_trip_id is Some {
            st.current_trip_id
        } else if has_open_trip(trips, d) {
            Some(trips[open_trip_idx(trips, d)].trip_id)
        } else {
            None
        },
        None => None,
    }
}

/// A step that only rewrites one device's state row, keeping its trip
/// flags, preserves the store invariant.
proof fn lemma_wf_after_state_step(
    pre: TripStore,
    post: TripStore,
    d: Seq<char>,
    newst: DeviceCurrentState,
)
    requires
        pre.wf(),
        post.trips@ == pre.trips@,
        post.states_unique(),
        newst.device_id@ == d,
        state_of(post.states@, d) == Some(newst),
        forall|d2: Seq<char>|
            d2 != d ==> #[trigger] state_of(post.states@, d2) == state_of(pre.states@, d2),
        match state_of(pre.states@, d) {
            Some(st) => newst.ignition_on == st.ignition_on && newst.current_trip_id
                == st.current_trip_id,
            None => !newst.ignition_on && newst.current_trip_id is None,
        },
    ensures
        post.wf(),
{
    assert(post.trips_unique()) by {
        assert(forall|i: int|
            0 <= i < post.trips@.len() ==> post.trips@[i] == pre.trips@[i]);
    }
    assert(post.at_most_one_open()) by {
        assert(forall|i: int|
            0 <= i < post.trips@.len() ==> post.trips@[i] == pre.trips@[i]);
    }
    assert forall|i: int|
        0 <= i < post.trips@.len() && trip_open(#[trigger] post.trips@[i]) implies trip_active_of(
        post.states@,
        post.trips@[i].device_id@,
    ) by {
        assert(post.trips@[i] == pre.trips@[i]);
        let dt = pre.trips@[i].device_id@;
        assert(trip_active_of(pre.states@, dt));
        if dt == d {
            assert(state_of(pre.states@, d) is Some);
        } else {
            assert(state_of(post.states@, dt) == state_of(pre.states@, dt));
        }
    }
    assert forall|i: int|
        0 <= i < post.states@.len() && (#[trigger] post.states@[i]).current_trip_id
            is Some implies post.states@[i].ignition_on && exists|j: int|
        0 <= j < post.trips@.len() && (#[trigger] post.trips@[j]).trip_id
            == post.states@[i].current_trip_id->0 && post.trips@[j].device_id@
            == post.states@[i].device_id@ && trip_open(post.trips@[j]) by {
        let di = post.states@[i].device_id@;
        lemma_state_at_index(post.states@, di, i);
        if di == d {
            assert(post.states@[i] == newst);
            let st = state_of(pre.states@, d)->0;
            let k = state_idx(pre.states@, d);
            assert(pre.states@[k] == st);
            assert(st.current_trip_id is Some);
            assert(st.ignition_on);
            let j = choose|j: int|
                0 <= j < pre.trips@.len() && (#[trigger] pre.trips@[j]).trip_id
                    == st.current_trip_id->0 && pre.trips@[j].device_id@ == st.device_id@
                    && trip_open(pre.trips@[j]);
            assert(post.trips@[j] == pre.trips@[j]);
            assert(st.device_id@ == d);
        } else {
            assert(state_of(post.states@, di) == state_of(pre.states@, di));
            let k = state_idx(pre.states@, di);
            assert(pre.states@[k] == post.states@[i]);
            assert(forall|j: int|
                0 <= j < post.trips@.len() ==> post.trips@[j] == pre.trips@[j]);
        }
    }
}

/// Starting a trip for a device with no trip active, with a fresh trip id,
/// preserves the store invariant.
proof fn lemma_wf_after_new_trip(
    pre: TripStore,
    post: TripStore,
    d: Seq<char>,
    newtrip: Trip,
    newst: DeviceCurrentState,
)
    requires
        pre.wf(),
        !trip_active_of(pre.states@, d),
        newtrip.device_id@ == d,
        trip_open(newtrip),
        forall|k: int| 0 <= k < pre.trips@.len() ==> pre.trips@[k].trip_id != newtrip.trip_id,
        post.trips@ == pre.trips@.push(newtrip),
        post.states_unique(),
        newst.device_id@ == d,
        newst.ignition_on,
        newst.current_trip_id == Some(newtrip.trip_id),
        state_of(post.states@, d) == Some(newst),
        forall|d2: Seq<char>|
            d2 != d ==> #[trigger] state_of(post.states@, d2) == state_of(pre.states@, d2),
    ensures
        post.wf(),
{
    let n = pre.trips@.len() as int;
    assert(post.trips@[n] == newtrip);
    assert(forall|k: int| 0 <= k < n ==> post.trips@[k] == pre.trips@[k]);
    // No open trip of this device existed: an open one would imply an
    // active trip flag.
    assert forall|k: int| 0 <= k < n implies !(pre.trips@[k].device_id@ == d && trip_open(
        pre.trips@[k],
    )) by {
        if pre.trips@[k].device_id@ == d && trip_open(pre.trips@[k]) {
            assert(trip_active_of(pre.states@, d));
        }
    }
    assert(post.trips_unique());
    assert(post.at_most_one_open());
    assert forall|i: int|
        0 <= i < post.trips@.len() && trip_open(#[trigger] post.trips@[i]) implies trip_active_of(
        post.states@,
        post.trips@[i].device_id@,
    ) by {
        if i < n {
            let dt = pre.trips@[i].device_id@;
            assert(trip_active_of(pre.states@, dt));
            assert(dt != d);
            assert(state_of(post.states@, dt) == state_of(pre.states@, dt));
        } else {
            assert(state_of(post.states@, d) == Some(newst));
        }
    }
    assert forall|i: int|
        0 <= i < post.states@.len() && (#[trigger] post.states@[i]).current_trip_id
            is Some implies post.states@[i].ignition_on && exists|j: int|
        0 <= j < post.trips@.len() && (#[trigger] post.trips@[j]).trip_id
            == post.states@[i].current_trip_id->0 && post.trips@[j].device_id@
            == post.states@[i].device_id@ && trip_open(post.trips@[j]) by {
        let di = post.states@[i].device_id@;
        lemma_state_at_index(post.states@, di, i);
        if di == d {
            assert(post.states@[i] == newst);
            assert(post.trips@[n].trip_id == newst.current_trip_id->0);
        } else {
            assert(state_of(post.states@, di) == state_of(pre.states@, di));
            let k = state_idx(pre.states@, di);
            assert(pre.states@[k] == post.states@[i]);
            let j = choose|j: int|
                0 <= j < pre.trips@.len() && (#[trigger] pre.trips@[j]).trip_id
                    == pre.states@[k].current_trip_id->0 && pre.trips@[j].device_id@
                    == pre.states@[k].device_id@ && trip_open(pre.trips@[j]);
            assert(post.trips@[j] == pre.trips@[j]);
        }
    }
}

/// Closing the device's open trip and clearing its state row preserves the
/// store invariant.
proof fn lemma_wf_after_end_trip(
    pre: TripStore,
    post: TripStore,
    d: Seq<char>,
    i_closed: int,
    closedrow: Trip,
    newst: DeviceCurrentState,
)
    requires
        pre.wf(),
        0 <= i_closed < pre.trips@.len(),
        pre.trips@[i_closed].device_id@ == d,
        trip_open(pre.trips@[i_closed]),
        !trip_open(closedrow),
        closedrow.device_id@ == d,
        closedrow.trip_id == pre.trips@[i_closed].trip_id,
        post.trips@ == pre.trips@.update(i_closed, closedrow),
        post.states_unique(),
        newst.device_id@ == d,
        !newst.ignition_on,
        newst.current_trip_id is None,
        state_of(post.states@, d) == Some(newst),
        forall|d2: Seq<char>|
            d2 != d ==> #[trigger] state_of(post.states@, d2) == state_of(pre.states@, d2),
    ensures
        post.wf(),
{
    assert(forall|k: int|
        0 <= k < post.trips@.len() && k != i_closed ==> post.trips@[k] == pre.trips@[k]);
    assert(post.trips@[i_closed] == closedrow);
    assert(post.trips_unique()) by {
        assert(forall|k: int|
            0 <= k < post.trips@.len() ==> post.trips@[k].trip_id == pre.trips@[k].trip_id);
    }
    assert(post.at_most_one_open()) by {
        assert forall|a: int, b: int|
            0 <= a < post.trips@.len() && 0 <= b < post.trips@.len() && post.trips@[a].device_id@
                == post.trips@[b].device_id@ && trip_open(post.trips@[a]) && trip_open(
                post.trips@[b],
            ) implies a == b by {
            assert(a != i_closed && b != i_closed);
        }
    }
    assert forall|i: int|
        0 <= i < post.trips@.len() && trip_open(#[trigger] post.trips@[i]) implies trip_active_of(
        post.states@,
        post.trips@[i].device_id@,
    ) by {
        assert(i != i_closed);
        let dt = pre.trips@[i].device_id@;
        assert(trip_active_of(pre.states@, dt));
        if dt == d {
            // Two open trips of one device in the well-formed pre store.
            assert(i == i_closed);
        }
        assert(state_of(post.states@, dt) == state_of(pre.states@, dt));
    }
    assert forall|i: int|
        0 <= i < post.states@.len() && (#[trigger] post.states@[i]).current_trip_id
            is Some implies post.states@[i].ignition_on && exists|j: int|
        0 <= j < post.trips@.len() && (#[trigger] post.trips@[j]).trip_id
            == post.states@[i].current_trip_id->0 && post.trips@[j].device_id@
            == post.states@[i].device_id@ && trip_open(post.trips@[j]) by {
        let di = post.states@[i].device_id@;
        lemma_state_at_index(post.states@, di, i);
        assert(di != d);
        assert(state_of(post.states@, di) == state_of(pre.states@, di));
        let k = state_idx(pre.states@, di);
        assert(pre.states@[k] == post.states@[i]);
        let j = choose|j: int|
            0 <= j < pre.trips@.len() && (#[trigger] pre.trips@[j]).trip_id
                == pre.states@[k].current_trip_id->0 && pre.trips@[j].device_id@
                == pre.states@[k].device_id@ && trip_open(pre.trips@[j]);
        assert(j != i_closed);
        assert(post.trips@[j] == pre.trips@[j]);
    }
}

/// No device but `d` has its state row changed between `pre` and `post`.
pub open spec fn other_states_unchanged(pre: TripStore, post: TripStore, d: Seq<char>) -> bool {
    forall|d2: Seq<char>|
        d2 != d ==> #[trigger] state_of(post.states@, d2) == state_of(pre.states@, d2)
}

/// The state upsert every committed event performs on its device's row,
/// and on no other row: refreshed when present, created when not.
pub open spec fn point_state_upserted(pre: TripStore, post: TripStore, ev: &CanonicalEvent) -> bool {
    &&& state_of(post.states@, ev.device_id@) == Some(
        upserted_point_state(state_of(pre.states@, ev.device_id@), ev),
    )
    &&& other_states_unchanged(pre, post, ev.device_id@)
    &&& post.states@.len() == pre.states@.len() + (if has_state(pre.states@, ev.device_id@) {
        0int
    } else {
        1int
    })
}

/// The transition one event makes, as the engine commits it: the
/// classifier's verdict against the locked state snapshot, the writes of
/// the chosen destination and nothing else, the device's last-seen fields
/// refreshed on every committed path, and every other device untouched. A
/// duplicate trip key rolls the whole step back.
pub open spec fn event_step(
    pre: TripStore,
    post: TripStore,
    ev: CanonicalEvent,
    fresh_row_id: u128,
    r: Result<MessageDestination, ProcessingError>,
) -> bool {
    // the classifier decides, against the locked snapshot
    &&& match r {
        Ok(dest) => dest == classify_spec(
            alert_view(&ev),
            trip_active_of(pre.states@, ev.device_id@),
        ),
        Err(_) => classify_spec(
            alert_view(&ev),
            trip_active_of(pre.states@, ev.device_id@),
        ) == MessageDestination::NewTrip,
    }
    // every committed event refreshes its device's last-seen fields
    &&& r is Ok ==> (state_of(post.states@, ev.device_id@) matches Some(st) && (
    st.last_point_at == ev.timestamp && st.last_lat == ev.latitude && st.last_lng
        == ev.longitude && st.last_speed == Some(ev.speed) && st.last_correlation_id
        == ev.event_id))
    // no other device's state row is ever touched
    &&& other_states_unchanged(pre, post, ev.device_id@)
    &&& match r {
        Err(e) => {
            &&& e == ProcessingError::DuplicateTrip
            &&& exists|i: int|
                0 <= i < pre.trips@.len() && (#[trigger] pre.trips@[i]).trip_id
                    == ev.event_id
            &&& post.states@ == pre.states@
            &&& post.trips@ == pre.trips@
            &&& post.points@ == pre.points@
            &&& post.alerts@ == pre.alerts@
            &&& post.idle@ == pre.idle@
        },
        Ok(dest) => match dest {
            MessageDestination::NewTrip => {
                &&& forall|i: int|
                    0 <= i < pre.trips@.len() ==> (#[trigger] pre.trips@[i]).trip_id != ev.event_id
                &&& post.trips@ == pre.trips@.push(new_trip_row(&ev))
                &&& state_of(post.states@, ev.device_id@) == Some(new_trip_state(&ev))
                &&& post.alerts@.len() == pre.alerts@.len() + 1
                &&& post.alerts@.drop_last() == pre.alerts@
                &&& alert_row_matches(
                    post.alerts@.last(),
                    &ev,
                    fresh_row_id,
                    ev.event_id,
                    "ignition_on"@,
                )
                &&& post.points@ == pre.points@
                &&& post.idle@ == pre.idle@
            },
            MessageDestination::EndTrip => {
                &&& post.points@ == pre.points@
                &&& post.idle@ == pre.idle@
                &&& match resolved_trip_id(
                    pre.states@,
                    pre.trips@,
                    ev.device_id@,
                ) {
                    Some(tid) => {
                        &&& exists|i: int|
                            0 <= i < pre.trips@.len() && (#[trigger] pre.trips@[i]).trip_id == tid && post.trips@ == pre.trips@.update(i, closed_trip(pre.trips@[i], &ev))
                        &&& state_of(post.states@, ev.device_id@) == Some(
                            end_trip_state(state_of(pre.states@, ev.device_id@)->0, &ev),
                        )
                        &&& post.alerts@.len() == pre.alerts@.len() + 1
                        &&& post.alerts@.drop_last() == pre.alerts@
                        &&& alert_row_matches(
                            post.alerts@.last(),
                            &ev,
                            fresh_row_id,
                            tid,
                            "ignition_off"@,
                        )
                    },
                    None => {
                        &&& post.trips@ == pre.trips@
                        &&& post.alerts@ == pre.alerts@
                        &&& point_state_upserted(pre, post, &ev)
                    },
                }
            },
            MessageDestination::TripAlert => {
                &&& post.trips@ == pre.trips@
                &&& post.points@ == pre.points@
                &&& post.idle@ == pre.idle@
                &&& point_state_upserted(pre, post, &ev)
                &&& match resolved_trip_id(
                    pre.states@,
                    pre.trips@,
                    ev.device_id@,
                ) {
                    Some(tid) => {
                        &&& post.alerts@.len() == pre.alerts@.len() + 1
                        &&& post.alerts@.drop_last() == pre.alerts@
                        &&& alert_row_matches(
                            post.alerts@.last(),
                            &ev,
                            fresh_row_id,
                            tid,
                            alert_view(&ev)->0,
                        )
                    },
                    None => post.alerts@ == pre.alerts@,
                }
            },
            MessageDestination::TripPoint => {
                &&& post.trips@ == pre.trips@
                &&& post.alerts@ == pre.alerts@
                &&& post.idle@ == pre.idle@
                &&& point_state_upserted(pre, post, &ev)
                &&& match resolved_trip_id(
                    pre.states@,
                    pre.trips@,
                    ev.device_id@,
                ) {
                    Some(tid) => post.points@ == pre.points@.push(
                        trip_point_row(&ev, tid),
                    ),
                    None => post.points@ == pre.points@,
                }
            },
            MessageDestination::IdleActivity => {
                &&& post.trips@ == pre.trips@
                &&& post.points@ == pre.points@
                &&& post.alerts@ == pre.alerts@
                &&& point_state_upserted(pre, post, &ev)
                &&& post.idle@.len() == pre.idle@.len() + 1
                &&& post.idle@.drop_last() == pre.idle@
                &&& idle_row_matches(post.idle@.last(), &ev, fresh_row_id)
            },
            _ => {
                // the two ignored ignition signals: state refresh only
                &&& post.trips@ == pre.trips@
                &&& post.points@ == pre.points@
                &&& post.alerts@ == pre.alerts@
                &&& post.idle@ == pre.idle@
                &&& point_state_upserted(pre, post, &ev)
            },
        },
    }
}

impl TripStore {
    /// Refreshes the device's last-seen fields, creating its state row on
    /// the first event ever seen; trip flags and all tables untouched.
    fn upsert_point_state(&mut self, ev: &CanonicalEvent)
        requires
            old(self).wf(),
        ensures
            final(self).wf(),
            point_state_upserted(*old(self), *final(self), ev),
            final(self).trips@ == old(self).trips@,
            final(self).points@ == old(self).points@,
            final(self).alerts@ == old(self).alerts@,
            final(self).idle@ == old(self).idle@,
    {
        let st_i = self.state_index(&ev.device_id);
        let newst = match st_i {
            Some(i) => DeviceCurrentState {
                device_id: self.states[i].device_id.clone(),
                current_trip_id: self.states[i].current_trip_id,
                ignition_on: self.states[i].ignition_on,
                last_point_at: ev.timestamp,
                last_lat: ev.latitude,
                last_lng: ev.longitude,
                last_speed: Some(ev.speed),
                last_correlation_id: ev.event_id,
            },
            None => DeviceCurrentState {
                device_id: ev.device_id.clone(),
                current_trip_id: None,
                ignition_on: false,
                last_point_at: ev.timestamp,
                last_lat: ev.latitude,
                last_lng: ev.longitude,
                last_speed: Some(ev.speed),
                last_correlation_id: ev.event_id,
            },
        };
        assert(newst == upserted_point_state(state_of(old(self).states@, ev.device_id@), ev));
        self.put_state(newst);
        proof {
            lemma_wf_after_state_step(*old(self), *self, ev.device_id@, newst);
        }
    }

    /// Resolves the trip the event belongs to, under the lock: the state
    /// row's current trip id, or — recovering from drift — the device's
    /// open trip row.
    fn resolve_trip(&self, ev: &CanonicalEvent) -> (r: Option<u128>)
        requires
            self.wf(),
            trip_active_of(self.states@, ev.device_id@),
        ensures
            r == resolved_trip_id(self.states@, self.trips@, ev.device_id@),
            match r {
                Some(tid) => exists|j: int|
                    0 <= j < self.trips@.len() && (#[trigger] self.trips@[j]).trip_id == tid
                        && self.trips@[j].device_id@ == ev.device_id@ && trip_open(
                        self.trips@[j],
                    ),
                None => true,
            },
    {
        let st_i = match self.state_index(&ev.device_id) {
            Some(i) => i,
            None => {
                assert(false);
                return None;
            },
        };
        match self.states[st_i].current_trip_id {
            Some(t) => {
                assert(exists|j: int|
                    0 <= j < self.trips@.len() && (#[trigger] self.trips@[j]).trip_id == t
                        && self.trips@[j].device_id@ == ev.device_id@ && trip_open(
                        self.trips@[j],
                    ));
                Some(t)
            },
            None => match self.open_trip_index(&ev.device_id) {
                Some(j) => {
                    proof {
                        let k = open_trip_idx(self.trips@, ev.device_id@);
                        assert(0 <= k < self.trips@.len() && self.trips@[k].device_id@
                            == ev.device_id@ && trip_open(self.trips@[k]));
                        assert(k == j as int);
                    }
                    Some(self.trips[j].trip_id)
                },
                None => None,
            },
        }
    }

    /// The atomic unit of work for one event, as the store commits it under
    /// the device's row lock: classify against the locked state, apply every
    /// write of the chosen destination, refresh the device's last-seen
    /// fields. An event whose id already keys a trip row is refused whole,
    /// as the store's primary-key constraint rolls the transaction back.
    pub fn handle_event(&mut self, ev: &CanonicalEvent, fresh_row_id: u128) -> (r: Result<
        MessageDestination,
        ProcessingError,
    >)
        requires
            old(self).wf(),
        ensures
            final(self).wf(),
            event_step(*old(self), *final(self), *ev, fresh_row_id, r),
    {
        let ghost d = ev.device_id@;
        let st_i = self.state_index(&ev.device_id);
        let trip_active = match st_i {
            Some(i) => self.states[i].ignition_on,
            None => false,
        };
        assert(trip_active == trip_active_of(self.states@, d));
        let alert_ref: Option<&str> = match &ev.alert {
            Some(s) => Some(s.as_str()),
            None => None,
        };
        assert(view_opt_str(alert_ref) == alert_view(ev));
        let dest = determine_destination(alert_ref, trip_active);
        match dest {
            MessageDestination::NewTrip => {
                match self.trip_index(ev.event_id) {
                    Some(_) => {
                        return Err(ProcessingError::DuplicateTrip);
                    },
                    None => {},
                }
                let row = Trip {
                    trip_id: ev.event_id,
                    device_id: ev.device_id.clone(),
                    start_time: ev.timestamp,
                    start_lat: ev.latitude,
                    start_lng: ev.longitude,
                    end_time: None,
                    end_lat: None,
                    end_lng: None,
                    start_odometer: None,
                    end_odometer: None,
                };
                assert(row == new_trip_row(ev));
                self.trips.push(row);
                let newst = DeviceCurrentState {
                    device_id: ev.device_id.clone(),
                    current_trip_id: Some(ev.event_id),
                    ignition_on: true,
                    last_point_at: ev.timestamp,
                    last_lat: ev.latitude,
                    last_lng: ev.longitude,
                    last_speed: Some(ev.speed),
                    last_correlation_id: ev.event_id,
                };
                assert(newst == new_trip_state(ev));
                self.put_state(newst);
                let arow = TripAlert {
                    alert_id: fresh_row_id,
                    trip_id: ev.event_id,
                    timestamp: ev.timestamp,
                    lat: ev.latitude,
                    lon: ev.longitude,
                    alert_type: "ignition_on".to_owned(),
                    raw_code: ev.raw_code,
                    severity: 1,
                    device_id: ev.device_id.clone(),
                    correlation_id: ev.event_id,
                };
                self.alerts.push(arow);
                proof {
                    assert(self.alerts@.drop_last() =~= old(self).alerts@);
                    lemma_wf_after_new_trip(*old(self), *self, d, new_trip_row(ev), newst);
                }
                Ok(MessageDestination::NewTrip)
            },
            MessageDestination::EndTrip => {
                let st_idx = match st_i {
                    Some(i) => i,
                    None => {
                        assert(false);
                        return Err(ProcessingError::DuplicateTrip);
                    },
                };
                let resolved = self.resolve_trip(ev);
                match resolved {
                    Some(tid) => {
                        let ti = match self.trip_index(tid) {
                            Some(ti) => ti,
                            None => {
                                assert(false);
                                return Err(ProcessingError::DuplicateTrip);
                            },
                        };
                        proof {
                            let j = choose|j: int|
                                0 <= j < self.trips@.len() && (#[trigger] self.trips@[j]).trip_id
                                    == tid && self.trips@[j].device_id@ == d && trip_open(
                                    self.trips@[j],
                                );
                            assert(ti as int == j);
                        }
                        let closed = Trip {
                            trip_id: self.trips[ti].trip_id,
                            device_id: self.trips[ti].device_id.clone(),
                            start_time: self.trips[ti].start_time,
                            start_lat: self.trips[ti].start_lat,
                            start_lng: self.trips[ti].start_lng,
                            end_time: Some(ev.timestamp),
                            end_lat: Some(ev.latitude),
                            end_lng: Some(ev.longitude),
                            start_odometer: self.trips[ti].start_odometer,
                            end_odometer: self.trips[ti].end_odometer,
                        };
                        assert(closed == closed_trip(old(self).trips@[ti as int], ev));
                        self.trips.set(ti, closed);
                        let newst = DeviceCurrentState {
                            device_id: self.states[st_idx].device_id.clone(),
                            current_trip_id: None,
                            ignition_on: false,
                            last_point_at: ev.timestamp,
                            last_lat: ev.latitude,
                            last_lng: ev.longitude,
                            last_speed: Some(ev.speed),
                            last_correlation_id: ev.event_id,
                        };
                        assert(newst == end_trip_state(
                            state_of(old(self).states@, d)->0,
                            ev,
                        ));
                        self.put_state(newst);
                        let arow = TripAlert {
                            alert_id: fresh_row_id,
                            trip_id: tid,
                            timestamp: ev.timestamp,
                            lat: ev.latitude,
                            lon: ev.longitude,
                            alert_type: "ignition_off".to_owned(),
                            raw_code: ev.raw_code,
                            severity: 1,
                            device_id: ev.device_id.clone(),
                            correlation_id: ev.event_id,
                        };
                        self.alerts.push(arow);
                        proof {
                            assert(self.alerts@.drop_last() =~= old(self).alerts@);
                            lemma_wf_after_end_trip(
                                *old(self),
                                *self,
                                d,
                                ti as int,
                                closed,
                                newst,
                            );
                        }
                        Ok(MessageDestination::EndTrip)
                    },
                    None => {
                        self.upsert_point_state(ev);
                        Ok(MessageDestination::EndTrip)
                    },
                }
            },
            MessageDestination::TripAlert => {
                let resolved = self.resolve_trip(ev);
                match resolved {
                    Some(tid) => {
                        let atext = match &ev.alert {
                            Some(a) => a.clone(),
                            None => {
                                assert(false);
                                return Err(ProcessingError::DuplicateTrip);
                            },
                        };
                        let arow = TripAlert {
                            alert_id: fresh_row_id,
                            trip_id: tid,
                            timestamp: ev.timestamp,
                            lat: ev.latitude,
                            lon: ev.longitude,
                            alert_type: atext,
                            raw_code: ev.raw_code,
                            severity: 1,
                            device_id: ev.device_id.clone(),
                            correlation_id: ev.event_id,
                        };
                        self.alerts.push(arow);
                        proof {
                            assert(self.alerts@.drop_last() =~= old(self).alerts@);
                        }
                    },
                    None => {},
                }
                self.upsert_point_state(ev);
                Ok(MessageDestination::TripAlert)
            },
            MessageDestination::TripPoint => {
                let resolved = self.resolve_trip(ev);
                match resolved {
                    Some(tid) => {
                        let prow = TripPoint {
                            trip_id: tid,
                            device_id: ev.device_id.clone(),
                            timestamp: ev.timestamp,
                            lat: ev.latitude,
                            lng: ev.longitude,
                            speed: ev.speed,
                            heading: ev.heading,
                            correlation_id: ev.event_id,
                        };
                        assert(prow == trip_point_row(ev, tid));
                        self.points.push(prow);
                    },
                    None => {},
                }
                self.upsert_point_state(ev);
                Ok(MessageDestination::TripPoint)
            },
            MessageDestination::IdleActivity => {
                let activity: String = match &ev.alert {
                    Some(a) => {
                        if has_content(a.as_str()) {
                            a.clone()
                        } else {
                            "gps_idle_point".to_owned()
                        }
                    },
                    None => "gps_idle_point".to_owned(),
                };
                let xrow = DeviceIdleActivity {
                    idle_id: fresh_row_id,
                    device_id: ev.device_id.clone(),
                    timestamp: ev.timestamp,
                    lat: ev.latitude,
                    lon: ev.longitude,
                    activity_type: activity,
                    raw_code: ev.raw_code,
                    severity: 1,
                    metadata: ev.metadata_json.clone(),
                    correlation_id: ev.event_id,
                };
                self.idle.push(xrow);
                proof {
                    assert(self.idle@.drop_last() =~= old(self).idle@);
                }
                self.upsert_point_state(ev);
                Ok(MessageDestination::IdleActivity)
            },
            MessageDestination::IgnoredIgnitionOn => {
                self.upsert_point_state(ev);
                Ok(MessageDestination::IgnoredIgnitionOn)
            },
            MessageDestination::IgnoredIgnitionOff => {
                self.upsert_point_state(ev);
                Ok(MessageDestination::IgnoredIgnitionOff)
            },
        }
    }
}

/// Every table of `post` holds exactly what it held in `pre`.
pub open spec fn store_unchanged(pre: TripStore, post: TripStore) -> bool {
    &&& post.states@ == pre.states@
    &&& post.trips@ == pre.trips@
    &&& post.points@ == pre.points@
    &&& post.alerts@ == pre.alerts@
    &&& post.idle@ == pre.idle@
}

/// What became of one raw payload.
#[derive(Debug, Clone, Copy, PartialEq, Eq, Structural)]
pub enum ProcessOutcome {
    /// The event reached the engine and its destination's writes committed.
    Handled(MessageDestination),
    /// The payload was malformed, named no device, or carried no readable
    /// timestamp: logged and dropped, nothing written, no redelivery asked.
    Dropped,
}

impl TripStore {
    /// Processes one raw payload end to end: decode, normalize, then apply
    /// the event's destination atomically.
    ///
    /// A payload that cannot be decoded or normalized is dropped as success
    /// — the transport must not redeliver a permanently bad message — and
    /// the store is left exactly as it was.
    pub fn process_message(&mut self, payload: &[u8]) -> (r: Result<ProcessOutcome,
        ProcessingError,
    >)
        requires
            old(self).wf(),
        ensures
            final(self).wf(),
            match r {
                Ok(o) => match o {
                    ProcessOutcome::Dropped => store_unchanged(*old(self), *final(self))
                        && !payload_event_ok(payload@),
                    ProcessOutcome::Handled(dest) => payload_event_ok(payload@) && exists|
                        ev: CanonicalEvent,
                        rid: u128,
                    |
                        event_step(*old(self), *final(self), ev, rid, Ok(dest))
                            && event_from_payload(ev, payload@),
                },
                Err(e) => payload_event_ok(payload@) && store_unchanged(*old(self), *final(self))
                    && exists|ev: CanonicalEvent, rid: u128|
                    event_step(*old(self), *final(self), ev, rid, Err(e)) && event_from_payload(
                        ev,
                        payload@,
                    ),
            },
    {
        let msg = match crate::message::decode_message(payload) {
            Some(m) => m,
            None => {
                return Ok(ProcessOutcome::Dropped);
            },
        };
        proof {
            // The decoded fields are the payload's named readings, so the
            // message-level views reduce to the payload-level ones.
            assert(crate::message::device_id_view(&msg) == crate::message::payload_device(
                payload@,
            ));
            assert(crate::message::timestamp_text(&msg) == (
            match crate::json::payload_data_text(payload@, "GPS_DATETIME"@) {
                Ok(Some(tt)) => tt,
                _ => Seq::<char>::empty(),
            }));
        }
        let fallback_id = crate::ids::fresh_uuid();
        let ev = match CanonicalEvent::from_message(&msg, fallback_id) {
            Some(e) => e,
            None => {
                return Ok(ProcessOutcome::Dropped);
            },
        };
        proof {
            assert(crate::message::event_from_payload(ev, payload@));
            assert(crate::message::payload_event_ok(payload@));
        }
        let fresh_row_id = crate::ids::fresh_uuid();
        match self.handle_event(&ev, fresh_row_id) {
            Ok(dest) => {
                proof {
                    assert(event_step(*old(self), *self, ev, fresh_row_id, Ok(dest)));
                }
                Ok(ProcessOutcome::Handled(dest))
            },
            Err(e) => {
                proof {
                    assert(event_step(*old(self), *self, ev, fresh_row_id, Err(e)));
                }
                Err(e)
            },
        }
    }
}

/// For every device, at most one trip row has no end time at any observed
/// instant: two open trips of one device are the same row.
pub proof fn lemma_at_most_one_open_trip(s: TripStore, i: int, j: int)
    requires
        s.wf(),
        0 <= i < s.trips@.len(),
        0 <= j < s.trips@.len(),
        s.trips@[i].device_id@ == s.trips@[j].device_id@,
        trip_open(s.trips@[i]),
        trip_open(s.trips@[j]),
    ensures
        i == j,
{
}

/// Two trip-starting events for one device, serialized by the row lock:
/// the first classifies as a new trip and its step commits exactly one trip
/// row; against the committed state the second classifies as an ignored
/// ignition signal, whose step writes no trip row at all.
pub proof fn lemma_second_ignition_ignored(
    pre: TripStore,
    mid: TripStore,
    ev1: &CanonicalEvent,
    ev2: &CanonicalEvent,
    fresh_row_id: u128,
)
    requires
        pre.wf(),
        ev2.device_id@ == ev1.device_id@,
        crate::classify::signal_on(alert_view(ev1)),
        crate::classify::signal_on(alert_view(ev2)),
        !trip_active_of(pre.states@, ev1.device_id@),
        // what the first event's step, by the engine's contract, commits
        event_step(pre, mid, *ev1, fresh_row_id, Ok(MessageDestination::NewTrip)),
    ensures
        classify_spec(alert_view(ev1), trip_active_of(pre.states@, ev1.device_id@))
            == MessageDestination::NewTrip,
        mid.trips@.len() == pre.trips@.len() + 1,
        classify_spec(alert_view(ev2), trip_active_of(mid.states@, ev2.device_id@))
            == MessageDestination::IgnoredIgnitionOn,
{
}

} // verus!
