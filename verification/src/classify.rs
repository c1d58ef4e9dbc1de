//! Destination classifier: the pure decision at the heart of the engine.
//!
//! Every incoming event is mapped, from its alert text and the device's
//! current trip-active flag alone, to exactly one destination. The ignition
//! vocabulary is matched case-insensitively (ASCII folding), and an alert
//! that is absent or whitespace-only counts as no alert at all.

use vstd::prelude::*;

verus! {

/// The persistence action an event triggers.
#[derive(Debug, Clone, Copy, PartialEq, Eq, Structural)]
pub enum MessageDestination {
    /// Create a new trip (ignition on while no trip is active).
    NewTrip,
    /// Close the open trip (ignition off while a trip is active).
    EndTrip,
    /// Append a GPS point to the active trip.
    TripPoint,
    /// Append an alert to the active trip.
    TripAlert,
    /// Archive as idle activity (no active trip, not an ignition signal).
    IdleActivity,
    /// Ignition on repeated while a trip is already active: no trip write.
    IgnoredIgnitionOn,
    /// Ignition off repeated while no trip is active: no trip write.
    IgnoredIgnitionOff,
}

/// ASCII whitespace; an alert made only of these behaves as absent.
pub open spec fn is_space_char(c: char) -> bool {
    c == ' ' || c == '\t' || c == '\n' || c == '\r' || c as u32 == 11 || c as u32 == 12
}

/// `c` upper-cases to `u` under ASCII folding: either the characters are
/// equal, or `c` is the lowercase ASCII letter of `u`.
pub open spec fn folds_to(c: char, u: char) -> bool {
    c == u || (97 <= c as u32 && c as u32 <= 122 && c as u32 == u as u32 + 32)
}

/// `s` upper-cases, character for character, to `t`.
pub open spec fn upper_is(s: Seq<char>, t: Seq<char>) -> bool {
    s.len() == t.len() && (forall|i: int| 0 <= i < s.len() ==> folds_to(s[i], t[i]))
}

/// The ignition-on vocabulary, after upper-casing.
pub open spec fn is_on_signal(s: Seq<char>) -> bool {
    upper_is(s, "ENGINE ON"@) || upper_is(s, "TURN ON"@)
}

/// The ignition-off vocabulary, after upper-casing.
pub open spec fn is_off_signal(s: Seq<char>) -> bool {
    upper_is(s, "ENGINE OFF"@) || upper_is(s, "TURN OFF"@)
}

/// An optional alert carries an ignition-on signal.
pub open spec fn signal_on(alert: Option<Seq<char>>) -> bool {
    match alert {
        Some(s) => is_on_signal(s),
        None => false,
    }
}

/// An optional alert carries an ignition-off signal.
pub open spec fn signal_off(alert: Option<Seq<char>>) -> bool {
    match alert {
        Some(s) => is_off_signal(s),
        None => false,
    }
}

/// The alert text, trimmed, is not empty: some character is not whitespace.
pub open spec fn trimmed_nonempty(s: Seq<char>) -> bool {
    exists|i: int| 0 <= i < s.len() && !is_space_char(s[i])
}

/// An optional alert has non-whitespace content.
pub open spec fn alert_nonempty(alert: Option<Seq<char>>) -> bool {
    match alert {
        Some(s) => trimmed_nonempty(s),
        None => false,
    }
}

/// The decision table: pure and total over every (alert, trip-active) pair.
pub open spec fn classify_spec(alert: Option<Seq<char>>, trip_active: bool) -> MessageDestination {
    if signal_on(alert) {
        if !trip_active {
            MessageDestination::NewTrip
        } else {
            MessageDestination::IgnoredIgnitionOn
        }
    } else if signal_off(alert) {
        if trip_active {
            MessageDestination::EndTrip
        } else {
            MessageDestination::IgnoredIgnitionOff
        }
    } else if trip_active {
        if alert_nonempty(alert) {
            MessageDestination::TripAlert
        } else {
            MessageDestination::TripPoint
        }
    } else {
        MessageDestination::IdleActivity
    }
}

/// View of an optional borrowed string as an optional character sequence.
pub open spec fn view_opt_str(alert: Option<&str>) -> Option<Seq<char>> {
    match alert {
        Some(s) => Some(s@),
        None => None,
    }
}

/// `s` upper-cases exactly to `t` (the uppercase vocabulary word).
fn upper_eq(s: &str, t: &str) -> (r: bool)
    ensures
        r == upper_is(s@, t@),
{
    let n = s.unicode_len();
    let m = t.unicode_len();
    if n != m {
        return false;
    }
    let mut i: usize = 0;
    while i < n
        invariant
            0 <= i <= n,
            n == s@.len(),
            n == t@.len(),
            forall|k: int| 0 <= k < i ==> folds_to(s@[k], t@[k]),
        decreases n - i,
    {
        let c = s.get_char(i);
        let u = t.get_char(i);
        let cv = c as u32;
        let uv = u as u32;
        if !(c == u || (97 <= cv && cv <= 122 && uv <= 90 && cv == uv + 32)) {
            assert(!folds_to(s@[i as int], t@[i as int]));
            return false;
        }
        i += 1;
    }
    true
}

/// Detects an ignition-on event. Vendor spellings are folded together:
/// `"ENGINE ON"` and `"TURN ON"`, compared case-insensitively.
///
/// The folding is ASCII-only: a non-ASCII letter whose Unicode upper case
/// would land in the vocabulary (a dotless i, a ligature) is not
/// recognized. The vocabulary itself is plain ASCII.
pub fn is_ignition_on(alert: Option<&str>) -> (r: bool)
    ensures
        r == signal_on(view_opt_str(alert)),
{
    match alert {
        Some(s) => upper_eq(s, "ENGINE ON") || upper_eq(s, "TURN ON"),
        None => false,
    }
}

/// Detects an ignition-off event. Vendor spellings are folded together:
/// `"ENGINE OFF"` and `"TURN OFF"`, compared case-insensitively.
///
/// The folding is ASCII-only, as for the ignition-on check.
pub fn is_ignition_off(alert: Option<&str>) -> (r: bool)
    ensures
        r == signal_off(view_opt_str(alert)),
{
    match alert {
        Some(s) => upper_eq(s, "ENGINE OFF") || upper_eq(s, "TURN OFF"),
        None => false,
    }
}

/// The alert, trimmed, is not empty.
pub fn has_content(s: &str) -> (r: bool)
    ensures
        r == trimmed_nonempty(s@),
{
    let n = s.unicode_len();
    let mut i: usize = 0;
    while i < n
        invariant
            0 <= i <= n,
            n == s@.len(),
            forall|k: int| 0 <= k < i ==> is_space_char(s@[k]),
        decreases n - i,
    {
        let c = s.get_char(i);
        let cv = c as u32;
        if !(c == ' ' || c == '\t' || c == '\n' || c == '\r' || cv == 11 || cv == 12) {
            assert(!is_space_char(s@[i as int]));
            return true;
        }
        i += 1;
    }
    false
}

/// Maps an event's alert text and the device's trip-active flag to the one
/// destination the decision table gives. First matching row wins; the
/// classifier never touches storage.
pub fn determine_destination(alert: Option<&str>, is_trip_active: bool) -> (d: MessageDestination)
    ensures
        d == classify_spec(view_opt_str(alert), is_trip_active),
{
    let engine_on = is_ignition_on(alert);
    let engine_off = is_ignition_off(alert);

    if engine_on {
        if !is_trip_active {
            MessageDestination::NewTrip
        } else {
            MessageDestination::IgnoredIgnitionOn
        }
    } else if engine_off {
        if is_trip_active {
            MessageDestination::EndTrip
        } else {
            MessageDestination::IgnoredIgnitionOff
        }
    } else if is_trip_active {
        match alert {
            Some(a) if has_content(a) => MessageDestination::TripAlert,
            _ => MessageDestination::TripPoint,
        }
    } else {
        MessageDestination::IdleActivity
    }
}

/// An alert outside the ignition vocabulary, with no trip active, is always
/// archived as idle activity.
pub proof fn lemma_unknown_alert_is_idle(alert: Option<Seq<char>>)
    requires
        !signal_on(alert),
        !signal_off(alert),
    ensures
        classify_spec(alert, false) == MessageDestination::IdleActivity,
{
}

/// The vocabulary check is case-insensitive: every spelling of "engine on"
/// classifies as the same destination, a new trip.
pub proof fn lemma_vocabulary_case_insensitive()
    ensures
        classify_spec(Some("engine on"@), false) == MessageDestination::NewTrip,
        classify_spec(Some("ENGINE ON"@), false) == MessageDestination::NewTrip,
        classify_spec(Some("Turn On"@), false) == MessageDestination::NewTrip,
{
    reveal_strlit("engine on");
    reveal_strlit("ENGINE ON");
    reveal_strlit("Turn On");
    reveal_strlit("TURN ON");
    assert(upper_is("engine on"@, "ENGINE ON"@));
    assert(upper_is("ENGINE ON"@, "ENGINE ON"@));
    assert(upper_is("Turn On"@, "TURN ON"@));
}

/// A whitespace-only or absent alert while a trip is active always yields a
/// trip point, never a trip alert.
pub proof fn lemma_blank_alert_is_point(alert: Option<Seq<char>>)
    requires
        match alert {
            Some(s) => forall|i: int| 0 <= i < s.len() ==> is_space_char(s[i]),
            None => true,
        },
    ensures
        classify_spec(alert, true) == MessageDestination::TripPoint,
{
    reveal_strlit("ENGINE ON");
    reveal_strlit("TURN ON");
    reveal_strlit("ENGINE OFF");
    reveal_strlit("TURN OFF");
    match alert {
        Some(s) => {
            assert(!trimmed_nonempty(s));
            if upper_is(s, "ENGINE ON"@) {
                assert(folds_to(s[0], 'E'));
                assert(false);
            }
            if upper_is(s, "TURN ON"@) {
                assert(folds_to(s[0], 'T'));
                assert(false);
            }
            if upper_is(s, "ENGINE OFF"@) {
                assert(folds_to(s[0], 'E'));
                assert(false);
            }
            if upper_is(s, "TURN OFF"@) {
                assert(folds_to(s[0], 'T'));
                assert(false);
            }
        },
        None => {},
    }
}

} // verus!
