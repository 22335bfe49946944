//! Liveness of servers and validity of fast tokens.
//!
//! An instant is a count of microseconds since the Unix epoch. Ages are
//! differences of two instants and are taken in unbounded integers, so no
//! pair of instants is out of range.

use vstd::prelude::*;

verus! {

/// A server whose last heartbeat is this old, or older, is no longer live.
pub const LIVENESS_WINDOW_MICROS: i64 = 60_000_000;

/// A fast token that is this old, or older, is no longer valid.
pub const FAST_TOKEN_WINDOW_MICROS: i64 = 1_200_000_000;

/// The time from `then` to `now`, in microseconds.
pub open spec fn age_micros(now: i64, then: i64) -> int {
    now - then
}

/// A server is live while its last heartbeat is less than sixty seconds old.
pub open spec fn is_live(now: i64, last_seen: i64) -> bool {
    age_micros(now, last_seen) < LIVENESS_WINDOW_MICROS
}

/// A fast token is valid while it is less than twenty minutes old.
pub open spec fn is_valid_token_age(now: i64, created_at: i64) -> bool {
    age_micros(now, created_at) < FAST_TOKEN_WINDOW_MICROS
}

/// The age in whole milliseconds, rounded toward zero.
pub open spec fn age_millis(now: i64, then: i64) -> int {
    let age = age_micros(now, then);
    if age >= 0 {
        age / 1000
    } else {
        -((-age) / 1000)
    }
}

/// Whether less than `window` microseconds lie between `then` and `now`.
fn within(now: i64, then: i64, window: i64) -> (fresh: bool)
    requires
        window >= 0,
    ensures
        fresh == (age_micros(now, then) < window),
{
    let age: i128 = now as i128 - then as i128;
    age < window as i128
}

/// Decides whether a server with the given last heartbeat is live at `now`.
pub fn server_is_live(now: i64, last_seen: i64) -> (live: bool)
    ensures
        live == is_live(now, last_seen),
{
    within(now, last_seen, LIVENESS_WINDOW_MICROS)
}

/// Decides whether a fast token created at `created_at` is valid at `now`.
pub fn token_is_valid(now: i64, created_at: i64) -> (valid: bool)
    ensures
        valid == is_valid_token_age(now, created_at),
{
    within(now, created_at, FAST_TOKEN_WINDOW_MICROS)
}

/// The age of a heartbeat in whole milliseconds, rounded toward zero.
pub fn last_seen_millis(now: i64, last_seen: i64) -> (millis: i64)
    ensures
        millis == age_millis(now, last_seen),
{
    let age: i128 = now as i128 - last_seen as i128;
    if age >= 0 {
        (age / 1000) as i64
    } else {
        let back: i128 = (0 - age) / 1000;
        (0 - back) as i64
    }
}

/// The text of an instant as `chrono::NaiveDateTime` displays it: the date,
/// a blank, the time of day and, where the second has one, its fraction.
/// There is none for an instant outside the years that chrono can hold.
pub uninterp spec fn instant_text(micros: i64) -> Option<Seq<char>>;

/// The text under which an instant is shown: that of chrono, or the empty
/// text where chrono has none.
pub open spec fn shown_instant(micros: i64) -> Seq<char> {
    match instant_text(micros) {
        Some(text) => text,
        None => Seq::empty(),
    }
}

/// Writes an instant with `chrono::DateTime::from_timestamp_micros` and the
/// `Display` of its `naive_utc`. Whether there is a text, and which, depends
/// on the instant alone.
#[verifier::external_body]
fn format_instant(micros: i64) -> (text: Option<String>)
    ensures
        match text {
            Some(text) => instant_text(micros) == Some(text@),
            None => instant_text(micros) is None,
        },
{
    match chrono::DateTime::from_timestamp_micros(micros) {
        Some(instant) => Some(instant.naive_utc().to_string()),
        None => None,
    }
}

/// The text under which an instant is shown, given what writing it
/// yielded: the text itself, or the empty text where there is none.
pub fn text_or_empty(written: Option<String>) -> (text: String)
    ensures
        text@ == match written {
            Some(written) => written@,
            None => Seq::<char>::empty(),
        },
{
    match written {
        Some(written) => written,
        None => String::new(),
    }
}

/// Writes an instant as it is shown.
pub fn show_instant(micros: i64) -> (text: String)
    ensures
        text@ == shown_instant(micros),
{
    text_or_empty(format_instant(micros))
}

/// A heartbeat that is sixty seconds old or older is never live, and one
/// that lies in the future of `now` always is.
pub proof fn liveness_is_a_threshold(now: i64, last_seen: i64)
    ensures
        age_micros(now, last_seen) >= 60_000_000 ==> !is_live(now, last_seen),
        last_seen >= now ==> is_live(now, last_seen),
        is_live(now, last_seen) <==> age_millis(now, last_seen) < 60_000,
{
}

} // verus!
