//! Fresh public ids and timestamps for rows that are about to be written.

use crate::text::{chars_of, string_of_range};
use vstd::prelude::*;

verus! {

/// Length of the id of a conversation turn.
pub const TURN_ID_LEN: usize = 36;

/// Length of the id of an important entry.
pub const ENTRY_ID_LEN: usize = 8;

/// Whether `c` is one of `0`..`9`, `a`..`f`.
pub open spec fn is_lower_hex(c: char) -> bool {
    ('0' <= c && c <= '9') || ('a' <= c && c <= 'f')
}

/// Whether `s` has the shape `xxxxxxxx-xxxx-xxxx-xxxx-xxxxxxxxxxxx`, each `x`
/// a lowercase hexadecimal digit.
pub open spec fn is_uuid_text(s: Seq<char>) -> bool {
    &&& s.len() == TURN_ID_LEN
    &&& forall|i: int|
        0 <= i < s.len() ==> if i == 8 || i == 13 || i == 18 || i == 23 {
            #[trigger] s[i] == '-'
        } else {
            is_lower_hex(s[i])
        }
}

/// `uuid::Uuid::new_v4` followed by its `Display` form. Trusted: whatever
/// random value is drawn, the text is the hyphenated lowercase form of 36
/// characters.
#[verifier::external_body]
fn random_uuid_text() -> (id: String)
    ensures
        is_uuid_text(id@),
{
    uuid::Uuid::new_v4().to_string()
}

/// `chrono::Utc::now` read as microseconds since the Unix epoch. Nothing is
/// promised of the value.
#[verifier::external_body]
pub(crate) fn now_micros() -> (t: i64) {
    chrono::Utc::now().timestamp_micros()
}

/// The minute in which a timestamp falls, written `YYYY-MM-DD HH:MM` in UTC;
/// nothing for a timestamp outside the range of the calendar.
pub uninterp spec fn utc_minute_label(micros: i64) -> Option<Seq<char>>;

/// `chrono::DateTime::from_timestamp_micros` and, on the date it gives,
/// `format` with `%Y-%m-%d %H:%M`. Trusted: the text depends on the
/// timestamp alone, and is named `utc_minute_label`.
#[verifier::external_body]
pub(crate) fn minute_label(micros: i64) -> (label: Option<String>)
    ensures
        match label {
            Some(text) => utc_minute_label(micros) == Some(text@),
            None => utc_minute_label(micros) is None,
        },
{
    match chrono::DateTime::from_timestamp_micros(micros) {
        Some(at) => Some(at.format("%Y-%m-%d %H:%M").to_string()),
        None => None,
    }
}

/// A fresh id for a conversation turn.
pub fn fresh_turn_id() -> (id: String)
    ensures
        is_uuid_text(id@),
{
    random_uuid_text()
}

/// The first `ENTRY_ID_LEN` characters of `id`, or all of `id` if it is shorter.
pub fn short_id(id: &str) -> (short: String)
    ensures
        short@ == id@.take(
            if id@.len() < ENTRY_ID_LEN {
                id@.len() as int
            } else {
                ENTRY_ID_LEN as int
            },
        ),
{
    let chars = chars_of(id);
    let n: usize = if chars.len() < ENTRY_ID_LEN {
        chars.len()
    } else {
        ENTRY_ID_LEN
    };
    let short = string_of_range(&chars, 0, n);
    assert(chars@.subrange(0, n as int) == chars@.take(n as int));
    short
}

/// A fresh id for an important entry: eight lowercase hexadecimal digits.
pub fn fresh_entry_id() -> (id: String)
    ensures
        id@.len() == ENTRY_ID_LEN,
        forall|i: int| 0 <= i < id@.len() ==> is_lower_hex(#[trigger] id@[i]),
{
    let long = random_uuid_text();
    short_id(long.as_str())
}

/// The later of `now` and `floor`.
pub open spec fn not_before(now: int, floor: Option<i64>) -> int {
    match floor {
        Some(f) => if now < f {
            f as int
        } else {
            now
        },
        None => now,
    }
}

/// The timestamp for a row written at `now` into a table whose newest row is
/// stamped `floor`: rows are stamped in the order of their writing even when
/// the clock steps back.
pub fn stamp_not_before(now: i64, floor: Option<i64>) -> (t: i64)
    ensures
        t == not_before(now as int, floor),
{
    match floor {
        Some(f) => if now < f {
            f
        } else {
            now
        },
        None => now,
    }
}

} // verus!
