//! How long history entries are kept.

use vstd::prelude::*;

#[allow(unused_imports)]
use crate::driver::date_millis;

verus! {

/// Whether an entry archived at `date` is, at `now`, older than `age_millis`.
pub open spec fn is_older(date: bson::DateTime, now: bson::DateTime, age_millis: u128) -> bool {
    date_millis(now) - date_millis(date) > age_millis
}

/// Whether the dates before `cutoff` are those that are, at `now`, older than `age_millis`.
pub open spec fn separates(
    cutoff: bson::DateTime,
    now: bson::DateTime,
    age_millis: u128,
) -> bool {
    forall|date: bson::DateTime|
        date_millis(date) < date_millis(cutoff) <==> #[trigger] is_older(date, now, age_millis)
}

/// The date `age_millis` before `now`, or the earliest date there is where that would lie
/// before it.
pub fn cutoff_at(now: bson::DateTime, age_millis: u128) -> (cutoff: bson::DateTime)
    ensures
        date_millis(cutoff) == (if date_millis(now) - age_millis >= i64::MIN {
            date_millis(now) - age_millis
        } else {
            i64::MIN as int
        }),
        separates(cutoff, now, age_millis),
{
    let now_millis: i64 = now.timestamp_millis();
    let room: i128 = now_millis as i128 - i64::MIN as i128;
    if age_millis <= room as u128 {
        bson::DateTime::from_millis((now_millis as i128 - age_millis as i128) as i64)
    } else {
        bson::DateTime::from_millis(i64::MIN)
    }
}

/// The date before which history entries are now older than `age_millis`.
pub fn history_cutoff(age_millis: u128) -> (cutoff: bson::DateTime)
    ensures
        exists|now: bson::DateTime| #[trigger]
            call_ensures(bson::DateTime::now, (), now) && separates(cutoff, now, age_millis)
                && date_millis(cutoff) == (if date_millis(now) - age_millis >= i64::MIN {
                date_millis(now) - age_millis
            } else {
                i64::MIN as int
            }),
{
    cutoff_at(bson::DateTime::now(), age_millis)
}

} // verus!
