//! What the search and schedule services answer: the search filter for the
//! programmes on air around now, and the listing of the queued schedules.
use vstd::prelude::*;
use crate::clock::{in_datetime_range, now_millis, HOUR_MS};
use crate::program::Program;
use crate::schedule::SchedQueue;
use crate::text::{append_chars, chars_of, decimal_chars, decimal_text, string_of};

verus! {

/// The instant `t` cut down to a whole second (what `timestamp() * 1000`
/// gives of a `chrono` date-time).
pub open spec fn whole_seconds_ms(t: int) -> int {
    t - t % 1000
}

/// The window searched for the current programmes starts an hour before now.
pub open spec fn window_start(now: int) -> int {
    whole_seconds_ms(now - HOUR_MS)
}

/// The window searched for the current programmes ends six hours after now.
pub open spec fn window_end(now: int) -> int {
    whole_seconds_ms(now + 6 * HOUR_MS)
}

/// The search filter for the programmes starting in the window around `now`.
pub open spec fn current_window_filter(now: int) -> Seq<char> {
    "start_at >= "@ + decimal_text(window_start(now)) + " AND start_at < "@ + decimal_text(
        window_end(now),
    )
}

/// The window around `now` is made of instants a `chrono` date-time can hold.
pub open spec fn window_fits(now: int) -> bool {
    in_datetime_range(now - HOUR_MS) && in_datetime_range(now + 6 * HOUR_MS)
}

fn whole_seconds(t: i64) -> (r: i64)
    requires
        in_datetime_range(t as int),
    ensures
        r == whole_seconds_ms(t as int),
{
    let shifted = t + 8334601228800000i64;
    let rem = (shifted as u64) % 1000;
    proof {
        vstd::arithmetic::div_mod::lemma_mod_multiples_vanish(8334601228800, t as int, 1000);
        assert(shifted == 1000 * 8334601228800 + t);
    }
    t - (rem as i64)
}

/// The search filter for the programmes on air around `now`: those starting
/// from an hour before it (cut to the second) and before six hours after it
/// (cut to the second), as `start_at >= <ms> AND start_at < <ms>`.
pub fn current_contents_filter(now: i64) -> (r: String)
    requires
        window_fits(now as int),
    ensures
        r@ == current_window_filter(now as int),
{
    let start = whole_seconds(now - HOUR_MS);
    let end = whole_seconds(now + 6 * HOUR_MS);
    let mut text: Vec<char> = Vec::new();
    let a = chars_of("start_at >= ");
    append_chars(&mut text, a.as_slice());
    let b = decimal_chars(start);
    append_chars(&mut text, b.as_slice());
    let c = chars_of(" AND start_at < ");
    append_chars(&mut text, c.as_slice());
    let d = decimal_chars(end);
    append_chars(&mut text, d.as_slice());
    string_of(text.as_slice())
}

/// The search filter for the programmes on air now, by the wall clock,
/// with the clock's reading: the filter is present exactly when the window
/// around the reading is made of instants a `chrono` date-time can hold.
pub fn current_contents_filter_now() -> (r: (i64, Option<String>))
    ensures
        in_datetime_range(r.0 as int),
        r.1 is Some <==> window_fits(r.0 as int),
        r.1 matches Some(f) ==> f@ == current_window_filter(r.0 as int),
{
    let now = now_millis();
    if now >= -8334601228800000i64 + HOUR_MS && now <= 8210266876799999i64 - 6 * HOUR_MS {
        (now, Some(current_contents_filter(now)))
    } else {
        (now, None)
    }
}

/// The earliest instant whose local year is at least 0 in every time zone
/// (0000-01-02T00:00:00 UTC).
pub const RFC2822_MIN_MS: i64 = -62167132800000;
/// The latest instant whose local year is at most 9999 in every time zone
/// (9999-12-30T23:59:59.999 UTC).
pub const RFC2822_MAX_MS: i64 = 253402214399999;

/// The local date of instant `t` has a year from 0 to 9999 whatever the
/// time zone, so RFC 2822 can write it.
pub open spec fn rfc2822_writable(t: int) -> bool {
    RFC2822_MIN_MS <= t <= RFC2822_MAX_MS
}

/// `chrono`: the instant `ms` taken into the machine's time zone
/// (`DateTime::with_timezone(&Local)`) and written by `DateTime::to_rfc2822`.
/// The text depends on the time zone, so nothing is claimed of it; the
/// `requires` keeps the local year within 0..=9999 (zone offsets are under a
/// day), outside of which `to_rfc2822` panics.
#[verifier::external_body]
fn local_rfc2822(ms: i64) -> (r: String)
    requires
        rfc2822_writable(ms as int),
{
    chrono::DateTime::from_timestamp_millis(ms).unwrap().with_timezone(&chrono::Local).to_rfc2822()
}

/// How a queued schedule is shown: the programme's name, its start and end
/// in local time, and its length in milliseconds.
#[derive(Debug)]
pub struct ScheduleDetails {
    pub name: String,
    pub start_at_human: String,
    pub duration: Option<i64>,
    pub end_at_human: Option<String>,
}

/// A queued schedule as listed: the programme id and how it is shown.
#[derive(Debug)]
pub struct ScheduleConfiguration {
    pub id: i64,
    pub details: ScheduleDetails,
}

/// The programme can be shown: it has a name, and its start and end (when
/// its length is known) can be written in RFC 2822.
pub open spec fn showable(p: Program) -> bool {
    &&& p.name is Some
    &&& rfc2822_writable(p.start_at as int)
    &&& (p.duration matches Some(d) ==> rfc2822_writable(p.start_at + d))
}

/// `d` shows the programme `p`: its name and length, and an end exactly when
/// the length is known.
pub open spec fn shows(d: ScheduleDetails, p: Program) -> bool {
    &&& p.name matches Some(n) && d.name@ == n@
    &&& d.duration == p.duration
    &&& (d.end_at_human is Some <==> p.duration is Some)
}

/// How the programme `p` of a queued schedule is shown.
pub fn schedule_details(p: &Program) -> (r: ScheduleDetails)
    requires
        showable(*p),
    ensures
        shows(r, *p),
{
    let name = match &p.name {
        Some(n) => n.clone(),
        None => String::new(),
    };
    let start_at_human = local_rfc2822(p.start_at);
    let end_at_human = match p.duration {
        Some(d) => Some(local_rfc2822(p.start_at + d)),
        None => None,
    };
    ScheduleDetails { name, start_at_human, duration: p.duration, end_at_human }
}

/// Lists the queued schedules, in queue order.
pub fn list_schedules(q: &SchedQueue) -> (r: Vec<ScheduleConfiguration>)
    requires
        forall|i: int| 0 <= i < q.items@.len() ==> showable(#[trigger] q.items@[i].program),
    ensures
        r@.len() == q.items@.len(),
        forall|i: int|
            0 <= i < r@.len() ==> #[trigger] r@[i].id == q.items@[i].program.id && shows(
                r@[i].details,
                q.items@[i].program,
            ),
{
    let mut r: Vec<ScheduleConfiguration> = Vec::new();
    let mut i: usize = 0;
    while i < q.items.len()
        invariant
            i <= q.items@.len(),
            r@.len() == i,
            forall|k: int| 0 <= k < q.items@.len() ==> showable(#[trigger] q.items@[k].program),
            forall|k: int|
                0 <= k < i ==> #[trigger] r@[k].id == q.items@[k].program.id && shows(
                    r@[k].details,
                    q.items@[k].program,
                ),
        decreases q.items@.len() - i,
    {
        let p = &q.items[i].program;
        let details = schedule_details(p);
        r.push(ScheduleConfiguration { id: p.id, details });
        i = i + 1;
    }
    r
}

} // verus!
