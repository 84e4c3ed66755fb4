//! Evaluation of the EIT (present/following) sections that `tstables`
//! prints as JSON lines: does the section announce the programme being
//! recorded as the following event, as the present event, or not at all?
use vstd::prelude::*;
use chrono::{Datelike, Timelike};
use crate::clock::{in_datetime_range, in_instant_reading_range, DATETIME_MAX_MS, DATETIME_MIN_MS};
use crate::json::{JsonScalar, PathAnswer, is_json, json_path, json_path_answer, json_text_parses, matches_of};
use crate::program::Program;
use crate::states::{FoundInFollowing, FoundInPresent};
use crate::text::{chars_of, parse_i64, spec_parse_i64, spec_split, split_at_char};

verus! {

/// What the EIT says about the programme being recorded.
#[derive(Clone, Copy, PartialEq, Eq, Structural, Debug)]
pub enum EitDetected {
    /// Announced as the present event.
    P(FoundInPresent),
    /// Announced as the following event.
    F(FoundInFollowing),
    /// Not announced, as seen since `since`.
    NotFound { since: i64 },
}

/// Sections that the evaluation cannot handle.
#[derive(Clone, Copy, PartialEq, Eq, Structural, Debug)]
pub enum EitFault {
    /// One of the six queries is refused (the text is not JSON, or the
    /// query is not a JSONPath).
    QueryRefused,
    /// One of the six queries answered `null` (every match it found is a
    /// missing value).
    MissingQueryResult,
    /// The matching pair holds a number that is not an `i64` as event id.
    EventIdNotInteger,
    /// The duration of the hit is not a string.
    DurationNotText,
    /// The duration of the hit does not fit a time span.
    DurationOutOfRange,
    /// The start time of the hit does not name one local instant.
    StartNotResolved,
    /// The end of the hit lies outside the range of date-times.
    InstantOutOfRange,
}

/// The largest number of seconds a time span can hold (`i64::MAX` milliseconds).
pub const SPAN_SECONDS_MAX: i64 = 9223372036854775;

/// How long after its announced end a programme still counts as present.
pub const PRESENT_GRACE_MS: i64 = 30000;

/// The format of start times in `tstables` output.
pub open spec fn start_time_format() -> Seq<char> {
    "%Y-%m-%d %H:%M:%S"@
}

/// `x` seconds fit a time span.
pub open spec fn span_seconds_ok(x: int) -> bool {
    -SPAN_SECONDS_MAX <= x <= SPAN_SECONDS_MAX
}

/// The value of a duration field piece: the integer it spells, 0 if it spells none.
pub open spec fn piece_value(t: Seq<char>) -> int {
    match spec_parse_i64(t) {
        Some(v) => v as int,
        None => 0,
    }
}

/// The span, in milliseconds, that a duration field `[[h:]m:]s` denotes,
/// reading the pieces between colons from the right (seconds, minutes,
/// hours); a piece that is not an integer counts as 0. `None` when the
/// seconds, minutes or hours, or their partial sums, do not fit a time span.
pub open spec fn spec_duration_millis(t: Seq<char>) -> Option<int> {
    let ps = spec_split(t, ':');
    let n = ps.len();
    let sec = piece_value(ps[n - 1]);
    let min = if n >= 2 {
        piece_value(ps[n - 2])
    } else {
        0
    };
    let hour = if n >= 3 {
        piece_value(ps[n - 3])
    } else {
        0
    };
    if span_seconds_ok(sec) && span_seconds_ok(min * 60) && span_seconds_ok(hour * 3600)
        && span_seconds_ok(sec + min * 60) && span_seconds_ok(sec + min * 60 + hour * 3600) {
        Some((sec + min * 60 + hour * 3600) * 1000)
    } else {
        None
    }
}

/// Converts a duration field `[[h:]m:]s` to milliseconds.
pub fn duration_millis(t: &[char]) -> (r: Option<i64>)
    ensures
        match r {
            Some(v) => spec_duration_millis(t@) == Some(v as int),
            None => spec_duration_millis(t@) is None,
        },
{
    let ps = split_at_char(t, ':');
    proof {
        crate::text::lemma_split_nonempty(t@, ':');
    }
    let n = ps.len();
    let sec: i128 = match parse_i64(ps[n - 1].as_slice()) {
        Some(v) => v as i128,
        None => 0,
    };
    let min: i128 = if n >= 2 {
        match parse_i64(ps[n - 2].as_slice()) {
            Some(v) => v as i128,
            None => 0,
        }
    } else {
        0
    };
    let hour: i128 = if n >= 3 {
        match parse_i64(ps[n - 3].as_slice()) {
            Some(v) => v as i128,
            None => 0,
        }
    } else {
        0
    };
    let lim = SPAN_SECONDS_MAX as i128;
    let min_s = min * 60;
    let hour_s = hour * 3600;
    if -lim <= sec && sec <= lim && -lim <= min_s && min_s <= lim && -lim <= hour_s && hour_s
        <= lim && -lim <= sec + min_s && sec + min_s <= lim && -lim <= sec + min_s + hour_s && sec
        + min_s + hour_s <= lim {
        Some(((sec + min_s + hour_s) * 1000) as i64)
    } else {
        None
    }
}

/// `s` is the number `v`.
pub open spec fn scalar_is_int(s: JsonScalar, v: int) -> bool {
    match s {
        JsonScalar::Number(Some(x)) => x == v,
        _ => false,
    }
}

/// `s` is the string `t`.
pub open spec fn scalar_is_text(s: JsonScalar, t: Seq<char>) -> bool {
    match s {
        JsonScalar::Text(x) => x@ == t,
        _ => false,
    }
}

/// The (event id, start time) pairs are read while the event id is a number
/// and the start time a string; this is the index of the first pair that is
/// not read, counting from `k`.
pub open spec fn pairs_end(eids: Seq<JsonScalar>, starts: Seq<JsonScalar>, k: nat) -> nat
    decreases eids.len() - k,
{
    if k < eids.len() && k < starts.len() && eids[k as int] is Number && starts[k as int] is Text {
        pairs_end(eids, starts, k + 1)
    } else {
        k
    }
}

/// The duration of the hit: the `i`-th duration field if there is one.
pub open spec fn hit_duration(durs: Seq<JsonScalar>, i: nat) -> Result<Option<int>, EitFault> {
    if i < durs.len() {
        match durs[i as int] {
            JsonScalar::Text(t) => match spec_duration_millis(t@) {
                Some(ms) => Ok(Some(ms)),
                None => Err(EitFault::DurationOutOfRange),
            },
            _ => Err(EitFault::DurationNotText),
        }
    } else {
        Ok(None)
    }
}

/// The local instant of the `k`-th start time, as given in `resolved`.
pub open spec fn resolved_at(resolved: Seq<Option<i64>>, k: nat) -> Option<i64> {
    if k < resolved.len() {
        resolved[k as int]
    } else {
        None
    }
}

/// Scans the pairs from `k` for the event `event_id`; `i` counts the
/// durations consumed (a hit whose programme has already ended does not
/// consume one). `resolved[k]` is the local instant of the `k`-th start time.
pub open spec fn spec_scan(
    eids: Seq<JsonScalar>,
    starts: Seq<JsonScalar>,
    durs: Seq<JsonScalar>,
    event_id: int,
    now: i64,
    resolved: Seq<Option<i64>>,
    k: nat,
    i: nat,
) -> Result<Option<EitDetected>, EitFault>
    decreases eids.len() - k,
{
    if k < eids.len() && k < starts.len() && eids[k as int] is Number && starts[k as int] is Text {
        match eids[k as int] {
            JsonScalar::Number(Some(x)) => if x == event_id {
                match hit_duration(durs, i) {
                    Err(f) => Err(f),
                    Ok(d) => match resolved_at(resolved, k) {
                        None => Err(EitFault::StartNotResolved),
                        Some(st) => if now < st {
                            Ok(
                                Some(
                                    EitDetected::F(
                                        FoundInFollowing {
                                            start_at: st,
                                            duration: match d {
                                                Some(v) => Some(v as i64),
                                                None => None,
                                            },
                                        },
                                    ),
                                ),
                            )
                        } else {
                            match d {
                                None => spec_scan(eids, starts, durs, event_id, now, resolved, k + 1, i),
                                Some(dv) => if !in_datetime_range(st + dv) || !in_datetime_range(
                                    st + dv + PRESENT_GRACE_MS,
                                ) {
                                    Err(EitFault::InstantOutOfRange)
                                } else if now < st + dv + PRESENT_GRACE_MS {
                                    Ok(
                                        Some(
                                            EitDetected::P(
                                                FoundInPresent {
                                                    start_at: st,
                                                    duration: Some(dv as i64),
                                                },
                                            ),
                                        ),
                                    )
                                } else {
                                    spec_scan(eids, starts, durs, event_id, now, resolved, k + 1, i)
                                },
                            }
                        },
                    },
                }
            } else {
                spec_scan(eids, starts, durs, event_id, now, resolved, k + 1, i + 1)
            },
            _ => Err(EitFault::EventIdNotInteger),
        }
    } else {
        Ok(Some(EitDetected::NotFound { since: now }))
    }
}

proof fn lemma_scan_passes_other_events(
    eids: Seq<JsonScalar>,
    starts: Seq<JsonScalar>,
    durs: Seq<JsonScalar>,
    event_id: int,
    now: i64,
    resolved: Seq<Option<i64>>,
    j: nat,
    k: nat,
)
    requires
        j <= k,
        k <= eids.len(),
        k <= starts.len(),
        forall|q: int|
            j <= q < k ==> (#[trigger] eids[q] matches JsonScalar::Number(Some(x)) && x != event_id)
                && starts[q] is Text,
    ensures
        spec_scan(eids, starts, durs, event_id, now, resolved, j, j) == spec_scan(
            eids,
            starts,
            durs,
            event_id,
            now,
            resolved,
            k,
            k,
        ),
    decreases k - j,
{
    if j < k {
        assert(eids[j as int] matches JsonScalar::Number(Some(x)) && x != event_id);
        lemma_scan_passes_other_events(eids, starts, durs, event_id, now, resolved, j + 1, k);
    }
}

/// A hit reads its own start and duration: when the `k`-th pair is the
/// first one with the programme's event id (the pairs before it being other
/// events), the report gives the start time resolved for pair `k` and the
/// duration field of node `k`: following before that start, present from
/// the start until thirty seconds after its end.
pub proof fn law_hit_reads_its_own_duration(
    eids: Seq<JsonScalar>,
    starts: Seq<JsonScalar>,
    durs: Seq<JsonScalar>,
    event_id: int,
    now: i64,
    resolved: Seq<Option<i64>>,
    k: nat,
    st: i64,
    ms: int,
)
    requires
        k < eids.len(),
        k < starts.len(),
        k < durs.len(),
        k < resolved.len(),
        forall|q: int|
            0 <= q < k ==> (#[trigger] eids[q] matches JsonScalar::Number(Some(x)) && x != event_id)
                && starts[q] is Text,
        eids[k as int] matches JsonScalar::Number(Some(x)) && x == event_id,
        starts[k as int] is Text,
        durs[k as int] is Text,
        spec_duration_millis(durs[k as int]->Text_0@) == Some(ms),
        resolved[k as int] == Some(st),
    ensures
        now < st ==> spec_scan(eids, starts, durs, event_id, now, resolved, 0, 0) == Ok::<
            Option<EitDetected>,
            EitFault,
        >(Some(EitDetected::F(FoundInFollowing { start_at: st, duration: Some(ms as i64) }))),
        st <= now && in_datetime_range(st + ms) && in_datetime_range(st + ms + PRESENT_GRACE_MS)
            && now < st + ms + PRESENT_GRACE_MS ==> spec_scan(
            eids,
            starts,
            durs,
            event_id,
            now,
            resolved,
            0,
            0,
        ) == Ok::<Option<EitDetected>, EitFault>(
            Some(EitDetected::P(FoundInPresent { start_at: st, duration: Some(ms as i64) })),
        ),
{
    lemma_scan_passes_other_events(eids, starts, durs, event_id, now, resolved, 0, k);
}

/// The answers of the six queries that the EIT evaluation runs on a section.
#[derive(Debug)]
pub struct EitAnswers {
    /// `$.original_network_id`
    pub network_ids: PathAnswer,
    /// `$.service_id`
    pub service_ids: PathAnswer,
    /// `$.type`
    pub table_types: PathAnswer,
    /// `$.#nodes.*.event_id`
    pub event_ids: PathAnswer,
    /// `$.#nodes.*.start_time`
    pub start_times: PathAnswer,
    /// `$.#nodes.*.duration`
    pub durations: PathAnswer,
}

/// The answers of the six queries on the section `text`.
pub open spec fn answers_of(text: Seq<char>) -> EitAnswers {
    EitAnswers {
        network_ids: json_path_answer(text, "$.original_network_id"@),
        service_ids: json_path_answer(text, "$.service_id"@),
        table_types: json_path_answer(text, "$.type"@),
        event_ids: json_path_answer(text, "$.#nodes.*.event_id"@),
        start_times: json_path_answer(text, "$.#nodes.*.start_time"@),
        durations: json_path_answer(text, "$.#nodes.*.duration"@),
    }
}

/// Whether the answers describe the present/following table of the
/// programme's service; a fault when a query was refused or answered
/// nothing at all (refusals are looked at first).
pub open spec fn spec_header(a: EitAnswers, program: Program) -> Result<bool, EitFault> {
    if a.network_ids is Refused || a.service_ids is Refused || a.table_types is Refused
        || a.event_ids is Refused || a.start_times is Refused || a.durations is Refused {
        Err(EitFault::QueryRefused)
    } else if a.network_ids is Nothing || a.service_ids is Nothing || a.table_types is Nothing
        || a.event_ids is Nothing || a.start_times is Nothing || a.durations is Nothing {
        Err(EitFault::MissingQueryResult)
    } else {
        let nids = matches_of(a.network_ids);
        let sids = matches_of(a.service_ids);
        let tys = matches_of(a.table_types);
        Ok(
            nids.len() > 0 && sids.len() > 0 && tys.len() > 0 && scalar_is_int(
                nids[0],
                program.network_id as int,
            ) && scalar_is_int(sids[0], program.service_id as int) && scalar_is_text(
                tys[0],
                "pf"@,
            ),
        )
    }
}

/// What the answers `a` say about `program` at `now`, given the local
/// instants `resolved` of the start times of the (event id, start time)
/// pairs. `Ok(None)`: the section is not the present/following table of the
/// programme's service.
pub open spec fn spec_extract_answers(
    a: EitAnswers,
    program: Program,
    now: i64,
    resolved: Seq<Option<i64>>,
) -> Result<Option<EitDetected>, EitFault> {
    match spec_header(a, program) {
        Err(f) => Err(f),
        Ok(false) => Ok(None),
        Ok(true) => spec_scan(
            matches_of(a.event_ids),
            matches_of(a.start_times),
            matches_of(a.durations),
            program.event_id as int,
            now,
            resolved,
            0,
            0,
        ),
    }
}

/// What the EIT section `text` (one JSON line) says about `program` at
/// `now`, given the local instants `resolved` of the start times.
pub open spec fn spec_extract(
    text: Seq<char>,
    program: Program,
    now: i64,
    resolved: Seq<Option<i64>>,
) -> Result<Option<EitDetected>, EitFault> {
    spec_extract_answers(answers_of(text), program, now, resolved)
}

/// Runs the six queries on the section `text`.
pub fn eit_answers(text: &str) -> (a: EitAnswers)
    ensures
        a == answers_of(text@),
{
    EitAnswers {
        network_ids: json_path(text, "$.original_network_id"),
        service_ids: json_path(text, "$.service_id"),
        table_types: json_path(text, "$.type"),
        event_ids: json_path(text, "$.#nodes.*.event_id"),
        start_times: json_path(text, "$.#nodes.*.start_time"),
        durations: json_path(text, "$.#nodes.*.duration"),
    }
}

fn is_int(s: &JsonScalar, v: i64) -> (r: bool)
    ensures
        r == scalar_is_int(*s, v as int),
{
    match s {
        JsonScalar::Number(Some(x)) => *x == v,
        _ => false,
    }
}

fn first_is_int(a: &PathAnswer, v: i64) -> (r: bool)
    ensures
        r == (matches_of(*a).len() > 0 && scalar_is_int(matches_of(*a)[0], v as int)),
{
    match a {
        PathAnswer::Matches(m) => m.len() > 0 && is_int(&m[0], v),
        _ => false,
    }
}

fn first_is_pf(a: &PathAnswer) -> (r: bool)
    ensures
        r == (matches_of(*a).len() > 0 && scalar_is_text(matches_of(*a)[0], "pf"@)),
{
    let pf = String::from_str("pf");
    match a {
        PathAnswer::Matches(m) => m.len() > 0 && match &m[0] {
            JsonScalar::Text(t) => t.eq(&pf),
            _ => false,
        },
        _ => false,
    }
}

fn refused(a: &PathAnswer) -> (r: bool)
    ensures
        r == (*a is Refused),
{
    match a {
        PathAnswer::Refused => true,
        _ => false,
    }
}

fn nothing(a: &PathAnswer) -> (r: bool)
    ensures
        r == (*a is Nothing),
{
    match a {
        PathAnswer::Nothing => true,
        _ => false,
    }
}

/// Decides `spec_header`.
fn header_matches(a: &EitAnswers, program: &Program) -> (r: Result<bool, EitFault>)
    ensures
        r == spec_header(*a, *program),
{
    if refused(&a.network_ids) || refused(&a.service_ids) || refused(&a.table_types) || refused(
        &a.event_ids,
    ) || refused(&a.start_times) || refused(&a.durations) {
        return Err(EitFault::QueryRefused);
    }
    if nothing(&a.network_ids) || nothing(&a.service_ids) || nothing(&a.table_types) || nothing(
        &a.event_ids,
    ) || nothing(&a.start_times) || nothing(&a.durations) {
        return Err(EitFault::MissingQueryResult);
    }
    Ok(first_is_int(&a.network_ids, program.network_id as i64) && first_is_int(
        &a.service_ids,
        program.service_id as i64,
    ) && first_is_pf(&a.table_types))
}

/// Scans the pairs of the matched columns for the programme's event.
fn scan_columns(
    event_ids: &Vec<JsonScalar>,
    start_times: &Vec<JsonScalar>,
    durations: &Vec<JsonScalar>,
    event_id: i32,
    now: i64,
    resolved: &Vec<Option<i64>>,
) -> (r: Result<Option<EitDetected>, EitFault>)
    ensures
        r == spec_scan(
            event_ids@,
            start_times@,
            durations@,
            event_id as int,
            now,
            resolved@,
            0,
            0,
        ),
{
    let ghost eids = event_ids@;
    let ghost starts = start_times@;
    let ghost durs = durations@;
    let ghost target = spec_scan(eids, starts, durs, event_id as int, now, resolved@, 0, 0);
    let mut k: usize = 0;
    let mut i: usize = 0;
    let mut more = true;
    while more && k < event_ids.len() && k < start_times.len()
        invariant
            eids == event_ids@,
            starts == start_times@,
            durs == durations@,
            target == spec_scan(eids, starts, durs, event_id as int, now, resolved@, 0, 0),
            i <= k,
            k <= eids.len(),
            more ==> target == spec_scan(
                eids,
                starts,
                durs,
                event_id as int,
                now,
                resolved@,
                k as nat,
                i as nat,
            ),
            !more ==> target == Ok::<Option<EitDetected>, EitFault>(
                Some(EitDetected::NotFound { since: now }),
            ),
        decreases eids.len() - k + (if more {
            1int
        } else {
            0int
        }),
    {
        let pair = match (&event_ids[k], &start_times[k]) {
            (JsonScalar::Number(x), JsonScalar::Text(_)) => Some(*x),
            _ => None,
        };
        match pair {
            None => {
                more = false;
            },
            Some(None) => {
                return Err(EitFault::EventIdNotInteger);
            },
            Some(Some(x)) => {
                if x == event_id as i64 {
                    let d: Option<i64> = if i < durations.len() {
                        match &durations[i] {
                            JsonScalar::Text(t) => {
                                let tc = chars_of(t.as_str());
                                match duration_millis(tc.as_slice()) {
                                    Some(ms) => Some(ms),
                                    None => {
                                        return Err(EitFault::DurationOutOfRange);
                                    },
                                }
                            },
                            _ => {
                                return Err(EitFault::DurationNotText);
                            },
                        }
                    } else {
                        None
                    };
                    let st = if k < resolved.len() {
                        resolved[k]
                    } else {
                        None
                    };
                    let st = match st {
                        Some(st) => st,
                        None => {
                            return Err(EitFault::StartNotResolved);
                        },
                    };
                    if now < st {
                        return Ok(
                            Some(EitDetected::F(FoundInFollowing { start_at: st, duration: d })),
                        );
                    }
                    match d {
                        None => {},
                        Some(dv) => {
                            let end = st as i128 + dv as i128;
                            let grace_end = end + PRESENT_GRACE_MS as i128;
                            if end < DATETIME_MIN_MS as i128 || end > DATETIME_MAX_MS as i128
                                || grace_end < DATETIME_MIN_MS as i128 || grace_end
                                > DATETIME_MAX_MS as i128 {
                                return Err(EitFault::InstantOutOfRange);
                            }
                            if (now as i128) < grace_end {
                                return Ok(
                                    Some(
                                        EitDetected::P(
                                            FoundInPresent { start_at: st, duration: Some(dv) },
                                        ),
                                    ),
                                );
                            }
                        },
                    }
                    k = k + 1;
                } else {
                    k = k + 1;
                    i = i + 1;
                }
            },
        }
    }
    Ok(Some(EitDetected::NotFound { since: now }))
}

/// What the answers `a` of the six queries say about `program` at `now`,
/// given the local instants `resolved` of the start times of the
/// (event id, start time) pairs; a missing entry counts as a start time that
/// names no instant.
pub fn extract_from_answers(
    a: &EitAnswers,
    program: &Program,
    now: i64,
    resolved: &Vec<Option<i64>>,
) -> (r: Result<Option<EitDetected>, EitFault>)
    ensures
        r == spec_extract_answers(*a, *program, now, resolved@),
{
    match header_matches(a, program) {
        Err(f) => Err(f),
        Ok(false) => Ok(None),
        Ok(true) => match (&a.event_ids, &a.start_times, &a.durations) {
            (PathAnswer::Matches(e), PathAnswer::Matches(st), PathAnswer::Matches(d)) => scan_columns(
                e,
                st,
                d,
                program.event_id,
                now,
                resolved,
            ),
            _ => Err(EitFault::MissingQueryResult),
        },
    }
}

/// The fields of a local date-time as `chrono` gives them: year, month,
/// day, hour, minute, second, and nanosecond (at least 10^9 in a leap second,
/// which `chrono` keeps as second 59).
pub type DateTimeFields = (i32, u32, u32, u32, u32, u32, u32);

/// The fields of the date-time that `chrono::NaiveDateTime::parse_from_str`
/// reads from `text` in `format`; `None` when it refuses the text.
pub uninterp spec fn naive_datetime_fields(text: Seq<char>, format: Seq<char>) -> Option<
    DateTimeFields,
>;

/// `chrono::NaiveDateTime::parse_from_str(text, format)`, failures as `None`,
/// the date-time taken apart into its fields (`Datelike` and `Timelike`).
/// Claimed: the outcome is a function of the two strings alone.
#[verifier::external_body]
fn parse_naive_datetime(text: &str, format: &str) -> (r: Option<DateTimeFields>)
    ensures
        r == naive_datetime_fields(text@, format@),
{
    chrono::NaiveDateTime::parse_from_str(text, format).ok().map(
        |t| (t.year(), t.month(), t.day(), t.hour(), t.minute(), t.second(), t.nanosecond()),
    )
}

/// Days from 1970-01-01 to the given day of the proleptic Gregorian calendar.
pub open spec fn days_from_civil(year: int, month: int, day: int) -> int {
    let y = if month <= 2 {
        year - 1
    } else {
        year
    };
    let era = y / 400;
    let yoe = y - era * 400;
    let mp = (month + 9) % 12;
    let doy = (153 * mp + 2) / 5 + day - 1;
    let doe = yoe * 365 + yoe / 4 - yoe / 100 + doy;
    era * 146097 + doe - 719468
}

/// The instant, in milliseconds since the Unix epoch, that the fields name
/// when read as UTC (what `and_utc().timestamp_millis()` gives).
pub open spec fn fields_utc_ms(f: DateTimeFields) -> int {
    days_from_civil(f.0 as int, f.1 as int, f.2 as int) * 86400000 + f.3 * 3600000 + f.4 * 60000
        + f.5 * 1000 + f.6 / 1000000
}

/// How far a local date-time lies from the instant it names: less than a
/// day, since every zone offset `chrono` admits is less than a day.
pub const ZONE_OFFSET_LIMIT_MS: i64 = 86400000;

/// The date-time made of the fields `f` in the machine's time zone
/// (`NaiveDate::from_ymd_opt`, `and_hms_nano_opt`,
/// `Local.from_local_datetime(..).single()`), as milliseconds since the Unix
/// epoch. Which instant it names depends on the zone, so only this is
/// claimed: it lies in the range of date-times (widened by the one second a
/// leap second at its very end adds), and less than a day away from the
/// fields read as UTC, since `chrono` subtracts an offset of less than a day.
#[verifier::external_body]
fn local_instant(f: DateTimeFields) -> (r: Option<i64>)
    ensures
        r matches Some(ms) ==> in_instant_reading_range(ms as int) && fields_utc_ms(f)
            - ZONE_OFFSET_LIMIT_MS < ms < fields_utc_ms(f) + ZONE_OFFSET_LIMIT_MS,
{
    let t = match chrono::NaiveDate::from_ymd_opt(f.0, f.1, f.2) {
        Some(d) => d.and_hms_nano_opt(f.3, f.4, f.5, f.6),
        None => None,
    };
    match t {
        Some(t) => chrono::TimeZone::from_local_datetime(&chrono::Local, &t).single().map(
            |d| d.timestamp_millis(),
        ),
        None => None,
    }
}

/// What holds of the local instant resolved for the start time `s`: none
/// unless `s` is a text that parses as a date-time, and then an instant in
/// range less than a day away from the parsed fields read as UTC.
pub open spec fn start_resolution(s: JsonScalar, o: Option<i64>) -> bool {
    match s {
        JsonScalar::Text(t) => match naive_datetime_fields(t@, start_time_format()) {
            None => o is None,
            Some(f) => o matches Some(ms) ==> in_instant_reading_range(ms as int) && fields_utc_ms(
                f,
            ) - ZONE_OFFSET_LIMIT_MS < ms < fields_utc_ms(f) + ZONE_OFFSET_LIMIT_MS,
        },
        _ => o is None,
    }
}

/// The local instant that the start time `text` (`%Y-%m-%d %H:%M:%S`) names
/// in the machine's time zone, if it names exactly one.
pub fn resolve_start(text: &String) -> (r: Option<i64>)
    ensures
        start_resolution(JsonScalar::Text(*text), r),
{
    let format = String::from_str("%Y-%m-%d %H:%M:%S");
    proof {
        reveal_strlit("%Y-%m-%d %H:%M:%S");
    }
    match parse_naive_datetime(text.as_str(), format.as_str()) {
        Some(f) => local_instant(f),
        None => None,
    }
}

/// The resolution `rs` fits the pairs of the EIT section `text`: one entry
/// per (event id, start time) pair, each a resolution of its start time.
pub open spec fn resolution_fits(text: Seq<char>, rs: Seq<Option<i64>>) -> bool {
    let a = answers_of(text);
    &&& rs.len() == pairs_end(matches_of(a.event_ids), matches_of(a.start_times), 0)
    &&& forall|k: int|
        0 <= k < rs.len() ==> start_resolution(#[trigger] matches_of(a.start_times)[k], rs[k])
}

fn extract_eit_traced(text: &str, program: &Program, now: i64) -> (out: (
    Result<Option<EitDetected>, EitFault>,
    Ghost<Seq<Option<i64>>>,
))
    ensures
        resolution_fits(text@, out.1@),
        out.0 == spec_extract(text@, *program, now, out.1@),
{
    let a = eit_answers(text);
    let none: Vec<JsonScalar> = Vec::new();
    let event_ids = match &a.event_ids {
        PathAnswer::Matches(m) => m,
        _ => &none,
    };
    let start_times = match &a.start_times {
        PathAnswer::Matches(m) => m,
        _ => &none,
    };
    let mut resolved: Vec<Option<i64>> = Vec::new();
    let ghost eids = event_ids@;
    let ghost starts = start_times@;
    assert(eids == matches_of(a.event_ids) && starts == matches_of(a.start_times));
    let mut k: usize = 0;
    let mut more = true;
    while more && k < event_ids.len() && k < start_times.len()
        invariant
            eids == event_ids@,
            starts == start_times@,
            k <= eids.len(),
            resolved@.len() == k,
            more ==> pairs_end(eids, starts, 0) == pairs_end(eids, starts, k as nat),
            !more ==> pairs_end(eids, starts, 0) == k,
            forall|j: int| 0 <= j < k ==> start_resolution(#[trigger] starts[j], resolved@[j]),
        decreases eids.len() - k + (if more {
            1int
        } else {
            0int
        }),
    {
        let o = match (&event_ids[k], &start_times[k]) {
            (JsonScalar::Number(_), JsonScalar::Text(t)) => Some(resolve_start(t)),
            _ => None,
        };
        match o {
            Some(o) => {
                resolved.push(o);
                k = k + 1;
            },
            None => {
                more = false;
            },
        }
    }
    let r = extract_from_answers(&a, program, now, &resolved);
    (r, Ghost(resolved@))
}

/// What the EIT section `text` (one JSON line of `tstables`) says about
/// `program` at `now`; the start times of the pairs are resolved in the
/// machine's time zone, so the outcome is stated for some resolution of them.
pub fn extract_eit(text: &str, program: &Program, now: i64) -> (r: Result<
    Option<EitDetected>,
    EitFault,
>)
    ensures
        exists|resolved: Seq<Option<i64>>|
            resolution_fits(text@, resolved) && r == spec_extract(text@, *program, now, resolved),
{
    let (r, Ghost(resolved)) = extract_eit_traced(text, program, now);
    assert(resolution_fits(text@, resolved) && r == spec_extract(text@, *program, now, resolved));
    r
}

/// The pieces of an output line that are evaluated: the line without
/// trailing white space, split at line breaks.
pub open spec fn spec_line_pieces(line: Seq<char>) -> Seq<Seq<char>> {
    spec_split(crate::text::spec_trim_end(line), '\n')
}

/// Splits an output line of `tstables` into the pieces that are evaluated.
pub fn line_pieces(line: &str) -> (r: Vec<String>)
    ensures
        r@.len() == spec_line_pieces(line@).len(),
        forall|i: int| 0 <= i < r@.len() ==> #[trigger] r@[i]@ == spec_line_pieces(line@)[i],
{
    let cs = chars_of(line);
    let trimmed = crate::text::trim_end(cs.as_slice());
    let parts = split_at_char(trimmed.as_slice(), '\n');
    let mut r: Vec<String> = Vec::new();
    let mut i: usize = 0;
    while i < parts.len()
        invariant
            i <= parts@.len(),
            r@.len() == i,
            parts@.len() == spec_line_pieces(line@).len(),
            forall|j: int| 0 <= j < parts@.len() ==> #[trigger] parts@[j]@ == spec_line_pieces(line@)[j],
            forall|j: int| 0 <= j < i ==> #[trigger] r@[j]@ == spec_line_pieces(line@)[j],
        decreases parts@.len() - i,
    {
        r.push(crate::text::string_of(parts[i].as_slice()));
        i = i + 1;
    }
    r
}

/// What one output line leads to.
#[derive(Clone, Copy, PartialEq, Eq, Structural, Debug)]
pub enum LineVerdict {
    /// Report this to the recording task; it becomes the last report.
    Send(EitDetected),
    /// Report nothing.
    Skip,
    /// The piece with this index is not JSON; it is logged and nothing is reported.
    Unparsable(usize),
}

/// The first thing the pieces of a line say about the programme: scans the
/// pieces from `j` (a piece that is not JSON stops the scan unless it is
/// `lenient`), with `resolved[j]` the resolution of the start times of
/// piece `j`.
pub open spec fn spec_scan_pieces(
    pieces: Seq<String>,
    program: Program,
    now: i64,
    resolved: Seq<Seq<Option<i64>>>,
    j: nat,
    lenient: bool,
) -> Result<LineVerdict, EitFault>
    decreases pieces.len() - j,
{
    if j < pieces.len() {
        if !json_text_parses(pieces[j as int]@) {
            if lenient {
                spec_scan_pieces(pieces, program, now, resolved, j + 1, lenient)
            } else {
                Ok(LineVerdict::Unparsable(j as usize))
            }
        } else {
            match spec_extract(
                pieces[j as int]@,
                program,
                now,
                if j < resolved.len() {
                    resolved[j as int]
                } else {
                    Seq::empty()
                },
            ) {
                Err(f) => Err(f),
                Ok(Some(e)) => Ok(LineVerdict::Send(e)),
                Ok(None) => spec_scan_pieces(pieces, program, now, resolved, j + 1, lenient),
            }
        }
    } else {
        Ok(LineVerdict::Skip)
    }
}

/// Both readings of a line evaluate each section with the same
/// `spec_extract`, so on a line whose pieces are all JSON the strict reading
/// and the lenient one come to the same first telling piece.
pub proof fn law_readings_agree_on_json(
    pieces: Seq<String>,
    program: Program,
    now: i64,
    resolved: Seq<Seq<Option<i64>>>,
    j: nat,
)
    requires
        forall|k: int| 0 <= k < pieces.len() ==> json_text_parses(#[trigger] pieces[k]@),
    ensures
        spec_scan_pieces(pieces, program, now, resolved, j, false) == spec_scan_pieces(
            pieces,
            program,
            now,
            resolved,
            j,
            true,
        ),
    decreases pieces.len() - j,
{
    if j < pieces.len() {
        assert(json_text_parses(pieces[j as int]@));
        law_readings_agree_on_json(pieces, program, now, resolved, j + 1);
    }
}

/// A new report against the last one: a programme still not found keeps
/// the time since which it has not been found.
pub open spec fn spec_merge(last: EitDetected, found: EitDetected) -> EitDetected {
    match (last, found) {
        (EitDetected::NotFound { since }, EitDetected::NotFound { .. }) => EitDetected::NotFound {
            since,
        },
        _ => found,
    }
}

/// Only a programme still not found keeps the last report: any other new
/// report replaces the last one as it is, and a new "not found" after a
/// "not found" keeps the earlier time.
pub proof fn law_new_report_wins(last: EitDetected, found: EitDetected)
    ensures
        !(found is NotFound) ==> spec_merge(last, found) == found,
        last is NotFound && found is NotFound ==> spec_merge(last, found) == last,
        !(last is NotFound) ==> spec_merge(last, found) == found,
{
}

/// What a line sends is what its first telling piece reports, unless both
/// that report and the last one are "not found".
pub proof fn law_line_sends_the_new_report(
    last: EitDetected,
    pieces: Seq<String>,
    program: Program,
    now: i64,
    resolved: Seq<Seq<Option<i64>>>,
    e: EitDetected,
)
    requires
        spec_scan_pieces(pieces, program, now, resolved, 0, false) == Ok::<LineVerdict, EitFault>(
            LineVerdict::Send(e),
        ),
        !(e is NotFound) || !(last is NotFound),
    ensures
        spec_derive(last, pieces, program, now, resolved) == Ok::<LineVerdict, EitFault>(
            LineVerdict::Send(e),
        ),
{
}

/// Merges a new report into the last one.
pub fn merge_detection(last: EitDetected, found: EitDetected) -> (r: EitDetected)
    ensures
        r == spec_merge(last, found),
{
    match (last, found) {
        (EitDetected::NotFound { since }, EitDetected::NotFound { .. }) => EitDetected::NotFound {
            since,
        },
        _ => found,
    }
}

/// The report after the reports `found`, in order, were merged into `last`.
pub open spec fn merge_all(last: EitDetected, found: Seq<EitDetected>) -> EitDetected
    decreases found.len(),
{
    if found.len() == 0 {
        last
    } else {
        merge_all(spec_merge(last, found[0]), found.drop_first())
    }
}

/// While a programme keeps being reported as not found, the report keeps
/// the time since which it has not been found; the first report that finds
/// it replaces that report.
pub proof fn law_not_found_keeps_since(since: i64, found: Seq<EitDetected>)
    ensures
        (forall|i: int| 0 <= i < found.len() ==> #[trigger] found[i] is NotFound) ==> merge_all(
            (EitDetected::NotFound { since }),
            found,
        ) == (EitDetected::NotFound { since }),
        found.len() > 0 && !(found[0] is NotFound) ==> merge_all(
            (EitDetected::NotFound { since }),
            found,
        ) == merge_all(found[0], found.drop_first()),
    decreases found.len(),
{
    if found.len() > 0 {
        law_not_found_keeps_since(since, found.drop_first());
        if forall|i: int| 0 <= i < found.len() ==> #[trigger] found[i] is NotFound {
            assert(found[0] is NotFound);
            assert forall|i: int| 0 <= i < found.drop_first().len() implies #[trigger] found.drop_first()[i] is NotFound by {
                assert(found.drop_first()[i] == found[i + 1]);
            }
        }
    }
}

/// What the pieces of a line lead to, given the last report.
pub open spec fn spec_derive(
    last: EitDetected,
    pieces: Seq<String>,
    program: Program,
    now: i64,
    resolved: Seq<Seq<Option<i64>>>,
) -> Result<LineVerdict, EitFault> {
    match spec_scan_pieces(pieces, program, now, resolved, 0, false) {
        Ok(LineVerdict::Send(e)) => Ok(LineVerdict::Send(spec_merge(last, e))),
        other => other,
    }
}

/// What the pieces of a line lead to in the lenient reading: pieces that
/// are not JSON are passed over, and when no piece says anything about the
/// programme a last report of "not found" is repeated.
pub open spec fn spec_derive_lenient(
    last: EitDetected,
    pieces: Seq<String>,
    program: Program,
    now: i64,
    resolved: Seq<Seq<Option<i64>>>,
) -> Result<LineVerdict, EitFault> {
    match spec_scan_pieces(pieces, program, now, resolved, 0, true) {
        Ok(LineVerdict::Send(e)) => Ok(LineVerdict::Send(spec_merge(last, e))),
        Ok(_) => if last is NotFound {
            Ok(LineVerdict::Send(last))
        } else {
            Ok(LineVerdict::Skip)
        },
        Err(f) => Err(f),
    }
}

/// A resolution that fits the piece `p` and resolves nothing.
pub open spec fn unresolved(p: String) -> Seq<Option<i64>> {
    if json_text_parses(p@) {
        Seq::new(
            pairs_end(
                matches_of(answers_of(p@).event_ids),
                matches_of(answers_of(p@).start_times),
                0,
            ),
            |k: int| None,
        )
    } else {
        Seq::empty()
    }
}

/// The resolution `rs` fits the piece `p`: none for a piece that is not
/// JSON, one per pair of the section otherwise.
pub open spec fn piece_resolution_fits(p: String, rs: Seq<Option<i64>>) -> bool {
    if json_text_parses(p@) {
        resolution_fits(p@, rs)
    } else {
        rs.len() == 0
    }
}

/// The resolutions fit the pieces: one per piece, fitting it.
pub open spec fn resolutions_fit(
    pieces: Seq<String>,
    resolved: Seq<Seq<Option<i64>>>,
) -> bool {
    &&& resolved.len() == pieces.len()
    &&& forall|j: int|
        0 <= j < pieces.len() ==> piece_resolution_fits(#[trigger] pieces[j], resolved[j])
}

proof fn lemma_unresolved_fits(p: String)
    ensures
        piece_resolution_fits(p, unresolved(p)),
{
}

/// Resolutions that fit the pieces from `j` on and resolve nothing.
pub open spec fn unresolved_from(pieces: Seq<String>, j: int) -> Seq<Seq<Option<i64>>> {
    Seq::new((pieces.len() - j) as nat, |q: int| unresolved(pieces[j + q]))
}

fn scan_pieces_from(
    pieces: &Vec<String>,
    program: &Program,
    now: i64,
    j: usize,
    lenient: bool,
) -> (out: (Result<LineVerdict, EitFault>, Ghost<Seq<Seq<Option<i64>>>>))
    requires
        j <= pieces@.len(),
    ensures
        out.1@.len() == pieces@.len() - j,
        forall|q: int|
            j <= q < pieces@.len() ==> piece_resolution_fits(
                #[trigger] pieces@[q],
                out.1@[q - j],
            ),
        forall|pre: Seq<Seq<Option<i64>>>|
            pre.len() == j ==> out.0 == spec_scan_pieces(
                pieces@,
                *program,
                now,
                #[trigger] (pre + out.1@),
                j as nat,
                lenient,
            ),
    decreases pieces@.len() - j,
{
    if j == pieces.len() {
        return (Ok(LineVerdict::Skip), Ghost(Seq::empty()));
    }
    let ghost rest = unresolved_from(pieces@, j + 1);
    assert forall|q: int| j + 1 <= q < pieces@.len() implies piece_resolution_fits(
        #[trigger] pieces@[q],
        rest[q - (j + 1)],
    ) by {
        lemma_unresolved_fits(pieces@[q]);
    }
    let parses = is_json(pieces[j].as_str());
    match parses {
        false if lenient => {
            let (r, Ghost(t)) = scan_pieces_from(pieces, program, now, j + 1, lenient);
            let ghost tail = seq![Seq::<Option<i64>>::empty()] + t;
            assert forall|q: int| j <= q < pieces@.len() implies piece_resolution_fits(
                #[trigger] pieces@[q],
                tail[q - j],
            ) by {
                if q > j {
                    assert(tail[q - j] == t[q - (j + 1)]);
                }
            }
            assert forall|pre: Seq<Seq<Option<i64>>>| pre.len() == j implies r
                == spec_scan_pieces(
                pieces@,
                *program,
                now,
                #[trigger] (pre + tail),
                j as nat,
                lenient,
            ) by {
                let pre1 = pre.push(Seq::<Option<i64>>::empty());
                assert(pre1 + t =~= pre + tail);
            }
            (r, Ghost(tail))
        },
        false => {
            let ghost tail = seq![Seq::<Option<i64>>::empty()] + rest;
            assert forall|q: int| j <= q < pieces@.len() implies piece_resolution_fits(
                #[trigger] pieces@[q],
                tail[q - j],
            ) by {
                if q > j {
                    assert(tail[q - j] == rest[q - (j + 1)]);
                }
            }
            (Ok(LineVerdict::Unparsable(j)), Ghost(tail))
        },
        true => {
            let (e, Ghost(res_j)) = extract_eit_traced(pieces[j].as_str(), program, now);
            match e {
                Ok(None) => {
                    let (r, Ghost(t)) = scan_pieces_from(pieces, program, now, j + 1, lenient);
                    let ghost tail = seq![res_j] + t;
                    assert forall|q: int| j <= q < pieces@.len() implies piece_resolution_fits(
                        #[trigger] pieces@[q],
                        tail[q - j],
                    ) by {
                        if q > j {
                            assert(tail[q - j] == t[q - (j + 1)]);
                        }
                    }
                    assert forall|pre: Seq<Seq<Option<i64>>>| pre.len() == j implies r
                        == spec_scan_pieces(
                        pieces@,
                        *program,
                        now,
                        #[trigger] (pre + tail),
                        j as nat,
                        lenient,
                    ) by {
                        let pre1 = pre.push(res_j);
                        assert(pre1 + t =~= pre + tail);
                        assert((pre + tail)[j as int] == res_j);
                    }
                    (r, Ghost(tail))
                },
                _ => {
                    let ghost tail = seq![res_j] + rest;
                    assert forall|q: int| j <= q < pieces@.len() implies piece_resolution_fits(
                        #[trigger] pieces@[q],
                        tail[q - j],
                    ) by {
                        if q > j {
                            assert(tail[q - j] == rest[q - (j + 1)]);
                        }
                    }
                    let r = match e {
                        Err(f) => Err(f),
                        Ok(Some(d)) => Ok(LineVerdict::Send(d)),
                        Ok(None) => Ok(LineVerdict::Skip),
                    };
                    assert forall|pre: Seq<Seq<Option<i64>>>| pre.len() == j implies r
                        == spec_scan_pieces(
                        pieces@,
                        *program,
                        now,
                        #[trigger] (pre + tail),
                        j as nat,
                        lenient,
                    ) by {
                        assert((pre + tail)[j as int] == res_j);
                    }
                    (r, Ghost(tail))
                },
            }
        },
    }
}

/// What one output line of `tstables`, split into pieces (see
/// `line_pieces`), leads to, given the last report `last`: the first piece
/// that says something about the programme decides,
/// a piece that is not JSON stops the scan, and an `Err` is a section the
/// evaluation cannot handle. The start times are resolved in the machine's
/// time zone, so the outcome is stated for some resolution of them.
pub fn derive_from_last_line(
    last: EitDetected,
    pieces: &Vec<String>,
    program: &Program,
    now: i64,
) -> (r: Result<LineVerdict, EitFault>)
    ensures
        exists|resolved: Seq<Seq<Option<i64>>>|
            resolutions_fit(pieces@, resolved) && r == spec_derive(
                last,
                pieces@,
                *program,
                now,
                resolved,
            ),
{
    let (r0, Ghost(tail)) = scan_pieces_from(pieces, program, now, 0, false);
    assert(Seq::<Seq<Option<i64>>>::empty() + tail =~= tail);
    let r = match r0 {
        Ok(LineVerdict::Send(e)) => Ok(LineVerdict::Send(merge_detection(last, e))),
        other => other,
    };
    assert(resolutions_fit(pieces@, tail));
    assert(r == spec_derive(last, pieces@, *program, now, tail));
    r
}

/// The lenient reading of one output line of `tstables` (split into pieces
/// as for `derive_from_last_line`), given the last report `last`:
/// pieces that are not JSON are passed over, the first piece that says
/// something about the programme decides, and when none does a last report
/// of "not found" is sent again (with its time) while any other last report
/// leads to nothing. The start times are resolved in the machine's time
/// zone, so the outcome is stated for some resolution of them.
pub fn derive_from_output(
    last: EitDetected,
    pieces: &Vec<String>,
    program: &Program,
    now: i64,
) -> (r: Result<LineVerdict, EitFault>)
    ensures
        exists|resolved: Seq<Seq<Option<i64>>>|
            resolutions_fit(pieces@, resolved) && r == spec_derive_lenient(
                last,
                pieces@,
                *program,
                now,
                resolved,
            ),
{
    let (r0, Ghost(tail)) = scan_pieces_from(pieces, program, now, 0, true);
    assert(Seq::<Seq<Option<i64>>>::empty() + tail =~= tail);
    let r = match r0 {
        Ok(LineVerdict::Send(e)) => Ok(LineVerdict::Send(merge_detection(last, e))),
        Ok(_) => match last {
            EitDetected::NotFound { .. } => Ok(LineVerdict::Send(last)),
            _ => Ok(LineVerdict::Skip),
        },
        Err(f) => Err(f),
    };
    assert(resolutions_fit(pieces@, tail));
    assert(r == spec_derive_lenient(last, pieces@, *program, now, tail));
    r
}

} // verus!
