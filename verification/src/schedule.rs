//! The schedule queue: programmes to record, when a schedule expires, and
//! when it asks the recording pool to start a recording.
use vstd::prelude::*;
use crate::clock::{in_datetime_range, DATETIME_MAX_MS, DATETIME_MIN_MS, HOUR_MS, MINUTE_MS};
use crate::planner::{PlanUnit, ulid_string};
use crate::program::{
    Program,
    RecordingTaskDescription,
    clone_program,
    same_program,
};
use crate::text::{chars_of, string_of};

verus! {

/// A programme to record. `plan_id` names the rule that added it, if any.
#[derive(Debug)]
pub struct Schedule {
    pub program: Program,
    pub plan_id: Option<(u128, PlanUnit)>,
    pub is_active: bool,
}

/// The schedules and the file they are kept in.
pub struct SchedQueue {
    pub items: Vec<Schedule>,
    pub save_file_location: String,
}

/// How long after its start a programme of unknown length is kept.
pub const UNKNOWN_LENGTH_KEEP_MS: i64 = 3600000;
/// How long before its start a programme's recording is set up.
pub const LEAD_TIME_MS: i64 = 600000;

/// The instant after which a schedule is dropped: the end of the programme,
/// or an hour after its start when its length is unknown.
pub open spec fn schedule_end(s: Schedule) -> int {
    match s.program.duration {
        Some(len) => s.program.start_at + len,
        None => s.program.start_at + UNKNOWN_LENGTH_KEEP_MS,
    }
}

/// The end of the schedule can be computed: the length is a time span and
/// the end an instant a date-time can hold.
pub open spec fn schedule_end_fits(s: Schedule) -> bool {
    &&& s.program.duration != Some(i64::MIN)
    &&& in_datetime_range(schedule_end(s))
}

/// The schedules still to come at `now`, in order.
pub open spec fn pending(items: Seq<Schedule>, now: i64) -> Seq<Schedule>
    decreases items.len(),
{
    if items.len() == 0 {
        Seq::empty()
    } else {
        let rest = pending(items.drop_first(), now);
        if now < schedule_end(items[0]) {
            seq![items[0]] + rest
        } else {
            rest
        }
    }
}

/// No two schedules are for the same programme id.
pub open spec fn program_ids_unique(items: Seq<Schedule>) -> bool {
    forall|i: int, j: int|
        #![trigger items[i], items[j]]
        0 <= i < j < items.len() ==> items[i].program.id != items[j].program.id
}

/// Every schedule still to come was queued.
proof fn lemma_pending_from(items: Seq<Schedule>, now: i64)
    ensures
        forall|k: int|
            0 <= k < pending(items, now).len() ==> items.contains(#[trigger] pending(items, now)[k]),
        pending(items, now).len() <= items.len(),
    decreases items.len(),
{
    if items.len() > 0 {
        let rest = items.drop_first();
        lemma_pending_from(rest, now);
        assert forall|k: int| 0 <= k < pending(items, now).len() implies items.contains(
            #[trigger] pending(items, now)[k],
        ) by {
            if now < schedule_end(items[0]) {
                if k == 0 {
                    assert(items[0] == pending(items, now)[k]);
                } else {
                    assert(pending(items, now)[k] == pending(rest, now)[k - 1]);
                    let x = pending(rest, now)[k - 1];
                    assert(rest.contains(x));
                    let m = choose|m: int| 0 <= m < rest.len() && rest[m] == x;
                    assert(items[m + 1] == x);
                }
            } else {
                let x = pending(rest, now)[k];
                assert(rest.contains(x));
                let m = choose|m: int| 0 <= m < rest.len() && rest[m] == x;
                assert(items[m + 1] == x);
            }
        }
    }
}

/// Dropping the schedules that are over keeps the programme ids unique.
pub proof fn law_pending_keeps_ids_unique(items: Seq<Schedule>, now: i64)
    requires
        program_ids_unique(items),
    ensures
        program_ids_unique(pending(items, now)),
    decreases items.len(),
{
    if items.len() > 0 {
        let rest = items.drop_first();
        assert(program_ids_unique(rest)) by {
            assert forall|i: int, j: int| 0 <= i < j < rest.len() implies rest[i].program.id
                != rest[j].program.id by {
                assert(rest[i] == items[i + 1] && rest[j] == items[j + 1]);
            }
        }
        law_pending_keeps_ids_unique(rest, now);
        lemma_pending_from(rest, now);
        if now < schedule_end(items[0]) {
            let p = pending(items, now);
            let q = pending(rest, now);
            assert forall|i: int, j: int| 0 <= i < j < p.len() implies p[i].program.id
                != p[j].program.id by {
                assert(p[j] == q[j - 1]);
                if i == 0 {
                    assert(rest.contains(q[j - 1]));
                    let m = choose|m: int| 0 <= m < rest.len() && rest[m] == q[j - 1];
                    assert(items[m + 1] == q[j - 1]);
                    assert(items[0] == p[0]);
                } else {
                    assert(p[i] == q[i - 1]);
                }
            }
        }
    }
}

/// A schedule stays exactly while `now` is before its programme's end: the
/// start plus the length, or an hour after the start when the length is
/// unknown; and the schedules of a queue are kept or dropped one by one, in
/// order.
pub proof fn law_kept_until_the_end(s: Schedule, a: Seq<Schedule>, b: Seq<Schedule>, now: i64)
    ensures
        s.program.duration matches Some(len) ==> pending(seq![s], now) == (if now
            < s.program.start_at + len {
            seq![s]
        } else {
            Seq::<Schedule>::empty()
        }),
        s.program.duration is None ==> pending(seq![s], now) == (if now < s.program.start_at
            + 3600000 {
            seq![s]
        } else {
            Seq::<Schedule>::empty()
        }),
        pending(a + b, now) == pending(a, now) + pending(b, now),
    decreases a.len(),
{
    assert(seq![s].drop_first() =~= Seq::<Schedule>::empty());
    assert(pending(Seq::<Schedule>::empty(), now) == Seq::<Schedule>::empty());
    assert(seq![s][0] == s);
    assert(seq![s] + Seq::<Schedule>::empty() =~= seq![s]);
    if a.len() > 0 {
        law_kept_until_the_end(s, a.drop_first(), b, now);
        assert((a + b).drop_first() =~= a.drop_first() + b);
        assert((a + b)[0] == a[0]);
        if now < schedule_end(a[0]) {
            assert(pending(a, now) + pending(b, now) =~= seq![a[0]] + (pending(a.drop_first(), now)
                + pending(b, now)));
        }
    } else {
        assert(a + b =~= b);
        assert(pending(a, now) + pending(b, now) =~= pending(b, now));
    }
}

/// Dropping the schedules that are over a second time at the same instant
/// drops nothing more.
pub proof fn law_pending_idempotent(items: Seq<Schedule>, now: i64)
    ensures
        pending(pending(items, now), now) == pending(items, now),
    decreases items.len(),
{
    if items.len() > 0 {
        let rest = items.drop_first();
        law_pending_idempotent(rest, now);
        if now < schedule_end(items[0]) {
            let p = pending(items, now);
            assert(p[0] == items[0]);
            assert(p.drop_first() =~= pending(rest, now));
        }
    }
}

/// The end of `s` as an `i128`, or `None` where it cannot be computed.
fn end_of(s: &Schedule) -> (r: Option<i128>)
    ensures
        r is Some == schedule_end_fits(*s),
        r matches Some(e) ==> e == schedule_end(*s),
{
    let end: i128 = match s.program.duration {
        Some(len) => {
            if len == i64::MIN {
                return None;
            }
            s.program.start_at as i128 + len as i128
        },
        None => s.program.start_at as i128 + UNKNOWN_LENGTH_KEEP_MS as i128,
    };
    if DATETIME_MIN_MS as i128 <= end && end <= DATETIME_MAX_MS as i128 {
        Some(end)
    } else {
        None
    }
}

impl SchedQueue {
    /// The schedules loaded from `location`: those read from the file if it
    /// could be read and parsed, none otherwise.
    pub fn new(location: String, loaded: Option<Vec<Schedule>>) -> (q: SchedQueue)
        ensures
            q.save_file_location == location,
            loaded is None ==> q.items@.len() == 0,
            loaded matches Some(v) ==> q.items == v,
    {
        match loaded {
            Some(v) => SchedQueue { items: v, save_file_location: location },
            None => SchedQueue { items: Vec::new(), save_file_location: location },
        }
    }

    /// Every schedule's end can be computed.
    pub open spec fn ends_fit(&self) -> bool {
        forall|i: int| 0 <= i < self.items@.len() ==> schedule_end_fits(#[trigger] self.items@[i])
    }

    /// Drops the schedules that are over at `now` and gives back how many
    /// there were and how many remain; `None`, with nothing changed, when
    /// the end of some schedule cannot be computed.
    pub fn drop_expired(&mut self, now: i64) -> (r: Option<(usize, usize)>)
        ensures
            r is Some == old(self).ends_fit(),
            r matches Some((found, remainder)) ==> {
                &&& final(self).items@ == pending(old(self).items@, now)
                &&& found == old(self).items@.len()
                &&& remainder == final(self).items@.len()
            },
            r is None ==> final(self).items@ == old(self).items@,
            program_ids_unique(old(self).items@) ==> program_ids_unique(final(self).items@),
            final(self).save_file_location == old(self).save_file_location,
    {
        let mut i: usize = 0;
        while i < self.items.len()
            invariant
                i <= self.items@.len(),
                forall|j: int| 0 <= j < i ==> schedule_end_fits(#[trigger] self.items@[j]),
            decreases self.items@.len() - i,
        {
            if end_of(&self.items[i]).is_none() {
                return None;
            }
            i = i + 1;
        }
        let found = self.items.len();
        let mut rest: Vec<Schedule> = Vec::new();
        std::mem::swap(&mut rest, &mut self.items);
        let ghost all = rest@;
        let mut kept: Vec<Schedule> = Vec::new();
        while rest.len() > 0
            invariant
                kept@ + pending(rest@, now) == pending(all, now),
                forall|j: int| 0 <= j < rest@.len() ==> schedule_end_fits(#[trigger] rest@[j]),
            decreases rest@.len(),
        {
            let ghost before = rest@;
            let s = rest.remove(0);
            assert(before.drop_first() =~= rest@);
            assert(before[0] == s);
            let end = end_of(&s);
            let keep = match end {
                Some(e) => (now as i128) < e,
                None => false,
            };
            if keep {
                kept.push(s);
                assert(kept@ + pending(rest@, now) =~= pending(all, now));
            }
        }
        assert(kept@ =~= pending(all, now));
        proof {
            if program_ids_unique(all) {
                law_pending_keeps_ids_unique(all, now);
            }
        }
        self.items = kept;
        let remainder = self.items.len();
        Some((found, remainder))
    }
}

/// What the scheduler does with one schedule at a scan.
#[derive(Clone, Copy, PartialEq, Eq, Structural, Debug)]
pub enum Trigger {
    /// Within ten minutes before the start: (re)submit it, taking over the
    /// newest programme data.
    CreateOrUpdate,
    /// On air: submit it unless it is already being recorded.
    TryCreate,
    /// Neither yet nor any more.
    Wait,
    /// Active but of unknown length: not handled.
    LengthUnknown,
    /// Not active.
    Inactive,
}

/// `value` lies strictly between `left` and `right`.
pub open spec fn spec_in_range(left: int, right: int, value: int) -> bool {
    left < value && value < right
}

/// Whether `value` lies strictly between `left` and `right`; the range must
/// not be empty.
pub fn is_in_the_recording_range(left: i64, right: i64, value: i64) -> (r: bool)
    requires
        left < right,
    ensures
        r == spec_in_range(left as int, right as int, value as int),
{
    (left < value) && (value < right)
}

/// The scan of `s` at `now` computes only instants a date-time can hold and,
/// once the ten minutes before the start are past, finds a programme of
/// positive length (on other schedules the scheduler panics).
pub open spec fn trigger_fits(s: Schedule, now: i64) -> bool {
    match s.program.duration {
        Some(len) if s.is_active => {
            let start = s.program.start_at as int;
            &&& in_datetime_range(start - LEAD_TIME_MS)
            &&& (spec_in_range(start - LEAD_TIME_MS, start, now as int) || (len != i64::MIN
                && in_datetime_range(start + len) && start < start + len))
        },
        _ => true,
    }
}

/// What the scheduler does with `s` at `now`: an active schedule of known
/// length is submitted for update within ten minutes before its start and
/// submitted if absent while on air.
pub open spec fn spec_trigger(s: Schedule, now: i64) -> Trigger {
    if !s.is_active {
        Trigger::Inactive
    } else {
        match s.program.duration {
            None => Trigger::LengthUnknown,
            Some(len) => {
                let start = s.program.start_at as int;
                if spec_in_range(start - LEAD_TIME_MS, start, now as int) {
                    Trigger::CreateOrUpdate
                } else if spec_in_range(start, start + len, now as int) {
                    Trigger::TryCreate
                } else {
                    Trigger::Wait
                }
            },
        }
    }
}

fn in_range_i128(t: i128) -> (r: bool)
    ensures
        r == in_datetime_range(t as int),
{
    DATETIME_MIN_MS as i128 <= t && t <= DATETIME_MAX_MS as i128
}

/// Tells whether the scan of `s` at `now` can be carried out (`trigger_fits`).
pub fn trigger_applies(s: &Schedule, now: i64) -> (r: bool)
    ensures
        r == trigger_fits(*s, now),
{
    if !s.is_active {
        return true;
    }
    let len = match s.program.duration {
        None => {
            return true;
        },
        Some(len) => len,
    };
    let start = s.program.start_at as i128;
    let lead = start - LEAD_TIME_MS as i128;
    if !in_range_i128(lead) {
        return false;
    }
    if lead < now as i128 && (now as i128) < start {
        return true;
    }
    len != i64::MIN && in_range_i128(start + len as i128) && start < start + len as i128
}

/// Decides what the scheduler does with `s` at `now`.
pub fn trigger_for(s: &Schedule, now: i64) -> (r: Trigger)
    requires
        trigger_fits(*s, now),
    ensures
        r == spec_trigger(*s, now),
{
    if !s.is_active {
        return Trigger::Inactive;
    }
    let len = match s.program.duration {
        None => {
            return Trigger::LengthUnknown;
        },
        Some(len) => len,
    };
    let start = s.program.start_at;
    let lead = start - LEAD_TIME_MS;
    if is_in_the_recording_range(lead, start, now) {
        return Trigger::CreateOrUpdate;
    }
    let end = start + len;
    if is_in_the_recording_range(start, end, now) {
        Trigger::TryCreate
    } else {
        Trigger::Wait
    }
}

/// The directory a schedule records into: `./word_<rule>/` or
/// `./series_<rule>/` for schedules added by a rule, `./common/` otherwise.
pub open spec fn spec_save_dir(plan_id: Option<(u128, PlanUnit)>) -> Seq<char> {
    match plan_id {
        Some((id, PlanUnit::Word(_))) => "./word_"@ + crate::planner::ulid_text(id) + "/"@,
        Some((id, PlanUnit::Series(_))) => "./series_"@ + crate::planner::ulid_text(id) + "/"@,
        None => "./common/"@,
    }
}

fn concat3(a: &str, b: &String, c: &str) -> (r: String)
    ensures
        r@ == a@ + b@ + c@,
{
    let mut v = chars_of(a);
    let bs = chars_of(b.as_str());
    let cs = chars_of(c);
    let ghost head = v@;
    let mut i: usize = 0;
    while i < bs.len()
        invariant
            i <= bs@.len(),
            v@ =~= head + bs@.take(i as int),
        decreases bs@.len() - i,
    {
        v.push(bs[i]);
        i = i + 1;
    }
    let ghost mid = v@;
    let mut j: usize = 0;
    while j < cs.len()
        invariant
            j <= cs@.len(),
            v@ =~= mid + cs@.take(j as int),
        decreases cs@.len() - j,
    {
        v.push(cs[j]);
        j = j + 1;
    }
    assert(bs@.take(bs@.len() as int) =~= bs@);
    assert(cs@.take(cs@.len() as int) =~= cs@);
    string_of(v.as_slice())
}

/// The directory (relative, to be created) that `s` records into.
pub fn save_dir_candidate(s: &Schedule) -> (r: String)
    ensures
        r@ == spec_save_dir(s.plan_id),
{
    match &s.plan_id {
        Some((id, PlanUnit::Word(_))) => concat3("./word_", &ulid_string(*id), "/"),
        Some((id, PlanUnit::Series(_))) => concat3("./series_", &ulid_string(*id), "/"),
        None => String::from_str("./common/"),
    }
}

/// The recording request for `s`, recording into `dir`.
pub fn recording_request(s: &Schedule, dir: String) -> (r: RecordingTaskDescription)
    ensures
        same_program(r.program, s.program),
        r.id_override is None,
        r.save_dir_location == dir,
{
    RecordingTaskDescription { program: clone_program(&s.program), id_override: None, save_dir_location: dir }
}

impl SchedQueue {
    /// Some schedule is for the programme with id `id`.
    pub open spec fn has_program(&self, id: i64) -> bool {
        exists|i: int| 0 <= i < self.items@.len() && #[trigger] self.items@[i].program.id == id
    }

    /// Adds an active schedule for `program` unless one for the same
    /// programme id is queued; tells whether it was added.
    pub fn add_schedule(&mut self, program: Program) -> (added: bool)
        ensures
            added == !old(self).has_program(program.id),
            added ==> final(self).items@ == old(self).items@.push(
                Schedule { program, plan_id: None, is_active: true },
            ),
            !added ==> final(self).items@ == old(self).items@,
            program_ids_unique(old(self).items@) ==> program_ids_unique(final(self).items@),
            final(self).save_file_location == old(self).save_file_location,
    {
        let mut i: usize = 0;
        while i < self.items.len()
            invariant
                i <= self.items@.len(),
                forall|j: int| 0 <= j < i ==> #[trigger] self.items@[j].program.id != program.id,
            decreases self.items@.len() - i,
        {
            if self.items[i].program.id == program.id {
                return false;
            }
            i = i + 1;
        }
        let ghost before = self.items@;
        self.items.push(Schedule { program, plan_id: None, is_active: true });
        assert forall|a: int, b: int|
            #![trigger self.items@[a], self.items@[b]]
            0 <= a < b < self.items@.len() && program_ids_unique(before) implies self.items@[a].program.id
            != self.items@[b].program.id by {
            if b == before.len() {
                assert(self.items@[a] == before[a]);
            } else {
                assert(self.items@[a] == before[a] && self.items@[b] == before[b]);
            }
        }
        true
    }

    /// Answers a removal request for the programme id `id`: every schedule
    /// for that programme leaves the queue, the others stay in order; the
    /// result counts the removed ones.
    pub fn remove_program(&mut self, id: i64) -> (removed: usize)
        ensures
            final(self).items@ == old(self).items@.filter(|s: Schedule| s.program.id != id),
            removed == old(self).items@.len() - final(self).items@.len(),
            final(self).save_file_location == old(self).save_file_location,
    {
        let mut rest: Vec<Schedule> = Vec::new();
        std::mem::swap(&mut rest, &mut self.items);
        let ghost all = rest@;
        let total = rest.len();
        let mut kept: Vec<Schedule> = Vec::new();
        let mut taken: usize = 0;
        while rest.len() > 0
            invariant
                taken + rest@.len() == all.len(),
                all.len() == total,
                rest@ == all.skip(taken as int),
                kept@ == all.take(taken as int).filter(|s: Schedule| s.program.id != id),
                kept@.len() <= taken,
            decreases rest@.len(),
        {
            let s = rest.remove(0);
            assert(all.take(taken + 1).drop_last() =~= all.take(taken as int));
            assert(all[taken as int] == s);
            assert(all.skip(taken as int).drop_first() =~= all.skip(taken + 1));
            proof {
                reveal_with_fuel(Seq::<_>::filter, 1);
            }
            if s.program.id != id {
                kept.push(s);
            }
            taken = taken + 1;
        }
        assert(all.take(total as int) =~= all);
        self.items = kept;
        total - self.items.len()
    }

    /// Takes newer programme data from the tuner server: every schedule for
    /// the same programme id gets a copy of `value`; everything else stays.
    pub fn apply_program_update(&mut self, value: &Program) -> (updated: usize)
        ensures
            final(self).items@.len() == old(self).items@.len(),
            forall|i: int|
                0 <= i < old(self).items@.len() ==> if old(self).items@[i].program.id == value.id {
                    same_program(#[trigger] final(self).items@[i].program, *value)
                        && final(self).items@[i].plan_id == old(self).items@[i].plan_id
                        && final(self).items@[i].is_active == old(self).items@[i].is_active
                } else {
                    final(self).items@[i] == old(self).items@[i]
                },
            program_ids_unique(old(self).items@) ==> program_ids_unique(final(self).items@),
            final(self).save_file_location == old(self).save_file_location,
    {
        let mut rest: Vec<Schedule> = Vec::new();
        std::mem::swap(&mut rest, &mut self.items);
        let ghost all = rest@;
        let total = rest.len();
        let mut done: Vec<Schedule> = Vec::new();
        let mut updated: usize = 0;
        while rest.len() > 0
            invariant
                done@.len() + rest@.len() == all.len(),
                all.len() == total,
                rest@ == all.skip(done@.len() as int),
                updated <= done@.len(),
                forall|i: int|
                    0 <= i < done@.len() ==> if all[i].program.id == value.id {
                        same_program(#[trigger] done@[i].program, *value) && done@[i].plan_id
                            == all[i].plan_id && done@[i].is_active == all[i].is_active
                    } else {
                        done@[i] == all[i]
                    },
            decreases rest@.len(),
        {
            let ghost k = done@.len() as int;
            let s = rest.remove(0);
            assert(all[k] == s);
            assert(all.skip(k).drop_first() =~= all.skip(k + 1));
            if s.program.id == value.id {
                let Schedule { program: _, plan_id, is_active } = s;
                done.push(Schedule { program: clone_program(value), plan_id, is_active });
                updated = updated + 1;
            } else {
                done.push(s);
            }
        }
        assert forall|a: int, b: int|
            #![trigger done@[a], done@[b]]
            0 <= a < b < done@.len() && program_ids_unique(all) implies done@[a].program.id
            != done@[b].program.id by {
            assert(done@[a].program.id == all[a].program.id);
            assert(done@[b].program.id == all[b].program.id);
            assert(all[a].program.id != all[b].program.id);
        }
        self.items = done;
        updated
    }
}

} // verus!
