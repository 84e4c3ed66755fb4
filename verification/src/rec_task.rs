//! The decisions of one recording task: where it writes, which stream it
//! reads, how EIT reports move its state machine, and what it does when
//! the state changes. The task's driver (reading the stream, writing the
//! file, receiving the reports) performs the actions these functions choose.
use vstd::prelude::*;
use crate::clock::{in_datetime_range, DATETIME_MAX_MS, DATETIME_MIN_MS};
use crate::eit::EitDetected;
use crate::program::{
    RecExitType,
    RecordingTaskDescription,
    RelatedItem,
    first_relay,
    find_relay,
    spec_program_id,
};
use crate::states::{
    A,
    Rec,
    A_TIMEOUT_MS,
    B1_TIMEOUT_MS,
    FoundInFollowing,
    RecordingState,
    WaitForPremiere,
    present_end,
    spec_on_found_in_following,
    spec_on_found_in_present,
    spec_on_wait_for_premiere,
    UNKNOWN_LENGTH_MS,
};
use crate::rec_pool::{RecPool, updated_with};
use crate::text::{append_chars, chars_of, decimal_chars, decimal_text, string_of};

verus! {

/// Characters that cannot stand in a file name and are replaced by a space.
pub open spec fn forbidden_in_file_name(c: char) -> bool {
    c == '[' || c == '\\' || c == '/' || c == ':' || c == '*' || c == '?' || c == '"' || c == '<'
        || c == '>' || c == '|' || c == ']'
}

/// `c`, or a space if it cannot stand in a file name.
pub open spec fn file_name_char(c: char) -> char {
    if forbidden_in_file_name(c) {
        ' '
    } else {
        c
    }
}

/// The title of a programme as it stands in a file name.
pub open spec fn sanitized(title: Seq<char>) -> Seq<char> {
    title.map_values(|c: char| file_name_char(c))
}

/// A sanitized title keeps its length and holds no character that cannot
/// stand in a file name; sanitizing it again changes nothing.
pub proof fn law_sanitized_title(title: Seq<char>)
    ensures
        sanitized(title).len() == title.len(),
        forall|i: int|
            0 <= i < title.len() ==> !forbidden_in_file_name(#[trigger] sanitized(title)[i]),
        sanitized(sanitized(title)) == sanitized(title),
{
    assert(sanitized(sanitized(title)) =~= sanitized(title));
}

/// The title a programme is filed under: its name, or `untitled`.
pub open spec fn title_of(name: Option<String>) -> Seq<char> {
    match name {
        Some(n) => n@,
        None => "untitled"@,
    }
}

/// The stem of the file a programme is recorded to: `<event id>_<title>`.
pub open spec fn spec_file_stem(event_id: i32, name: Option<String>) -> Seq<char> {
    decimal_text(event_id as int) + seq!['_'] + sanitized(title_of(name))
}

/// `name` placed in the directory `dir`, as `PathBuf::push` places a
/// relative name: a `/` is put between unless `dir` is empty or ends with one.
pub open spec fn spec_join(dir: Seq<char>, name: Seq<char>) -> Seq<char> {
    if dir.len() == 0 || dir.last() == '/' {
        dir + name
    } else {
        dir + seq!['/'] + name
    }
}

/// The extension of a file whose programme is not yet (or no longer) certain.
pub open spec fn tentative_ext() -> Seq<char> {
    "m2ts-tmp"@
}

/// The extension of a file that holds the programme.
pub open spec fn final_ext() -> Seq<char> {
    "m2ts"@
}

/// The file `dir/<stem>.<ext>`.
pub open spec fn spec_file_path(dir: Seq<char>, stem: Seq<char>, ext: Seq<char>) -> Seq<char> {
    spec_join(dir, stem + seq!['.'] + ext)
}

fn sanitize(title: &[char]) -> (r: Vec<char>)
    ensures
        r@ == sanitized(title@),
{
    let mut r: Vec<char> = Vec::new();
    let mut i: usize = 0;
    while i < title.len()
        invariant
            i <= title@.len(),
            r@ =~= title@.take(i as int).map_values(|c: char| file_name_char(c)),
        decreases title@.len() - i,
    {
        let c = title[i];
        let out = if c == '[' || c == '\\' || c == '/' || c == ':' || c == '*' || c == '?' || c
            == '"' || c == '<' || c == '>' || c == '|' || c == ']' {
            ' '
        } else {
            c
        };
        r.push(out);
        i = i + 1;
    }
    assert(title@.take(title@.len() as int) =~= title@);
    r
}

/// The stem of the file the programme of `info` is recorded to.
pub fn file_stem(info: &RecordingTaskDescription) -> (r: Vec<char>)
    ensures
        r@ == spec_file_stem(info.program.event_id, info.program.name),
{
    let title: Vec<char> = match &info.program.name {
        Some(n) => chars_of(n.as_str()),
        None => {
            let u = "untitled";
            chars_of(u)
        },
    };
    let mut r = decimal_chars(info.program.event_id as i64);
    r.push('_');
    let s = sanitize(title.as_slice());
    let ghost head = r@;
    let mut i: usize = 0;
    while i < s.len()
        invariant
            i <= s@.len(),
            r@ =~= head + s@.take(i as int),
        decreases s@.len() - i,
    {
        r.push(s[i]);
        i = i + 1;
    }
    assert(s@.take(s@.len() as int) =~= s@);
    r
}

/// The path `dir/<stem>.<ext>`.
pub fn file_path(dir: &String, stem: &[char], ext: &str) -> (r: String)
    ensures
        r@ == spec_file_path(dir@, stem@, ext@),
{
    let d = chars_of(dir.as_str());
    let mut name: Vec<char> = Vec::new();
    append_chars(&mut name, stem);
    name.push('.');
    let e = chars_of(ext);
    append_chars(&mut name, e.as_slice());
    let mut path: Vec<char> = Vec::new();
    append_chars(&mut path, d.as_slice());
    if d.len() != 0 && d[d.len() - 1] != '/' {
        path.push('/');
    }
    append_chars(&mut path, name.as_slice());
    proof {
        assert(name@ =~= stem@ + seq!['.'] + ext@);
        if d@.len() == 0 || d@.last() == '/' {
            assert(path@ =~= d@ + name@);
        } else {
            assert(path@ =~= d@ + seq!['/'] + name@);
        }
    }
    string_of(path.as_slice())
}

/// Where a recording task reads its transport stream from.
#[derive(Clone, Copy, PartialEq, Eq, Structural, Debug)]
pub enum StreamSource {
    /// The stream of the programme with this id (a relayed event).
    Program(i64),
    /// The stream of the service with this id.
    Service(i64),
}

/// The stream a task reads: the overriding event's programme stream if the
/// description names one, else the stream of the programme's service.
pub open spec fn spec_stream_source(info: RecordingTaskDescription) -> StreamSource {
    match info.id_override {
        Some((nid, sid, eid)) => StreamSource::Program(
            spec_program_id(nid as int, sid as int, eid as int) as i64,
        ),
        None => StreamSource::Service(
            if info.program.id >= 0 {
                info.program.id / 100000
            } else {
                -((-(info.program.id as int)) / 100000)
            } as i64,
        ),
    }
}

/// The id arithmetic of the overriding event stays within `i64`.
pub open spec fn override_fits(info: RecordingTaskDescription) -> bool {
    match info.id_override {
        Some((nid, sid, eid)) => {
            &&& i64::MIN <= nid * 10000000000 <= i64::MAX
            &&& i64::MIN <= sid * 100000 <= i64::MAX
            &&& i64::MIN <= nid * 10000000000 + sid * 100000 <= i64::MAX
            &&& i64::MIN <= spec_program_id(nid as int, sid as int, eid as int) <= i64::MAX
        },
        None => true,
    }
}

/// Chooses the stream a task for `info` reads.
pub fn stream_source(info: &RecordingTaskDescription) -> (r: StreamSource)
    requires
        override_fits(*info),
    ensures
        r == spec_stream_source(*info),
{
    match info.id_override {
        Some((nid, sid, eid)) => StreamSource::Program(
            crate::program::program_id_of(nid, sid, eid),
        ),
        None => StreamSource::Service(crate::program::service_id_of_program(info.program.id)),
    }
}

/// The state of one recording task besides its reader and writer.
pub struct RecTask {
    /// The state the current writer was chosen for.
    pub state: RecordingState,
    /// The state the EIT reports lead to; the writer changes when it differs.
    pub next_state: RecordingState,
    /// Bytes written so far.
    pub amt: u64,
    /// The programme id.
    pub id: i64,
    /// The directory the file goes to.
    pub file_dir: String,
    /// The file name without extension.
    pub file_stem: Vec<char>,
    /// Whether the file carries the final extension (`m2ts`) rather than
    /// the tentative one (`m2ts-tmp`).
    pub final_name: bool,
}

/// `t` is a new task for `info` made at `now`: in state `A` since `now`,
/// nothing written, the programme's id, filed as
/// `<dir>/<event id>_<title>.m2ts-tmp`.
pub open spec fn fresh_task(t: RecTask, info: RecordingTaskDescription, now: i64) -> bool {
    &&& t.state == RecordingState::A(A { since: now })
    &&& t.next_state == RecordingState::A(A { since: now })
    &&& t.amt == 0
    &&& t.id == info.program.id
    &&& t.file_dir@ == info.save_dir_location@
    &&& t.file_stem@ == spec_file_stem(info.program.event_id, info.program.name)
    &&& !t.final_name
}

impl RecTask {
    /// The path of the task's file under its current extension.
    pub open spec fn spec_file_location(&self) -> Seq<char> {
        spec_file_path(
            self.file_dir@,
            self.file_stem@,
            if self.final_name {
                final_ext()
            } else {
                tentative_ext()
            },
        )
    }

    /// A new task for `info` at `now`: in state `A` since `now`, nothing
    /// written, filed as `<dir>/<event id>_<title>.m2ts-tmp`.
    pub fn new(info: &RecordingTaskDescription, now: i64) -> (t: RecTask)
        ensures
            fresh_task(t, *info, now),
            extension_follows_state(t),
    {
        RecTask {
            state: RecordingState::A(A { since: now }),
            next_state: RecordingState::A(A { since: now }),
            amt: 0,
            id: info.program.id,
            file_dir: info.save_dir_location.clone(),
            file_stem: file_stem(info),
            final_name: false,
        }
    }

    /// Starts a task for `info` at `now`: the request is registered in the
    /// recording pool under the programme's event id, which must be free (a
    /// second task for the event is refused with a panic), and the task is
    /// made (see `new`) together with the stream it reads (see
    /// `stream_source`).
    pub fn start(pool: &mut RecPool, info: &RecordingTaskDescription, now: i64) -> (r: (
        RecTask,
        StreamSource,
    ))
        requires
            override_fits(*info),
            !old(pool)@.contains_key(info.program.event_id as i64),
        ensures
            updated_with(old(pool)@, final(pool)@, info.program.event_id as i64, *info),
            fresh_task(r.0, *info, now),
            extension_follows_state(r.0),
            r.1 == spec_stream_source(*info),
    {
        pool.register_task(info);
        let source = stream_source(info);
        let t = RecTask::new(info, now);
        (t, source)
    }

    /// The path of the task's file under its current extension.
    pub fn file_location(&self) -> (r: String)
        ensures
            r@ == self.spec_file_location(),
    {
        if self.final_name {
            file_path(&self.file_dir, self.file_stem.as_slice(), "m2ts")
        } else {
            file_path(&self.file_dir, self.file_stem.as_slice(), "m2ts-tmp")
        }
    }
}

/// What the task does at the start of a poll.
#[derive(Debug)]
pub enum TaskStep {
    /// Finish with this outcome.
    Exit(RecExitType),
    /// The state changed: replace the writer by one that writes to this
    /// file (`None`: one that discards), then poll again.
    Reopen(Option<String>),
    /// No change: move the stream on.
    Stream,
    /// The relayed event lacks its service or event id.
    RelayIncomplete,
}

/// The network id a relay goes to: the item's own, or the task's.
pub open spec fn relay_network(item: RelatedItem, id: i64) -> int {
    match item.network_id {
        Some(n) => n as int,
        None => if id >= 0 {
            id / 10000000000
        } else {
            -((-(id as int)) / 10000000000)
        },
    }
}

/// The step a task takes at the start of a poll. `entry` is the task's
/// description in the recording pool (`None`: it has left the pool).
pub open spec fn spec_task_step(t: RecTask, entry: Option<RecordingTaskDescription>) -> TaskStep {
    match entry {
        None => TaskStep::Exit(RecExitType::Aborted(t.amt)),
        Some(item) => if t.state == t.next_state {
            TaskStep::Stream
        } else {
            match t.next_state {
                RecordingState::Error => TaskStep::Exit(RecExitType::Bailout),
                RecordingState::Success(_) => match match item.program.related_items {
                    Some(v) => first_relay(v@),
                    None => None,
                } {
                    Some(next) => match (next.service_id, next.event_id) {
                        (Some(s), Some(e)) => TaskStep::Exit(
                            RecExitType::Continue(
                                relay_network(next, t.id) as i64,
                                s as i64,
                                e as i64,
                                t.amt,
                            ),
                        ),
                        _ => TaskStep::RelayIncomplete,
                    },
                    None => TaskStep::Exit(RecExitType::Success(t.amt)),
                },
                RecordingState::Rec(_) => TaskStep::Reopen(None),
                RecordingState::B1(_) | RecordingState::B2(_) => TaskStep::Reopen(None),
                _ => TaskStep::Reopen(None),
            }
        },
    }
}

/// The task after the step: a state change that does not end the task
/// adopts the new state and, for `Rec`, `B1` and `B2`, the file's extension.
pub open spec fn spec_after_step(t: RecTask, entry: Option<RecordingTaskDescription>) -> RecTask {
    match entry {
        Some(_) => if t.state != t.next_state {
            match t.next_state {
                RecordingState::Error | RecordingState::Success(_) => t,
                RecordingState::Rec(_) => RecTask { state: t.next_state, final_name: true, ..t },
                RecordingState::B1(_) | RecordingState::B2(_) => RecTask {
                    state: t.next_state,
                    final_name: false,
                    ..t
                },
                _ => RecTask { state: t.next_state, ..t },
            }
        } else {
            t
        },
        None => t,
    }
}

/// The file a changed state writes to: the task's file for `Rec`, `B1`
/// and `B2`, none (the stream is discarded) for `A` and `Timeout`.
pub open spec fn reopens_to(t: RecTask, r: TaskStep) -> bool {
    match r {
        TaskStep::Reopen(p) => match t.next_state {
            RecordingState::Rec(_) | RecordingState::B1(_) | RecordingState::B2(_) => p matches Some(
                path,
            ) && path@ == spec_after_step_location(t),
            _ => p is None,
        },
        _ => true,
    }
}

/// The file location of the task after a state change.
pub open spec fn spec_after_step_location(t: RecTask) -> Seq<char> {
    spec_file_path(
        t.file_dir@,
        t.file_stem@,
        match t.next_state {
            RecordingState::Rec(_) => final_ext(),
            _ => tentative_ext(),
        },
    )
}

/// Kinds of step, ignoring the path a `Reopen` carries.
pub open spec fn same_step_kind(a: TaskStep, b: TaskStep) -> bool {
    match (a, b) {
        (TaskStep::Exit(x), TaskStep::Exit(y)) => x == y,
        (TaskStep::Reopen(_), TaskStep::Reopen(_)) => true,
        (TaskStep::Stream, TaskStep::Stream) => true,
        (TaskStep::RelayIncomplete, TaskStep::RelayIncomplete) => true,
        _ => false,
    }
}

impl RecTask {
    /// The start of a poll: leave if the description left the pool; on a
    /// state change, finish in `Error` and `Success` (relaying to the next
    /// event if the programme names one), and otherwise adopt the new state
    /// and choose the file the new writer writes to.
    pub fn step(&mut self, entry: Option<&RecordingTaskDescription>) -> (r: TaskStep)
        ensures
            same_step_kind(
                r,
                spec_task_step(
                    *old(self),
                    match entry {
                        Some(e) => Some(*e),
                        None => None,
                    },
                ),
            ),
            reopens_to(*old(self), r),
            *final(self) == spec_after_step(
                *old(self),
                match entry {
                    Some(e) => Some(*e),
                    None => None,
                },
            ),
    {
        let item = match entry {
            None => {
                return TaskStep::Exit(RecExitType::Aborted(self.amt));
            },
            Some(item) => item,
        };
        if self.state == self.next_state {
            return TaskStep::Stream;
        }
        match self.next_state {
            RecordingState::Error => TaskStep::Exit(RecExitType::Bailout),
            RecordingState::Success(_) => {
                match find_relay(&item.program.related_items) {
                    Some(next) => match (next.service_id, next.event_id) {
                        (Some(s), Some(e)) => {
                            let nid: i64 = match next.network_id {
                                Some(n) => n as i64,
                                None => crate::program::network_id_of_program(self.id),
                            };
                            TaskStep::Exit(RecExitType::Continue(nid, s as i64, e as i64, self.amt))
                        },
                        _ => TaskStep::RelayIncomplete,
                    },
                    None => TaskStep::Exit(RecExitType::Success(self.amt)),
                }
            },
            RecordingState::Rec(_) => {
                self.state = self.next_state;
                self.final_name = true;
                TaskStep::Reopen(Some(self.file_location()))
            },
            RecordingState::B1(_) | RecordingState::B2(_) => {
                self.state = self.next_state;
                self.final_name = false;
                TaskStep::Reopen(Some(self.file_location()))
            },
            _ => {
                self.state = self.next_state;
                TaskStep::Reopen(None)
            },
        }
    }

    /// Counts `written` bytes that the writer took; a writer that took
    /// nothing is an error (`false`).
    pub fn record_written(&mut self, written: usize) -> (ok: bool)
        requires
            old(self).amt + written <= u64::MAX,
        ensures
            ok == (written != 0),
            ok ==> *final(self) == written_into(*old(self), written),
            !ok ==> *final(self) == *old(self),
    {
        if written == 0 {
            return false;
        }
        self.amt = self.amt + written as u64;
        true
    }
}

/// The task after a writer took `n` bytes of the stream.
pub open spec fn written_into(t: RecTask, n: usize) -> RecTask {
    RecTask { amt: (t.amt + n) as u64, ..t }
}

/// The sum of the counts.
pub open spec fn sum_counts(counts: Seq<usize>) -> int
    decreases counts.len(),
{
    if counts.len() == 0 {
        0
    } else {
        sum_counts(counts.drop_last()) + counts.last()
    }
}

/// The task after its writers took the counts of bytes in order, as
/// `record_written` counts them; `None` once a writer took nothing (the task
/// then fails with `WriteZero`) or the count leaves `u64`.
pub open spec fn record_all(t: RecTask, counts: Seq<usize>) -> Option<RecTask>
    decreases counts.len(),
{
    if counts.len() == 0 {
        Some(t)
    } else {
        match record_all(t, counts.drop_last()) {
            None => None,
            Some(p) => if counts.last() == 0 || p.amt + counts.last() > u64::MAX {
                None
            } else {
                Some(written_into(p, counts.last()))
            },
        }
    }
}

/// The bytes a task counts add up: after writers took the counts in order,
/// all of them nonzero, the task has counted their sum on top of what it had
/// and is otherwise unchanged; a writer that takes nothing ends the counting.
pub proof fn law_bytes_add_up(t: RecTask, counts: Seq<usize>)
    ensures
        (forall|i: int| 0 <= i < counts.len() ==> #[trigger] counts[i] > 0) && t.amt + sum_counts(
            counts,
        ) <= u64::MAX ==> record_all(t, counts) == Some(
            RecTask { amt: (t.amt + sum_counts(counts)) as u64, ..t },
        ),
        (exists|i: int| 0 <= i < counts.len() && #[trigger] counts[i] == 0) ==> record_all(
            t,
            counts,
        ) is None,
    decreases counts.len(),
{
    if counts.len() > 0 {
        let init = counts.drop_last();
        law_bytes_add_up(t, init);
        lemma_sum_counts_nonneg(init);
        if forall|i: int| 0 <= i < counts.len() ==> #[trigger] counts[i] > 0 {
            assert forall|i: int| 0 <= i < init.len() implies #[trigger] init[i] > 0 by {
                assert(init[i] == counts[i]);
            }
            assert(counts[counts.len() - 1] > 0);
        }
        if exists|i: int| 0 <= i < counts.len() && #[trigger] counts[i] == 0 {
            let i = choose|i: int| 0 <= i < counts.len() && #[trigger] counts[i] == 0;
            if i < init.len() {
                assert(init[i] == counts[i]);
            }
        }
    }
}

proof fn lemma_sum_counts_nonneg(counts: Seq<usize>)
    ensures
        sum_counts(counts) >= 0,
    decreases counts.len(),
{
    if counts.len() > 0 {
        lemma_sum_counts_nonneg(counts.drop_last());
    }
}

/// What the task does with the chunk a read of its stream gave.
#[derive(Clone, Copy, PartialEq, Eq, Structural, Debug)]
pub enum ChunkStep {
    /// The stream has ended: flush the writer, if there is one, and finish
    /// with this outcome.
    Finish(RecExitType),
    /// Hand the chunk to the writer.
    Write,
    /// There is no writer: consume this many bytes unwritten.
    Discard(usize),
}

impl RecTask {
    /// The decision on a chunk of `chunk_len` bytes read from the stream: an
    /// empty chunk ends the stream with `EndOfStream` and the bytes counted so
    /// far; otherwise the writer takes it, or it is consumed unwritten when
    /// the task has no writer.
    pub fn on_chunk(&self, chunk_len: usize, has_writer: bool) -> (r: ChunkStep)
        ensures
            chunk_len == 0 ==> r == ChunkStep::Finish(RecExitType::EndOfStream(self.amt)),
            chunk_len > 0 && has_writer ==> r == ChunkStep::Write,
            chunk_len > 0 && !has_writer ==> r == ChunkStep::Discard(chunk_len),
    {
        if chunk_len == 0 {
            ChunkStep::Finish(RecExitType::EndOfStream(self.amt))
        } else if has_writer {
            ChunkStep::Write
        } else {
            ChunkStep::Discard(chunk_len)
        }
    }
}

/// A report of the EIT applied to a state, `start_at` being the
/// programme's scheduled start: present and following go to the machine as
/// they are, not found asks it to wait for the premiere.
pub open spec fn spec_apply_report(
    report: EitDetected,
    state: RecordingState,
    start_at: i64,
    now: i64,
) -> RecordingState {
    match report {
        EitDetected::P(p) => spec_on_found_in_present(state, p, now),
        EitDetected::F(_) => spec_on_found_in_following(state, now),
        EitDetected::NotFound { .. } => spec_on_wait_for_premiere(
            state,
            WaitForPremiere { start_at },
            now,
        ),
    }
}

/// Applying the report computes only instants a date-time can hold.
pub open spec fn report_fits(report: EitDetected, state: RecordingState, start_at: i64, now: i64) -> bool {
    match report {
        EitDetected::P(p) => crate::states::present_fits(state, p, now),
        EitDetected::F(_) => true,
        EitDetected::NotFound { .. } => crate::states::premiere_checks_fit(
            state,
            WaitForPremiere { start_at },
            now,
        ),
    }
}

/// The state the reports lead to, applied in order from `state`; `None` if
/// some step computes an instant a date-time cannot hold.
pub open spec fn spec_apply_reports(
    reports: Seq<EitDetected>,
    state: RecordingState,
    start_at: i64,
    now: i64,
) -> Option<RecordingState>
    decreases reports.len(),
{
    if reports.len() == 0 {
        Some(state)
    } else {
        match spec_apply_reports(reports.drop_last(), state, start_at, now) {
            None => None,
            Some(s) => if report_fits(reports.last(), s, start_at, now) {
                Some(spec_apply_report(reports.last(), s, start_at, now))
            } else {
                None
            },
        }
    }
}

/// Reports are taken one after the other: the state after a run of reports
/// followed by more is the state the later ones lead to from the state the
/// earlier ones led to; a single report moves the state as the machine
/// answers it; and once a step fails, the whole run fails.
pub proof fn law_reports_chain(
    first: Seq<EitDetected>,
    then: Seq<EitDetected>,
    state: RecordingState,
    start_at: i64,
    now: i64,
)
    ensures
        spec_apply_reports(first + then, state, start_at, now) == match spec_apply_reports(
            first,
            state,
            start_at,
            now,
        ) {
            Some(mid) => spec_apply_reports(then, mid, start_at, now),
            None => None,
        },
    decreases then.len(),
{
    if then.len() == 0 {
        assert(first + then =~= first);
    } else {
        law_reports_chain(first, then.drop_last(), state, start_at, now);
        assert((first + then).drop_last() =~= first + then.drop_last());
        assert((first + then).last() == then.last());
    }
}

/// One report moves the state as the machine answers that report in that
/// state (when the instants it computes fit).
pub proof fn law_single_report(
    r: EitDetected,
    state: RecordingState,
    start_at: i64,
    now: i64,
)
    ensures
        spec_apply_reports(seq![r], state, start_at, now) == (if report_fits(
            r,
            state,
            start_at,
            now,
        ) {
            Some(spec_apply_report(r, state, start_at, now))
        } else {
            None
        }),
{
    assert(seq![r].drop_last() =~= Seq::<EitDetected>::empty());
    assert(spec_apply_reports(Seq::<EitDetected>::empty(), state, start_at, now) == Some(state));
    assert(seq![r].last() == r);
}

fn in_range(t: i128) -> (r: bool)
    ensures
        r == in_datetime_range(t as int),
{
    DATETIME_MIN_MS as i128 <= t && t <= DATETIME_MAX_MS as i128
}

/// Applies one report to a state; `None` where the machine would compute an
/// instant a date-time cannot hold.
pub fn apply_report(report: EitDetected, state: RecordingState, start_at: i64, now: i64) -> (r:
    Option<RecordingState>)
    ensures
        r == if report_fits(report, state, start_at, now) {
            Some(spec_apply_report(report, state, start_at, now))
        } else {
            None
        },
{
    match report {
        EitDetected::P(p) => {
            let waiting = match state {
                RecordingState::A(_) | RecordingState::B1(_) | RecordingState::B2(_) => true,
                _ => false,
            };
            if waiting {
                let end: i128 = match p.duration {
                    Some(d) => p.start_at as i128 + d as i128,
                    None => now as i128 + UNKNOWN_LENGTH_MS as i128,
                };
                if !in_range(end) {
                    return None;
                }
            }
            Some(state.on_found_in_present(p, now))
        },
        EitDetected::F(f) => Some(state.on_found_in_following(f, now)),
        EitDetected::NotFound { .. } => {
            let wait = WaitForPremiere { start_at };
            let fits = match state {
                RecordingState::A(a) => start_at < now || in_range(
                    a.since as i128 + A_TIMEOUT_MS as i128,
                ),
                RecordingState::B1(b) => in_range(b.since as i128 + B1_TIMEOUT_MS as i128),
                _ => true,
            };
            if !fits {
                return None;
            }
            Some(state.on_wait_for_premiere(wait, now))
        },
    }
}

impl RecTask {
    /// Takes the reports that arrived since the last poll: the state they
    /// lead to from the current state becomes the next state. Nothing
    /// changes when there are none; `false` (and no change) when applying
    /// them computes an instant a date-time cannot hold.
    pub fn absorb_reports(&mut self, reports: &Vec<EitDetected>, start_at: i64, now: i64) -> (ok: bool)
        ensures
            reports@.len() == 0 ==> ok && *final(self) == *old(self),
            reports@.len() > 0 ==> match spec_apply_reports(reports@, old(self).state, start_at, now) {
                Some(s) => ok && *final(self) == (RecTask { next_state: s, ..*old(self) }),
                None => !ok && *final(self) == *old(self),
            },
    {
        if reports.len() == 0 {
            return true;
        }
        let mut s = self.state;
        let mut i: usize = 0;
        while i < reports.len()
            invariant
                i <= reports@.len(),
                spec_apply_reports(reports@.take(i as int), old(self).state, start_at, now) == Some(
                    s,
                ),
                *self == *old(self),
            decreases reports@.len() - i,
        {
            assert(reports@.take(i + 1).drop_last() =~= reports@.take(i as int));
            match apply_report(reports[i], s, start_at, now) {
                Some(n) => {
                    s = n;
                },
                None => {
                    proof {
                        lemma_apply_reports_stuck(reports@, old(self).state, start_at, now, i + 1);
                    }
                    return false;
                },
            }
            i = i + 1;
        }
        assert(reports@.take(reports@.len() as int) =~= reports@);
        self.next_state = s;
        true
    }
}

/// Once applying some reports fails, applying more fails too.
proof fn lemma_apply_reports_stuck(
    reports: Seq<EitDetected>,
    state: RecordingState,
    start_at: i64,
    now: i64,
    n: int,
)
    requires
        0 < n <= reports.len(),
        spec_apply_reports(reports.take(n), state, start_at, now) is None,
    ensures
        spec_apply_reports(reports, state, start_at, now) is None,
    decreases reports.len() - n,
{
    if n < reports.len() {
        assert(reports.take(n + 1).drop_last() =~= reports.take(n));
        lemma_apply_reports_stuck(reports, state, start_at, now, n + 1);
    } else {
        assert(reports.take(n) =~= reports);
    }
}

/// Once a task records, reports only keep it recording as it is, end it in
/// `Success`, or send it to `Error`.
pub proof fn law_recording_never_falls_back(
    reports: Seq<EitDetected>,
    r: Rec,
    start_at: i64,
    now: i64,
)
    ensures
        spec_apply_reports(reports, RecordingState::Rec(r), start_at, now) matches Some(s) ==> (s
            == RecordingState::Rec(r) || s is Success || s is Error),
    decreases reports.len(),
{
    if reports.len() > 0 {
        law_recording_never_falls_back(reports.drop_last(), r, start_at, now);
    }
}

/// The file carries the final extension exactly while the task records,
/// and a recording task's next state is `Rec`, `Success` or `Error`.
pub open spec fn extension_follows_state(t: RecTask) -> bool {
    &&& t.final_name == (t.state is Rec)
    &&& t.state is Rec ==> (t.next_state is Rec || t.next_state is Success
        || t.next_state is Error)
}

/// A task's file carries the final extension (`m2ts`) exactly while the task
/// records: a new task starts so (see `RecTask::new`), and a step and the
/// absorption of reports keep it so.
pub proof fn law_file_extension_follows_state(
    t: RecTask,
    entry: Option<RecordingTaskDescription>,
    reports: Seq<EitDetected>,
    start_at: i64,
    now: i64,
)
    requires
        extension_follows_state(t),
    ensures
        extension_follows_state(spec_after_step(t, entry)),
        spec_apply_reports(reports, t.state, start_at, now) matches Some(s)
            ==> extension_follows_state(RecTask { next_state: s, ..t }),
{
    if let RecordingState::Rec(r) = t.state {
        law_recording_never_falls_back(reports, r, start_at, now);
    }
}

/// The EIT has not mentioned the programme for more than 30 seconds
/// (the signal or the EIT reader may be gone).
pub fn eit_silent_too_long(since: i64, now: i64) -> (r: bool)
    ensures
        r == (now - since > 30000),
{
    (now as i128) - (since as i128) > 30000
}

} // verus!
