//! The recording state machine of one recording task.
//!
//! A task starts in `A` (waiting for the programme), may move to `B1`
//! (the announced start has passed but the programme has not shown up in
//! the EIT yet) or `B2` (the programme is announced as the following
//! event), enters `Rec` once the EIT lists it as the present event, and
//! ends in `Success` when the programme is over, or in `Timeout`.
//! A message that a state does not accept sends the machine to `Error`,
//! where it stays.
use vstd::prelude::*;
use crate::clock::in_datetime_range;

verus! {

/// Waiting for the programme; `since` is when this state was entered.
#[derive(Clone, Copy, PartialEq, Eq, Structural, Debug)]
pub struct A {
    pub since: i64,
}

/// The announced start time has passed without the programme appearing.
#[derive(Clone, Copy, PartialEq, Eq, Structural, Debug)]
pub struct B1 {
    pub since: i64,
}

/// The programme is announced as the following event.
#[derive(Clone, Copy, PartialEq, Eq, Structural, Debug)]
pub struct B2 {
    pub since: i64,
}

/// Recording; `end` is the expected end of the programme.
#[derive(Clone, Copy, PartialEq, Eq, Structural, Debug)]
pub struct Rec {
    pub since: i64,
    pub end: i64,
}

/// The programme never appeared in time.
#[derive(Clone, Copy, PartialEq, Eq, Structural, Debug)]
pub struct Timeout {}

/// The programme was recorded to its end.
#[derive(Clone, Copy, PartialEq, Eq, Structural, Debug)]
pub struct Success {}

/// State of a recording task.
#[derive(Clone, Copy, PartialEq, Eq, Structural, Debug)]
pub enum RecordingState {
    Error,
    A(A),
    B1(B1),
    B2(B2),
    Rec(Rec),
    Timeout(Timeout),
    Success(Success),
}

/// The EIT lists the programme as the following event.
#[derive(Clone, Copy, PartialEq, Eq, Structural, Debug)]
pub struct FoundInFollowing {
    pub start_at: i64,
    pub duration: Option<i64>,
}

/// The EIT lists the programme as the present event.
#[derive(Clone, Copy, PartialEq, Eq, Structural, Debug)]
pub struct FoundInPresent {
    pub start_at: i64,
    pub duration: Option<i64>,
}

/// The EIT does not list the programme; `start_at` is its scheduled start.
#[derive(Clone, Copy, PartialEq, Eq, Structural, Debug)]
pub struct WaitForPremiere {
    pub start_at: i64,
}

/// The messages the machine accepts.
#[derive(Clone, Copy, PartialEq, Eq, Structural, Debug)]
pub enum RecordingStateMessages {
    FoundInFollowing(FoundInFollowing),
    FoundInPresent(FoundInPresent),
    WaitForPremiere(WaitForPremiere),
}

/// How long a task may stay in `A` before it times out.
pub const A_TIMEOUT_MS: i64 = 3600000;
/// How long a task may stay in `B1` before it times out.
pub const B1_TIMEOUT_MS: i64 = 10800000;
/// The assumed length of a present programme whose duration is unknown.
pub const UNKNOWN_LENGTH_MS: i64 = 300000;

/// The expected end of a programme that the EIT lists as present, seen at `now`.
pub open spec fn present_end(present: FoundInPresent, now: int) -> int {
    match present.duration {
        Some(d) => present.start_at + d,
        None => now + UNKNOWN_LENGTH_MS,
    }
}

/// The expected end of a present programme is an instant a date-time can hold.
pub open spec fn present_end_fits(present: FoundInPresent, now: int) -> bool {
    in_datetime_range(present_end(present, now))
}

/// The timeout instant that `WaitForPremiere` computes in `s` at `now`
/// (in `A` only once the scheduled start is not yet past) is an instant a
/// date-time can hold.
pub open spec fn premiere_checks_fit(s: RecordingState, wait: WaitForPremiere, now: i64) -> bool {
    match s {
        RecordingState::A(a) => wait.start_at < now || in_datetime_range(a.since + A_TIMEOUT_MS),
        RecordingState::B1(b) => in_datetime_range(b.since + B1_TIMEOUT_MS),
        _ => true,
    }
}

/// The expected end that `FoundInPresent` computes in `s` (only in the
/// waiting states `A`, `B1`, `B2`) is an instant a date-time can hold.
pub open spec fn present_fits(s: RecordingState, present: FoundInPresent, now: i64) -> bool {
    match s {
        RecordingState::A(_) | RecordingState::B1(_) | RecordingState::B2(_) => present_end_fits(
            present,
            now as int,
        ),
        _ => true,
    }
}

/// The state after `FoundInFollowing` arrives at `now`.
pub open spec fn spec_on_found_in_following(s: RecordingState, now: i64) -> RecordingState {
    match s {
        RecordingState::A(_) => RecordingState::B2(B2 { since: now }),
        RecordingState::B1(_) => RecordingState::B2(B2 { since: now }),
        RecordingState::B2(b) => RecordingState::B2(b),
        _ => RecordingState::Error,
    }
}

/// The state after `FoundInPresent` arrives at `now`.
pub open spec fn spec_on_found_in_present(
    s: RecordingState,
    present: FoundInPresent,
    now: i64,
) -> RecordingState {
    let entered = RecordingState::Rec(
        Rec { since: now, end: present_end(present, now as int) as i64 },
    );
    match s {
        RecordingState::A(_) => entered,
        RecordingState::B1(_) => entered,
        RecordingState::B2(_) => entered,
        RecordingState::Rec(r) => RecordingState::Rec(r),
        _ => RecordingState::Error,
    }
}

/// The state after `WaitForPremiere` arrives at `now`.
pub open spec fn spec_on_wait_for_premiere(
    s: RecordingState,
    wait: WaitForPremiere,
    now: i64,
) -> RecordingState {
    match s {
        RecordingState::A(a) => if wait.start_at < now {
            RecordingState::B1(B1 { since: now })
        } else if a.since + A_TIMEOUT_MS < now {
            RecordingState::Timeout(Timeout {  })
        } else {
            RecordingState::A(A { since: a.since })
        },
        RecordingState::B1(b) => if b.since + B1_TIMEOUT_MS < now {
            RecordingState::Timeout(Timeout {  })
        } else {
            RecordingState::B1(B1 { since: b.since })
        },
        RecordingState::Rec(_) => RecordingState::Success(Success {  }),
        _ => RecordingState::Error,
    }
}

/// Processing `m` in `s` at `now` computes only instants a date-time can hold.
pub open spec fn message_fits(s: RecordingState, m: RecordingStateMessages, now: i64) -> bool {
    match m {
        RecordingStateMessages::FoundInFollowing(_) => true,
        RecordingStateMessages::FoundInPresent(p) => present_fits(s, p, now),
        RecordingStateMessages::WaitForPremiere(w) => premiere_checks_fit(s, w, now),
    }
}

/// The state after message `m` arrives at `now`.
pub open spec fn spec_execute(s: RecordingState, m: RecordingStateMessages, now: i64) -> RecordingState {
    match m {
        RecordingStateMessages::FoundInFollowing(_) => spec_on_found_in_following(s, now),
        RecordingStateMessages::FoundInPresent(p) => spec_on_found_in_present(s, p, now),
        RecordingStateMessages::WaitForPremiere(w) => spec_on_wait_for_premiere(s, w, now),
    }
}

/// How far a task has come: states only ever move to a stage at least as high.
pub open spec fn stage(s: RecordingState) -> nat {
    match s {
        RecordingState::A(_) => 0,
        RecordingState::B1(_) => 1,
        RecordingState::B2(_) => 2,
        RecordingState::Rec(_) => 3,
        RecordingState::Timeout(_) => 4,
        RecordingState::Success(_) => 4,
        RecordingState::Error => 5,
    }
}

/// States that move to `B2` when the programme is announced as following.
pub trait IntoB2: Sized {
    fn on_found_in_following(self, msg: FoundInFollowing, now: i64) -> (r: B2)
        ensures
            r == (B2 { since: now }),
    {
        B2 { since: now }
    }
}

/// States that start recording when the programme is announced as present.
pub trait IntoRec: Sized {
    fn on_found_in_present(self, present: FoundInPresent, now: i64) -> (r: Rec)
        requires
            present_end_fits(present, now as int),
        ensures
            r == (Rec { since: now, end: present_end(present, now as int) as i64 }),
    {
        let end = match present.duration {
            Some(d) => present.start_at + d,
            None => now + UNKNOWN_LENGTH_MS,
        };
        Rec { since: now, end }
    }
}

impl IntoB2 for A {

}

impl IntoB2 for B1 {

}

impl IntoRec for A {

}

impl IntoRec for B1 {

}

impl IntoRec for B2 {

}

impl A {
    /// `WaitForPremiere` in `A`: to `B1` once the scheduled start has passed,
    /// to `Timeout` after an hour in `A`, else stay.
    pub fn on_wait_for_premiere(self, wait: WaitForPremiere, now: i64) -> (r: RecordingState)
        requires
            wait.start_at < now || in_datetime_range(self.since + A_TIMEOUT_MS),
        ensures
            r == spec_on_wait_for_premiere(RecordingState::A(self), wait, now),
    {
        if wait.start_at < now {
            RecordingState::B1(B1 { since: now })
        } else if self.since + A_TIMEOUT_MS < now {
            RecordingState::Timeout(Timeout {  })
        } else {
            RecordingState::A(A { since: self.since })
        }
    }
}

impl B1 {
    /// `WaitForPremiere` in `B1`: to `Timeout` after three hours in `B1`, else stay.
    pub fn on_wait_for_premiere(self, wait: WaitForPremiere, now: i64) -> (r: RecordingState)
        requires
            in_datetime_range(self.since + B1_TIMEOUT_MS),
        ensures
            r == spec_on_wait_for_premiere(RecordingState::B1(self), wait, now),
    {
        if self.since + B1_TIMEOUT_MS < now {
            RecordingState::Timeout(Timeout {  })
        } else {
            RecordingState::B1(B1 { since: self.since })
        }
    }
}

impl B2 {
    /// `FoundInFollowing` in `B2` keeps the state as it is.
    pub fn on_found_in_following(self, msg: FoundInFollowing) -> (r: B2)
        ensures
            r == self,
    {
        self
    }
}

impl Rec {
    /// `FoundInPresent` in `Rec` keeps the state as it is.
    pub fn on_found_in_present(self, present: FoundInPresent) -> (r: Rec)
        ensures
            r == self,
    {
        self
    }

    /// `WaitForPremiere` in `Rec`: the programme has left the EIT, so it is over.
    pub fn on_wait_for_premiere(self, wait: WaitForPremiere) -> (r: Success)
        ensures
            r == (Success {  }),
    {
        Success {  }
    }
}

impl RecordingState {
    /// The machine's answer to `FoundInFollowing` at `now`.
    pub fn on_found_in_following(self, msg: FoundInFollowing, now: i64) -> (r: RecordingState)
        ensures
            r == spec_on_found_in_following(self, now),
    {
        match self {
            RecordingState::A(state) => RecordingState::B2(state.on_found_in_following(msg, now)),
            RecordingState::B1(state) => RecordingState::B2(state.on_found_in_following(msg, now)),
            RecordingState::B2(state) => RecordingState::B2(state.on_found_in_following(msg)),
            _ => RecordingState::Error,
        }
    }

    /// The machine's answer to `FoundInPresent` at `now`.
    pub fn on_found_in_present(self, present: FoundInPresent, now: i64) -> (r: RecordingState)
        requires
            present_fits(self, present, now),
        ensures
            r == spec_on_found_in_present(self, present, now),
    {
        match self {
            RecordingState::A(state) => RecordingState::Rec(state.on_found_in_present(present, now)),
            RecordingState::B1(state) => RecordingState::Rec(
                state.on_found_in_present(present, now),
            ),
            RecordingState::B2(state) => RecordingState::Rec(
                state.on_found_in_present(present, now),
            ),
            RecordingState::Rec(state) => RecordingState::Rec(state.on_found_in_present(present)),
            _ => RecordingState::Error,
        }
    }

    /// The machine's answer to `WaitForPremiere` at `now`.
    pub fn on_wait_for_premiere(self, wait: WaitForPremiere, now: i64) -> (r: RecordingState)
        requires
            premiere_checks_fit(self, wait, now),
        ensures
            r == spec_on_wait_for_premiere(self, wait, now),
    {
        match self {
            RecordingState::A(state) => state.on_wait_for_premiere(wait, now),
            RecordingState::B1(state) => state.on_wait_for_premiere(wait, now),
            RecordingState::Rec(state) => RecordingState::Success(state.on_wait_for_premiere(wait)),
            _ => RecordingState::Error,
        }
    }

    /// Dispatches a message to the matching handler.
    pub fn execute(self, msg: RecordingStateMessages, now: i64) -> (r: RecordingState)
        requires
            message_fits(self, msg, now),
        ensures
            r == spec_execute(self, msg, now),
    {
        match msg {
            RecordingStateMessages::FoundInFollowing(m) => self.on_found_in_following(m, now),
            RecordingStateMessages::FoundInPresent(m) => self.on_found_in_present(m, now),
            RecordingStateMessages::WaitForPremiere(m) => self.on_wait_for_premiere(m, now),
        }
    }
}

/// A message that a state does not accept sends the machine to `Error`,
/// and `Error` answers every message with `Error`.
pub proof fn lemma_error_absorbs(m: RecordingStateMessages, now: i64)
    ensures
        spec_execute(RecordingState::Error, m, now) == RecordingState::Error,
{
}

/// A task never moves back: every message leads to a state of the same
/// or a later stage.
pub proof fn lemma_stage_monotone(s: RecordingState, m: RecordingStateMessages, now: i64)
    ensures
        stage(spec_execute(s, m, now)) >= stage(s),
{
}

/// Once recording, the programme staying present keeps the state unchanged,
/// the programme leaving the EIT ends the task in `Success`, and an
/// announcement as following is refused with `Error`.
pub proof fn lemma_recording_outcomes(r: Rec, m: RecordingStateMessages, now: i64)
    ensures
        spec_execute(RecordingState::Rec(r), m, now) == match m {
            RecordingStateMessages::FoundInPresent(_) => RecordingState::Rec(r),
            RecordingStateMessages::WaitForPremiere(_) => RecordingState::Success(Success {  }),
            RecordingStateMessages::FoundInFollowing(_) => RecordingState::Error,
        },
{
}

/// Waiting in `A` before the scheduled start times out exactly when more
/// than an hour has passed since `A` was entered; once the start has passed
/// the task moves to `B1` at once. In `B1` the timeout is three hours after
/// `B1` was entered.
pub proof fn law_waiting_times_out_from_entry(a: A, b: B1, wait: WaitForPremiere, now: i64)
    ensures
        now <= wait.start_at ==> (spec_on_wait_for_premiere(RecordingState::A(a), wait, now)
            is Timeout <==> a.since + A_TIMEOUT_MS < now),
        now <= wait.start_at && a.since + A_TIMEOUT_MS >= now ==> spec_on_wait_for_premiere(
            RecordingState::A(a),
            wait,
            now,
        ) == RecordingState::A(a),
        wait.start_at < now ==> spec_on_wait_for_premiere(RecordingState::A(a), wait, now)
            == RecordingState::B1(B1 { since: now }),
        spec_on_wait_for_premiere(RecordingState::B1(b), wait, now) is Timeout <==> b.since
            + B1_TIMEOUT_MS < now,
        b.since + B1_TIMEOUT_MS >= now ==> spec_on_wait_for_premiere(
            RecordingState::B1(b),
            wait,
            now,
        ) == RecordingState::B1(b),
{
}

/// Every state that waits for the programme (`A`, `B1`, `B2`) starts
/// recording as soon as the programme is present, with `since` the time of
/// the message and `end` the expected end of the programme.
pub proof fn lemma_present_starts_recording(s: RecordingState, p: FoundInPresent, now: i64)
    requires
        stage(s) <= 2,
        present_end_fits(p, now as int),
    ensures
        spec_on_found_in_present(s, p, now) == RecordingState::Rec(
            Rec { since: now, end: present_end(p, now as int) as i64 },
        ),
{
}

/// `Timeout` and `Success` are final: every further message is an error.
pub proof fn lemma_final_states(s: RecordingState, m: RecordingStateMessages, now: i64)
    requires
        stage(s) == 4,
    ensures
        spec_execute(s, m, now) == RecordingState::Error,
{
}

} // verus!
