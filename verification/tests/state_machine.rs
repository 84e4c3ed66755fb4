use recorder::states::{
    FoundInFollowing, FoundInPresent, IntoB2, IntoRec, RecordingState, RecordingStateMessages,
    Success, Timeout, WaitForPremiere, A, B1, B2, Rec, A_TIMEOUT_MS, B1_TIMEOUT_MS,
    UNKNOWN_LENGTH_MS,
};

fn following(start_at: i64) -> RecordingStateMessages {
    RecordingStateMessages::FoundInFollowing(FoundInFollowing { start_at, duration: Some(60_000) })
}

fn present(start_at: i64, duration: Option<i64>) -> RecordingStateMessages {
    RecordingStateMessages::FoundInPresent(FoundInPresent { start_at, duration })
}

fn wait(start_at: i64) -> RecordingStateMessages {
    RecordingStateMessages::WaitForPremiere(WaitForPremiere { start_at })
}

#[test]
fn following_moves_waiting_states_to_b2() {
    let a = RecordingState::A(A { since: 0 });
    assert_eq!(a.execute(following(1000), 5), RecordingState::B2(B2 { since: 5 }));
    let b1 = RecordingState::B1(B1 { since: 3 });
    assert_eq!(b1.execute(following(1000), 7), RecordingState::B2(B2 { since: 7 }));
    let b2 = RecordingState::B2(B2 { since: 4 });
    assert_eq!(b2.execute(following(1000), 9), RecordingState::B2(B2 { since: 4 }));
}

#[test]
fn present_starts_recording_with_the_programme_end() {
    let a = RecordingState::A(A { since: 0 });
    assert_eq!(
        a.execute(present(100, Some(50)), 120),
        RecordingState::Rec(Rec { since: 120, end: 150 })
    );
    let b2 = RecordingState::B2(B2 { since: 0 });
    assert_eq!(
        b2.execute(present(100, None), 120),
        RecordingState::Rec(Rec { since: 120, end: 120 + UNKNOWN_LENGTH_MS })
    );
    let b1 = RecordingState::B1(B1 { since: 0 });
    assert_eq!(
        b1.execute(present(1_000, Some(2_000)), 1_500),
        RecordingState::Rec(Rec { since: 1_500, end: 3_000 })
    );
}

#[test]
fn waiting_in_a_moves_on_after_the_start_or_times_out() {
    let a = RecordingState::A(A { since: 0 });
    assert_eq!(a.execute(wait(10), 20), RecordingState::B1(B1 { since: 20 }));
    assert_eq!(a.execute(wait(100_000_000), 100), RecordingState::A(A { since: 0 }));
    assert_eq!(
        a.execute(wait(100_000_000), A_TIMEOUT_MS),
        RecordingState::A(A { since: 0 })
    );
    assert_eq!(
        a.execute(wait(100_000_000), A_TIMEOUT_MS + 1),
        RecordingState::Timeout(Timeout {})
    );
}

#[test]
fn waiting_in_b1_times_out_after_three_hours() {
    let b1 = RecordingState::B1(B1 { since: 0 });
    assert_eq!(b1.execute(wait(0), B1_TIMEOUT_MS), RecordingState::B1(B1 { since: 0 }));
    assert_eq!(b1.execute(wait(0), B1_TIMEOUT_MS + 1), RecordingState::Timeout(Timeout {}));
}

#[test]
fn recording_outcomes() {
    let r = RecordingState::Rec(Rec { since: 10, end: 20 });
    assert_eq!(r.execute(present(0, Some(5)), 30), r);
    assert_eq!(r.execute(wait(0), 30), RecordingState::Success(Success {}));
    assert_eq!(r.execute(following(0), 30), RecordingState::Error);
}

#[test]
fn error_absorbs_every_message() {
    let e = RecordingState::Error;
    assert_eq!(e.execute(following(0), 1), RecordingState::Error);
    assert_eq!(e.execute(present(0, Some(1)), 1), RecordingState::Error);
    assert_eq!(e.execute(wait(0), 1), RecordingState::Error);
}

#[test]
fn final_states_answer_with_error() {
    for s in [RecordingState::Timeout(Timeout {}), RecordingState::Success(Success {})] {
        assert_eq!(s.execute(following(0), 1), RecordingState::Error);
        assert_eq!(s.execute(present(0, Some(1)), 1), RecordingState::Error);
        assert_eq!(s.execute(wait(0), 1), RecordingState::Error);
    }
}

#[test]
fn b2_refuses_waiting() {
    let b2 = RecordingState::B2(B2 { since: 1 });
    assert_eq!(b2.execute(wait(0), 5), RecordingState::Error);
}

#[test]
fn per_state_handlers() {
    let b2 = A { since: 1 }.on_found_in_following(FoundInFollowing { start_at: 0, duration: None }, 8);
    assert_eq!(b2, B2 { since: 8 });
    let rec = B1 { since: 1 }.on_found_in_present(FoundInPresent { start_at: 10, duration: Some(5) }, 12);
    assert_eq!(rec, Rec { since: 12, end: 15 });
    let kept = Rec { since: 1, end: 2 }.on_found_in_present(FoundInPresent { start_at: 0, duration: None });
    assert_eq!(kept, Rec { since: 1, end: 2 });
    assert_eq!(Rec { since: 1, end: 2 }.on_wait_for_premiere(WaitForPremiere { start_at: 0 }), Success {});
    assert_eq!(B2 { since: 3 }.on_found_in_following(FoundInFollowing { start_at: 0, duration: None }), B2 { since: 3 });
    assert_eq!(
        A { since: 0 }.on_wait_for_premiere(WaitForPremiere { start_at: 5 }, 6),
        RecordingState::B1(B1 { since: 6 })
    );
    assert_eq!(
        B1 { since: 0 }.on_wait_for_premiere(WaitForPremiere { start_at: 5 }, 6),
        RecordingState::B1(B1 { since: 0 })
    );
}
