use recorder::planner::PlanUnit;
use recorder::program::Program;
use recorder::schedule::{
    is_in_the_recording_range, recording_request, save_dir_candidate, trigger_applies, trigger_for, SchedQueue,
    Schedule, Trigger, LEAD_TIME_MS, UNKNOWN_LENGTH_KEEP_MS,
};

fn program(id: i64, start_at: i64, duration: Option<i64>) -> Program {
    Program {
        id,
        event_id: (id % 100000) as i32,
        service_id: 1024,
        network_id: 32736,
        start_at,
        duration,
        is_free: true,
        name: Some(format!("programme {}", id)),
        description: None,
        related_items: None,
    }
}

fn schedule(id: i64, start_at: i64, duration: Option<i64>) -> Schedule {
    Schedule { program: program(id, start_at, duration), plan_id: None, is_active: true }
}

fn queue(items: Vec<Schedule>) -> SchedQueue {
    SchedQueue::new("schedules.json".to_string(), Some(items))
}

fn ids(q: &SchedQueue) -> Vec<i64> {
    q.items.iter().map(|s| s.program.id).collect()
}

#[test]
fn a_queue_without_a_file_is_empty() {
    let q = SchedQueue::new("x.json".to_string(), None);
    assert!(q.items.is_empty());
    assert_eq!(q.save_file_location, "x.json");
}

#[test]
fn expired_schedules_are_dropped() {
    let mut q = queue(vec![schedule(1, 0, Some(100)), schedule(2, 0, None), schedule(3, 1000, Some(5000))]);
    assert_eq!(q.drop_expired(200), Some((3, 2)));
    assert_eq!(ids(&q), vec![2, 3]);
    assert_eq!(q.drop_expired(200), Some((2, 2)));
    assert_eq!(q.drop_expired(UNKNOWN_LENGTH_KEEP_MS), Some((2, 0)));
    assert!(q.items.is_empty());
}

#[test]
fn a_programme_of_unknown_length_is_kept_for_an_hour() {
    let mut q = queue(vec![schedule(1, 0, None)]);
    assert_eq!(q.drop_expired(UNKNOWN_LENGTH_KEEP_MS - 1), Some((1, 1)));
    assert_eq!(q.drop_expired(UNKNOWN_LENGTH_KEEP_MS), Some((1, 0)));
}

#[test]
fn an_end_out_of_range_stops_the_cleanup() {
    let mut q = queue(vec![schedule(1, 0, Some(100)), schedule(2, 0, Some(i64::MIN))]);
    assert_eq!(q.drop_expired(1_000), None);
    assert_eq!(ids(&q), vec![1, 2]);
}

#[test]
fn recording_range_is_open() {
    assert!(is_in_the_recording_range(1, 5, 3));
    assert!(!is_in_the_recording_range(1, 5, 1));
    assert!(!is_in_the_recording_range(1, 5, 5));
}

#[test]
fn triggers_around_the_start() {
    let start = 10_000_000;
    let s = schedule(1, start, Some(1_000_000));
    assert_eq!(trigger_for(&s, start - LEAD_TIME_MS - 1), Trigger::Wait);
    assert_eq!(trigger_for(&s, start - LEAD_TIME_MS), Trigger::Wait);
    assert_eq!(trigger_for(&s, start - LEAD_TIME_MS + 1), Trigger::CreateOrUpdate);
    assert_eq!(trigger_for(&s, start - 1), Trigger::CreateOrUpdate);
    assert_eq!(trigger_for(&s, start), Trigger::Wait);
    assert_eq!(trigger_for(&s, start + 1), Trigger::TryCreate);
    assert_eq!(trigger_for(&s, start + 999_999), Trigger::TryCreate);
    assert_eq!(trigger_for(&s, start + 1_000_000), Trigger::Wait);
}

#[test]
fn triggers_that_do_not_apply() {
    let mut inactive = schedule(1, 0, Some(10));
    inactive.is_active = false;
    assert_eq!(trigger_for(&inactive, 5), Trigger::Inactive);
    assert_eq!(trigger_for(&schedule(1, 0, None), 5), Trigger::LengthUnknown);
    assert!(!trigger_applies(&schedule(1, 1_000_000, Some(0)), 2_000_000));
    assert!(!trigger_applies(&schedule(1, 1_000_000, Some(-5)), 2_000_000));
    assert_eq!(trigger_for(&schedule(1, 1_000_000, Some(0)), 999_000), Trigger::CreateOrUpdate);
    assert!(!trigger_applies(&schedule(1, -8_334_601_228_800_000, Some(10)), 0));
    assert!(!trigger_applies(&schedule(1, 0, Some(i64::MAX)), 5));
    assert!(trigger_applies(&schedule(1, 1_000_000, Some(0)), 999_000));
    assert!(trigger_applies(&schedule(1, 1_000_000, Some(5)), 2_000_000));
    assert!(trigger_applies(&schedule(1, 0, None), 5));
    let mut off = schedule(1, 0, Some(i64::MAX));
    off.is_active = false;
    assert!(trigger_applies(&off, 5));
}

#[test]
fn save_directories() {
    assert_eq!(save_dir_candidate(&schedule(1, 0, None)), "./common/");
    let id: u128 = 0x0123_4567_89ab_cdef_0123_4567_89ab_cdef;
    let text = ulid::Ulid(id).to_string();
    let mut w = schedule(1, 0, None);
    w.plan_id = Some((id, PlanUnit::Word("news".to_string())));
    assert_eq!(save_dir_candidate(&w), format!("./word_{}/", text));
    let mut s = schedule(1, 0, None);
    s.plan_id = Some((0, PlanUnit::Series("drama".to_string())));
    assert_eq!(save_dir_candidate(&s), "./series_00000000000000000000000000/");
    s.plan_id = Some((u128::MAX, PlanUnit::Series("drama".to_string())));
    assert_eq!(save_dir_candidate(&s), "./series_7ZZZZZZZZZZZZZZZZZZZZZZZZZ/");
}

#[test]
fn recording_requests_copy_the_programme() {
    let s = schedule(42, 7, Some(9));
    let r = recording_request(&s, "./common/".to_string());
    assert_eq!(r.program.id, 42);
    assert_eq!(r.program.start_at, 7);
    assert_eq!(r.program.duration, Some(9));
    assert_eq!(r.program.name, Some("programme 42".to_string()));
    assert_eq!(r.id_override, None);
    assert_eq!(r.save_dir_location, "./common/");
}

#[test]
fn a_programme_is_queued_once() {
    let mut q = queue(vec![]);
    assert!(q.add_schedule(program(5, 0, Some(1))));
    assert!(q.add_schedule(program(6, 0, Some(1))));
    assert!(!q.add_schedule(program(5, 100, Some(1))));
    assert_eq!(ids(&q), vec![5, 6]);
    assert_eq!(q.items[0].program.start_at, 0);
    assert!(q.items[1].is_active);
    assert!(q.items[1].plan_id.is_none());
}

#[test]
fn removal_request_drops_the_named_programme() {
    let mut q = queue(vec![schedule(1, 0, None), schedule(2, 0, None), schedule(1, 5, None), schedule(3, 0, None)]);
    assert_eq!(q.remove_program(1), 2);
    assert_eq!(ids(&q), vec![2, 3]);
    assert_eq!(q.remove_program(9), 0);
    assert_eq!(ids(&q), vec![2, 3]);
    assert_eq!(q.remove_program(3), 1);
    assert_eq!(ids(&q), vec![2]);
}

#[test]
fn newer_programme_data_replaces_the_queued_copy() {
    let mut q = queue(vec![schedule(1, 0, None), schedule(2, 0, None)]);
    q.items[1].is_active = false;
    let mut newer = program(2, 500, Some(60_000));
    newer.name = Some("renamed".to_string());
    assert_eq!(q.apply_program_update(&newer), 1);
    assert_eq!(q.items[1].program.start_at, 500);
    assert_eq!(q.items[1].program.name, Some("renamed".to_string()));
    assert!(!q.items[1].is_active);
    assert_eq!(q.items[0].program.start_at, 0);
    assert_eq!(q.apply_program_update(&program(9, 0, None)), 0);
}
