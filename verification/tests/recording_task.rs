use recorder::eit::EitDetected;
use recorder::program::{Program, RecExitType, RecordingTaskDescription, RelatedItem, RelatedItemType};
use recorder::rec_pool::RecPool;
use recorder::rec_task::{
    apply_report, eit_silent_too_long, file_path, file_stem, stream_source, ChunkStep, RecTask,
    StreamSource, TaskStep,
};
use recorder::states::{FoundInFollowing, FoundInPresent, RecordingState, Rec, Success, A, B1, B2};

const ID: i64 = 327360102412345;

fn program(name: Option<&str>, related: Option<Vec<RelatedItem>>) -> Program {
    Program {
        id: ID,
        event_id: 12345,
        service_id: 1024,
        network_id: 32736,
        start_at: 1_000_000,
        duration: Some(600_000),
        is_free: true,
        name: name.map(|n| n.to_string()),
        description: None,
        related_items: related,
    }
}

fn request(name: Option<&str>, related: Option<Vec<RelatedItem>>) -> RecordingTaskDescription {
    RecordingTaskDescription { program: program(name, related), id_override: None, save_dir_location: "./common/".to_string() }
}

fn text(v: &[char]) -> String {
    v.iter().collect()
}

fn relay(network_id: Option<i32>, service_id: Option<i32>, event_id: Option<i32>) -> RelatedItem {
    RelatedItem { item_type: Some(RelatedItemType::Relay), network_id, service_id, event_id }
}

#[test]
fn file_names() {
    assert_eq!(text(&file_stem(&request(Some("News"), None))), "12345_News");
    assert_eq!(text(&file_stem(&request(Some("a/b:c[1]?"), None))), "12345_a b c 1  ");
    assert_eq!(text(&file_stem(&request(None, None))), "12345_untitled");
    let stem: Vec<char> = "1_x".chars().collect();
    assert_eq!(file_path(&"./d".to_string(), &stem, "m2ts"), "./d/1_x.m2ts");
    assert_eq!(file_path(&"./d/".to_string(), &stem, "m2ts-tmp"), "./d/1_x.m2ts-tmp");
    assert_eq!(file_path(&"".to_string(), &stem, "m2ts"), "1_x.m2ts");
}

#[test]
fn stream_sources() {
    assert_eq!(stream_source(&request(None, None)), StreamSource::Service(3273601024));
    let mut relayed = request(None, None);
    relayed.id_override = Some((32736, 1025, 555));
    assert_eq!(stream_source(&relayed), StreamSource::Program(327360102500555));
}

#[test]
fn a_new_task_waits_and_writes_a_tentative_file() {
    let t = RecTask::new(&request(Some("News"), None), 77);
    assert_eq!(t.state, RecordingState::A(A { since: 77 }));
    assert_eq!(t.next_state, t.state);
    assert_eq!(t.amt, 0);
    assert_eq!(t.id, ID);
    assert!(!t.final_name);
    assert_eq!(t.file_location(), "./common/12345_News.m2ts-tmp");
}

#[test]
fn steps_of_a_task() {
    let info = request(Some("News"), None);
    let mut t = RecTask::new(&info, 0);
    assert!(matches!(t.step(Some(&info)), TaskStep::Stream));
    assert!(matches!(t.step(None), TaskStep::Exit(RecExitType::Aborted(0))));

    t.next_state = RecordingState::B2(B2 { since: 5 });
    assert!(matches!(t.step(Some(&info)), TaskStep::Reopen(Some(p)) if p == "./common/12345_News.m2ts-tmp"));
    assert_eq!(t.state, RecordingState::B2(B2 { since: 5 }));

    t.next_state = RecordingState::Rec(Rec { since: 9, end: 100 });
    assert!(matches!(t.step(Some(&info)), TaskStep::Reopen(Some(p)) if p == "./common/12345_News.m2ts"));
    assert!(t.final_name);
    assert_eq!(t.file_location(), "./common/12345_News.m2ts");

    assert!(t.record_written(188));
    assert!(!t.record_written(0));
    assert_eq!(t.amt, 188);

    t.next_state = RecordingState::Success(Success {});
    assert!(matches!(t.step(Some(&info)), TaskStep::Exit(RecExitType::Success(188))));
    t.next_state = RecordingState::Error;
    assert!(matches!(t.step(Some(&info)), TaskStep::Exit(RecExitType::Bailout)));
}

#[test]
fn a_timeout_discards_the_stream() {
    let info = request(None, None);
    let mut t = RecTask::new(&info, 0);
    t.next_state = RecordingState::Timeout(recorder::states::Timeout {});
    assert!(matches!(t.step(Some(&info)), TaskStep::Reopen(None)));
    assert_eq!(t.state, RecordingState::Timeout(recorder::states::Timeout {}));
}

#[test]
fn success_relays_to_the_next_event() {
    let items = vec![
        RelatedItem { item_type: Some(RelatedItemType::Shared), network_id: None, service_id: Some(1), event_id: Some(2) },
        relay(None, Some(1025), Some(555)),
        relay(Some(1), Some(2), Some(3)),
    ];
    let info = request(Some("News"), Some(items));
    let mut t = RecTask::new(&info, 0);
    t.amt = 10;
    t.next_state = RecordingState::Success(Success {});
    assert!(matches!(t.step(Some(&info)), TaskStep::Exit(RecExitType::Continue(32736, 1025, 555, 10))));
    let incomplete = request(None, Some(vec![relay(Some(1), None, Some(3))]));
    assert!(matches!(t.step(Some(&incomplete)), TaskStep::RelayIncomplete));
}

#[test]
fn reports_move_the_next_state() {
    let info = request(None, None);
    let mut t = RecTask::new(&info, 0);
    let f = EitDetected::F(FoundInFollowing { start_at: 500, duration: Some(100) });
    let p = EitDetected::P(FoundInPresent { start_at: 500, duration: Some(100) });
    assert!(t.absorb_reports(&vec![], 500, 10));
    assert_eq!(t.next_state, RecordingState::A(A { since: 0 }));
    assert!(t.absorb_reports(&vec![f, p], 500, 510));
    assert_eq!(t.next_state, RecordingState::Rec(Rec { since: 510, end: 600 }));
    assert_eq!(t.state, RecordingState::A(A { since: 0 }));
}

#[test]
fn single_reports() {
    let a = RecordingState::A(A { since: 0 });
    assert_eq!(apply_report(EitDetected::NotFound { since: 3 }, a, 10, 20), Some(RecordingState::B1(B1 { since: 20 })));
    assert_eq!(apply_report(EitDetected::NotFound { since: 3 }, a, 100, 20), Some(a));
    let f = EitDetected::F(FoundInFollowing { start_at: 10, duration: None });
    assert_eq!(apply_report(f, a, 100, 20), Some(RecordingState::B2(B2 { since: 20 })));
    let far = EitDetected::P(FoundInPresent { start_at: 8_210_266_876_799_999, duration: Some(1) });
    assert_eq!(apply_report(far, a, 100, 20), None);
    let b1 = RecordingState::B1(B1 { since: 8_210_266_876_799_999 });
    assert_eq!(apply_report(EitDetected::NotFound { since: 0 }, b1, 0, 20), None);
}

#[test]
fn silence_of_the_eit() {
    assert!(!eit_silent_too_long(0, 30_000));
    assert!(eit_silent_too_long(0, 30_001));
    assert!(!eit_silent_too_long(100, 50));
}

#[test]
fn the_file_is_final_only_while_recording() {
    let info = request(Some("News"), None);
    let mut t = RecTask::new(&info, 0);
    assert!(!t.final_name);
    let f = EitDetected::F(FoundInFollowing { start_at: 500, duration: Some(100) });
    assert!(t.absorb_reports(&vec![f], 500, 10));
    assert!(matches!(t.step(Some(&info)), TaskStep::Reopen(Some(p)) if p.ends_with(".m2ts-tmp")));
    assert!(!t.final_name);
    let p = EitDetected::P(FoundInPresent { start_at: 500, duration: Some(100) });
    assert!(t.absorb_reports(&vec![p], 500, 510));
    assert!(matches!(t.step(Some(&info)), TaskStep::Reopen(Some(p)) if p.ends_with(".m2ts")));
    assert!(t.final_name);
    assert!(t.absorb_reports(&vec![p, EitDetected::NotFound { since: 700 }], 500, 700));
    assert_eq!(t.next_state, RecordingState::Success(Success {}));
    assert!(matches!(t.step(Some(&info)), TaskStep::Exit(RecExitType::Success(0))));
    assert!(t.final_name);
    assert!(matches!(t.state, RecordingState::Rec(_)));
}

#[test]
fn a_task_starts_once_per_event_id() {
    let mut pool = RecPool::new();
    let info = request(Some("News"), None);
    let (t, source) = RecTask::start(&mut pool, &info, 5);
    assert_eq!(t.state, RecordingState::A(A { since: 5 }));
    assert_eq!(t.id, ID);
    assert_eq!(t.file_location(), "./common/12345_News.m2ts-tmp");
    assert_eq!(source, StreamSource::Service(3273601024));
    assert_eq!(pool.lookup(12345).unwrap().program.id, ID);
    assert!(pool.contains(12345));
    assert_eq!(pool.lookup(12345).unwrap().program.name, Some("News".to_string()));
    let mut relayed = request(None, None);
    relayed.program.event_id = 555;
    relayed.id_override = Some((32736, 1025, 555));
    let (_, source) = RecTask::start(&mut pool, &relayed, 7);
    assert_eq!(source, StreamSource::Program(327360102500555));
}

#[test]
fn chunks_of_the_stream() {
    let mut t = RecTask::new(&request(None, None), 0);
    assert!(t.record_written(100));
    assert!(t.record_written(88));
    assert_eq!(t.amt, 188);
    assert_eq!(t.on_chunk(0, true), ChunkStep::Finish(RecExitType::EndOfStream(188)));
    assert_eq!(t.on_chunk(0, false), ChunkStep::Finish(RecExitType::EndOfStream(188)));
    assert_eq!(t.on_chunk(10, true), ChunkStep::Write);
    assert_eq!(t.on_chunk(10, false), ChunkStep::Discard(10));
    assert!(!t.record_written(0));
    assert_eq!(t.amt, 188);
}
