use recorder::program::{Program, RecExitType, RecordControlMessage, RecordingTaskDescription};
use recorder::rec_pool::{after_exit, ExitFollowUp, PoolAction, RecPool, RecTaskQueue};

fn program(id: i64, event_id: i32, name: &str) -> Program {
    Program {
        id,
        event_id,
        service_id: 1024,
        network_id: 32736,
        start_at: 1_000,
        duration: Some(60_000),
        is_free: true,
        name: Some(name.to_string()),
        description: None,
        related_items: None,
    }
}

fn request(id: i64, event_id: i32, name: &str, dir: &str) -> RecordingTaskDescription {
    RecordingTaskDescription { program: program(id, event_id, name), id_override: None, save_dir_location: dir.to_string() }
}

#[test]
fn a_new_request_asks_for_a_task() {
    let mut pool = RecPool::new();
    let a = pool.handle_message(RecordControlMessage::CreateOrUpdate(request(7, 70, "a", "./x/")));
    assert!(matches!(a, PoolAction::Start(d) if d.program.id == 7 && d.save_dir_location == "./x/"));
    assert!(!pool.contains(7));
    let a = pool.handle_message(RecordControlMessage::TryCreate(request(8, 80, "b", "./y/")));
    assert!(matches!(a, PoolAction::Start(d) if d.program.id == 8));
}

#[test]
fn a_served_programme_is_updated_or_skipped() {
    let mut pool = RecPool::new();
    pool.put(7, request(7, 70, "a", "./x/"));
    let a = pool.handle_message(RecordControlMessage::CreateOrUpdate(request(7, 70, "a", "./z/")));
    assert!(matches!(a, PoolAction::Overwritten));
    assert_eq!(pool.lookup(7).unwrap().save_dir_location, "./z/");
    let a = pool.handle_message(RecordControlMessage::TryCreate(request(7, 70, "other", "./w/")));
    assert!(matches!(a, PoolAction::AlreadyRecording));
    assert_eq!(pool.lookup(7).unwrap().save_dir_location, "./z/");
}

#[test]
fn changed_programme_data_asks_for_a_new_task() {
    let mut pool = RecPool::new();
    pool.put(7, request(7, 70, "a", "./x/"));
    let a = pool.handle_message(RecordControlMessage::CreateOrUpdate(request(7, 70, "renamed", "./x/")));
    assert!(matches!(a, PoolAction::Start(d) if d.program.name == Some("renamed".to_string())));
    assert_eq!(pool.lookup(7).unwrap().program.name, Some("a".to_string()));
}

#[test]
fn removal_answers_whether_something_was_served() {
    let mut pool = RecPool::new();
    pool.put(7, request(7, 70, "a", "./x/"));
    assert!(matches!(pool.handle_message(RecordControlMessage::Remove(7)), PoolAction::Removed(true)));
    assert!(matches!(pool.handle_message(RecordControlMessage::Remove(7)), PoolAction::Removed(false)));
    assert!(pool.lookup(7).is_none());
    let a = pool.handle_message(RecordControlMessage::TryCreate(request(7, 70, "a", "./x/")));
    assert!(matches!(a, PoolAction::Start(_)));
}

#[test]
fn tasks_register_under_the_event_id() {
    let mut pool = RecPool::new();
    let info = request(327360102412345, 12345, "a", "./x/");
    assert!(pool.register_task(&info));
    assert!(pool.contains(12345));
    assert!(!pool.contains(327360102412345));
    assert!(!pool.register_task(&request(1, 12345, "b", "./y/")));
    assert_eq!(pool.lookup(12345).unwrap().program.name, Some("a".to_string()));
    let taken = pool.take(12345).unwrap();
    assert_eq!(taken.program.id, 327360102412345);
    assert!(pool.take(12345).is_none());
}

#[test]
fn follow_up_after_a_task() {
    assert!(matches!(after_exit(Some(RecExitType::Success(10)), None), ExitFollowUp::Done));
    assert!(matches!(after_exit(Some(RecExitType::Aborted(0)), None), ExitFollowUp::Done));
    assert!(matches!(after_exit(None, None), ExitFollowUp::Done));
    let relay = after_exit(Some(RecExitType::Continue(1, 2, 3, 99)), Some(request(7, 70, "a", "./x/")));
    assert!(matches!(relay, ExitFollowUp::Relay(d)
        if d.id_override == Some((1, 2, 3)) && d.program.id == 7 && d.save_dir_location == "./x/"));
    assert!(matches!(after_exit(Some(RecExitType::Continue(1, 2, 3, 99)), None), ExitFollowUp::Unexpected));
    assert!(matches!(after_exit(Some(RecExitType::Bailout), None), ExitFollowUp::Unexpected));
    assert!(matches!(after_exit(Some(RecExitType::EndOfStream(5)), None), ExitFollowUp::Unexpected));
}

#[test]
fn the_task_queue_spawns_once_per_programme() {
    let mut q = RecTaskQueue::new();
    assert!(q.add(request(7, 70, "a", "./x/")));
    assert!(!q.add(request(7, 70, "b", "./y/")));
    assert_eq!(q.at(7).unwrap().program.name, Some("b".to_string()));
    assert_eq!(q.try_add(request(7, 70, "c", "./z/")), (false, false));
    assert_eq!(q.at(7).unwrap().program.name, Some("b".to_string()));
    assert_eq!(q.try_add(request(8, 80, "d", "./z/")), (true, true));
    assert_eq!(q.try_remove(7), (true, true));
    assert_eq!(q.try_remove(7), (false, false));
    assert!(q.at(7).is_none());
    assert_eq!(q.try_add(request(7, 70, "e", "./z/")), (true, true));
}

#[test]
fn without_a_task_a_kept_request_is_replaced_and_a_task_spawned() {
    let mut q = RecTaskQueue::new();
    assert!(q.add(request(7, 70, "a", "./x/")));
    assert_eq!(q.try_remove(7), (true, true));
    assert_eq!(q.try_add(request(7, 70, "b", "./y/")), (true, true));
    assert_eq!(q.at(7).unwrap().program.name, Some("b".to_string()));
    assert_eq!(q.try_add(request(7, 70, "c", "./z/")), (false, false));
    assert_eq!(q.at(7).unwrap().program.name, Some("b".to_string()));
}
