use recorder::epg::{is_feed_opening, reverse_event_relay};
use recorder::program::{
    event_id_of_program, find_relay, network_id_of_program, program_eq, program_id_of,
    service_id_of_program, clone_program, Program, RelatedItem, RelatedItemType,
};
use recorder::schedule::{SchedQueue, Schedule};
use recorder::service::{
    current_contents_filter, current_contents_filter_now, list_schedules, schedule_details,
};

fn program(id: i64, event_id: i32, related: Option<Vec<RelatedItem>>) -> Program {
    Program {
        id,
        event_id,
        service_id: 1024,
        network_id: 32736,
        start_at: 1_704_103_200_000,
        duration: Some(1_800_000),
        is_free: true,
        name: Some("News".to_string()),
        description: Some("today".to_string()),
        related_items: related,
    }
}

fn item(kind: RelatedItemType, event_id: Option<i32>) -> RelatedItem {
    RelatedItem { item_type: Some(kind), network_id: None, service_id: Some(1024), event_id }
}

#[test]
fn the_opening_bracket_line_is_passed_over() {
    assert!(is_feed_opening("["));
    assert!(is_feed_opening("  [ \r\n"));
    assert!(!is_feed_opening("[{\"id\":1}"));
    assert!(!is_feed_opening(""));
    assert!(!is_feed_opening("[["));
    assert!(!is_feed_opening("{\"resource\":\"program\"},"));
}

#[test]
fn reverse_relays_point_back_to_the_relaying_event() {
    let programs = vec![
        program(1, 100, Some(vec![item(RelatedItemType::Relay, Some(200)), item(RelatedItemType::Shared, None)])),
        program(2, 101, None),
        program(3, 102, Some(vec![item(RelatedItemType::Relay, Some(300)), item(RelatedItemType::Relay, Some(200))])),
    ];
    let table = reverse_event_relay(&programs);
    assert_eq!(table.len(), 2);
    assert_eq!(table.get(&200), Some(&102));
    assert_eq!(table.get(&300), Some(&102));
    assert!(reverse_event_relay(&vec![]).is_empty());
}

#[test]
fn the_first_relay_is_found() {
    let items = Some(vec![item(RelatedItemType::Movement, Some(1)), item(RelatedItemType::Relay, Some(2)), item(RelatedItemType::Relay, Some(3))]);
    assert_eq!(find_relay(&items).map(|r| r.event_id), Some(Some(2)));
    assert_eq!(find_relay(&None), None);
    assert_eq!(find_relay(&Some(vec![item(RelatedItemType::Shared, Some(1))])), None);
}

#[test]
fn programme_ids_split_into_their_parts() {
    let id = program_id_of(32736, 1024, 12345);
    assert_eq!(id, 327360102412345);
    assert_eq!(network_id_of_program(id), 32736);
    assert_eq!(service_id_of_program(id), 3273601024);
    assert_eq!(event_id_of_program(id), 12345);
    assert_eq!(service_id_of_program(-250000), -2);
    assert_eq!(event_id_of_program(-250001), -50001);
    assert_eq!(network_id_of_program(-25_000_000_000), -2);
}

#[test]
fn programmes_compare_field_by_field() {
    let a = program(1, 100, Some(vec![item(RelatedItemType::Relay, Some(5))]));
    let b = clone_program(&a);
    assert!(program_eq(&a, &b));
    let mut c = clone_program(&a);
    c.description = None;
    assert!(!program_eq(&a, &c));
    let mut d = clone_program(&a);
    d.related_items = Some(vec![]);
    assert!(!program_eq(&a, &d));
}

#[test]
fn the_current_window_filter() {
    assert_eq!(
        current_contents_filter(1_700_000_000_123),
        "start_at >= 1699996400000 AND start_at < 1700021600000"
    );
    assert_eq!(current_contents_filter(-1_500), "start_at >= -3602000 AND start_at < 21598000");
    let (now, f) = current_contents_filter_now();
    let f = f.unwrap();
    assert_eq!(f, current_contents_filter(now));
    assert!(f.starts_with("start_at >= "));
    assert!(f.contains(" AND start_at < "));
}

fn rfc2822(ms: i64) -> String {
    chrono::DateTime::from_timestamp_millis(ms).unwrap().with_timezone(&chrono::Local).to_rfc2822()
}

#[test]
fn schedules_are_listed_with_local_times() {
    let p = program(7, 100, None);
    let d = schedule_details(&p);
    assert_eq!(d.name, "News");
    assert_eq!(d.duration, Some(1_800_000));
    assert_eq!(d.start_at_human, rfc2822(1_704_103_200_000));
    assert_eq!(d.end_at_human, Some(rfc2822(1_704_105_000_000)));
    let mut open_ended = program(8, 101, None);
    open_ended.duration = None;
    let q = SchedQueue::new(
        "s.json".to_string(),
        Some(vec![
            Schedule { program: p, plan_id: None, is_active: true },
            Schedule { program: open_ended, plan_id: None, is_active: false },
        ]),
    );
    let listed = list_schedules(&q);
    assert_eq!(listed.len(), 2);
    assert_eq!(listed[0].id, 7);
    assert_eq!(listed[1].id, 8);
    assert_eq!(listed[1].details.end_at_human, None);
    assert_eq!(listed[1].details.duration, None);
}
