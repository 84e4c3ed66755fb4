use chrono::TimeZone;
use recorder::eit::{
    derive_from_last_line, derive_from_output, duration_millis, eit_answers, extract_eit,
    extract_from_answers, line_pieces, merge_detection, resolve_start, EitAnswers, EitDetected,
    EitFault, LineVerdict,
};
use recorder::json::{JsonScalar, PathAnswer};
use recorder::program::Program;
use recorder::states::{FoundInFollowing, FoundInPresent};

fn cs(s: &str) -> Vec<char> {
    s.chars().collect()
}

fn program() -> Program {
    Program {
        id: 327360102412345,
        event_id: 12345,
        service_id: 1024,
        network_id: 32736,
        start_at: 0,
        duration: Some(5_400_000),
        is_free: true,
        name: Some("News".to_string()),
        description: None,
        related_items: None,
    }
}

fn num(n: i64) -> JsonScalar {
    JsonScalar::Number(Some(n))
}

fn text(s: &str) -> JsonScalar {
    JsonScalar::Text(s.to_string())
}

fn answers(nid: i64, sid: i64, ty: &str, eids: Vec<JsonScalar>, starts: Vec<JsonScalar>, durs: Vec<JsonScalar>) -> EitAnswers {
    EitAnswers {
        network_ids: PathAnswer::Matches(vec![num(nid)]),
        service_ids: PathAnswer::Matches(vec![num(sid)]),
        table_types: PathAnswer::Matches(vec![text(ty)]),
        event_ids: PathAnswer::Matches(eids),
        start_times: PathAnswer::Matches(starts),
        durations: PathAnswer::Matches(durs),
    }
}

fn pf_answers() -> EitAnswers {
    answers(
        32736,
        1024,
        "pf",
        vec![num(12345), num(12346)],
        vec![text("2024-01-01 10:00:00"), text("2024-01-01 11:30:00")],
        vec![text("01:30:00"), text("00:30:00")],
    )
}

fn node(eid: &str, start: &str, duration: &str) -> String {
    format!("{{\"event_id\":{},\"start_time\":\"{}\",\"duration\":{}}}", eid, start, duration)
}

fn section(nid: i64, sid: i64, ty: &str, nodes: &[String]) -> String {
    format!(
        "{{\"original_network_id\":{},\"service_id\":{},\"type\":\"{}\",\"#nodes\":[{}]}}",
        nid,
        sid,
        ty,
        nodes.join(",")
    )
}

fn pf_section() -> String {
    section(
        32736,
        1024,
        "pf",
        &[
            node("12345", "2024-01-01 10:00:00", "\"01:30:00\""),
            node("12346", "2024-01-01 11:30:00", "\"00:30:00\""),
        ],
    )
}

fn other_section() -> String {
    section(32736, 2048, "pf", &[node("12345", "2024-01-01 10:00:00", "\"00:10:00\"")])
}

const START: i64 = 1_704_103_200_000;
const HOUR: i64 = 3_600_000;

#[test]
fn duration_fields_in_milliseconds() {
    assert_eq!(duration_millis(&cs("01:30:00")), Some(5_400_000));
    assert_eq!(duration_millis(&cs("45")), Some(45_000));
    assert_eq!(duration_millis(&cs("1:02:03")), Some(3_723_000));
    assert_eq!(duration_millis(&cs("x:10")), Some(10_000));
    assert_eq!(duration_millis(&cs("")), Some(0));
    assert_eq!(duration_millis(&cs("2:00:00:05")), Some(5_000));
    assert_eq!(duration_millis(&cs("9223372036854775")), Some(9_223_372_036_854_775_000));
    assert_eq!(duration_millis(&cs("9223372036854776")), None);
}

#[test]
fn following_before_the_start() {
    let r = extract_from_answers(&pf_answers(), &program(), START - 1, &vec![Some(START), Some(START + 90 * 60_000)]);
    assert_eq!(
        r,
        Ok(Some(EitDetected::F(FoundInFollowing { start_at: START, duration: Some(5_400_000) })))
    );
}

#[test]
fn present_until_thirty_seconds_after_the_end() {
    let resolved = vec![Some(START), Some(START + 90 * 60_000)];
    let p = Ok(Some(EitDetected::P(FoundInPresent { start_at: START, duration: Some(5_400_000) })));
    assert_eq!(extract_from_answers(&pf_answers(), &program(), START, &resolved), p);
    assert_eq!(extract_from_answers(&pf_answers(), &program(), START + 5_400_000 + 29_999, &resolved), p);
    let later = START + 5_400_000 + 30_000;
    assert_eq!(
        extract_from_answers(&pf_answers(), &program(), later, &resolved),
        Ok(Some(EitDetected::NotFound { since: later }))
    );
}

#[test]
fn a_hit_that_has_ended_does_not_use_up_a_duration() {
    let a = answers(
        32736,
        1024,
        "pf",
        vec![num(12345), num(12345)],
        vec![text("a"), text("b")],
        vec![text("00:00:10"), text("00:20:00")],
    );
    let r = extract_from_answers(&a, &program(), START + 70_000, &vec![Some(START), Some(START + 50_000)]);
    assert_eq!(r, Ok(Some(EitDetected::P(FoundInPresent { start_at: START + 50_000, duration: Some(10_000) }))));
}

#[test]
fn other_event_or_service() {
    let mut p = program();
    p.event_id = 999;
    let resolved = vec![Some(START), Some(START + HOUR)];
    assert_eq!(
        extract_from_answers(&pf_answers(), &p, START, &resolved),
        Ok(Some(EitDetected::NotFound { since: START }))
    );
    let mut q = program();
    q.service_id = 1025;
    assert_eq!(extract_from_answers(&pf_answers(), &q, START, &resolved), Ok(None));
    let sched = answers(32736, 1024, "schedule", vec![num(12345)], vec![text("x")], vec![text("1")]);
    assert_eq!(extract_from_answers(&sched, &program(), START, &resolved), Ok(None));
    let mut empty_header = pf_answers();
    empty_header.service_ids = PathAnswer::Matches(vec![]);
    assert_eq!(extract_from_answers(&empty_header, &program(), START, &resolved), Ok(None));
    let no_nodes = answers(32736, 1024, "pf", vec![], vec![], vec![]);
    assert_eq!(
        extract_from_answers(&no_nodes, &program(), START, &resolved),
        Ok(Some(EitDetected::NotFound { since: START }))
    );
}

#[test]
fn faults_of_a_section() {
    let resolved = vec![Some(START)];
    let mut refused = pf_answers();
    refused.durations = PathAnswer::Refused;
    refused.table_types = PathAnswer::Nothing;
    assert_eq!(extract_from_answers(&refused, &program(), START, &resolved), Err(EitFault::QueryRefused));
    let mut nothing = pf_answers();
    nothing.table_types = PathAnswer::Nothing;
    assert_eq!(extract_from_answers(&nothing, &program(), START, &resolved), Err(EitFault::MissingQueryResult));
    let float_id = answers(32736, 1024, "pf", vec![JsonScalar::Number(None)], vec![text("s")], vec![text("1")]);
    assert_eq!(extract_from_answers(&float_id, &program(), START, &resolved), Err(EitFault::EventIdNotInteger));
    let number_duration = answers(32736, 1024, "pf", vec![num(12345)], vec![text("s")], vec![num(5)]);
    assert_eq!(extract_from_answers(&number_duration, &program(), START, &resolved), Err(EitFault::DurationNotText));
    let huge = answers(32736, 1024, "pf", vec![num(12345)], vec![text("s")], vec![text("9223372036854776")]);
    assert_eq!(extract_from_answers(&huge, &program(), START, &resolved), Err(EitFault::DurationOutOfRange));
    assert_eq!(extract_from_answers(&pf_answers(), &program(), START, &vec![None]), Err(EitFault::StartNotResolved));
    assert_eq!(extract_from_answers(&pf_answers(), &program(), START, &vec![]), Err(EitFault::StartNotResolved));
    let near_end = answers(32736, 1024, "pf", vec![num(12345)], vec![text("s")], vec![text("10")]);
    let max = 8_210_266_876_799_999i64;
    assert_eq!(
        extract_from_answers(&near_end, &program(), max, &vec![Some(max - 10_000)]),
        Err(EitFault::InstantOutOfRange)
    );
}

#[test]
fn queries_run_on_the_json_text() {
    let a = eit_answers(&pf_section());
    assert!(matches!(&a.network_ids, PathAnswer::Matches(v) if v.len() == 1 && matches!(v[0], JsonScalar::Number(Some(32736)))));
    assert!(matches!(&a.table_types, PathAnswer::Matches(v) if matches!(&v[0], JsonScalar::Text(t) if t == "pf")));
    assert!(matches!(&a.event_ids, PathAnswer::Matches(v)
        if v.len() == 2 && matches!(v[0], JsonScalar::Number(Some(12345))) && matches!(v[1], JsonScalar::Number(Some(12346)))));
    assert!(matches!(&a.durations, PathAnswer::Matches(v) if matches!(&v[1], JsonScalar::Text(t) if t == "00:30:00")));
    let bad = eit_answers("not json");
    assert!(matches!(bad.network_ids, PathAnswer::Refused));
    assert!(matches!(bad.durations, PathAnswer::Refused));
    let float = eit_answers(&section(1, 2, "pf", &[node("1.5", "s", "3")]));
    assert!(matches!(&float.event_ids, PathAnswer::Matches(v) if matches!(v[0], JsonScalar::Number(None))));
    assert!(matches!(&float.durations, PathAnswer::Matches(v) if matches!(v[0], JsonScalar::Number(Some(3)))));
}

fn local_ms(text: &str) -> i64 {
    let naive = chrono::NaiveDateTime::parse_from_str(text, "%Y-%m-%d %H:%M:%S").unwrap();
    chrono::Local.from_local_datetime(&naive).single().unwrap().timestamp_millis()
}

#[test]
fn start_times_are_resolved_in_local_time() {
    let t = local_ms("2024-01-01 10:00:00");
    assert_eq!(resolve_start(&"2024-01-01 10:00:00".to_string()), Some(t));
    assert_eq!(resolve_start(&"2024-13-01 10:00:00".to_string()), None);
    assert_eq!(resolve_start(&"yesterday".to_string()), None);
    let r = extract_eit(&pf_section(), &program(), t - 1);
    assert_eq!(r, Ok(Some(EitDetected::F(FoundInFollowing { start_at: t, duration: Some(5_400_000) }))));
    let r = extract_eit(&pf_section(), &program(), t + 60_000);
    assert_eq!(r, Ok(Some(EitDetected::P(FoundInPresent { start_at: t, duration: Some(5_400_000) }))));
}

#[test]
fn sections_read_from_text() {
    let now = local_ms("2024-01-01 09:00:00");
    assert_eq!(extract_eit(&other_section(), &program(), now), Ok(None));
    assert_eq!(extract_eit("{", &program(), now), Err(EitFault::QueryRefused));
    let no_type = "{\"original_network_id\":32736,\"service_id\":1024,\"#nodes\":[]}";
    assert_eq!(extract_eit(no_type, &program(), now), Err(EitFault::MissingQueryResult));
    let empty_nodes = section(32736, 1024, "pf", &[]);
    assert_eq!(extract_eit(&empty_nodes, &program(), now), Err(EitFault::MissingQueryResult));
    let other_event = section(32736, 1024, "pf", &[node("7", "2024-01-01 08:00:00", "\"00:10:00\"")]);
    assert_eq!(extract_eit(&other_event, &program(), now), Ok(Some(EitDetected::NotFound { since: now })));
    let bad_start = section(32736, 1024, "pf", &[node("12345", "soon", "\"00:10:00\"")]);
    assert_eq!(extract_eit(&bad_start, &program(), now), Err(EitFault::StartNotResolved));
}

#[test]
fn output_lines_split_into_pieces() {
    assert_eq!(line_pieces("a\nb \n"), vec!["a".to_string(), "b".to_string()]);
    assert_eq!(line_pieces("{}"), vec!["{}".to_string()]);
    assert_eq!(line_pieces("   "), vec!["".to_string()]);
}

#[test]
fn merging_keeps_the_first_not_found_time() {
    let nf = |since| EitDetected::NotFound { since };
    assert_eq!(merge_detection(nf(1), nf(5)), nf(1));
    let f = EitDetected::F(FoundInFollowing { start_at: 9, duration: None });
    assert_eq!(merge_detection(nf(1), f), f);
    let p = EitDetected::P(FoundInPresent { start_at: 2, duration: Some(3) });
    assert_eq!(merge_detection(p, nf(5)), nf(5));
    let mut last = nf(1);
    for since in [2, 3, 4] {
        last = merge_detection(last, nf(since));
    }
    assert_eq!(last, nf(1));
}

#[test]
fn a_line_is_decided_by_its_first_telling_piece() {
    let t = local_ms("2024-01-01 10:00:00");
    let pieces = vec![other_section(), pf_section()];
    let last = EitDetected::NotFound { since: 7 };
    assert_eq!(
        derive_from_last_line(last, &pieces, &program(), t - 1),
        Ok(LineVerdict::Send(EitDetected::F(FoundInFollowing { start_at: t, duration: Some(5_400_000) })))
    );
    let unparsable = vec!["oops".to_string(), pf_section()];
    assert_eq!(derive_from_last_line(last, &unparsable, &program(), t - 1), Ok(LineVerdict::Unparsable(0)));
    let silent = vec![other_section()];
    assert_eq!(derive_from_last_line(last, &silent, &program(), t), Ok(LineVerdict::Skip));
    let mut p = program();
    p.event_id = 1;
    assert_eq!(
        derive_from_last_line(last, &vec![pf_section()], &p, t),
        Ok(LineVerdict::Send(EitDetected::NotFound { since: 7 }))
    );
    let broken = vec!["{}".to_string()];
    assert_eq!(derive_from_last_line(last, &broken, &program(), t), Err(EitFault::MissingQueryResult));
    let pieces = line_pieces(&format!("{}\n{}\n", other_section(), pf_section()));
    assert_eq!(
        derive_from_last_line(last, &pieces, &program(), t - 1),
        Ok(LineVerdict::Send(EitDetected::F(FoundInFollowing { start_at: t, duration: Some(5_400_000) })))
    );
}

#[test]
fn the_lenient_reading_passes_over_bad_pieces_and_repeats_not_found() {
    let t = local_ms("2024-01-01 10:00:00");
    let pieces = vec!["oops".to_string(), pf_section()];
    let last = EitDetected::NotFound { since: 7 };
    assert_eq!(
        derive_from_output(last, &pieces, &program(), t - 1),
        Ok(LineVerdict::Send(EitDetected::F(FoundInFollowing { start_at: t, duration: Some(5_400_000) })))
    );
    let silent = vec!["oops".to_string(), other_section()];
    assert_eq!(derive_from_output(last, &silent, &program(), t), Ok(LineVerdict::Send(last)));
    let p = EitDetected::P(FoundInPresent { start_at: t, duration: Some(1) });
    assert_eq!(derive_from_output(p, &silent, &program(), t), Ok(LineVerdict::Skip));
}
