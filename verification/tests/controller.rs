use postal_import::clock::current_year_month;
use postal_import::clock::year_month_number;
use postal_import::record::LineError;
use postal_import::run::Action;
use postal_import::run::Event;
use postal_import::run::Phase;
use postal_import::run::initial_state;
use postal_import::run::plan_import;
use postal_import::run::progress_parts;
use postal_import::run::step;

fn text(v: &[char]) -> String {
    v.iter().collect()
}

fn sjis_line(fields: &[(usize, &str)]) -> Vec<u8> {
    let mut all: Vec<String> = vec![String::new(); 41];
    for (i, v) in fields {
        all[*i] = (*v).to_string();
    }
    let line = all.join(",");
    let (bytes, _, _) = encoding_rs::SHIFT_JIS.encode(&line);
    bytes.into_owned()
}

#[test]
fn normal_run_walks_the_phases_in_order() {
    let s0 = initial_state();
    assert_eq!(s0.phase, Phase::Init);
    let (s1, a1) = step(&s0, &Event::ConnReady);
    assert_eq!((s1.phase, a1), (Phase::Counting, Action::CountLines));
    let (s2, a2) = step(&s1, &Event::CountDone(2));
    assert_eq!((s2.phase, a2), (Phase::Loading, Action::Truncate));
    assert_eq!(s2.total_lines, 2);
    let (s3, a3) = step(&s2, &Event::TruncateDone);
    assert_eq!((s3.phase, a3), (Phase::Streaming, Action::ReadLine));
    let (s4, _) = step(&s3, &Event::LineHandled);
    let (s5, _) = step(&s4, &Event::LineHandled);
    assert_eq!(s5.processed, 2);
    let (s6, a6) = step(&s5, &Event::SourceExhausted);
    assert_eq!((s6.phase, a6), (Phase::Done, Action::ExitOk));
}

#[test]
fn truncate_failure_aborts_before_streaming() {
    let s0 = initial_state();
    let (s1, _) = step(&s0, &Event::ConnReady);
    let (s2, _) = step(&s1, &Event::CountDone(10));
    let (s3, a3) = step(&s2, &Event::TruncateFailed);
    assert_eq!(s3.phase, Phase::Aborted);
    assert_eq!(a3, Action::ExitFail);
    assert_eq!(s3.processed, 0);
    // Aborted is final: nothing streams afterwards.
    let (s4, a4) = step(&s3, &Event::LineHandled);
    assert_eq!(s4.phase, Phase::Aborted);
    assert_eq!(a4, Action::ExitFail);
}

#[test]
fn connection_failure_aborts() {
    let (s1, a1) = step(&initial_state(), &Event::ConnFailed);
    assert_eq!((s1.phase, a1), (Phase::Aborted, Action::ExitFail));
}

#[test]
fn progress_is_truncated_to_two_decimals() {
    assert_eq!(progress_parts(1, 3), (33, 33));
    assert_eq!(progress_parts(2, 2), (100, 0));
    assert_eq!(progress_parts(1, 8), (12, 50));
    assert_eq!(progress_parts(0, 5), (0, 0));
}

#[test]
fn year_month_number_forms_yyyymm() {
    assert_eq!(year_month_number(2024, 1), Some(202401));
    assert_eq!(year_month_number(1999, 12), Some(199912));
    assert_eq!(year_month_number(-1, 5), None);
}

#[test]
fn current_year_month_carries_a_calendar_month() {
    let ym = current_year_month().unwrap();
    assert!((1..=12).contains(&(ym % 100)));
    assert!(ym >= 100);
}

#[test]
fn plan_keeps_surviving_rows_in_source_order() {
    let lines = vec![
        sjis_line(&[(0, "13101"), (40, "000000")]),
        sjis_line(&[(0, "13102"), (40, "202312")]),
        sjis_line(&[(0, "13103"), (40, "202406")]),
    ];
    let rows = plan_import(&lines, 202401).unwrap();
    assert_eq!(rows.len(), 2);
    assert_eq!(text(&rows[0].code), "13101");
    assert_eq!(text(&rows[0].end_ym), "999999");
    assert_eq!(text(&rows[1].code), "13103");
}

#[test]
fn plan_stops_at_the_first_hard_failure() {
    let lines = vec![
        sjis_line(&[(0, "13101"), (40, "999999")]),
        (encoding_rs::SHIFT_JIS.encode("13102,too,short").0).into_owned(),
    ];
    assert_eq!(plan_import(&lines, 202401), Err(LineError::TooFewFields));
}

#[test]
fn rerunning_the_plan_gives_identical_rows() {
    let lines = vec![
        sjis_line(&[(0, "13101"), (2, "1600000"), (40, "999999")]),
        sjis_line(&[(0, "13102"), (40, "202001")]),
    ];
    let first = plan_import(&lines, 202401).unwrap();
    let second = plan_import(&lines, 202401).unwrap();
    assert_eq!(first, second);
}

#[test]
fn source_open_failure_aborts() {
    let s0 = initial_state();
    let (s1, _) = step(&s0, &Event::ConnReady);
    let (s2, _) = step(&s1, &Event::CountDone(3));
    let (s3, _) = step(&s2, &Event::TruncateDone);
    let (s4, a4) = step(&s3, &Event::SourceOpenFailed);
    assert_eq!((s4.phase, a4), (Phase::Aborted, Action::ExitFail));
}
