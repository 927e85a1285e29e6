use yummy_indexing_delete::es_repository::{EsError, IndexRecord, ListBody, NodeError};
use yummy_indexing_delete::index_clear_service::{
    IndexClearService, IndexClearServicePub, IndexDateError,
};
use yummy_indexing_delete::target_index::TargetIndex;
use yummy_indexing_delete::time_utils::Date;

fn d(year: i32, month: u8, day: u8) -> Date {
    Date::new(year, month as u32, day as u32).unwrap()
}

fn rec(name: &str) -> IndexRecord {
    IndexRecord { index: Some(name.to_string()) }
}

#[test]
fn extracts_dashed_date() {
    let svc = IndexClearServicePub::new();
    assert_eq!(svc.parsed_data_index("logs-2024-03-01"), Ok(d(2024, 3, 1)));
}

#[test]
fn extracts_compact_date_with_suffix() {
    let svc = IndexClearServicePub::new();
    assert_eq!(svc.parsed_data_index("logs_20240301_v2"), Ok(d(2024, 3, 1)));
}

#[test]
fn name_without_date_is_reported() {
    let svc = IndexClearServicePub::new();
    assert_eq!(
        svc.parsed_data_index("logs-no-date"),
        Err(IndexDateError::NoDateToken)
    );
}

#[test]
fn underscore_separators_normalize() {
    let svc = IndexClearServicePub::new();
    assert_eq!(svc.parsed_data_index("audit_2023_12_31"), Ok(d(2023, 12, 31)));
    assert_eq!(svc.parsed_data_index("audit_2023-12_31"), Ok(d(2023, 12, 31)));
}

#[test]
fn mixed_separator_shapes_fail_to_parse() {
    let svc = IndexClearServicePub::new();
    // one separator present, the other absent: neither accepted form fits
    assert_eq!(
        svc.parsed_data_index("logs-2024-0301"),
        Err(IndexDateError::InvalidDate)
    );
    assert_eq!(
        svc.parsed_data_index("logs-202403-01x"),
        Err(IndexDateError::InvalidDate)
    );
}

#[test]
fn impossible_calendar_dates_fail() {
    let svc = IndexClearServicePub::new();
    assert_eq!(
        svc.parsed_data_index("logs-2023-02-29"),
        Err(IndexDateError::InvalidDate)
    );
    assert_eq!(
        svc.parsed_data_index("logs-2024-13-01"),
        Err(IndexDateError::InvalidDate)
    );
    assert_eq!(
        svc.parsed_data_index("logs-2024-03-00"),
        Err(IndexDateError::InvalidDate)
    );
}

#[test]
fn leftmost_token_wins() {
    let svc = IndexClearServicePub::new();
    // the run of ones comes first and is itself a valid compact date
    assert_eq!(svc.parsed_data_index("a1111111120240301"), Ok(d(1111, 11, 11)));
}

#[test]
fn leap_day_extracts() {
    let svc = IndexClearServicePub::new();
    assert_eq!(svc.parsed_data_index("snap-2024-02-29"), Ok(d(2024, 2, 29)));
}

fn rule(pattern: &str, days: u32) -> TargetIndex {
    TargetIndex::new(pattern.to_string(), days)
}

#[test]
fn rule_pass_deletes_only_expired() {
    let svc = IndexClearServicePub::new();
    let today = d(2024, 6, 10);
    let records = vec![
        rec("logs-2024-05-11"), // exactly on the deadline: deleted
        rec("logs-2024-05-12"), // within retention: kept
        rec("logs-unparseable"), // no date: skipped
        rec("logs-2024-01-01"), // long expired: deleted
    ];
    let report = svc
        .delete_index_from_rule(
            &rule("logs-*", 30),
            &today,
            Ok(ListBody::Records(records)),
            vec![Ok(()), Ok(())],
        )
        .unwrap();
    assert_eq!(report.attempted, vec!["logs-2024-05-11", "logs-2024-01-01"]);
    assert_eq!(report.deleted, vec!["logs-2024-05-11", "logs-2024-01-01"]);
    assert!(report.failed.is_empty());
}

#[test]
fn delete_failure_does_not_stop_later_deletions() {
    let svc = IndexClearServicePub::new();
    let today = d(2024, 6, 10);
    let records = vec![rec("logs-2024-01-01"), rec("logs-2024-02-02")];
    let report = svc
        .delete_index_from_rule(
            &rule("logs-*", 30),
            &today,
            Ok(ListBody::Records(records)),
            vec![Err(EsError::StatusFailure(500)), Ok(())],
        )
        .unwrap();
    assert_eq!(report.attempted, vec!["logs-2024-01-01", "logs-2024-02-02"]);
    assert_eq!(report.failed, vec!["logs-2024-01-01"]);
    assert_eq!(report.deleted, vec!["logs-2024-02-02"]);
}

#[test]
fn listing_failure_aborts_the_pattern() {
    let svc = IndexClearServicePub::new();
    let today = d(2024, 6, 10);
    let e = EsError::AllNodesFailed(Some(NodeError { message: "down".to_string() }));
    let r = svc.delete_index_from_rule(&rule("logs-*", 30), &today, Err(e), vec![]);
    assert_eq!(
        r,
        Err(EsError::AllNodesFailed(Some(NodeError { message: "down".to_string() })))
    );
}

#[test]
fn non_array_listing_is_a_quiet_no_op() {
    let svc = IndexClearServicePub::new();
    let today = d(2024, 6, 10);
    let report = svc
        .delete_index_from_rule(&rule("logs-*", 30), &today, Ok(ListBody::NotArray), vec![])
        .unwrap();
    assert!(report.attempted.is_empty());
    assert!(report.deleted.is_empty());
    assert!(report.failed.is_empty());
}

#[test]
fn unparsed_listing_body_is_an_error() {
    let svc = IndexClearServicePub::new();
    let today = d(2024, 6, 10);
    let r = svc.delete_index_from_rule(&rule("logs-*", 30), &today, Ok(ListBody::Unparsed), vec![]);
    assert_eq!(r, Err(EsError::BadResponseBody));
}

#[test]
fn record_without_name_aborts_after_earlier_deletions() {
    let svc = IndexClearServicePub::new();
    let today = d(2024, 6, 10);
    let records = vec![
        rec("logs-2024-01-01"),
        IndexRecord { index: None },
        rec("logs-2024-02-02"),
    ];
    // only the record before the nameless one is planned, and the pass errors
    let r = svc.delete_index_from_rule(
        &rule("logs-*", 30),
        &today,
        Ok(ListBody::Records(records)),
        vec![Ok(())],
    );
    assert_eq!(r, Err(EsError::MissingIndexField));
}

#[test]
fn second_run_over_survivors_is_a_no_op() {
    let svc = IndexClearServicePub::new();
    let today = d(2024, 6, 10);
    let records = vec![
        rec("logs-2024-05-01"),
        rec("logs-2024-06-01"),
        rec("logs-2024-04-15"),
        rec("logs-no-date"),
    ];
    let first = svc
        .delete_index_from_rule(
            &rule("logs-*", 30),
            &today,
            Ok(ListBody::Records(records.clone())),
            vec![Ok(()), Ok(())],
        )
        .unwrap();
    assert_eq!(first.deleted, vec!["logs-2024-05-01", "logs-2024-04-15"]);
    // no new indices: the next listing holds exactly the survivors
    let survivors: Vec<IndexRecord> = records
        .into_iter()
        .filter(|r| match &r.index {
            Some(n) => !first.deleted.contains(n),
            None => true,
        })
        .collect();
    let second = svc
        .delete_index_from_rule(
            &rule("logs-*", 30),
            &today,
            Ok(ListBody::Records(survivors)),
            vec![],
        )
        .unwrap();
    assert!(second.attempted.is_empty());
    assert!(second.deleted.is_empty());
    assert!(second.failed.is_empty());
}
