use yummy_indexing_delete::elastic_server_config::{
    get_elastic_config, init_elastic_config, ConfigError, ElasticConfigCell, ElasticServerConfig,
};
use yummy_indexing_delete::es_repository::{EsError, IndexRecord, ListBody, NodeError};
use yummy_indexing_delete::index_clear_service::IndexClearServicePub;
use yummy_indexing_delete::main_controller::{MainController, RuleIo};
use yummy_indexing_delete::target_index::{TargetIndex, TargetIndexList};
use yummy_indexing_delete::time_utils::Date;

fn d(year: i32, month: u8, day: u8) -> Date {
    Date::new(year, month as u32, day as u32).unwrap()
}

fn rec(name: &str) -> IndexRecord {
    IndexRecord { index: Some(name.to_string()) }
}

#[test]
fn config_validates_the_pool_count() {
    for bad in [0, -3, 11, 100] {
        assert_eq!(
            ElasticServerConfig::new(vec![], None, None, bad).unwrap_err(),
            ConfigError::PoolCntOutOfRange
        );
    }
    let ok = ElasticServerConfig::new(
        vec!["h1".to_string(), "h2".to_string()],
        Some("id".to_string()),
        Some("pw".to_string()),
        10,
    )
    .unwrap();
    assert_eq!(ok.elastic_pool_cnt(), 10);
    assert_eq!(ok.elastic_host().len(), 2);
    assert_eq!(ok.elastic_id().as_deref(), Some("id"));
    assert_eq!(ok.elastic_pw().as_deref(), Some("pw"));
}

#[test]
fn config_cell_initializes_once_and_serves() {
    let mut cell = ElasticConfigCell::empty();
    let config = ElasticServerConfig::new(vec!["h".to_string()], None, None, 2).unwrap();
    init_elastic_config(&mut cell, config);
    let c = get_elastic_config(&cell);
    assert_eq!(c.elastic_pool_cnt(), 2);
    assert_eq!(c.elastic_host()[0], "h");
}

#[test]
fn target_index_accessors() {
    let t = TargetIndex::new("logs-*".to_string(), 30);
    assert_eq!(t.index_name(), "logs-*");
    assert_eq!(t.duration_days(), 30);
    let list = TargetIndexList::new(vec![t]);
    assert_eq!(list.index().len(), 1);
}

#[test]
fn one_failing_pattern_does_not_stop_the_others() {
    let controller = MainController::new(IndexClearServicePub::new());
    let rules = TargetIndexList::new(vec![
        TargetIndex::new("broken-*".to_string(), 30),
        TargetIndex::new("logs-*".to_string(), 30),
    ]);
    let today = d(2024, 6, 10);
    let io = vec![
        RuleIo {
            listing: Err(EsError::AllNodesFailed(Some(NodeError {
                message: "no node".to_string(),
            }))),
            delete_results: vec![],
        },
        RuleIo {
            listing: Ok(ListBody::Records(vec![rec("logs-2024-01-01"), rec("logs-2024-06-09")])),
            delete_results: vec![Ok(())],
        },
    ];
    let outcomes = controller.main_task(&rules, &today, io);
    assert_eq!(outcomes.len(), 2);
    // the first pattern's listing failure is its own outcome alone
    assert!(matches!(outcomes[0], Err(EsError::AllNodesFailed(_))));
    // the second pattern still ran to completion
    let report = outcomes[1].as_ref().unwrap();
    assert_eq!(report.attempted, vec!["logs-2024-01-01"]);
    assert_eq!(report.deleted, vec!["logs-2024-01-01"]);
    assert!(report.failed.is_empty());
}

#[test]
fn batch_covers_every_rule() {
    let controller = MainController::new(IndexClearServicePub::new());
    let rules = TargetIndexList::new(vec![
        TargetIndex::new("a-*".to_string(), 1),
        TargetIndex::new("b-*".to_string(), 2),
        TargetIndex::new("c-*".to_string(), 3),
    ]);
    let today = d(2024, 6, 10);
    let io = vec![
        RuleIo { listing: Ok(ListBody::NotArray), delete_results: vec![] },
        RuleIo { listing: Ok(ListBody::Unparsed), delete_results: vec![] },
        RuleIo { listing: Ok(ListBody::Records(vec![])), delete_results: vec![] },
    ];
    let outcomes = controller.main_task(&rules, &today, io);
    assert_eq!(outcomes.len(), 3);
    assert!(outcomes[0].is_ok());
    assert_eq!(outcomes[1], Err(EsError::BadResponseBody));
    let empty = outcomes[2].as_ref().unwrap();
    assert!(empty.attempted.is_empty());
}
