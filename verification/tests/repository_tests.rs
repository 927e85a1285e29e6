use yummy_indexing_delete::elastic_server_config::ElasticServerConfig;
use yummy_indexing_delete::es_repository::{
    get_elastic_guard_conn, ElasticConnGuard, ElasticConnPool, EsError, EsListResponse,
    EsRepository, EsRepositoryPub, ListBody, NodeError, status_is_success,
};

fn node_err(msg: &str) -> NodeError {
    NodeError { message: msg.to_string() }
}

fn repo() -> EsRepositoryPub {
    EsRepositoryPub::new(
        vec!["localhost:9200".to_string(), "localhost:9201".to_string()],
        "user",
        "pass",
    )
    .unwrap()
}

#[test]
fn construction_keeps_every_host_in_order() {
    let r = repo();
    let hosts: Vec<&str> = r.es_clients.iter().map(|c| c.host.as_str()).collect();
    assert_eq!(hosts, vec!["localhost:9200", "localhost:9201"]);
}

#[test]
fn construction_rejects_a_bad_address() {
    let r = EsRepositoryPub::new(vec!["not a url at all".to_string()], "u", "p");
    assert!(matches!(r, Err(EsError::TransportBuild(_))));
}

#[test]
fn status_codes_split_at_the_2xx_range() {
    assert!(status_is_success(200));
    assert!(status_is_success(299));
    assert!(!status_is_success(199));
    assert!(!status_is_success(300));
    assert!(!status_is_success(404));
}

#[test]
fn failover_first_success_wins() {
    let r = repo();
    let out = r.execute_on_any_node(vec![
        Err(node_err("a down")),
        Ok(7u16),
        Ok(9u16),
    ]);
    assert_eq!(out, Ok(7));
}

#[test]
fn failover_succeeds_whatever_the_position() {
    let r = repo();
    assert_eq!(r.execute_on_any_node(vec![Ok(1u16), Err(node_err("x"))]), Ok(1));
    assert_eq!(r.execute_on_any_node(vec![Err(node_err("x")), Ok(2u16)]), Ok(2));
}

#[test]
fn failover_reports_the_last_error_when_all_fail() {
    let r = repo();
    let out: Result<u16, EsError> =
        r.execute_on_any_node(vec![Err(node_err("first")), Err(node_err("last"))]);
    assert_eq!(out, Err(EsError::AllNodesFailed(Some(node_err("last")))));
}

#[test]
fn failover_with_no_outcomes_fails_empty_handed() {
    let r = repo();
    let out: Result<u16, EsError> = r.execute_on_any_node(vec![]);
    assert_eq!(out, Err(EsError::AllNodesFailed(None)));
}

#[test]
fn failover_order_is_a_permutation() {
    let r = repo();
    for _ in 0..20 {
        let mut order = r.failover_order();
        order.sort();
        assert_eq!(order, vec![0, 1]);
    }
}

#[test]
fn delete_index_checks_the_status_code() {
    let r = repo();
    assert_eq!(r.delete_index("logs-x", vec![Ok(200)]), Ok(()));
    assert_eq!(
        r.delete_index("logs-x", vec![Ok(404)]),
        Err(EsError::StatusFailure(404))
    );
    assert_eq!(
        r.delete_index("logs-x", vec![Err(node_err("gone")), Ok(204)]),
        Ok(())
    );
}

#[test]
fn listing_returns_the_body_on_success() {
    let r = repo();
    let body = ListBody::Records(vec![]);
    let resp = EsListResponse { status_code: 200, body: body.clone() };
    assert_eq!(r.get_index_belong_pattern("logs-*", vec![Ok(resp)]), Ok(body));
}

#[test]
fn listing_rejects_bad_status_and_bad_body() {
    let r = repo();
    let resp = EsListResponse { status_code: 500, body: ListBody::NotArray };
    assert_eq!(
        r.get_index_belong_pattern("logs-*", vec![Ok(resp)]),
        Err(EsError::StatusFailure(500))
    );
    let resp = EsListResponse { status_code: 200, body: ListBody::Unparsed };
    assert_eq!(
        r.get_index_belong_pattern("logs-*", vec![Ok(resp)]),
        Err(EsError::BadResponseBody)
    );
}

fn pool(capacity: i32) -> ElasticConnPool {
    let config = ElasticServerConfig::new(
        vec!["localhost:9200".to_string()],
        Some("user".to_string()),
        Some("pass".to_string()),
        capacity,
    )
    .unwrap();
    ElasticConnPool::new(&config).unwrap()
}

#[test]
fn pool_hands_out_exactly_capacity_guards() {
    for p in 1..=10 {
        let mut pool = pool(p);
        assert_eq!(pool.capacity_count(), p as usize);
        let mut guards = Vec::new();
        for _ in 0..p {
            guards.push(ElasticConnGuard::new(&mut pool).unwrap());
        }
        // the (p+1)-th acquisition finds no token and must wait
        assert_eq!(
            ElasticConnGuard::new(&mut pool).unwrap_err(),
            EsError::PoolExhausted
        );
        // releasing any one guard frees exactly one admission
        pool.release(guards.pop().unwrap());
        assert_eq!(pool.available(), 1);
        let again = get_elastic_guard_conn(&mut pool).unwrap();
        assert_eq!(pool.available(), 0);
        pool.release(again);
    }
}

#[test]
fn every_guard_release_returns_one_token() {
    let mut pool = pool(3);
    let g1 = ElasticConnGuard::new(&mut pool).unwrap();
    let g2 = ElasticConnGuard::new(&mut pool).unwrap();
    assert_eq!(pool.available(), 1);
    pool.release(g1);
    assert_eq!(pool.available(), 2);
    pool.release(g2);
    assert_eq!(pool.available(), 3);
}

#[test]
fn guards_borrow_a_real_client() {
    let mut pool = pool(4);
    let g = ElasticConnGuard::new(&mut pool).unwrap();
    assert!(g.client_id() < pool.capacity_count());
    let client = pool.client(&g);
    assert_eq!(client.es_clients.len(), 1);
    assert_eq!(client.es_clients[0].host, "localhost:9200");
    pool.release(g);
}
