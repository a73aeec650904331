use tools_core::config::{
    AttemptPollTimingsDto, QuerySnmpGet, SnmpOidItem, TaskConfigDto, TaskSpec, UseCaseQuery,
    DEFAULT_HISTORY_DEPTH,
};
use tools_core::entity::{Protocol, TypeQuery};

fn dto(deep_history: Option<u8>) -> TaskConfigDto {
    TaskConfigDto {
        name: "T-1".to_string(),
        interval_seconds: 5,
        limit: 100,
        deep_history,
        attempt_config: AttemptPollTimingsDto { timeout_ms: 1000, retries: 2, retry_delay_ms: 200 },
        query: UseCaseQuery::SnmpGet(QuerySnmpGet {
            profile: None,
            host: "127.0.0.1".to_string(),
            port: 1161,
            community: "public".to_string(),
            oids: vec![SnmpOidItem {
                name: None,
                oid: "1.3.6.1.4.1.1618.3.7.2.11.2".to_string(),
                value: None,
            }],
        }),
    }
}

#[test]
fn task_config_dto_deserializes_and_converts_to_spec() {
    let spec = TaskSpec::try_from_dto(dto(None)).unwrap();

    assert_eq!(spec.name, "T-1");
    assert_eq!(spec.poll_config.interval_ms, 5000);
    assert_eq!(spec.poll_config.limit, 100);
    assert_eq!(spec.poll_config.attempt.retries, 2);
    assert_eq!(spec.deep_history, DEFAULT_HISTORY_DEPTH);

    let UseCaseQuery::SnmpGet(q) = &spec.query;
    assert_eq!(q.host, "127.0.0.1");
    assert_eq!(q.port, 1161);
    assert!(q.profile.is_none());
    assert_eq!(q.oids.len(), 1);
    assert!(q.oids[0].name.is_none());
}

#[test]
fn config_explicit_history_depth_and_attempt_timing() {
    let spec = TaskSpec::try_from_dto(dto(Some(9))).unwrap();
    assert_eq!(spec.deep_history, 9);
    assert_eq!(spec.poll_config.attempt.timeout_ms, 1000);
    assert_eq!(spec.poll_config.attempt.retry_delay_ms, 200);
    assert_eq!(DEFAULT_HISTORY_DEPTH, 3);
}

#[test]
fn config_query_target_and_kind() {
    let q = dto(None).query;
    assert_eq!(q.target(), "127.0.0.1:1161");
    assert_eq!(q.protocol(), Protocol::Snmp);
    assert_eq!(q.type_query(), TypeQuery::SnmpGet);
}

#[test]
fn config_target_port_digits() {
    for (port, expected) in [(0u16, "h:0"), (9, "h:9"), (10, "h:10"), (65535, "h:65535")] {
        let q = UseCaseQuery::SnmpGet(QuerySnmpGet {
            profile: None,
            host: "h".to_string(),
            port,
            community: String::new(),
            oids: vec![],
        });
        assert_eq!(q.target(), expected);
    }
}

#[test]
fn config_any_interval_is_accepted() {
    let mut d = dto(None);
    d.interval_seconds = u64::MAX;
    assert_eq!(TaskSpec::try_from_dto(d).unwrap().poll_config.interval_ms, u64::MAX as u128 * 1000);
}
