use tools_core::config::{QuerySnmpGet, UseCaseQuery};
use tools_core::ids::SpecRevision;
use tools_core::polling::{AttemptConfig, PollConfig};
use tools_core::spec::{char_is_white_space, str_is_blank, TaskConfig, TaskError, TaskSpec};

fn valid_query() -> UseCaseQuery {
    UseCaseQuery::SnmpGet(QuerySnmpGet {
        profile: None,
        host: "127.0.0.1".to_string(),
        port: 161,
        community: "public".to_string(),
        oids: vec![],
    })
}

fn valid_poll_config() -> PollConfig {
    PollConfig {
        interval_ms: 1000,
        limit: 0,
        attempt: AttemptConfig { timeout_ms: 1000, retries: 1, retry_delay_ms: 100 },
    }
}

#[test]
fn rejects_empty_name() {
    let err = TaskConfig::try_new("   ".to_string(), valid_query(), valid_poll_config(), 3).unwrap_err();
    assert!(matches!(err, TaskError::EmptyName));
}

#[test]
fn accepts_valid_spec() {
    let spec = TaskConfig::try_new("T-1".to_string(), valid_query(), valid_poll_config(), 3).unwrap();
    assert_eq!(spec.name(), "T-1");
    assert_eq!(spec.deep_history(), 3);
}

#[test]
fn spec_rejects_empty_and_unicode_blank_names() {
    assert!(TaskConfig::try_new(String::new(), 0u8, valid_poll_config(), 1).is_err());
    assert!(TaskConfig::try_new("\t\n\u{3000}\u{a0}".to_string(), 0u8, valid_poll_config(), 1).is_err());
    assert!(TaskConfig::try_new(" x ".to_string(), 0u8, valid_poll_config(), 1).is_ok());
}

#[test]
fn spec_white_space_matches_std() {
    for c in ['\t', '\n', ' ', '\u{85}', '\u{a0}', '\u{1680}', '\u{2000}', '\u{200a}', '\u{2028}', '\u{2029}', '\u{202f}', '\u{205f}', '\u{3000}', 'a', '0', '\u{200b}', '\u{feff}'] {
        assert_eq!(char_is_white_space(c), c.is_whitespace(), "char {:?}", c);
    }
    assert!(str_is_blank(""));
    assert!(str_is_blank(" \t "));
    assert!(!str_is_blank(" a "));
}

#[test]
fn spec_config_keeps_fields() {
    let cfg = TaskConfig::try_new("poller".to_string(), 42u32, valid_poll_config(), 7).unwrap();
    assert_eq!(*cfg.query(), 42);
    assert_eq!(cfg.poll_config(), valid_poll_config());
    assert_eq!(cfg.deep_history(), 7);
}

#[test]
fn spec_revisions_count_up() {
    let cfg = TaskConfig::try_new("a".to_string(), 1u32, valid_poll_config(), 2).unwrap();
    let first = TaskSpec::new(cfg);
    assert_eq!(first.revision(), SpecRevision(1));
    let cfg2 = TaskConfig::try_new("b".to_string(), 2u32, valid_poll_config(), 2).unwrap();
    let second = first.next(cfg2);
    assert_eq!(second.revision(), SpecRevision(2));
    assert_eq!(second.name(), "b");
    assert_eq!(*second.query(), 2);
    assert!(second.updated_at() >= first.updated_at());
}

#[test]
fn spec_first_revision_is_one() {
    assert_eq!(SpecRevision::new(1).next(), SpecRevision(2));
}
