use ape_dts::error::Error;
use ape_dts::meta::{MetaManager, TbMeta};
use ape_dts::task_util::TaskUtil;

fn tb(schema: &str, tb: &str) -> TbMeta {
    TbMeta {
        schema: schema.to_string(),
        tb: tb.to_string(),
        cols: vec!["id".to_string(), "v".to_string()],
        key_cols: vec!["id".to_string()],
    }
}

#[test]
fn lookup_finds_the_cached_descriptor() {
    let m = MetaManager::from_entries(vec![tb("db1", "a"), tb("db1", "b"), tb("db2", "a")])
        .unwrap();
    let hit = m.get_tb_meta("db1", "b").unwrap();
    assert_eq!(hit.schema, "db1");
    assert_eq!(hit.tb, "b");
    assert_eq!(hit.cols, vec!["id".to_string(), "v".to_string()]);
}

#[test]
fn lookup_misses_an_undescribed_table() {
    let m = MetaManager::from_entries(vec![tb("db1", "a")]).unwrap();
    assert!(m.get_tb_meta("db1", "b").is_none());
    assert!(m.get_tb_meta("db2", "a").is_none());
}

#[test]
fn a_catalog_with_a_duplicate_table_fails_the_bootstrap() {
    let r = MetaManager::from_entries(vec![tb("db1", "a"), tb("db2", "x"), tb("db1", "a")]);
    match r {
        Err(Error::CatalogBootstrapError { .. }) => {},
        Err(other) => panic!("expected the bootstrap error, got {:?}", other),
        Ok(_) => panic!("a duplicate catalog must fail the bootstrap"),
    }
}

#[test]
fn sqlx_logging_is_enabled_only_at_verbose_levels() {
    assert!(TaskUtil::check_enable_sqlx_log("debug"));
    assert!(TaskUtil::check_enable_sqlx_log("trace"));
    assert!(!TaskUtil::check_enable_sqlx_log("info"));
    assert!(!TaskUtil::check_enable_sqlx_log("warn"));
    assert!(!TaskUtil::check_enable_sqlx_log(""));
}

#[test]
fn only_the_closed_buffer_error_is_non_fatal() {
    assert!(!Error::ClosedBufferError.is_fatal());
    assert!(Error::ConnectivityError { details: "unreachable".to_string() }.is_fatal());
    assert!(Error::DecodeError { details: "bad payload".to_string() }.is_fatal());
    assert!(Error::CatalogBootstrapError { details: "query failed".to_string() }.is_fatal());
}
