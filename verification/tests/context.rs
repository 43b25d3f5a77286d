use bytedb_query::error::QueryError;
use bytedb_query::executor::context::{QueryContext, ResourceLimits};

#[test]
fn cancel_flips_check() {
    let mut ctx = QueryContext::new();
    assert!(ctx.check(0).is_ok());
    ctx.cancel();
    assert!(matches!(ctx.check(0), Err(QueryError::Cancelled)));
    assert!(ctx.is_cancelled());
}

#[test]
fn deadline_fires() {
    let ctx = QueryContext::with_timeout(20, 1000);
    assert!(ctx.check(1019).is_ok());
    match ctx.check(1040) {
        Err(QueryError::QueryTimeout(ms)) => assert_eq!(ms, 20),
        other => panic!("expected QueryTimeout, got {:?}", other),
    }
}

#[test]
fn a_cancelled_query_past_its_deadline_is_cancelled() {
    let mut ctx = QueryContext::with_timeout(20, 1000);
    ctx.cancel();
    assert!(matches!(ctx.check(2000), Err(QueryError::Cancelled)));
}

#[test]
fn scan_rows_limit() {
    let mut ctx = QueryContext::builder().max_scan_rows(3).build(0);
    assert!(ctx.account_scan_row().is_ok());
    assert!(ctx.account_scan_row().is_ok());
    assert!(ctx.account_scan_row().is_ok());
    assert!(matches!(ctx.account_scan_row(), Err(QueryError::ResourceLimit(_))));
    assert_eq!(ctx.usage().scan_rows, 4);
}

#[test]
fn memory_limit() {
    let mut ctx = QueryContext::builder().max_memory_bytes(100).build(0);
    assert!(ctx.account_memory(40).is_ok());
    assert!(ctx.account_memory(40).is_ok());
    assert!(matches!(ctx.account_memory(40), Err(QueryError::ResourceLimit(_))));
}

#[test]
fn release_memory_lowers_usage() {
    let mut ctx = QueryContext::builder().max_memory_bytes(100).build(0);
    ctx.account_memory(80).unwrap();
    ctx.release_memory(50);
    assert_eq!(ctx.usage().memory_bytes, 30);
    assert!(ctx.account_memory(60).is_ok());
}

#[test]
fn temp_spill_limit() {
    let mut ctx = QueryContext::builder().max_temp_spill_bytes(50).build(0);
    assert!(ctx.account_temp_spill(30).is_ok());
    assert!(matches!(ctx.account_temp_spill(30), Err(QueryError::ResourceLimit(_))));
}

#[test]
fn check_every_periodic() {
    let mut ctx = QueryContext::new();
    let mut c = 0u64;
    for _ in 0..100 {
        ctx.check_every(&mut c, 16, 0).unwrap();
    }
    ctx.cancel();
    let mut hit = false;
    for _ in 0..100 {
        if ctx.check_every(&mut c, 16, 0).is_err() {
            hit = true;
            break;
        }
    }
    assert!(hit);
}

#[test]
fn limits_are_what_the_builder_was_given() {
    let limits = ResourceLimits::unlimited().with_scan_rows(5).with_memory(6).with_temp_spill(7);
    let ctx = QueryContext::builder().limits(limits).timeout(9).build(100);
    assert_eq!(ctx.limits().max_scan_rows, Some(5));
    assert_eq!(ctx.deadline(), Some(109));
    assert_eq!(ctx.timeout(), Some(9));
    assert_eq!(ctx.usage().scan_rows, 0);
}

#[test]
fn refusals_name_the_limit_and_the_count() {
    let mut ctx = QueryContext::with_limits(ResourceLimits::unlimited().with_memory(100).with_temp_spill(5).with_scan_rows(3));
    assert!(ctx.account_scan_rows(3).is_ok());
    assert_eq!(ctx.account_scan_row().err(), Some(QueryError::ResourceLimit("max_scan_rows exceeded: 4 > 3".to_string())));
    assert_eq!(ctx.account_memory(120).err(), Some(QueryError::ResourceLimit("max_memory_bytes exceeded: 120 > 100".to_string())));
    assert_eq!(ctx.account_temp_spill(6).err(), Some(QueryError::ResourceLimit("max_temp_spill_bytes exceeded: 6 > 5".to_string())));
}
