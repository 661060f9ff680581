use tezedge_node::monitor::BlockApplied;
use tezedge_node::service::{
    bootstrap_info, route, ts_to_rfc3339, Route, TimeStamp, MAX_RFC3339_TIMESTAMP,
    MIN_RFC3339_TIMESTAMP,
};

#[test]
fn rfc3339_of_epoch() {
    assert_eq!(ts_to_rfc3339(0), "1970-01-01T00:00:00Z");
}

#[test]
fn rfc3339_of_recent_time() {
    assert_eq!(ts_to_rfc3339(1_600_000_000), "2020-09-13T12:26:40Z");
}

#[test]
fn rfc3339_before_epoch() {
    assert_eq!(ts_to_rfc3339(-1), "1969-12-31T23:59:59Z");
}

#[test]
fn rfc3339_at_range_ends() {
    assert_eq!(ts_to_rfc3339(MAX_RFC3339_TIMESTAMP), "+262142-12-31T23:59:59Z");
    assert_eq!(ts_to_rfc3339(MIN_RFC3339_TIMESTAMP), "-262143-01-01T00:00:00Z");
}

#[test]
fn bootstrap_info_without_head() {
    let info = bootstrap_info(None);
    assert_eq!(info.block, "");
    assert!(matches!(info.timestamp, TimeStamp::Integral(0)));
}

#[test]
fn bootstrap_info_with_head() {
    let head = BlockApplied { hash: vec![0u8; 32], level: 7, timestamp: 1_600_000_000 };
    let info = bootstrap_info(Some(&head));
    assert_eq!(info.block, "BKiHLREqU3JkXfzEDYAkmmfX48gBDtYhMrpA98s7Aq4SzbUAB6M");
    match info.timestamp {
        TimeStamp::Rfc(s) => assert_eq!(s, "2020-09-13T12:26:40Z"),
        TimeStamp::Integral(_) => panic!("expected an RFC 3339 timestamp"),
    }
}

#[test]
fn route_bootstrapped() {
    assert!(matches!(route("GET", "/monitor/bootstrapped"), Route::Bootstrapped));
}

#[test]
fn route_commit_hash() {
    assert!(matches!(route("GET", "/monitor/commit_hash"), Route::CommitHash));
}

#[test]
fn route_other_method_not_found() {
    assert!(matches!(route("POST", "/monitor/bootstrapped"), Route::NotFound));
}

#[test]
fn route_other_path_not_found() {
    assert!(matches!(route("GET", "/monitor/bootstrapped/"), Route::NotFound));
    assert!(matches!(route("GET", "/"), Route::NotFound));
}
