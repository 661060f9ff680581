//! The monitoring endpoints of the RPC server: which endpoint a request reaches, and
//! what the "bootstrapped" endpoint answers.

use crate::hash_encoding::{block_hash_prefix, block_hash_to_b58, spec_b58check_encode};
use crate::monitor::BlockApplied;
use vstd::prelude::*;

verus! {

/// The earliest second (since the Unix epoch) that chrono can represent: January 1 of
/// the year 262144 BCE (astronomical year -262143).
pub const MIN_RFC3339_TIMESTAMP: i64 = -8_334_601_228_800;

/// The last second that chrono can represent: December 31 of the year 262142, 23:59:59.
pub const MAX_RFC3339_TIMESTAMP: i64 = 8_210_266_876_799;

/// The RFC 3339 text, in UTC, with whole seconds and the "Z" suffix, of the instant
/// `ts` seconds after the Unix epoch.
pub uninterp spec fn spec_rfc3339_secs(ts: i64) -> Seq<char>;

/// Calls `chrono::DateTime::from_timestamp(ts, 0)` and, on the date it returns,
/// `to_rfc3339_opts(SecondsFormat::Secs, true)`. Claims that a date exists exactly for
/// the seconds between chrono's least and greatest dates (`NaiveDate::MIN` and
/// `NaiveDate::MAX` in its source), and that the text is the named one.
#[verifier::external_body]
fn utc_rfc3339_secs(ts: i64) -> (r: Option<String>)
    ensures
        r is Some <==> MIN_RFC3339_TIMESTAMP <= ts <= MAX_RFC3339_TIMESTAMP,
        r matches Some(s) ==> s@ == spec_rfc3339_secs(ts),
{
    match chrono::DateTime::from_timestamp(ts, 0) {
        Some(dt) => Some(dt.to_rfc3339_opts(chrono::SecondsFormat::Secs, true)),
        None => None,
    }
}

/// The RFC 3339 text of a Unix timestamp, in UTC, to the second.
pub fn ts_to_rfc3339(ts: i64) -> (s: String)
    requires
        MIN_RFC3339_TIMESTAMP <= ts <= MAX_RFC3339_TIMESTAMP,
    ensures
        s@ == spec_rfc3339_secs(ts),
{
    match utc_rfc3339_secs(ts) {
        Some(s) => s,
        None => String::new(),
    }
}

/// A point in time as the RPC reports it: a Unix timestamp, or RFC 3339 text.
pub enum TimeStamp {
    Integral(i64),
    Rfc(String),
}

/// What the "bootstrapped" endpoint answers: the current head and its time.
pub struct BootstrapInfo {
    pub block: String,
    pub timestamp: TimeStamp,
}

/// The answer of the "bootstrapped" endpoint: the current head's hash as base58check
/// text and its time as RFC 3339 text; with no head, an empty hash and timestamp 0.
pub fn bootstrap_info(current_head: Option<&BlockApplied>) -> (info: BootstrapInfo)
    requires
        current_head matches Some(h) ==> MIN_RFC3339_TIMESTAMP <= h.timestamp
            <= MAX_RFC3339_TIMESTAMP,
    ensures
        current_head is None ==> info.block@ == Seq::<char>::empty() && info.timestamp
            == TimeStamp::Integral(0),
        current_head matches Some(h) ==> info.block@ == spec_b58check_encode(
            block_hash_prefix() + h.hash@,
        ) && (info.timestamp matches TimeStamp::Rfc(t) && t@ == spec_rfc3339_secs(h.timestamp)),
{
    match current_head {
        Some(head) => {
            let block = block_hash_to_b58(head.hash.as_slice());
            let timestamp = ts_to_rfc3339(head.timestamp);
            BootstrapInfo { block, timestamp: TimeStamp::Rfc(timestamp) }
        },
        None => BootstrapInfo { block: String::new(), timestamp: TimeStamp::Integral(0) },
    }
}

/// The endpoints of the monitoring RPC.
pub enum Route {
    /// `GET /monitor/bootstrapped`
    Bootstrapped,
    /// `GET /monitor/commit_hash`
    CommitHash,
    /// Anything else: answered with 404.
    NotFound,
}

/// The endpoint a request with this method and path reaches.
pub open spec fn spec_route(method: Seq<char>, path: Seq<char>) -> Route {
    if method == "GET"@ && path == "/monitor/bootstrapped"@ {
        Route::Bootstrapped
    } else if method == "GET"@ && path == "/monitor/commit_hash"@ {
        Route::CommitHash
    } else {
        Route::NotFound
    }
}

/// Routes a request by its method and path.
pub fn route(method: &str, path: &str) -> (r: Route)
    ensures
        r == spec_route(method@, path@),
        method@ != "GET"@ ==> r == Route::NotFound,
{
    let method = method.to_owned();
    let path = path.to_owned();
    let get = "GET".to_owned();
    if method == get && path == "/monitor/bootstrapped".to_owned() {
        Route::Bootstrapped
    } else if method == get && path == "/monitor/commit_hash".to_owned() {
        Route::CommitHash
    } else {
        Route::NotFound
    }
}

/// Only a GET request reaches an endpoint: any other method is answered with 404 on
/// every path. A GET request reaches the endpoint its path names, and nothing else.
pub proof fn lemma_route_rule(method: Seq<char>, path: Seq<char>)
    ensures
        method != "GET"@ ==> spec_route(method, path) == Route::NotFound,
        method == "GET"@ && path == "/monitor/bootstrapped"@ ==> spec_route(method, path)
            == Route::Bootstrapped,
        method == "GET"@ && path == "/monitor/commit_hash"@ ==> spec_route(method, path)
            == Route::CommitHash,
        path != "/monitor/bootstrapped"@ && path != "/monitor/commit_hash"@ ==> spec_route(
            method,
            path,
        ) == Route::NotFound,
{
    reveal_strlit("/monitor/bootstrapped");
    reveal_strlit("/monitor/commit_hash");
    assert("/monitor/bootstrapped"@.len() != "/monitor/commit_hash"@.len());
}

} // verus!
