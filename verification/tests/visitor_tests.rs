use oisko::visitor::{
    client_identity, identity_hash, is_same_local_day, local_day_of, record_visit, VisitError,
    VisitResponse, Visitor, VisitorLog, DEFAULT_UTC_OFFSET_SECONDS, IDENTITY_SALT,
};

const NOON: i64 = 1_700_000_000 - (1_700_000_000 % 86_400) + 12 * 3600;

#[test]
fn identity_prefers_the_first_forwarded_entry() {
    assert_eq!(
        client_identity(Some("203.0.113.7, 70.41.3.18, 150.172.238.178"), "10.0.0.1"),
        "203.0.113.7"
    );
    assert_eq!(client_identity(Some("  203.0.113.7  "), "10.0.0.1"), "203.0.113.7");
    assert_eq!(client_identity(Some("\t203.0.113.7 ,x"), "10.0.0.1"), "203.0.113.7");
}

#[test]
fn identity_falls_back_to_the_peer() {
    assert_eq!(client_identity(None, "10.0.0.1"), "10.0.0.1");
}

#[test]
fn identity_of_an_empty_header_is_empty() {
    assert_eq!(client_identity(Some(""), "10.0.0.1"), "");
    assert_eq!(client_identity(Some(" , 1.2.3.4"), "10.0.0.1"), "");
}

#[test]
fn identity_hash_is_salted_sha256_in_hex() {
    assert_eq!(IDENTITY_SALT, "OISKO_SALT_v1");
    assert_eq!(
        identity_hash("203.0.113.7"),
        "ae071397f2098fdaeeb401c24e696aaa1af7d77e6131d53689c91f6add8ba251"
    );
    assert_eq!(
        identity_hash("0.0.0.0"),
        "90036e18b16477732102392933f183c66d3784d35ad04aef0d2747ad5406d24a"
    );
    assert_eq!(
        identity_hash(""),
        "29fdee2ae54153700a1ec3a366be7b60dd7845fd44e310df184962655e633c1e"
    );
}

#[test]
fn local_day_counts_from_the_shifted_epoch() {
    assert_eq!(local_day_of(0, 0), 0);
    assert_eq!(local_day_of(86_399, 0), 0);
    assert_eq!(local_day_of(86_400, 0), 1);
    assert_eq!(local_day_of(-1, 0), -1);
    assert_eq!(local_day_of(-86_400, 0), -1);
    assert_eq!(local_day_of(-86_401, 0), -2);
    assert_eq!(local_day_of(79_200, 7200), 1);
    assert_eq!(local_day_of(79_199, 7200), 0);
    assert_eq!(local_day_of(0, -1), -1);
    assert_eq!(local_day_of(i64::MAX, i32::MAX), 106_751_991_192_155);
    assert_eq!(local_day_of(i64::MIN, i32::MIN), -106_751_991_192_156);
}

#[test]
fn same_local_day_follows_the_offset() {
    assert_eq!(DEFAULT_UTC_OFFSET_SECONDS, 7200);
    // 21:59:59 and 22:00:00 UTC lie on two days of a clock two hours ahead.
    assert!(!is_same_local_day(79_199, 79_200, 7200));
    assert!(is_same_local_day(79_199, 79_200, 0));
    assert!(is_same_local_day(79_200, 86_400 + 79_199, 7200));
    assert!(!is_same_local_day(0, 86_400, 0));
    assert!(is_same_local_day(-1, -86_400, 0));
}

#[test]
fn first_visit_then_second() {
    let mut log = VisitorLog::new();
    let first = record_visit(&mut log, Some("203.0.113.7"), "10.0.0.1", NOON, 7200).unwrap();
    assert_eq!(
        first,
        VisitResponse {
            is_first_visit: true,
            is_first_of_day: true,
            total_unique_visitors: 1,
            today_visitors: 1,
        }
    );
    let second = record_visit(&mut log, Some("203.0.113.7"), "10.0.0.1", NOON + 5, 7200).unwrap();
    assert_eq!(
        second,
        VisitResponse {
            is_first_visit: false,
            is_first_of_day: false,
            total_unique_visitors: 1,
            today_visitors: 1,
        }
    );
    let key = identity_hash("203.0.113.7");
    assert_eq!(
        log.get(&key),
        Some(&Visitor {
            ip_hash: key.clone(),
            visit_count: 2,
            first_seen_at: NOON,
            last_seen_at: NOON + 5,
        })
    );
}

#[test]
fn first_of_day_is_told_once_whoever_comes() {
    let mut log = VisitorLog::new();
    let a = record_visit(&mut log, Some("1.1.1.1"), "p", NOON, 7200).unwrap();
    let b = record_visit(&mut log, Some("2.2.2.2"), "p", NOON + 60, 7200).unwrap();
    let c = record_visit(&mut log, None, "3.3.3.3", NOON + 120, 7200).unwrap();
    assert!(a.is_first_of_day);
    assert!(!b.is_first_of_day);
    assert!(!c.is_first_of_day);
    assert!(b.is_first_visit && c.is_first_visit);
    assert_eq!(c.total_unique_visitors, 3);
    assert_eq!(c.today_visitors, 3);
}

#[test]
fn next_day_starts_anew() {
    let mut log = VisitorLog::new();
    record_visit(&mut log, Some("1.1.1.1"), "p", NOON, 7200).unwrap();
    record_visit(&mut log, Some("2.2.2.2"), "p", NOON + 60, 7200).unwrap();
    let next = record_visit(&mut log, Some("1.1.1.1"), "p", NOON + 86_400, 7200).unwrap();
    assert_eq!(
        next,
        VisitResponse {
            is_first_visit: false,
            is_first_of_day: true,
            total_unique_visitors: 2,
            today_visitors: 1,
        }
    );
    assert!(log.anyone_seen_on(NOON + 86_400, 7200));
    assert!(!log.anyone_seen_on(NOON + 2 * 86_400, 7200));
    assert_eq!(log.seen_on(NOON, 7200), 1);
    assert_eq!(log.total(), 2);
}

#[test]
fn day_boundary_lies_at_local_midnight() {
    let mut log = VisitorLog::new();
    // 21:30 UTC is 23:30 local, 22:30 UTC is 00:30 local on the next day.
    let evening = NOON + 9 * 3600 + 1800;
    let a = record_visit(&mut log, Some("1.1.1.1"), "p", evening, 7200).unwrap();
    let b = record_visit(&mut log, Some("2.2.2.2"), "p", evening + 3600, 7200).unwrap();
    assert!(a.is_first_of_day);
    assert!(b.is_first_of_day);
    assert_eq!(b.today_visitors, 1);
    let c = record_visit(&mut log, Some("3.3.3.3"), "p", evening + 3600, 0).unwrap();
    assert!(!c.is_first_of_day);
    assert_eq!(c.today_visitors, 3);
}

#[test]
fn upsert_counts_and_keeps_first_seen() {
    let mut log = VisitorLog::new();
    assert_eq!(log.upsert("k".to_string(), 10), Ok(1));
    assert_eq!(log.upsert("k".to_string(), 20), Ok(2));
    assert_eq!(log.upsert("j".to_string(), 30), Ok(1));
    assert_eq!(log.upsert("k".to_string(), 40), Ok(3));
    let k = log.get(&"k".to_string()).unwrap();
    assert_eq!((k.visit_count, k.first_seen_at, k.last_seen_at), (3, 10, 40));
    assert_eq!(log.get(&"missing".to_string()), None);
    assert_eq!(log.total(), 2);
}

#[test]
fn assemble_degrades_to_zero() {
    assert_eq!(
        VisitResponse::assemble(1, Some(false), Some(5), Some(2)),
        VisitResponse {
            is_first_visit: true,
            is_first_of_day: true,
            total_unique_visitors: 5,
            today_visitors: 2,
        }
    );
    assert_eq!(
        VisitResponse::assemble(3, Some(true), None, None),
        VisitResponse {
            is_first_visit: false,
            is_first_of_day: false,
            total_unique_visitors: 0,
            today_visitors: 0,
        }
    );
    assert_eq!(
        VisitResponse::assemble(2, None, Some(9), None),
        VisitResponse {
            is_first_visit: false,
            is_first_of_day: true,
            total_unique_visitors: 9,
            today_visitors: 0,
        }
    );
}

fn record(key: &str, count: i32, first: i64, last: i64) -> Visitor {
    Visitor { ip_hash: key.to_string(), visit_count: count, first_seen_at: first, last_seen_at: last }
}

#[test]
fn records_are_loaded_back() {
    let log = VisitorLog::from_records(vec![record("a", 3, 10, 20), record("b", 1, 30, 30)]).unwrap();
    assert_eq!(log.total(), 2);
    assert_eq!(log.get(&"a".to_string()), Some(&record("a", 3, 10, 20)));
    assert_eq!(log.get(&"b".to_string()), Some(&record("b", 1, 30, 30)));
    assert!(VisitorLog::from_records(vec![]).is_some());
}

#[test]
fn records_that_cannot_be_are_not_loaded() {
    assert!(VisitorLog::from_records(vec![record("a", 1, 0, 0), record("a", 2, 0, 0)]).is_none());
    assert!(VisitorLog::from_records(vec![record("a", 0, 0, 0)]).is_none());
    assert!(VisitorLog::from_records(vec![record("a", 1, 0, 0), record("b", -4, 0, 0)]).is_none());
}

#[test]
fn exhausted_counter_refuses_the_visit() {
    let key = identity_hash("9.9.9.9");
    let yesterday = NOON - 86_400;
    let mut log =
        VisitorLog::from_records(vec![record(&key, i32::MAX, 0, yesterday)]).unwrap();
    assert_eq!(log.upsert(key.clone(), NOON), Err(VisitError::CounterExhausted));
    assert_eq!(
        record_visit(&mut log, None, "9.9.9.9", NOON, 7200),
        Err(VisitError::CounterExhausted)
    );
    assert_eq!(log.get(&key), Some(&record(&key, i32::MAX, 0, yesterday)));
    // The refused visit left no trace, so the next caller is the first of the day.
    let next = record_visit(&mut log, None, "8.8.8.8", NOON + 1, 7200).unwrap();
    assert!(next.is_first_of_day);
    assert_eq!(next.total_unique_visitors, 2);
    assert_eq!(next.today_visitors, 1);
}

#[test]
fn last_count_before_exhaustion_is_written() {
    let mut log = VisitorLog::from_records(vec![record("k", i32::MAX - 1, 0, 0)]).unwrap();
    assert_eq!(log.upsert("k".to_string(), 5), Ok(i32::MAX));
    assert_eq!(log.upsert("k".to_string(), 6), Err(VisitError::CounterExhausted));
    assert_eq!(log.get(&"k".to_string()), Some(&record("k", i32::MAX, 0, 5)));
}
