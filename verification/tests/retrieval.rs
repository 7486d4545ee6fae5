use kv_explorer::retrieve::get_all_pairs_from;
use kv_explorer::retrieve::wrap_error;
use kv_explorer::retrieve::scan_all_from;
use kv_explorer::retrieve::MemStore;
use kv_explorer::retrieve::RetrievalError;
use kv_explorer::scan::Phase;
use kv_explorer::scan::RawPair;
use kv_explorer::scan::ScanError;
use kv_explorer::scan::ScanEvent;
use kv_explorer::scan::Scanner;
use kv_explorer::value::SemanticValue;

fn pair(key: &[u8], value: &[u8]) -> RawPair {
    RawPair { key: key.to_vec(), value: value.to_vec() }
}

fn five_pairs() -> Vec<RawPair> {
    vec![
        pair(b"a", b"1"),
        pair(b"b", b"hello world"),
        pair(b"c", b"{\"a\":1}"),
        pair(b"d", b"2"),
        pair(b"e", b"3"),
    ]
}

#[test]
fn pagination_returns_all_pairs_in_order() {
    // Five keys with a batch limit of two: three batches are needed; a
    // single bounded call would silently truncate.
    let store = MemStore { pairs: five_pairs(), fail_at: None };
    let result = scan_all_from(&store, 2).unwrap();
    assert_eq!(result.len(), 5);
    let keys: Vec<&[u8]> = result.iter().map(|p| p.key.as_slice()).collect();
    assert_eq!(keys, vec![&b"a"[..], &b"b"[..], &b"c"[..], &b"d"[..], &b"e"[..]]);
    assert_eq!(result[1].value, b"hello world".to_vec());
}

#[test]
fn batch_limit_of_one_still_scans_everything() {
    let store = MemStore { pairs: five_pairs(), fail_at: None };
    let result = scan_all_from(&store, 1).unwrap();
    assert_eq!(result.len(), 5);
}

#[test]
fn large_batch_limit_needs_one_batch() {
    let store = MemStore { pairs: five_pairs(), fail_at: None };
    let result = scan_all_from(&store, 100).unwrap();
    assert_eq!(result.len(), 5);
}

#[test]
fn empty_keyspace_scans_to_empty() {
    let store = MemStore { pairs: Vec::new(), fail_at: None };
    let result = scan_all_from(&store, 2).unwrap();
    assert!(result.is_empty());
}

#[test]
fn mid_scan_failure_returns_error_and_no_data() {
    // The second batch fails after one successful batch: the whole scan
    // fails; no partial pair list is ever returned.
    let store = MemStore { pairs: five_pairs(), fail_at: Some(1) };
    let result = scan_all_from(&store, 2);
    assert_eq!(result.unwrap_err(), ScanError::ScanFailed { rollback_failed: false });
}

#[test]
fn failure_on_final_short_batch_still_fails() {
    // Four pairs with limit two take a third, empty batch to detect the
    // end; failing that batch fails the scan.
    let mut pairs = five_pairs();
    pairs.pop();
    let store = MemStore { pairs, fail_at: Some(2) };
    let result = scan_all_from(&store, 2);
    assert_eq!(result.unwrap_err(), ScanError::ScanFailed { rollback_failed: false });
}

#[test]
fn failure_past_the_last_batch_never_strikes() {
    // Five pairs with limit two are exhausted after the third batch; a
    // failure injected at index three is never requested.
    let store = MemStore { pairs: five_pairs(), fail_at: Some(3) };
    let result = scan_all_from(&store, 2).unwrap();
    assert_eq!(result.len(), 5);
}

#[test]
fn facade_classifies_keys_and_values_independently() {
    let store = MemStore { pairs: five_pairs(), fail_at: None };
    let result = get_all_pairs_from(&store, 2).unwrap();
    assert_eq!(result.len(), 5);
    // Key "a" is plain text while its value "1" is JSON.
    assert!(matches!(result[0].key, SemanticValue::PlainText(_)));
    assert!(matches!(result[0].value, SemanticValue::StructuredJson(_)));
    assert_eq!(result[0].key.pretty(), "\"a\"");
    assert_eq!(result[0].value.pretty(), "1");
    assert!(matches!(result[1].value, SemanticValue::PlainText(_)));
    assert!(matches!(result[2].value, SemanticValue::StructuredJson(_)));
}

#[test]
fn facade_wraps_scan_failures() {
    let store = MemStore { pairs: five_pairs(), fail_at: Some(0) };
    let result = get_all_pairs_from(&store, 2);
    assert_eq!(result.unwrap_err(), RetrievalError::ScanFailed { rollback_failed: false });
}

#[test]
fn wrapping_keeps_the_kind_of_failure() {
    assert_eq!(
        wrap_error(ScanError::ConnectionFailed),
        RetrievalError::ConnectionFailed
    );
    assert_eq!(wrap_error(ScanError::CommitFailed), RetrievalError::CommitFailed);
    assert_eq!(
        wrap_error(ScanError::ScanFailed { rollback_failed: false }),
        RetrievalError::ScanFailed { rollback_failed: false }
    );
    assert_eq!(
        wrap_error(ScanError::ScanFailed { rollback_failed: true }),
        RetrievalError::ScanFailed { rollback_failed: true }
    );
}

#[test]
fn scanner_follows_the_protocol() {
    let mut scanner = Scanner::new(2);
    assert_eq!(scanner.phase, Phase::Opening);
    scanner.step(ScanEvent::OpenOk);
    assert_eq!(scanner.phase, Phase::Scanning);
    scanner.step(ScanEvent::BatchOk(vec![pair(b"a", b"1"), pair(b"b", b"2")]));
    assert_eq!(scanner.phase, Phase::Scanning);
    assert_eq!(scanner.resume_key(), Some(&b"b".to_vec()));
    scanner.step(ScanEvent::BatchOk(vec![pair(b"c", b"3")]));
    assert_eq!(scanner.phase, Phase::Committing);
    scanner.step(ScanEvent::CommitOk);
    assert_eq!(scanner.phase, Phase::Done);
    let pairs = scanner.into_result().unwrap();
    assert_eq!(pairs.len(), 3);
    assert_eq!(pairs[2].key, b"c".to_vec());
}

#[test]
fn scanner_rolls_back_on_batch_failure() {
    let mut scanner = Scanner::new(2);
    scanner.step(ScanEvent::OpenOk);
    scanner.step(ScanEvent::BatchOk(vec![pair(b"a", b"1"), pair(b"b", b"2")]));
    scanner.step(ScanEvent::BatchFailed);
    assert_eq!(scanner.phase, Phase::RollingBack);
    scanner.step(ScanEvent::RollbackOk);
    assert_eq!(scanner.phase, Phase::Failed);
    assert_eq!(scanner.into_result().unwrap_err(), ScanError::ScanFailed {
        rollback_failed: false,
    });
}

#[test]
fn failed_rollback_is_a_secondary_error() {
    let mut scanner = Scanner::new(2);
    scanner.step(ScanEvent::OpenOk);
    scanner.step(ScanEvent::BatchFailed);
    scanner.step(ScanEvent::RollbackFailed);
    assert_eq!(scanner.into_result().unwrap_err(), ScanError::ScanFailed {
        rollback_failed: true,
    });
}

#[test]
fn connection_failure_is_fatal() {
    let mut scanner = Scanner::new(2);
    scanner.step(ScanEvent::OpenFailed);
    assert_eq!(scanner.phase, Phase::Failed);
    assert_eq!(scanner.into_result().unwrap_err(), ScanError::ConnectionFailed);
}

#[test]
fn commit_failure_is_distinct() {
    let mut scanner = Scanner::new(2);
    scanner.step(ScanEvent::OpenOk);
    scanner.step(ScanEvent::BatchOk(vec![pair(b"a", b"1")]));
    assert_eq!(scanner.phase, Phase::Committing);
    scanner.step(ScanEvent::CommitFailed);
    assert_eq!(scanner.into_result().unwrap_err(), ScanError::CommitFailed);
}
