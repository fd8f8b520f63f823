use cb_access::batch::BatchCollector;
use cb_access::config::{CouchbaseConnParams, MissingSetting};
use cb_access::counter::{counter_reply, get_next_counter_key, CounterRead};
use cb_access::document::{
    add_document, delete_data, get_document, replace_document, DocValue, StoredDoc, WriteRetry,
    WriteStep, DEFAULT_RETRIES,
};
use cb_access::entries::KeyedEntries;
use cb_access::errors::{DbError, FailureKind, StoreFailure};
use cb_access::keys::{get_next_key, uuid};
use cb_access::pool::BucketPool;

fn failure(kind: FailureKind, message: &str) -> StoreFailure {
    StoreFailure { kind, message: message.to_string() }
}

fn object(field: &str, n: i64) -> serde_json::Value {
    let mut m = serde_json::Map::new();
    m.insert(field.to_string(), serde_json::Value::from(n));
    serde_json::Value::Object(m)
}

fn keys(ks: &[&str]) -> Vec<String> {
    ks.iter().map(|k| k.to_string()).collect()
}

fn run_batch(
    ks: &[&str],
    outcomes: Vec<Result<StoredDoc<i64>, StoreFailure>>,
    with_cas: bool,
) -> BatchCollector<i64> {
    let mut c = BatchCollector::new(keys(ks), with_cas).unwrap();
    for o in outcomes {
        assert!(c.next_key().is_some());
        c.record(o);
    }
    assert!(c.next_key().is_none());
    c
}

#[test]
fn entries_insert_replace_remove() {
    let mut e: KeyedEntries<u32> = KeyedEntries::new();
    e.insert("a".to_string(), 1);
    e.insert("b".to_string(), 2);
    e.insert("a".to_string(), 3);
    assert_eq!(e.len(), 2);
    assert_eq!(e.get(&"a".to_string()), Some(&3));
    e.remove(&"a".to_string());
    assert_eq!(e.get(&"a".to_string()), None);
    assert!(e.contains_key(&"b".to_string()));
    assert_eq!(e.into_vec(), vec![("b".to_string(), 2)]);
}

#[test]
fn pool_keeps_first_handle_for_a_name() {
    let mut p: BucketPool<u32> = BucketPool::new();
    assert_eq!(p.cached(&"default".to_string()), None);
    assert!(p.install("default".to_string(), 10));
    assert!(!p.install("default".to_string(), 20));
    assert!(!p.install("default".to_string(), 30));
    assert_eq!(p.cached(&"default".to_string()), Some(&10));
    assert!(p.install("other".to_string(), 40));
    assert_eq!(p.cached(&"other".to_string()), Some(&40));
    assert_eq!(p.cached(&"default".to_string()), Some(&10));
}

#[test]
fn read_shapes_value_and_cas() {
    let plain = get_document(Ok(StoredDoc { value: 5i64, cas: 77 }), false);
    assert_eq!(plain, Ok(DocValue::Plain(5)));
    let with = get_document(Ok(StoredDoc { value: 5i64, cas: 77 }), true);
    assert_eq!(with, Ok(DocValue::WithCas { value: 5, cas: 77 }));
}

#[test]
fn read_of_missing_key_is_not_found() {
    let f = failure(FailureKind::NotFound, "document not found");
    let r = get_document::<i64>(Err(f.clone()), true);
    assert_eq!(r, Err(DbError::Store(f)));
}

#[test]
fn write_retries_five_times_then_gives_up() {
    let mut retry = WriteRetry::new(None);
    assert_eq!(retry.retries_left, DEFAULT_RETRIES);
    for left in (0..5).rev() {
        let step = add_document(&mut retry, Err(failure(FailureKind::Other, "timeout")));
        assert_eq!(step, WriteStep::RetryAfterSeconds(1));
        assert_eq!(retry.retries_left, left);
    }
    let last = failure(FailureKind::Other, "still down");
    let step = add_document(&mut retry, Err(last.clone()));
    assert_eq!(step, WriteStep::Failed(DbError::RetryLimitReached(last)));
}

#[test]
fn write_succeeds_after_a_retry() {
    let mut retry = WriteRetry::new(Some(2));
    let s1 = add_document(&mut retry, Err(failure(FailureKind::Other, "busy")));
    assert_eq!(s1, WriteStep::RetryAfterSeconds(1));
    let s2 = add_document(&mut retry, Ok(()));
    assert_eq!(s2, WriteStep::Done(true));
    assert_eq!(retry.retries_left, 1);
}

#[test]
fn write_with_no_retries_fails_at_once() {
    let mut retry = WriteRetry::new(Some(0));
    let f = failure(FailureKind::Other, "exists");
    assert_eq!(add_document(&mut retry, Err(f.clone())), WriteStep::Failed(DbError::RetryLimitReached(f)));
}

#[test]
fn replace_with_stale_cas_reports_mismatch() {
    let mut retry = WriteRetry::new(Some(0));
    let f = failure(FailureKind::CasMismatch, "cas mismatch");
    let step = replace_document(&mut retry, &"k1".to_string(), &"default".to_string(), Err(f.clone()));
    assert_eq!(step, WriteStep::Failed(DbError::RetryLimitReached(f)));
}

#[test]
fn replace_and_delete_confirmations() {
    let mut retry = WriteRetry::new(None);
    let step = replace_document(&mut retry, &"k1".to_string(), &"default".to_string(), Ok(()));
    assert_eq!(
        step,
        WriteStep::Done("Data successfully updated to couchbase for key: k1 in bucket : default".to_string())
    );
    let del = delete_data(&"k1".to_string(), &"default".to_string(), Ok(()));
    assert_eq!(
        del,
        Ok("Data successfully deleted from couchbase for key: k1 in bucket : default".to_string())
    );
    let f = failure(FailureKind::NotFound, "gone");
    assert_eq!(delete_data(&"k1".to_string(), &"b".to_string(), Err(f.clone())), Err(DbError::Store(f)));
}

#[test]
fn scenario_add_get_replace_remove() {
    let k1 = "k1".to_string();
    let bucket = "default".to_string();
    let mut retry = WriteRetry::new(Some(5));
    assert_eq!(add_document(&mut retry, Ok(())), WriteStep::Done(true));
    let stored = StoredDoc { value: object("a", 1), cas: 1234 };
    let read = get_document(Ok(stored), true);
    assert_eq!(read, Ok(DocValue::WithCas { value: object("a", 1), cas: 1234 }));
    let mut retry = WriteRetry::new(Some(5));
    assert!(matches!(replace_document(&mut retry, &k1, &bucket, Ok(())), WriteStep::Done(_)));
    let read = get_document(Ok(StoredDoc { value: object("a", 2), cas: 1300 }), false);
    assert_eq!(read, Ok(DocValue::Plain(object("a", 2))));
    assert!(delete_data(&k1, &bucket, Ok(())).is_ok());
    let gone = get_document::<serde_json::Value>(Err(failure(FailureKind::NotFound, "not found")), false);
    assert!(matches!(gone, Err(DbError::Store(StoreFailure { kind: FailureKind::NotFound, .. }))));
}

#[test]
fn batch_rejects_empty_key_list() {
    assert!(matches!(BatchCollector::<i64>::new(vec![], false), Err(DbError::EmptyKeys)));
}

#[test]
fn strict_batch_all_found_matches_single_reads() {
    let c = run_batch(
        &["a", "b"],
        vec![Ok(StoredDoc { value: 1, cas: 11 }), Ok(StoredDoc { value: 2, cas: 22 })],
        true,
    );
    let mut docs = c.get_documents().unwrap();
    docs.sort_by(|x, y| x.0.cmp(&y.0));
    assert_eq!(
        docs,
        vec![
            ("a".to_string(), DocValue::WithCas { value: 1, cas: 11 }),
            ("b".to_string(), DocValue::WithCas { value: 2, cas: 22 }),
        ]
    );
}

#[test]
fn strict_batch_fails_naming_every_missing_key() {
    let c = run_batch(
        &["a", "b", "c"],
        vec![
            Err(failure(FailureKind::NotFound, "missing")),
            Ok(StoredDoc { value: 2, cas: 22 }),
            Err(failure(FailureKind::NotFound, "absent")),
        ],
        false,
    );
    match c.get_documents() {
        Err(DbError::Batch { failures, message }) => {
            let mut names: Vec<String> = failures.iter().map(|f| f.0.clone()).collect();
            names.sort();
            assert_eq!(names, vec!["a".to_string(), "c".to_string()]);
            assert!(message.starts_with("Error occured while fetching documents:"));
            assert!(message.contains(" a: missing;"));
            assert!(message.contains(" c: absent;"));
            assert!(!message.contains(" b:"));
        }
        other => panic!("expected a batch error, got {:?}", other),
    }
}

#[test]
fn partial_batch_partitions_keys() {
    let c = run_batch(
        &["a", "b", "c"],
        vec![
            Ok(StoredDoc { value: 1, cas: 11 }),
            Err(failure(FailureKind::Other, "timeout")),
            Ok(StoredDoc { value: 3, cas: 33 }),
        ],
        false,
    );
    let out = c.get_documents_v2();
    let mut docs: Vec<String> = out.docs.iter().map(|d| d.0.clone()).collect();
    docs.sort();
    assert_eq!(docs, vec!["a".to_string(), "c".to_string()]);
    assert_eq!(out.errors, vec![("b".to_string(), failure(FailureKind::Other, "timeout"))]);
}

#[test]
fn partial_batch_repeated_key_keeps_latest_outcome() {
    let c = run_batch(
        &["a", "a"],
        vec![Err(failure(FailureKind::Other, "flaky")), Ok(StoredDoc { value: 9, cas: 1 })],
        false,
    );
    let out = c.get_documents_v2();
    assert_eq!(out.docs, vec![("a".to_string(), DocValue::Plain(9))]);
    assert!(out.errors.is_empty());
}

#[test]
fn counter_starts_at_one_then_counts_up() {
    let first = get_next_counter_key(&CounterRead::Absent, None).unwrap();
    assert_eq!(first, 1);
    assert_eq!(counter_reply(first, Ok(())), Ok("1".to_string()));
    let second = get_next_counter_key(&CounterRead::Number(first), None).unwrap();
    assert_eq!(second, 2);
    assert_eq!(counter_reply(second, Ok(())), Ok("2".to_string()));
}

#[test]
fn counter_initial_value_resets() {
    assert_eq!(get_next_counter_key(&CounterRead::Number(41), Some(7)), Ok(7));
    assert_eq!(get_next_counter_key(&CounterRead::Other, Some(7)), Ok(7));
    assert_eq!(get_next_counter_key(&CounterRead::Absent, Some(100)), Ok(100));
}

#[test]
fn counter_reads_numeric_strings() {
    assert_eq!(get_next_counter_key(&CounterRead::Text("41".to_string()), None), Ok(42));
    assert_eq!(get_next_counter_key(&CounterRead::Text("+5".to_string()), None), Ok(6));
    assert_eq!(get_next_counter_key(&CounterRead::Text("-3".to_string()), None), Ok(-2));
}

#[test]
fn counter_rejects_other_shapes() {
    assert_eq!(get_next_counter_key(&CounterRead::Text("abc".to_string()), None), Err(DbError::Format));
    assert_eq!(get_next_counter_key(&CounterRead::Text(" 4".to_string()), None), Err(DbError::Format));
    assert_eq!(get_next_counter_key(&CounterRead::Text("".to_string()), None), Err(DbError::Format));
    assert_eq!(get_next_counter_key(&CounterRead::Other, None), Err(DbError::Format));
    assert_eq!(get_next_counter_key(&CounterRead::Number(i64::MAX), None), Err(DbError::Overflow));
}

#[test]
fn counter_reply_texts() {
    assert_eq!(counter_reply(-15, Ok(())), Ok("-15".to_string()));
    assert_eq!(counter_reply(1234567, Ok(())), Ok("1234567".to_string()));
    let f = failure(FailureKind::Other, "down");
    assert_eq!(counter_reply(3, Err(f.clone())), Err(DbError::Store(f)));
}

#[test]
fn next_key_is_hyphenated_v4_uuid() {
    let k = get_next_key();
    let chars: Vec<char> = k.chars().collect();
    assert_eq!(chars.len(), 36);
    for (i, c) in chars.iter().enumerate() {
        if i == 8 || i == 13 || i == 18 || i == 23 {
            assert_eq!(*c, '-');
        } else {
            assert!(c.is_ascii_hexdigit() && !c.is_ascii_uppercase());
        }
    }
    assert_eq!(chars[14], '4');
    assert!("89ab".contains(chars[19]));
    assert_ne!(get_next_key(), k);
}

#[test]
fn uuid_is_version_four() {
    let u = uuid();
    assert_eq!(u.get_version_num(), 4);
    assert_ne!(uuid(), u);
}

#[test]
fn connection_settings_must_all_be_present() {
    let p = CouchbaseConnParams::from_settings(
        Some("couchbase://localhost".to_string()),
        Some("admin".to_string()),
        Some("pw".to_string()),
    )
    .unwrap();
    assert_eq!(p.connection_url, "couchbase://localhost");
    assert_eq!(p.username, "admin");
    assert!(matches!(
        CouchbaseConnParams::from_settings(None, Some("a".to_string()), None),
        Err(MissingSetting::ConnectionUrl)
    ));
    assert!(matches!(
        CouchbaseConnParams::from_settings(Some("u".to_string()), None, Some("p".to_string())),
        Err(MissingSetting::Username)
    ));
    assert!(matches!(
        CouchbaseConnParams::from_settings(Some("u".to_string()), Some("a".to_string()), None),
        Err(MissingSetting::Password)
    ));
}

#[test]
fn error_texts() {
    let f = failure(FailureKind::Other, "timeout");
    assert_eq!(DbError::RetryLimitReached(f.clone()).message(), "timeout... retry limit reached");
    assert_eq!(DbError::Store(f).message(), "timeout");
    assert_eq!(DbError::EmptyKeys.message(), "Array of Keys need to be on length>0");
    assert_eq!(
        DbError::Connection("refused".to_string()).message(),
        "Error in getting bucket connection : refused"
    );
    assert_eq!(DbError::Format.message(), "Invalid counter format");
    assert_eq!(DbError::Overflow.message(), "Counter value out of range");
    let batch = DbError::Batch { failures: vec![], message: "m".to_string() };
    assert_eq!(batch.message(), "m");
}
