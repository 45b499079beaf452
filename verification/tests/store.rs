use kvs::engine::{KvsEngine, StoreFiles};
use kvs::errors::KvsError;
use kvs::index::Index;
use kvs::records::{KvHeader, KvsEntries};
use kvs::store::{check_index, fetch_at, read_index, reindex, KvStore, BUILD_NUMBER, MIN_COMPACTION_THRESHOLD};

const NOW: u64 = 1_700_000_000_000;

fn fresh() -> KvStore {
    KvStore::open(Vec::new(), &[], NOW).expect("a new store opens")
}

fn s(text: &str) -> String {
    text.to_owned()
}

fn record_len(key: &str, value: &str) -> usize {
    KvsEntries::SET(s(key), s(value)).encode().expect("the record can be written").len()
}

#[test]
fn set_then_get() {
    let mut store = fresh();
    store.set(s("a"), s("1")).unwrap();
    assert_eq!(store.get(s("a")).unwrap(), Some(s("1")));
    assert_eq!(store.get(s("b")).unwrap(), None);
}

#[test]
fn set_twice_then_get_gives_the_later_value() {
    let mut store = fresh();
    store.set(s("k"), s("v1")).unwrap();
    store.set(s("k"), s("v2")).unwrap();
    assert_eq!(store.get(s("k")).unwrap(), Some(s("v2")));
}

#[test]
fn set_then_remove_then_get_gives_none() {
    let mut store = fresh();
    store.set(s("k"), s("v")).unwrap();
    store.remove(s("k")).unwrap();
    assert_eq!(store.get(s("k")).unwrap(), None);
}

#[test]
fn remove_of_an_absent_key_fails() {
    let mut store = fresh();
    store.set(s("other"), s("v")).unwrap();
    let before = store.data().clone();
    match store.remove(s("k")) {
        Err(KvsError::KeyNotExist(key)) => assert_eq!(key, "k"),
        other => panic!("expected KeyNotExist, got {:?}", other),
    }
    assert_eq!(store.data(), &before);
}

#[test]
fn get_follows_the_latest_write_of_each_key() {
    let mut store = fresh();
    let mut model: Vec<(String, Option<String>)> = Vec::new();
    for round in 0..40u32 {
        let key = format!("key{}", round % 7);
        if round % 5 == 3 {
            let known = model.iter().rev().find(|(k, _)| *k == key).map(|(_, v)| v.is_some()).unwrap_or(false);
            let outcome = store.remove(key.clone());
            assert_eq!(outcome.is_ok(), known);
            if known {
                model.push((key.clone(), None));
            }
        } else {
            let value = format!("value{}", round);
            store.set(key.clone(), value.clone()).unwrap();
            model.push((key.clone(), Some(value)));
        }
        for probe in 0..7u32 {
            let probe = format!("key{}", probe);
            let expected = model.iter().rev().find(|(k, _)| *k == probe).and_then(|(_, v)| v.clone());
            assert_eq!(store.get(probe).unwrap(), expected);
        }
    }
}

fn fill(store: &mut KvStore) {
    store.set(s("user.root.password"), s("archlinuxisthebest")).unwrap();
    store.set(s("user.root.name"), s("系統管理員")).unwrap();
    store.set(s("user.root.balance"), s("50000")).unwrap();
    store.set(s("user.root.money"), s("100000")).unwrap();
    store.remove(s("user.root.money")).unwrap();
    store.set(s("user.root.balance"), s("0")).unwrap();
    store.set(s("user.root.password"), s("archlinuxforever")).unwrap();
    store.set(s("user.root.name"), s("神")).unwrap();
}

fn check_filled(store: &KvStore) {
    assert_eq!(store.get(s("user.root.name")).unwrap(), Some(s("神")));
    assert_eq!(store.get(s("user.root.password")).unwrap(), Some(s("archlinuxforever")));
    assert_eq!(store.get(s("user.root.balance")).unwrap(), Some(s("0")));
    assert_eq!(store.get(s("user.root.money")).unwrap(), None);
}

#[test]
fn set_get_remove_reopen() {
    let mut store = fresh();
    fill(&mut store);
    check_filled(&store);
    let (data, index) = store.close().unwrap();
    assert!(!index.is_empty());
    let reopened = KvStore::open(data, &index, NOW + 1).unwrap();
    assert!(!reopened.modified());
    check_filled(&reopened);
}

#[test]
fn test_kv_compact() {
    let mut store = KvStore::open(Vec::new(), &[], NOW).unwrap();
    store.compaction().unwrap();
    let (data, index) = store.close().unwrap();
    let mut store = KvStore::open(data, &index, NOW).unwrap();
    store.set(s("a"), s("1")).unwrap();
    store.compaction().unwrap();
    assert_eq!(store.get(s("a")).unwrap(), Some(s("1")));
}

#[test]
fn compaction_shrinks_the_log() {
    let mut store = fresh();
    let mut written: usize = store.data().len();
    for i in 0..1000u32 {
        let key = format!("key{}", i % 10);
        let value = format!("first{}", i);
        written += record_len(&key, &value);
        store.set(key, value).unwrap();
    }
    for round in 0..200u32 {
        for i in 0..10u32 {
            let key = format!("key{}", i);
            let value = format!("{:0100}", round * 10 + i);
            written += record_len(&key, &value);
            store.set(key, value).unwrap();
        }
    }
    for i in 0..10u32 {
        assert_eq!(store.get(format!("key{}", i)).unwrap(), Some(format!("{:0100}", 199 * 10 + i)));
    }
    assert!(store.data().len() * 5 <= written);
}

#[test]
fn compaction_keeps_every_live_key() {
    let mut store = fresh();
    for i in 0..1000u32 {
        store.set(format!("key{}", i), format!("{:0100}", i)).unwrap();
    }
    for round in 0..200u32 {
        for i in 0..10u32 {
            store.set(format!("key{}", i), format!("{:0100}", round * 10 + i)).unwrap();
        }
    }
    for i in 0..1000u32 {
        let expected = if i < 10 { format!("{:0100}", 199 * 10 + i) } else { format!("{:0100}", i) };
        assert_eq!(store.get(format!("key{}", i)).unwrap(), Some(expected));
    }
    assert!((store.data().len() as u64) < store.header().next_compaction_size);
    let (data, index) = store.close().unwrap();
    let reopened = KvStore::open(data.clone(), &index, NOW).unwrap();
    let replayed = KvStore::open(data, &[], NOW).unwrap();
    for i in 0..1000u32 {
        let key = format!("key{}", i);
        assert_eq!(reopened.get(key.clone()).unwrap(), replayed.get(key.clone()).unwrap());
        assert!(reopened.get(key).unwrap().is_some());
    }
}

#[test]
fn compaction_keeps_one_record_for_each_live_key() {
    let mut store = fresh();
    let head_len = store.data().len();
    for round in 0..50u32 {
        store.set(s("a"), format!("a{}", round)).unwrap();
        store.set(s("b"), format!("b{}", round)).unwrap();
    }
    store.set(s("c"), s("gone")).unwrap();
    store.remove(s("c")).unwrap();
    let mut header = store.header();
    // make the compaction due
    let (data, index) = store.close().unwrap();
    header.next_compaction_size = 0;
    header.flags = 0;
    let head = header.encode().unwrap();
    assert_eq!(head.len(), head_len);
    let mut lowered = head.clone();
    lowered.extend_from_slice(&data[head_len..]);
    let mut store = KvStore::open(lowered, &index, NOW).unwrap();
    store.compaction().unwrap();
    let live = record_len("a", "a49") + record_len("b", "b49");
    assert_eq!(store.data().len(), head_len + live);
    assert!(store.data().len() <= 2 * live + head_len);
    assert_eq!(store.header().next_compaction_size, MIN_COMPACTION_THRESHOLD);
    assert_eq!(store.get(s("a")).unwrap(), Some(s("a49")));
    assert_eq!(store.get(s("b")).unwrap(), Some(s("b49")));
    assert_eq!(store.get(s("c")).unwrap(), None);
}

#[test]
fn next_threshold_is_twice_the_compacted_size() {
    let mut store = fresh();
    let value = "x".repeat(1000);
    let mut compacted_at = None;
    for i in 0..40u32 {
        let before = store.header().next_compaction_size;
        store.set(format!("key{}", i), value.clone()).unwrap();
        if store.header().next_compaction_size != before {
            compacted_at = Some(i);
            break;
        }
    }
    assert!(compacted_at.is_some());
    let len = store.data().len() as u64;
    assert!(2 * len > MIN_COMPACTION_THRESHOLD);
    assert_eq!(store.header().next_compaction_size, 2 * len);
}

#[test]
fn crash_recovery() {
    let mut store = fresh();
    for i in 0..100u32 {
        store.set(format!("key{}", i % 60), format!("value{}", i)).unwrap();
    }
    // a crash: the image as it is, its dirty bit set, and an index file cut to nothing
    let image = store.data().clone();
    assert_eq!(store.header().flags & 1, 1);
    let mut recovered = KvStore::open(image, &[], NOW + 5).unwrap();
    for i in 0..60u32 {
        let last = if i + 60 < 100 { i + 60 } else { i };
        assert_eq!(recovered.get(format!("key{}", i)).unwrap(), Some(format!("value{}", last)));
    }
    assert!(recovered.modified());
    let index_file = recovered.write_index().unwrap();
    assert!(!recovered.modified());
    let (scanned, end) = reindex(recovered.data(), head_len(&recovered));
    assert_eq!(end, recovered.data().len());
    let loaded = read_index(&index_file);
    assert_eq!(loaded.len(), 60);
    for i in 0..60u32 {
        let key = format!("key{}", i);
        assert_eq!(loaded.get(&key), scanned.get(&key));
        assert!(loaded.get(&key).is_some());
    }
}

fn head_len(store: &KvStore) -> usize {
    KvHeader::decode(store.data()).unwrap().1
}

#[test]
fn crash_recovery_ignores_a_stale_index_file() {
    let mut store = fresh();
    store.set(s("a"), s("1")).unwrap();
    let stale = store.write_index().unwrap();
    store.set(s("a"), s("2")).unwrap();
    store.set(s("b"), s("3")).unwrap();
    let image = store.data().clone();
    let recovered = KvStore::open(image, &stale, NOW).unwrap();
    assert_eq!(recovered.get(s("a")).unwrap(), Some(s("2")));
    assert_eq!(recovered.get(s("b")).unwrap(), Some(s("3")));
}

#[test]
fn recovery_cuts_off_what_cannot_be_read() {
    let mut store = fresh();
    store.set(s("a"), s("1")).unwrap();
    store.set(s("b"), s("2")).unwrap();
    let whole = store.data().clone();
    let mut torn = whole.clone();
    let half = KvsEntries::SET(s("c"), s("3")).encode().unwrap();
    torn.extend_from_slice(&half[..half.len() - 3]);
    let mut recovered = KvStore::open(torn, &[], NOW).unwrap();
    assert_eq!(recovered.data().len(), whole.len());
    assert_eq!(recovered.get(s("a")).unwrap(), Some(s("1")));
    assert_eq!(recovered.get(s("b")).unwrap(), Some(s("2")));
    assert_eq!(recovered.get(s("c")).unwrap(), None);
    recovered.set(s("c"), s("4")).unwrap();
    let again = KvStore::open(recovered.data().clone(), &[], NOW).unwrap();
    assert_eq!(again.get(s("c")).unwrap(), Some(s("4")));
}

#[test]
fn rejects_foreign_database() {
    match KvStore::open(vec![0u8], &[], NOW) {
        Err(KvsError::InvalidDatabaseFormat) => {}
        other => panic!("expected InvalidDatabaseFormat, got {:?}", other.map(|_| ())),
    }
}

#[test]
fn version_mismatch() {
    let header = KvHeader { build_number: 0, last_open: 0, next_compaction_size: MIN_COMPACTION_THRESHOLD, flags: 0 };
    let data = header.encode().unwrap();
    match KvStore::open(data, &[], NOW) {
        Err(KvsError::IncompatibleDatabaseVersion(found, current)) => {
            assert_eq!(found, 0);
            assert_eq!(current, BUILD_NUMBER);
        }
        other => panic!("expected IncompatibleDatabaseVersion, got {:?}", other.map(|_| ())),
    }
}

#[test]
fn open_writes_the_session_header() {
    let store = fresh();
    let header = store.header();
    assert_eq!(header.build_number, 1200);
    assert_eq!(header.last_open, NOW);
    assert_eq!(header.next_compaction_size, 32768);
    assert_eq!(header.flags, 1);
    let (decoded, len) = KvHeader::decode(store.data()).unwrap();
    assert_eq!(decoded, header);
    assert_eq!(len, store.data().len());
    assert_eq!(store.db_offset(), len as u64);
}

#[test]
fn close_clears_the_dirty_bit() {
    let mut store = fresh();
    store.set(s("a"), s("1")).unwrap();
    let (data, _) = store.close().unwrap();
    let (header, _) = KvHeader::decode(&data).unwrap();
    assert_eq!(header.flags, 0);
    assert_eq!(header.last_open, NOW);
}

#[test]
fn a_time_that_cannot_be_written_fails_the_open() {
    match KvStore::open(Vec::new(), &[], u64::MAX) {
        Err(KvsError::SerializationError) => {}
        other => panic!("expected SerializationError, got {:?}", other.map(|_| ())),
    }
}

#[test]
fn an_index_file_that_points_astray_is_not_used() {
    let mut store = fresh();
    store.set(s("a"), s("1")).unwrap();
    store.set(s("b"), s("2")).unwrap();
    let (data, index) = store.close().unwrap();
    // the index of another file: the same keys at other offsets
    let mut other = fresh();
    other.set(s("b"), s("x")).unwrap();
    other.set(s("a"), s("y")).unwrap();
    let (_, wrong) = other.close().unwrap();
    assert_ne!(index, wrong);
    let store = KvStore::open(data, &wrong, NOW).unwrap();
    assert!(store.modified());
    assert_eq!(store.get(s("a")).unwrap(), Some(s("1")));
    assert_eq!(store.get(s("b")).unwrap(), Some(s("2")));
}

#[test]
fn fetch_checks_the_record() {
    let mut store = fresh();
    let first = store.db_offset();
    store.set(s("a"), s("1")).unwrap();
    let second = store.db_offset();
    store.set(s("gone"), s("2")).unwrap();
    let third = store.db_offset();
    store.remove(s("gone")).unwrap();
    assert_eq!(fetch_at(store.data(), "a", first).unwrap(), "1");
    assert!(matches!(fetch_at(store.data(), "b", first), Err(KvsError::InvalidDataEntry)));
    assert!(matches!(fetch_at(store.data(), "a", first + 1), Err(KvsError::InvalidDataEntry)));
    assert_eq!(fetch_at(store.data(), "gone", second).unwrap(), "2");
    assert!(matches!(fetch_at(store.data(), "gone", third), Err(KvsError::InvalidDataEntry)));
    assert!(matches!(fetch_at(store.data(), "a", u64::MAX), Err(KvsError::InvalidDataEntry)));
}

#[test]
fn check_index_finds_a_wrong_offset() {
    let mut store = fresh();
    let head = store.data().len();
    let at = store.db_offset();
    store.set(s("a"), s("1")).unwrap();
    let mut index = Index::new();
    index.insert(s("a"), at);
    assert!(check_index(store.data(), head, &index));
    index.insert(s("a"), at + 1);
    assert!(!check_index(store.data(), head, &index));
    index.insert(s("a"), 0);
    assert!(!check_index(store.data(), head, &index));
}

#[test]
fn the_store_is_an_engine() {
    let mut store = <KvStore as KvsEngine>::open(StoreFiles { data: Vec::new(), index: Vec::new(), now: NOW }).unwrap();
    KvsEngine::set(&mut store, s("a"), s("1")).unwrap();
    assert_eq!(KvsEngine::get(&store, s("a")).unwrap(), Some(s("1")));
    KvsEngine::remove(&mut store, s("a")).unwrap();
    assert_eq!(KvsEngine::get(&store, s("a")).unwrap(), None);
}

#[test]
fn a_header_of_another_length_is_refused() {
    let field = |name: &str, n: i32| kvs::codec::Field { name: name.to_owned(), value: kvs::codec::Value::Int32(n) };
    let fields = vec![
        field("build_number", 1200),
        field("last_open", 0),
        field("next_compaction_size", 32768),
        field("flags", 0),
    ];
    let data = kvs::codec::encode(&fields).unwrap();
    assert_eq!(
        KvHeader::decode(&data).map(|(h, _)| h),
        Some(KvHeader { build_number: 1200, last_open: 0, next_compaction_size: 32768, flags: 0 })
    );
    match KvStore::open(data, &[], NOW) {
        Err(KvsError::InvalidDatabaseFormat) => {}
        other => panic!("expected InvalidDatabaseFormat, got {:?}", other.map(|_| ())),
    }
}

#[test]
fn the_end_of_a_file_is_no_error() {
    let mut log = KvsEntries::SET(s("a"), s("1")).encode().unwrap();
    let end = log.len();
    assert!(matches!(KvsEntries::read_at(&log, 0), Ok(Some((KvsEntries::SET(_, _), n))) if n == end));
    assert!(matches!(KvsEntries::read_at(&log, end), Ok(None)));
    assert!(matches!(KvsEntries::read_at(&log, 1), Err(KvsError::DeserializationError)));
    assert!(matches!(KvsEntries::read_at(&log, end + 1), Err(KvsError::DeserializationError)));
    log.extend_from_slice(&[9, 0, 0]);
    assert!(matches!(KvsEntries::read_at(&log, end), Err(KvsError::DeserializationError)));
    assert!(matches!(kvs::records::KvsIndexEntries::read_at(&log, 0), Err(KvsError::DeserializationError)));
    assert!(matches!(kvs::records::KvsIndexEntries::read_at(&[], 0), Ok(None)));
}

#[test]
fn an_index_file_is_read_in_the_order_of_its_records() {
    let entry = |key: &str, offset: u64| kvs::records::KvsIndexEntries { key: s(key), offset }.encode().unwrap();
    let mut file = entry("b", 10);
    file.extend_from_slice(&entry("a", 20));
    file.extend_from_slice(&entry("b", 30));
    file.extend_from_slice(&[1, 2, 3]);
    file.extend_from_slice(&entry("c", 40));
    let index = read_index(&file);
    assert_eq!(index.len(), 2);
    assert_eq!(index.key_at(0), "b");
    assert_eq!(index.key_at(1), "a");
    assert_eq!(index.get("b"), Some(30));
    assert_eq!(index.get("a"), Some(20));
    assert_eq!(index.get("c"), None);
}

#[test]
fn the_index_file_lists_the_keys_as_the_index_does() {
    let mut store = fresh();
    let first = store.db_offset();
    store.set(s("a"), s("1")).unwrap();
    let second = store.db_offset();
    store.set(s("b"), s("2")).unwrap();
    let third = store.db_offset();
    store.set(s("a"), s("3")).unwrap();
    assert!(first < second && second < third);
    let file = store.write_index().unwrap();
    let entry = |key: &str, offset: u64| kvs::records::KvsIndexEntries { key: s(key), offset }.encode().unwrap();
    let mut expected = entry("a", third);
    expected.extend_from_slice(&entry("b", second));
    assert_eq!(file, expected);
}

#[test]
fn a_compacted_log_holds_the_live_records_in_the_order_of_the_keys() {
    let mut store = fresh();
    let head_len = store.data().len();
    let mut rounds = 0u32;
    while store.compactions() == 0 {
        store.set(s("a"), format!("{:0200}", rounds)).unwrap();
        store.set(s("b"), format!("{:0300}", rounds)).unwrap();
        rounds += 1;
        assert!(rounds < 1000);
    }
    assert_eq!(store.compactions(), 1);
    let last = rounds - 1;
    let mut expected = store.data()[..head_len].to_vec();
    expected.extend_from_slice(&KvsEntries::SET(s("a"), format!("{:0200}", last)).encode().unwrap());
    expected.extend_from_slice(&KvsEntries::SET(s("b"), format!("{:0300}", last)).encode().unwrap());
    assert_eq!(store.data(), &expected);
    assert_eq!(store.header().next_compaction_size, MIN_COMPACTION_THRESHOLD);
    assert!(store.modified());
}

/// A small generator of numbers, the same on every run.
struct Numbers(u64);

impl Numbers {
    fn next(&mut self, below: u64) -> u64 {
        self.0 = self.0.wrapping_mul(6364136223846793005).wrapping_add(1442695040888963407);
        (self.0 >> 33) % below
    }
}

#[test]
fn the_store_agrees_with_a_map_through_writes_compactions_closes_and_crashes() {
    let mut numbers = Numbers(7);
    let mut model: std::collections::BTreeMap<String, String> = std::collections::BTreeMap::new();
    let mut store = fresh();
    let mut compactions_seen = 0u64;
    let mut closes = 0u32;
    let mut crashes = 0u32;
    for step in 0..6000u32 {
        let key = format!("key{}", numbers.next(40));
        match numbers.next(10) {
            0..=5 => {
                let value = "v".repeat(numbers.next(300) as usize) + &step.to_string();
                store.set(key.clone(), value.clone()).unwrap();
                model.insert(key.clone(), value);
            }
            6..=7 => {
                let outcome = store.remove(key.clone());
                assert_eq!(outcome.is_ok(), model.remove(&key).is_some());
            }
            8 => {
                assert_eq!(store.get(key.clone()).unwrap(), model.get(&key).cloned());
            }
            _ => match numbers.next(40) {
                0 => {
                    compactions_seen += store.compactions();
                    let (data, index) = store.close().unwrap();
                    store = KvStore::open(data, &index, NOW + step as u64).unwrap();
                    assert_eq!(store.modified(), model.is_empty());
                    closes += 1;
                }
                1 => {
                    compactions_seen += store.compactions();
                    let mut image = store.data().clone();
                    image.extend_from_slice(&[0x40, 0, 0, 0, 2, b'S']);
                    store = KvStore::open(image, &[1, 2, 3], NOW + step as u64).unwrap();
                    assert!(store.modified());
                    crashes += 1;
                }
                _ => {}
            },
        }
        if step % 97 == 0 {
            for probe in 0..40u32 {
                let probe = format!("key{}", probe);
                assert_eq!(store.get(probe.clone()).unwrap(), model.get(&probe).cloned());
            }
            assert!(store.db_offset() < store.header().next_compaction_size);
        }
    }
    compactions_seen += store.compactions();
    assert!(compactions_seen > 5);
    assert!(closes > 2 && crashes > 2);
    for probe in 0..40u32 {
        let probe = format!("key{}", probe);
        assert_eq!(store.get(probe.clone()).unwrap(), model.get(&probe).cloned());
    }
}
