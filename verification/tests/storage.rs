use teaclave_lifecycle::audit::directory::{
    blob_key, Cache, DbDirectory, DirectoryError, SeekFrom,
};
use teaclave_lifecycle::kv::{starts_with, KvStore};

fn key(text: &str) -> Vec<u8> {
    text.as_bytes().to_vec()
}

#[test]
fn store_gets_puts_and_deletes() {
    let mut store = KvStore::new();
    assert_eq!(store.get(&key("task/1")), None);
    store.put(key("task/1"), vec![1, 2]);
    store.put(key("task/2"), vec![3]);
    assert_eq!(store.get(&key("task/1")), Some(vec![1, 2]));
    store.put(key("task/1"), vec![9]);
    assert_eq!(store.get(&key("task/1")), Some(vec![9]));
    assert!(store.contains(&key("task/2")));
    store.delete(&key("task/2"));
    assert!(!store.contains(&key("task/2")));
    store.delete(&key("task/2"));
    store.delete(&key("never"));
    assert_eq!(store.get(&key("task/1")), Some(vec![9]));
    store.put(Vec::new(), Vec::new());
    assert_eq!(store.get(&Vec::new()), Some(Vec::new()));
}

#[test]
fn store_swaps_only_against_the_expected_value() {
    let mut store = KvStore::new();
    assert!(!store.compare_and_swap(&key("k"), &vec![], vec![1]));
    assert_eq!(store.get(&key("k")), None);
    store.put(key("k"), vec![1]);
    assert!(!store.compare_and_swap(&key("k"), &vec![2], vec![3]));
    assert_eq!(store.get(&key("k")), Some(vec![1]));
    assert!(store.compare_and_swap(&key("k"), &vec![1], vec![3]));
    assert_eq!(store.get(&key("k")), Some(vec![3]));
    assert!(!store.compare_and_swap(&key("k"), &vec![1], vec![4]));
    assert_eq!(store.get(&key("k")), Some(vec![3]));
}

#[test]
fn store_enumerates_by_prefix() {
    let mut store = KvStore::new();
    for (k, v) in [("task/1", 1u8), ("user/a", 2), ("task/2", 3), ("tas", 4), ("task/", 5)] {
        store.put(key(k), vec![v]);
    }
    let mut found: Vec<(Vec<u8>, Vec<u8>)> =
        store.enumerate(&key("task/")).into_iter().map(|p| (p.key, p.value)).collect();
    found.sort();
    assert_eq!(
        found,
        vec![(key("task/"), vec![5]), (key("task/1"), vec![1]), (key("task/2"), vec![3])]
    );
    assert_eq!(store.enumerate(&Vec::new()).len(), 5);
    assert_eq!(store.enumerate(&key("fusion/")).len(), 0);
    assert!(starts_with(&key("task/1"), &key("task/")));
    assert!(starts_with(&key("task/"), &key("task/")));
    assert!(!starts_with(&key("tas"), &key("task/")));
    assert!(!starts_with(&key("user/1"), &key("task/")));
    assert!(starts_with(&key("x"), &Vec::new()));
}

#[test]
fn directory_keys_begin_with_the_prefix() {
    assert_eq!(blob_key("meta.json"), b"tantivy/meta.json".to_vec());
    assert_eq!(blob_key(""), b"tantivy/".to_vec());
    assert_eq!(blob_key("é.idx"), "tantivy/é.idx".as_bytes().to_vec());
}

#[test]
fn directory_removes_the_writer_lock_when_opened() {
    let mut store = KvStore::new();
    store.put(b"tantivy/.tantivy-writer.lock".to_vec(), vec![1]);
    store.put(b"tantivy/meta.json".to_vec(), vec![2]);
    store.put(b"task/1".to_vec(), vec![3]);
    let directory = DbDirectory::new(store);
    assert!(!directory.has_file(".tantivy-writer.lock"));
    assert!(directory.has_file("meta.json"));
    assert_eq!(directory.db.get(&b"task/1".to_vec()), Some(vec![3]));
}

#[test]
fn directory_reads_writes_and_deletes() {
    let mut directory = DbDirectory::new(KvStore::new());
    match directory.open_read("seg.idx") {
        Err(DirectoryError::FileDoesNotExist(path)) => assert_eq!(path, "seg.idx"),
        _ => panic!("the file should be missing"),
    }
    directory.write("seg.idx", &[1, 2, 3]);
    assert_eq!(directory.open_read("seg.idx").unwrap(), vec![1, 2, 3]);
    assert_eq!(directory.atomic_read("seg.idx").unwrap(), vec![1, 2, 3]);
    assert_eq!(directory.db.get(&b"tantivy/seg.idx".to_vec()), Some(vec![1, 2, 3]));
    assert!(directory.delete("seg.idx").is_ok());
    assert!(!directory.has_file("seg.idx"));
    assert!(directory.delete("seg.idx").is_ok());
    assert!(matches!(directory.atomic_read("seg.idx"), Err(DirectoryError::FileDoesNotExist(_))));
}

#[test]
fn directory_tells_watchers_of_the_meta_file_only() {
    let mut directory = DbDirectory::new(KvStore::new());
    assert!(!directory.atomic_write("seg.idx", &[1]));
    assert!(directory.atomic_write("meta.json", &[2, 3]));
    assert!(!directory.atomic_write("meta.json.tmp", &[4]));
    assert_eq!(directory.open_read("meta.json").unwrap(), vec![2, 3]);
    assert_eq!(directory.open_read("seg.idx").unwrap(), vec![1]);
}

#[test]
fn directory_opens_new_files_only() {
    let mut directory = DbDirectory::new(KvStore::new());
    let mut cache = directory.open_write("seg.store").unwrap();
    assert_eq!(cache.path, "seg.store");
    assert!(cache.is_flushed);
    assert!(!directory.has_file("seg.store"));
    assert_eq!(cache.write(&[1, 2, 3]).unwrap(), 3);
    assert_eq!(cache.write(&[4]).unwrap(), 1);
    assert!(!cache.is_flushed);
    assert!(!directory.has_file("seg.store"));
    cache.flush(&mut directory);
    assert!(cache.is_flushed);
    assert_eq!(directory.open_read("seg.store").unwrap(), vec![1, 2, 3, 4]);
    // A second opening fails and empties the file.
    match directory.open_write("seg.store") {
        Err(DirectoryError::FileAlreadyExists(path)) => assert_eq!(path, "seg.store"),
        _ => panic!("the file is there already"),
    }
    assert_eq!(directory.open_read("seg.store").unwrap(), Vec::<u8>::new());
}

#[test]
fn cache_is_flushed_when_it_is_let_go() {
    let mut directory = DbDirectory::new(KvStore::new());
    let mut cache = Cache::new("a".to_string());
    cache.write(&[7, 8]).unwrap();
    cache.release(&mut directory);
    assert_eq!(directory.open_read("a").unwrap(), vec![7, 8]);
    let untouched = Cache::new("b".to_string());
    untouched.release(&mut directory);
    assert!(!directory.has_file("b"));
    let mut ended = Cache::new("c".to_string());
    ended.write(&[1]).unwrap();
    ended.terminate(&mut directory);
    assert!(ended.is_flushed);
    directory.write("c", &[9]);
    ended.release(&mut directory);
    assert_eq!(directory.open_read("c").unwrap(), vec![9]);
}

#[test]
fn cache_writes_at_its_position() {
    let mut cache = Cache::new("f".to_string());
    cache.write(&[1, 2, 3, 4, 5]).unwrap();
    assert_eq!(cache.position, 5);
    assert_eq!(cache.seek(SeekFrom::Start(1)).unwrap(), 1);
    cache.write(&[9, 9]).unwrap();
    assert_eq!(cache.data, vec![1, 9, 9, 4, 5]);
    assert_eq!(cache.position, 3);
    assert_eq!(cache.seek(SeekFrom::End(-1)).unwrap(), 4);
    cache.write(&[7, 7, 7]).unwrap();
    assert_eq!(cache.data, vec![1, 9, 9, 4, 7, 7, 7]);
    assert_eq!(cache.seek(SeekFrom::Current(2)).unwrap(), 9);
    cache.write(&[6]).unwrap();
    assert_eq!(cache.data, vec![1, 9, 9, 4, 7, 7, 7, 0, 0, 6]);
    assert_eq!(cache.seek(SeekFrom::Current(-10)).unwrap(), 0);
    assert!(matches!(cache.seek(SeekFrom::Current(-1)), Err(DirectoryError::InvalidPosition)));
    assert!(matches!(cache.seek(SeekFrom::End(-11)), Err(DirectoryError::InvalidPosition)));
    assert!(matches!(cache.seek(SeekFrom::End(i64::MIN)), Err(DirectoryError::InvalidPosition)));
    assert_eq!(cache.position, 0);
    assert_eq!(cache.seek(SeekFrom::Start(u64::MAX)).unwrap(), u64::MAX);
    assert!(matches!(cache.seek(SeekFrom::Current(1)), Err(DirectoryError::InvalidPosition)));
    assert!(matches!(cache.write(&[1]), Err(DirectoryError::InvalidPosition)));
    assert_eq!(cache.data.len(), 10);
    assert_eq!(cache.seek(SeekFrom::Start(4)).unwrap(), 4);
    assert_eq!(cache.write(&[]).unwrap_or(99), 0);
    assert_eq!(cache.data.len(), 10);
    assert_eq!(cache.position, 4);
}
