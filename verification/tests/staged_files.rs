use teaclave_lifecycle::connect::{after_attempt, ConnectStep, CONNECT_ATTEMPTS, RETRY_SECONDS};
use teaclave_lifecycle::audit::agent::{AuditAgent, FLUSH_SECONDS};
use teaclave_lifecycle::audit::entry::{Entry, EntryBuilder};
use teaclave_lifecycle::entities::FileCrypto;
use teaclave_lifecycle::files::FileAuthTag;
use teaclave_lifecycle::names::NameSet;
use teaclave_lifecycle::staged_file::{
    CopyStep, StagedFileError, StagedFileInfo, StagedFiles, TeaclaveFile128Key, UploadPlan,
    COPY_BUFFER_BYTES,
};
use teaclave_lifecycle::table::NameMap;

fn info(path: &str, n: u8) -> StagedFileInfo {
    StagedFileInfo::new(path, TeaclaveFile128Key { key: [n; 16] }, FileAuthTag { tag: [n; 16] })
}

#[test]
fn staged_file_is_read_only_with_its_tag() {
    let file = info("/tmp/in.enc", 4);
    assert_eq!(file.path, "/tmp/in.enc");
    assert_eq!(file.crypto_info.key, [4u8; 16]);
    assert_eq!(file.create_readable_io(&FileAuthTag { tag: [4u8; 16] }), Ok(()));
    let mut wrong = [4u8; 16];
    wrong[0] = 5;
    assert_eq!(
        file.create_readable_io(&FileAuthTag { tag: wrong }),
        Err(StagedFileError::Corrupted)
    );
    let copy = file.clone();
    assert_eq!(copy.path, file.path);
    assert_eq!(copy.cmac.tag, file.cmac.tag);
}

#[test]
fn staged_file_upload_goes_by_the_protection() {
    let file = info("/tmp/out.enc", 1);
    assert!(matches!(
        file.convert_for_uploading(FileCrypto::TeaclaveFile128 { key: [9u8; 16] }),
        Ok(UploadPlan::Reprotect { key }) if key == [9u8; 16]
    ));
    assert!(matches!(
        file.convert_for_uploading(FileCrypto::AesGcm128 { key: [8u8; 16], iv: [7u8; 12] }),
        Ok(UploadPlan::Encrypt128 { key, iv }) if key == [8u8; 16] && iv == [7u8; 12]
    ));
    assert!(matches!(
        file.convert_for_uploading(FileCrypto::AesGcm256 { key: [6u8; 32], iv: [5u8; 12] }),
        Ok(UploadPlan::Encrypt256 { key, iv }) if key == [6u8; 32] && iv == [5u8; 12]
    ));
    assert!(matches!(
        file.convert_for_uploading(FileCrypto::Raw),
        Err(StagedFileError::UnsupportedType)
    ));
}

#[test]
fn staged_file_copy_stops_on_a_short_write() {
    assert_eq!(COPY_BUFFER_BYTES, 4096);
    assert_eq!(StagedFileInfo::after_read(0), CopyStep::Finish);
    assert_eq!(StagedFileInfo::after_read(1), CopyStep::Write);
    assert_eq!(StagedFileInfo::after_read(4096), CopyStep::Write);
    assert_eq!(StagedFileInfo::after_write(4096, 4096), Ok(()));
    assert_eq!(
        StagedFileInfo::after_write(4096, 100),
        Err(StagedFileError::ShortWrite { read: 4096, written: 100 })
    );
    assert_eq!(
        StagedFileInfo::after_write(1, 0),
        Err(StagedFileError::ShortWrite { read: 1, written: 0 })
    );
    assert_eq!(StagedFileInfo::convert_to_teaclave_file(&[3u8; 16]).unwrap().tag, [3u8; 16]);
    assert_eq!(
        StagedFileInfo::convert_to_teaclave_file(&[3u8; 15]).err(),
        Some(StagedFileError::MalformedTag)
    );
}

#[test]
fn staged_files_are_found_by_name() {
    let empty = StagedFiles::new(NameMap::new());
    assert!(empty.is_empty());
    assert_eq!(empty.len(), 0);
    assert!(empty.get("a").is_none());
    let files = StagedFiles::from_pairs(vec![
        ("a".to_string(), info("/a", 1)),
        ("b".to_string(), info("/b", 2)),
        ("a".to_string(), info("/a2", 3)),
    ]);
    assert_eq!(files.len(), 2);
    assert!(!files.is_empty());
    assert_eq!(files.get("a").unwrap().path, "/a2");
    assert_eq!(files.get("b").unwrap().path, "/b");
    assert!(files.get("c").is_none());
    let mut map = NameMap::new();
    map.insert("x".to_string(), info("/x", 1));
    let files = StagedFiles::new(map);
    assert_eq!(files.len(), 1);
    assert_eq!(files.get("x").unwrap().cmac.tag, [1u8; 16]);
    assert!(StagedFiles::from_pairs(Vec::new()).is_empty());
}

#[test]
fn connection_is_tried_ten_times() {
    assert_eq!(CONNECT_ATTEMPTS, 10);
    assert_eq!(RETRY_SECONDS, 3);
    assert_eq!(after_attempt(0, true), ConnectStep::Connected);
    assert_eq!(after_attempt(9, true), ConnectStep::Connected);
    let mut failures = 0;
    let mut attempts = 0;
    loop {
        attempts += 1;
        match after_attempt(failures, false) {
            ConnectStep::Retry { failures: made, wait_seconds } => {
                assert_eq!(made, failures + 1);
                assert_eq!(wait_seconds, 3);
                failures = made;
            }
            ConnectStep::GiveUp => break,
            ConnectStep::Connected => panic!("a failed try connects nothing"),
        }
    }
    assert_eq!(attempts, 10);
    assert_eq!(after_attempt(8, false), ConnectStep::Retry { failures: 9, wait_seconds: 3 });
    assert_eq!(after_attempt(9, false), ConnectStep::GiveUp);
    assert_eq!(after_attempt(u32::MAX, false), ConnectStep::GiveUp);
}

fn entry(n: i64) -> Entry {
    EntryBuilder::new().microsecond(n).build()
}

fn times(entries: &[Entry]) -> Vec<i64> {
    entries.iter().map(|e| e.microsecond()).collect()
}

#[test]
fn audit_agent_keeps_what_was_not_delivered() {
    assert_eq!(FLUSH_SECONDS, 30);
    let mut agent = AuditAgent::new(vec![entry(1)]);
    agent.record(entry(2));
    let batch = agent.drain().unwrap();
    assert_eq!(times(&batch.logs), vec![1, 2]);
    assert!(agent.buffer.is_empty());
    assert!(agent.drain().is_none());
    agent.record(entry(3));
    agent.settle(batch, false);
    assert_eq!(times(&agent.buffer), vec![1, 2, 3]);
    let batch = agent.drain().unwrap();
    assert_eq!(times(&batch.logs), vec![1, 2, 3]);
    agent.record(entry(4));
    agent.settle(batch, true);
    assert_eq!(times(&agent.buffer), vec![4]);
}

#[test]
fn name_sets_and_maps_behave_as_sets_and_maps() {
    let mut set = NameSet::new();
    assert!(set.is_empty());
    set.insert("a".to_string());
    set.insert("a".to_string());
    set.insert("b".to_string());
    assert!(set.contains(&"a".to_string()) && !set.contains(&"c".to_string()));
    let other = NameSet::from_vec(vec!["b".to_string(), "a".to_string()]);
    assert!(set.same_as(&other));
    assert!(NameSet::new().is_subset_of(&set));
    assert!(!set.is_subset_of(&NameSet::from_vec(vec!["a".to_string()])));
    let mut grown = NameSet::from_vec(vec!["c".to_string()]);
    grown.extend(&set);
    assert!(grown.same_as(&NameSet::from_vec(vec![
        "a".to_string(),
        "b".to_string(),
        "c".to_string()
    ])));
    assert!(set.clone().same_as(&set));
    let mut listed = set.to_vec();
    listed.sort();
    listed.dedup();
    assert_eq!(listed, vec!["a".to_string(), "b".to_string()]);

    let mut map: NameMap<u32> = NameMap::new();
    map.insert("x".to_string(), 1);
    map.insert("y".to_string(), 2);
    map.insert("x".to_string(), 3);
    assert_eq!(map.len(), 2);
    assert_eq!(map.get(&"x".to_string()), Some(&3));
    assert_eq!(map.position(&"y".to_string()), Some(1));
    assert_eq!(map.name_at(0), "x");
    assert_eq!(*map.value_at(1), 2);
    assert!(map.contains_key(&"y".to_string()));
    assert_eq!(map.remove(&"x".to_string()), Some(3));
    assert_eq!(map.remove(&"x".to_string()), None);
    assert_eq!(map.len(), 1);
    let copy = map.clone();
    assert_eq!(copy.get(&"y".to_string()), Some(&2));
}

#[test]
fn staged_files_are_none_by_default() {
    let files = StagedFiles::default();
    assert!(files.is_empty());
    assert!(files.get("input").is_none());
}
