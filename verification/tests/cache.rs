use fork_harness::cache::{
    decode_entry, encode_entry, CacheStep, CachedRemoteStateView, EntryError, FileReply,
    LocalFileCache, ReadError, ReadStep,
};
use std::collections::HashMap;

fn cache() -> LocalFileCache {
    LocalFileCache::new(vec!["cache".to_string(), "2".to_string()])
}

#[test]
fn entries_are_written_and_read_back() {
    for value in [None, Some(vec![]), Some(vec![0]), Some(vec![1, 2, 3])] {
        assert_eq!(decode_entry(&encode_entry(&value)), Ok(value));
    }
    assert_eq!(encode_entry(&None), vec![0]);
    assert_eq!(encode_entry(&Some(vec![7, 8])), vec![1, 7, 8]);
}

#[test]
fn entries_are_those_of_the_bcs_crate() {
    let text = "state".to_string();
    let value = bcs::to_bytes(&text).unwrap();
    assert_eq!(encode_entry(&Some(value.clone())), bcs::to_bytes(&Some(text.clone())).unwrap());
    assert_eq!(encode_entry(&None), bcs::to_bytes(&None::<String>).unwrap());
    let entry = bcs::to_bytes(&Some(text)).unwrap();
    assert_eq!(decode_entry(&entry), Ok(Some(value)));
}

#[test]
fn malformed_entries_are_refused_as_the_bcs_crate_refuses_them() {
    assert_eq!(decode_entry(&vec![]), Err(EntryError::Eof));
    assert_eq!(decode_entry(&vec![2]), Err(EntryError::ExpectedOption));
    assert_eq!(decode_entry(&vec![255, 0]), Err(EntryError::ExpectedOption));
    assert_eq!(decode_entry(&vec![0, 0]), Err(EntryError::RemainingInput));
    assert_eq!(bcs::from_bytes::<Option<u8>>(&[]), Err(bcs::Error::Eof));
    assert_eq!(bcs::from_bytes::<Option<u8>>(&[2]), Err(bcs::Error::ExpectedOption));
    assert_eq!(bcs::from_bytes::<Option<u8>>(&[0, 0]), Err(bcs::Error::RemainingInput));
}

#[test]
fn files_are_named_by_the_hash() {
    assert_eq!(cache().file_path(&[0x0a, 0xff]), vec!["cache", "2", "0aff.bcs"]);
    assert_ne!(cache().file_path(&[1]), cache().file_path(&[16]));
    assert_ne!(cache().file_path(&[1]), cache().file_path(&[0, 1]));
}

#[test]
fn saving_is_a_file_to_write() {
    let write = cache().save::<u8, u8>(&[1], Ok(Some(vec![5]))).unwrap();
    assert_eq!(write.path, vec!["cache", "2", "01.bcs"]);
    assert_eq!(write.bytes, vec![1, 5]);
    let write = cache().save::<u8, u8>(&[1], Ok(None)).unwrap();
    assert_eq!(write.bytes, vec![0]);
    assert!(matches!(cache().save::<u8, u8>(&[1], Err(7)), Err(ReadError::Codec(7))));
}

#[test]
fn the_cache_tells_what_a_file_holds() {
    let c = cache();
    let get = |reply| c.get_state_value::<String, bcs::Error, u8>(reply);
    assert!(matches!(get(FileReply::Absent), CacheStep::Done(Ok(None))));
    assert!(matches!(get(FileReply::Contents(vec![0])), CacheStep::Done(Ok(Some(None)))));
    assert!(matches!(get(FileReply::Contents(vec![1, 4])), CacheStep::Decode(v) if v == vec![4]));
    assert!(matches!(get(FileReply::Contents(vec![1])), CacheStep::Decode(v) if v.is_empty()));
    assert!(matches!(
        get(FileReply::Contents(vec![9])),
        CacheStep::Done(Err(ReadError::Entry(EntryError::ExpectedOption)))
    ));
    assert!(matches!(
        get(FileReply::Failed("no".to_string())),
        CacheStep::Done(Err(ReadError::Io(m))) if m == "no"
    ));
}

#[test]
fn a_decoded_value_is_what_the_cache_holds() {
    let c = cache();
    assert!(matches!(c.on_decode::<u8, u8, u8>(Ok(3)), Ok(Some(Some(3)))));
    assert!(matches!(c.on_decode::<u8, u8, u8>(Err(4)), Err(ReadError::Codec(4))));
}

type Answer = Result<Option<String>, ReadError<bcs::Error, &'static str>>;

/// What a read meets with besides the files.
struct Surroundings {
    remote: Result<Option<String>, &'static str>,
    unreadable: bool,
    disk_full: bool,
    unencodable: bool,
}

fn network(remote: Result<Option<String>, &'static str>) -> Surroundings {
    Surroundings { remote, unreadable: false, disk_full: false, unencodable: false }
}

/// A whole read over files in memory; counts how often the network is asked.
fn read(
    files: &mut HashMap<Vec<String>, Vec<u8>>,
    hash: &[u8],
    world: Surroundings,
    asked: &mut usize,
) -> Answer {
    let view = CachedRemoteStateView { cache: cache() };
    let reply = match files.get(&view.cache.file_path(hash)) {
        Some(_) if world.unreadable => FileReply::Failed("locked".to_string()),
        Some(bytes) => FileReply::Contents(bytes.clone()),
        None => FileReply::Absent,
    };
    let mut step = view.on_lookup(reply);
    let mut remote = Some(world.remote);
    loop {
        step = match step {
            ReadStep::Done(answer) => return answer,
            ReadStep::Decode(bytes) => view.on_decode(bcs::from_bytes(&bytes)),
            ReadStep::Fetch => {
                *asked += 1;
                view.on_fetch(hash, remote.take().unwrap())
            }
            ReadStep::Encode(value) => {
                let encoded = if world.unencodable {
                    Err(bcs::Error::NotSupported("text"))
                } else {
                    bcs::to_bytes(&value)
                };
                view.on_encode(hash, value, encoded)
            }
            ReadStep::Save { write, value } => {
                if world.disk_full {
                    view.on_save(value, Err("full".to_string()))
                } else {
                    files.insert(write.path, write.bytes);
                    view.on_save(value, Ok(()))
                }
            }
        };
    }
}

#[test]
fn a_miss_asks_once_and_later_reads_do_not() {
    for value in [None, Some("state".to_string())] {
        let mut files = HashMap::new();
        let mut asked = 0;
        let first = read(&mut files, &[1], network(Ok(value.clone())), &mut asked);
        assert!(matches!(first, Ok(v) if v == value));
        assert_eq!(asked, 1);
        assert_eq!(files.len(), 1);
        assert_eq!(files[&cache().file_path(&[1])], bcs::to_bytes(&value).unwrap());
        let second = read(&mut files, &[1], network(Err("gone")), &mut asked);
        assert!(matches!(second, Ok(v) if v == value));
        assert_eq!(asked, 1);
    }
}

#[test]
fn reads_of_different_keys_do_not_meet() {
    let mut files = HashMap::new();
    let mut asked = 0;
    let _ = read(&mut files, &[1], network(Ok(Some("a".to_string()))), &mut asked);
    let _ = read(&mut files, &[2], network(Ok(Some("b".to_string()))), &mut asked);
    let again = read(&mut files, &[1], network(Err("gone")), &mut asked);
    assert!(matches!(again, Ok(Some(v)) if v == "a"));
    assert_eq!(asked, 2);
}

#[test]
fn a_refusal_of_the_network_is_answered_and_not_cached() {
    let mut files = HashMap::new();
    let mut asked = 0;
    let r = read(&mut files, &[1], network(Err("busy")), &mut asked);
    assert!(matches!(r, Err(ReadError::Remote("busy"))));
    assert!(files.is_empty());
}

#[test]
fn a_value_that_cannot_be_encoded_is_answered_and_not_cached() {
    let mut files = HashMap::new();
    let mut asked = 0;
    let world = Surroundings { unencodable: true, ..network(Ok(Some("a".to_string()))) };
    let r = read(&mut files, &[1], world, &mut asked);
    assert!(matches!(r, Err(ReadError::Codec(bcs::Error::NotSupported(_)))));
    assert!(files.is_empty());
}

#[test]
fn a_failed_write_is_answered() {
    let mut files = HashMap::new();
    let mut asked = 0;
    let world = Surroundings { disk_full: true, ..network(Ok(Some("a".to_string()))) };
    let r = read(&mut files, &[1], world, &mut asked);
    assert!(matches!(r, Err(ReadError::Io(m)) if m == "full"));
}

#[test]
fn a_malformed_entry_is_answered_without_asking() {
    let mut files = HashMap::new();
    files.insert(cache().file_path(&[1]), vec![0, 7]);
    let mut asked = 0;
    let r = read(&mut files, &[1], network(Ok(None)), &mut asked);
    assert!(matches!(r, Err(ReadError::Entry(EntryError::RemainingInput))));
    assert_eq!(asked, 0);
}

#[test]
fn a_value_that_cannot_be_decoded_is_answered_without_asking() {
    for bytes in [vec![1], vec![1, 3, 97], vec![1, 1, 97, 0]] {
        let expected = bcs::from_bytes::<Option<String>>(&bytes).unwrap_err();
        let mut files = HashMap::new();
        files.insert(cache().file_path(&[1]), bytes);
        let mut asked = 0;
        let r = read(&mut files, &[1], network(Ok(None)), &mut asked);
        assert!(matches!(r, Err(ReadError::Codec(e)) if e == expected));
        assert_eq!(asked, 0);
    }
}

#[test]
fn an_unreadable_file_is_answered_without_asking() {
    let mut files = HashMap::new();
    files.insert(cache().file_path(&[1]), vec![0]);
    let mut asked = 0;
    let world = Surroundings { unreadable: true, ..network(Ok(None)) };
    let r = read(&mut files, &[1], world, &mut asked);
    assert!(matches!(r, Err(ReadError::Io(m)) if m == "locked"));
    assert_eq!(asked, 0);
}

#[test]
fn of_many_reads_of_a_key_one_success_asks() {
    let mut files = HashMap::new();
    let mut asked = 0;
    assert!(read(&mut files, &[1], network(Err("busy")), &mut asked).is_err());
    for key in [1, 2, 1, 1, 2] {
        let r = read(&mut files, &[key], network(Ok(Some(format!("{asked}")))), &mut asked);
        let expected = if key == 1 { "1" } else { "2" };
        assert!(matches!(r, Ok(Some(v)) if v == expected));
    }
    assert_eq!(asked, 3);
}
