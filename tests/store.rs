use casper_api::host::{
    self, read_outcome, write_outcome, Error, LocalKV, ReadInfo, READ_FOUND, READ_NOT_FOUND,
};
use casper_api::order::compare_bytes;
use casper_api::reserve_vec_space;
use std::cmp::Ordering;

fn read_all(kv: &LocalKV, key_space: u64, key: &[u8]) -> Option<(u64, Vec<u8>)> {
    host::read(kv, key_space, key, reserve_vec_space)
        .expect("the simulated host does not fail")
        .map(|e| (e.tag, e.data))
}

#[test]
fn round_trip_returns_tag_and_bytes() {
    let mut kv = LocalKV::new();
    assert_eq!(host::write(&mut kv, 3, b"key", 42, b"value"), Ok(()));
    assert_eq!(read_all(&kv, 3, b"key"), Some((42, b"value".to_vec())));
}

#[test]
fn miss_before_write_never_calls_sizer() {
    let kv = LocalKV::new();
    let r = host::read(&kv, 0, b"absent", |_n: usize| -> Vec<u8> {
        panic!("the sizer must not be called on a miss")
    });
    assert!(matches!(r, Ok(None)));
}

#[test]
fn miss_after_writes_elsewhere() {
    let mut kv = LocalKV::new();
    host::write(&mut kv, 0, b"a", 1, b"x").unwrap();
    host::write(&mut kv, 1, b"b", 1, b"y").unwrap();
    let r = host::read(&kv, 0, b"b", |_n: usize| -> Vec<u8> {
        panic!("the sizer must not be called on a miss")
    });
    assert!(matches!(r, Ok(None)));
}

#[test]
fn overwrite_replaces_not_merges() {
    let mut kv = LocalKV::new();
    host::write(&mut kv, 5, b"k", 1, b"first value").unwrap();
    host::write(&mut kv, 5, b"k", 2, b"2nd").unwrap();
    assert_eq!(read_all(&kv, 5, b"k"), Some((2, b"2nd".to_vec())));
}

#[test]
fn keyspace_isolation() {
    let mut kv = LocalKV::new();
    host::write(&mut kv, 1, b"a", 0, b"x").unwrap();
    assert_eq!(read_all(&kv, 2, b"a"), None);
    assert_eq!(read_all(&kv, 1, b"a"), Some((0, b"x".to_vec())));
}

#[test]
fn sizer_called_once_with_value_length() {
    let mut kv = LocalKV::new();
    host::write(&mut kv, 9, b"five", 7, b"12345").unwrap();
    let mut calls: Vec<usize> = Vec::new();
    let r = host::read(&kv, 9, b"five", |n: usize| {
        calls.push(n);
        vec![0u8; n]
    });
    let entry = r.unwrap().unwrap();
    assert_eq!(calls, vec![5]);
    assert_eq!(entry.tag, 7);
    assert_eq!(entry.data, b"12345".to_vec());
}

#[test]
fn sizer_buffer_with_stale_bytes_is_overwritten() {
    let mut kv = LocalKV::new();
    host::write(&mut kv, 0, b"k", 1, b"abc").unwrap();
    let r = host::read(&kv, 0, b"k", |_n: usize| vec![9u8; 8]);
    assert_eq!(r.unwrap().unwrap().data, b"abc".to_vec());
}

#[test]
fn zero_length_value() {
    let mut kv = LocalKV::new();
    host::write(&mut kv, 4, b"empty", 11, b"").unwrap();
    let mut calls: Vec<usize> = Vec::new();
    let r = host::read(&kv, 4, b"empty", |n: usize| {
        calls.push(n);
        Vec::with_capacity(n)
    });
    let entry = r.unwrap().unwrap();
    assert_eq!(calls, vec![0]);
    assert_eq!(entry.tag, 11);
    assert!(entry.data.is_empty());
}

#[test]
fn empty_key_is_a_key() {
    let mut kv = LocalKV::default();
    host::write(&mut kv, 0, b"", 3, b"v").unwrap();
    assert_eq!(read_all(&kv, 0, b""), Some((3, b"v".to_vec())));
    assert_eq!(read_all(&kv, 0, b"\0"), None);
}

#[test]
fn many_keys_in_any_order() {
    let mut kv = LocalKV::new();
    let keys: [&[u8]; 6] = [b"m", b"a", b"z", b"ab", b"", b"aa"];
    for (i, k) in keys.iter().enumerate() {
        host::write(&mut kv, 0, k, i as u64, k).unwrap();
    }
    host::write(&mut kv, 0, b"ab", 100, b"new").unwrap();
    for (i, k) in keys.iter().enumerate() {
        let expected = if *k == b"ab" { (100, b"new".to_vec()) } else { (i as u64, k.to_vec()) };
        assert_eq!(read_all(&kv, 0, k), Some(expected));
    }
    assert_eq!(read_all(&kv, 0, b"b"), None);
}

#[test]
fn read_into_copies_whole_value() {
    let mut kv = LocalKV::new();
    host::write(&mut kv, 0, b"k", 1, b"ab").unwrap();
    let mut buf = [9u8; 4];
    let filled = host::read_into(&kv, 0, b"k", &mut buf).map(|s| s.to_vec());
    assert_eq!(filled, Some(b"ab".to_vec()));
    assert_eq!(buf, [b'a', b'b', 9, 9]);
}

#[test]
fn read_into_truncates_to_destination() {
    let mut kv = LocalKV::new();
    host::write(&mut kv, 0, b"k", 1, b"abcdef").unwrap();
    let mut buf = [0u8; 3];
    let filled = host::read_into(&kv, 0, b"k", &mut buf).map(|s| s.to_vec());
    assert_eq!(filled, Some(b"abc".to_vec()));
    assert_eq!(buf, *b"abc");
}

#[test]
fn read_into_miss_leaves_destination() {
    let kv = LocalKV::new();
    let mut buf = [7u8; 2];
    assert!(host::read_into(&kv, 0, b"k", &mut buf).is_none());
    assert_eq!(buf, [7, 7]);
}

#[test]
fn reserve_vec_space_is_empty_with_room() {
    let v = reserve_vec_space(16);
    assert!(v.is_empty());
    assert!(v.capacity() >= 16);
}

#[test]
fn read_outcome_found() {
    let info = ReadInfo { size: 3, tag: 8 };
    match read_outcome(READ_FOUND, info, Some(b"xyz".to_vec())) {
        Ok(Some(e)) => {
            assert_eq!(e.tag, 8);
            assert_eq!(e.data, b"xyz".to_vec());
        }
        _ => panic!("a found value with a matching destination is an entry"),
    }
}

#[test]
fn read_outcome_not_found() {
    let info = ReadInfo { size: 0, tag: 0 };
    assert!(matches!(read_outcome(READ_NOT_FOUND, info, None), Ok(None)));
}

#[test]
fn read_outcome_protocol_faults_are_transport() {
    let info = ReadInfo { size: 3, tag: 8 };
    assert!(matches!(read_outcome(READ_FOUND, info, None), Err(Error::Transport)));
    assert!(matches!(read_outcome(READ_FOUND, info, Some(vec![1, 2])), Err(Error::Transport)));
    assert!(matches!(read_outcome(READ_NOT_FOUND, info, Some(vec![1, 2, 3])), Err(Error::Transport)));
    assert!(matches!(read_outcome(-1, info, None), Err(Error::Transport)));
    assert!(matches!(read_outcome(2, info, Some(vec![1, 2, 3])), Err(Error::Transport)));
}

#[test]
fn write_outcome_statuses() {
    assert_eq!(write_outcome(0), Ok(()));
    assert_eq!(write_outcome(1), Err(Error::Transport));
    assert_eq!(write_outcome(-7), Err(Error::Transport));
}

#[test]
fn compare_bytes_is_lexicographic() {
    assert_eq!(compare_bytes(b"ab", b"abc"), Ordering::Less);
    assert_eq!(compare_bytes(b"b", b"az"), Ordering::Greater);
    assert_eq!(compare_bytes(b"same", b"same"), Ordering::Equal);
    assert_eq!(compare_bytes(b"", b""), Ordering::Equal);
    assert_eq!(compare_bytes(b"", b"\0"), Ordering::Less);
    assert_eq!(compare_bytes(&[0xff], &[0x01, 0x02]), Ordering::Greater);
}
