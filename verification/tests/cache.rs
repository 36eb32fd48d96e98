use std::collections::HashMap;

use do_sqlite::blocks::Blocks;
use do_sqlite::error::{Step, VfsError, Whence};
use do_sqlite::header::page_count;
use do_sqlite::pages::{Pages, PagesVfs};
use do_sqlite::path::{chars_of, has_suffix, is_companion, make_key, push_decimal};

const BLOCK: usize = 4096;

type Store = HashMap<u64, Vec<u8>>;

fn open(store: &Store) -> Pages<BLOCK> {
    PagesVfs::<BLOCK>.open(store.get(&0).cloned()).unwrap()
}

fn write_all(file: &mut Pages<BLOCK>, store: &Store, mut bytes: &[u8]) -> Vec<usize> {
    let mut steps = Vec::new();
    while !bytes.is_empty() {
        match file.write(bytes) {
            Step::Done(n) => {
                steps.push(n);
                bytes = &bytes[n..];
            }
            Step::Fetch(index) => {
                assert_eq!(file.current(store.get(&index).cloned()), Ok(index));
            }
        }
    }
    steps
}

fn read_once(file: &mut Pages<BLOCK>, store: &Store, len: usize) -> Vec<u8> {
    let mut buf = vec![0xEEu8; len];
    loop {
        match file.read(&mut buf) {
            Step::Done(n) => {
                buf.truncate(n);
                return buf;
            }
            Step::Fetch(index) => {
                assert_eq!(file.current(store.get(&index).cloned()), Ok(index));
            }
        }
    }
}

fn flush(file: &mut Pages<BLOCK>, store: &mut Store) -> usize {
    let mut puts = 0;
    while let Some(index) = file.flush_next() {
        store.insert(index, file.block(index).unwrap());
        puts += 1;
        assert_eq!(file.flushed(index, true), Ok(()));
    }
    puts
}

fn text(chars: &[char]) -> String {
    chars.iter().collect()
}

#[test]
fn write_flush_reopen_read() {
    let mut store = Store::new();
    let mut file = open(&store);
    assert_eq!(file.seek(Whence::Start(0)), Ok(0));
    assert_eq!(write_all(&mut file, &store, b"abcdefghij"), vec![10]);
    assert_eq!(file.file_size(), 4096);
    assert_eq!(flush(&mut file, &mut store), 1);
    drop(file);

    let mut file = open(&store);
    assert_eq!(file.seek(Whence::Start(0)), Ok(0));
    assert_eq!(read_once(&mut file, &store, 10), b"abcdefghij".to_vec());
    assert_eq!(file.offset(), 10);
    assert_eq!(file.seek(Whence::Start(4090)), Ok(4090));
    let tail = read_once(&mut file, &store, 10);
    assert_eq!(tail.len(), 6);
    assert_eq!(tail, vec![0u8; 6]);
    assert_eq!(file.offset(), 4096);
}

#[test]
fn page_count_of_block_zero_sets_the_size() {
    let mut block = vec![0u8; BLOCK];
    block[28..32].copy_from_slice(&3u32.to_be_bytes());
    let mut store = Store::new();
    store.insert(0, block);
    let file = open(&store);
    assert_eq!(file.file_size(), 3 * 4096);
    assert_eq!(file.offset(), 0);
    assert!(!file.is_cached(0));
}

#[test]
fn fresh_file_is_empty() {
    let file = PagesVfs::<BLOCK>.open(None).unwrap();
    assert_eq!(file.file_size(), 0);
    assert_eq!(file.flush_next(), None);
    let named = Blocks::<BLOCK>::open("main.db3", None).unwrap();
    assert_eq!(named.file_size(), 0);
}

#[test]
fn page_count_is_big_endian() {
    let mut block = vec![0u8; 32];
    block[28] = 1;
    block[29] = 2;
    block[30] = 3;
    block[31] = 4;
    assert_eq!(page_count(&block), Ok(16_909_060));
    block[28] = 0xFF;
    block[29] = 0xFF;
    block[30] = 0xFF;
    block[31] = 0xFF;
    assert_eq!(page_count(&block), Ok(u32::MAX));
}

#[test]
fn short_block_zero_is_a_corrupt_header() {
    assert_eq!(page_count(&[0u8; 31]), Err(VfsError::CorruptHeader));
    assert_eq!(page_count(&[]), Err(VfsError::CorruptHeader));
    assert!(matches!(
        PagesVfs::<BLOCK>.open(Some(vec![0u8; 10])),
        Err(VfsError::CorruptHeader)
    ));
    assert!(matches!(
        Blocks::<BLOCK>::open("main.db3", Some(vec![0u8; 31])),
        Err(VfsError::CorruptHeader)
    ));
}

#[test]
fn page_count_too_large_for_the_block_size_is_a_corrupt_header() {
    let mut block = vec![0u8; 32];
    block[28] = 0xFF;
    assert!(matches!(
        PagesVfs::<{ usize::MAX }>.open(Some(block.clone())),
        Err(VfsError::CorruptHeader)
    ));
    assert!(PagesVfs::<BLOCK>.open(Some(block)).is_ok());
}

#[test]
fn second_flush_writes_nothing() {
    let mut store = Store::new();
    let mut file = open(&store);
    file.seek(Whence::Start(5000)).unwrap();
    write_all(&mut file, &store, &[7u8; 5000]);
    assert_eq!(flush(&mut file, &mut store), 2);
    assert_eq!(flush(&mut file, &mut store), 0);
    file.seek(Whence::Start(0)).unwrap();
    read_once(&mut file, &store, 16);
    assert_eq!(flush(&mut file, &mut store), 0);
    assert_eq!(store.len(), 2);
}

#[test]
fn io_stops_at_the_block_boundary() {
    let store = Store::new();
    let mut file = open(&store);
    file.seek(Whence::Start(4000)).unwrap();
    assert_eq!(write_all(&mut file, &store, &[1u8; 200]), vec![96, 104]);
    assert_eq!(file.offset(), 4200);
    file.seek(Whence::Start(4000)).unwrap();
    let first = read_once(&mut file, &store, 200);
    assert_eq!(first, vec![1u8; 96]);
    assert_eq!(file.offset(), 4096);
    let second = read_once(&mut file, &store, 104);
    assert_eq!(second, vec![1u8; 104]);
}

#[test]
fn read_leaves_the_rest_of_the_buffer() {
    let store = Store::new();
    let mut file = open(&store);
    file.seek(Whence::Start(4094)).unwrap();
    assert_eq!(file.current(None), Ok(0));
    let mut buf = vec![9u8; 5];
    assert_eq!(file.read(&mut buf), Step::Done(2));
    assert_eq!(buf, vec![0, 0, 9, 9, 9]);
}

#[test]
fn size_grows_with_the_last_byte_written() {
    let store = Store::new();
    let mut file = open(&store);
    write_all(&mut file, &store, &[1u8; 4096]);
    assert_eq!(file.offset(), 4096);
    assert_eq!(file.file_size(), 4096);
    write_all(&mut file, &store, &[2u8; 1]);
    assert_eq!(file.file_size(), 8192);
    file.seek(Whence::Start(3 * 4096 + 5)).unwrap();
    write_all(&mut file, &store, &[3u8; 1]);
    assert_eq!(file.file_size(), 4 * 4096);
    file.seek(Whence::Start(0)).unwrap();
    write_all(&mut file, &store, &[4u8; 10]);
    assert_eq!(file.file_size(), 4 * 4096);
    read_once(&mut file, &store, 10);
    assert_eq!(file.file_size(), 4 * 4096);
}

#[test]
fn empty_write_moves_nothing() {
    let store = Store::new();
    let mut file = open(&store);
    file.seek(Whence::Start(8192)).unwrap();
    assert_eq!(file.current(None), Ok(2));
    assert_eq!(file.write(&[]), Step::Done(0));
    assert_eq!(file.offset(), 8192);
    assert_eq!(file.file_size(), 0);
}

#[test]
fn uncached_block_is_asked_for() {
    let store = Store::new();
    let mut file = open(&store);
    file.seek(Whence::Start(3 * 4096 + 1)).unwrap();
    assert_eq!(file.index(), 3);
    let mut buf = vec![5u8; 4];
    assert_eq!(file.read(&mut buf), Step::Fetch(3));
    assert_eq!(buf, vec![5u8; 4]);
    assert_eq!(file.write(&[1, 2, 3]), Step::Fetch(3));
    assert_eq!(file.offset(), 3 * 4096 + 1);
    assert!(!file.is_cached(3));
    assert_eq!(file.block(3), None);
}

#[test]
fn fetched_block_enters_the_cache_once() {
    let store = Store::new();
    let mut file = open(&store);
    assert_eq!(file.current(Some(vec![7u8; BLOCK])), Ok(0));
    assert!(file.is_cached(0));
    assert!(!file.is_dirty(0));
    assert_eq!(file.block(0), Some(vec![7u8; BLOCK]));
    assert_eq!(file.current(Some(vec![8u8; BLOCK])), Ok(0));
    assert_eq!(file.block(0), Some(vec![7u8; BLOCK]));
    assert_eq!(file.current(Some(vec![8u8; 3])), Ok(0));
}

#[test]
fn stored_bytes_of_the_wrong_length_are_refused() {
    let store = Store::new();
    let mut file = open(&store);
    assert_eq!(file.current(Some(vec![1u8; BLOCK - 1])), Err(VfsError::BackingStore));
    assert!(!file.is_cached(0));
    assert_eq!(file.current(Some(vec![1u8; BLOCK + 1])), Err(VfsError::BackingStore));
    assert_eq!(file.current(None), Ok(0));
    assert_eq!(file.block(0), Some(vec![0u8; BLOCK]));
}

#[test]
fn relative_seeks_are_refused() {
    let store = Store::new();
    let mut file = open(&store);
    assert_eq!(file.seek(Whence::Start(77)), Ok(77));
    assert_eq!(file.seek(Whence::End(0)), Err(VfsError::UnsupportedSeek));
    assert_eq!(file.seek(Whence::Current(-1)), Err(VfsError::UnsupportedSeek));
    assert_eq!(file.offset(), 77);
}

#[test]
fn failed_write_back_keeps_the_block_dirty() {
    let mut store = Store::new();
    let mut file = open(&store);
    write_all(&mut file, &store, b"xyz");
    assert_eq!(file.flush_next(), Some(0));
    assert_eq!(file.flushed(0, false), Err(VfsError::PartialFlushFailure));
    assert!(file.is_dirty(0));
    assert_eq!(file.flush_next(), Some(0));
    assert_eq!(flush(&mut file, &mut store), 1);
    assert!(!file.is_dirty(0));
    assert!(file.is_cached(0));
    assert_eq!(&store[&0][..3], b"xyz");
    assert_eq!(file.flushed(9, true), Ok(()));
    assert!(!file.is_cached(9));
}

#[test]
fn write_overlays_the_stored_block() {
    let mut store = Store::new();
    store.insert(1, vec![0xAAu8; BLOCK]);
    let mut file = open(&store);
    file.seek(Whence::Start(4096 + 2)).unwrap();
    write_all(&mut file, &store, &[1, 2, 3]);
    let block = file.block(1).unwrap();
    assert_eq!(&block[..7], &[0xAA, 0xAA, 1, 2, 3, 0xAA, 0xAA]);
    assert!(block[7..].iter().all(|b| *b == 0xAA));
    assert!(file.is_dirty(1));
}

#[test]
fn keys_name_file_and_block() {
    let file = Blocks::<BLOCK>::open("main.db3", None).unwrap();
    assert_eq!(text(&file.key(0)), "main.db3.0.block");
    assert_eq!(text(&file.key(12345)), "main.db3.12345.block");
    assert_eq!(text(&file.key(u64::MAX)), "main.db3.18446744073709551615.block");
    assert_eq!(text(&make_key(&chars_of("ä"), 10)), "ä.10.block");
    let mut out = vec!['#'];
    push_decimal(&mut out, 907);
    assert_eq!(text(&out), "#907");
}

#[test]
fn named_file_round_trip() {
    let mut store: HashMap<String, Vec<u8>> = HashMap::new();
    let mut file = Blocks::<16>::open("db", None).unwrap();
    file.seek(Whence::Start(30)).unwrap();
    let mut rest: &[u8] = b"hello";
    while !rest.is_empty() {
        match file.write(rest) {
            Step::Done(n) => rest = &rest[n..],
            Step::Fetch(index) => {
                let fetched = store.get(&text(&file.key(index))).cloned();
                assert_eq!(file.current(fetched), Ok(index));
            }
        }
    }
    assert_eq!(file.file_size(), 48);
    while let Some(index) = file.flush_next() {
        store.insert(text(&file.key(index)), file.cache().block(index).unwrap());
        file.flushed(index, true).unwrap();
    }
    let mut keys: Vec<&String> = store.keys().collect();
    keys.sort();
    assert_eq!(keys, vec!["db.1.block", "db.2.block"]);

    let block0 = store.get("db.0.block").cloned();
    let mut file = Blocks::<16>::open("db", block0).unwrap();
    assert_eq!(file.file_size(), 0);
    file.seek(Whence::Start(30)).unwrap();
    let mut got = Vec::new();
    while got.len() < 5 {
        let mut buf = vec![0u8; 5 - got.len()];
        match file.read(&mut buf) {
            Step::Done(n) => got.extend_from_slice(&buf[..n]),
            Step::Fetch(index) => {
                let fetched = store.get(&text(&file.key(index))).cloned();
                assert_eq!(file.current(fetched), Ok(index));
            }
        }
    }
    assert_eq!(got, b"hello".to_vec());
}

#[test]
fn companion_files_never_exist() {
    assert!(is_companion("main.db3-journal"));
    assert!(is_companion("main.db3-wal"));
    assert!(is_companion("-wal"));
    assert!(!is_companion("main.db3"));
    assert!(!is_companion("wal"));
    assert!(!is_companion(""));
    assert!(has_suffix("abc", ""));
    assert!(!has_suffix("bc", "abc"));
    let vfs = PagesVfs::<BLOCK>;
    assert!(!vfs.file_exists("main.db3-journal", true));
    assert!(!vfs.file_exists("main.db3-wal", false));
    assert!(!vfs.file_exists("main.db3", false));
    assert!(vfs.file_exists("main.db3", true));
    vfs.delete("main.db3-journal");
}

#[test]
fn last_block_of_the_offset_range_is_out_of_range() {
    let store = Store::new();
    let mut file = open(&store);
    assert!(file.in_range());
    file.seek(Whence::Start(u64::MAX - 4096)).unwrap();
    assert!(file.in_range());
    file.seek(Whence::Start(u64::MAX - 4095)).unwrap();
    assert!(!file.in_range());
    file.seek(Whence::Start(u64::MAX)).unwrap();
    assert!(!file.in_range());
    let mut unit = PagesVfs::<1>.open(None).unwrap();
    unit.seek(Whence::Start(u64::MAX)).unwrap();
    assert!(!unit.in_range());
    unit.seek(Whence::Start(u64::MAX - 1)).unwrap();
    assert!(unit.in_range());
    let mut named = Blocks::<BLOCK>::open("db", None).unwrap();
    named.seek(Whence::Start(u64::MAX)).unwrap();
    assert!(!named.in_range());
}
