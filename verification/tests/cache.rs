use std::collections::BTreeSet;

use faust_jit::{Cache, CacheQueryResult, CacheWriter, WriterAction};

const ABC: &str = "a9993e364706816aba3e25717850c26c9cd0d89d";
const EMPTY: &str = "da39a3ee5e6b4b0d3255bfef95601890afd80709";

#[test]
fn the_digest_is_written_in_lowercase_hexadecimal() {
    assert_eq!(Cache::hash_input(b"abc", &[]).to_hex_lowercase(), ABC);
    assert_eq!(Cache::hash_input(b"", &[]).to_hex_lowercase(), EMPTY);
    assert_eq!(
        Cache::hash_input(b"The quick brown fox jumps over the lazy dog", &[]).to_hex_lowercase(),
        "2fd4e1c67a2d28fced849ee1bb76e7391b93eb12"
    );
}

#[test]
fn inputs_are_hashed_end_to_end_in_order() {
    let parts = vec![b"b".to_vec(), Vec::new(), b"c".to_vec()];
    assert_eq!(Cache::hash_input(b"a", &parts).to_hex_lowercase(), ABC);
    assert_eq!(Cache::hash_input(b"", &vec![b"abc".to_vec()]).to_hex_lowercase(), ABC);
    assert_eq!(Cache::hash_input(b"", &vec![Vec::new(), Vec::new()]).to_hex_lowercase(), EMPTY);
    let swapped = vec![b"c".to_vec(), b"b".to_vec()];
    assert_ne!(Cache::hash_input(b"a", &swapped).to_hex_lowercase(), ABC);
    let long = vec![vec![7u8; 1000], vec![8u8; 129]];
    let mut joined = vec![6u8; 63];
    joined.extend_from_slice(&long[0]);
    joined.extend_from_slice(&long[1]);
    assert_eq!(
        Cache::hash_input(&[6u8; 63], &long).to_hex_lowercase(),
        Cache::hash_input(&joined, &[]).to_hex_lowercase()
    );
}

#[test]
fn a_hit_names_the_directory_of_the_entry() {
    let cache = Cache::new("cache".to_string());
    assert_eq!(cache.root(), "cache");
    match cache.query(Cache::hash_input(b"abc", &[]), true) {
        CacheQueryResult::Hit(dir) => assert_eq!(dir, ABC),
        other => panic!("not a hit: {:?}", other),
    }
    match cache.query_with_suffix(Cache::hash_input(b"abc", &[]), true, 3) {
        CacheQueryResult::Hit(dir) => assert_eq!(dir, ABC),
        other => panic!("not a hit: {:?}", other),
    }
}

fn writer(input: &[u8], suffix: u32) -> CacheWriter {
    let cache = Cache::new("cache".to_string());
    match cache.query_with_suffix(Cache::hash_input(input, &[]), false, suffix) {
        CacheQueryResult::Miss(writer) => writer,
        other => panic!("not a miss: {:?}", other),
    }
}

#[test]
fn a_miss_gives_a_writer_with_a_temporary_directory() {
    let w = writer(b"abc", 0);
    assert_eq!(w.final_dir(), ABC);
    assert_eq!(w.temp_dir(), format!("tmp-{}-0", ABC));
    assert_eq!(writer(b"abc", 7).temp_dir(), format!("tmp-{}-7", ABC));
    assert_eq!(writer(b"abc", 1234567890).temp_dir(), format!("tmp-{}-1234567890", ABC));
    assert_eq!(writer(b"", u32::MAX).temp_dir(), format!("tmp-{}-4294967295", EMPTY));
}

#[test]
fn a_random_suffix_is_a_number() {
    let cache = Cache::new("cache".to_string());
    for _ in 0..20 {
        match cache.query(Cache::hash_input(b"abc", &[]), false) {
            CacheQueryResult::Miss(w) => {
                assert_eq!(w.final_dir(), ABC);
                let suffix = w.temp_dir().strip_prefix(&format!("tmp-{}-", ABC)).unwrap();
                assert_eq!(suffix.parse::<u32>().unwrap().to_string(), suffix);
            }
            other => panic!("not a miss: {:?}", other),
        }
    }
}

#[test]
fn a_writer_renames_unless_another_was_first() {
    let w = writer(b"abc", 42);
    match w.finish(false) {
        WriterAction::Commit { temp_dir, final_dir } => {
            assert_eq!(temp_dir, format!("tmp-{}-42", ABC));
            assert_eq!(final_dir, ABC);
        }
        other => panic!("not a rename: {:?}", other),
    }
    match w.finish(true) {
        WriterAction::Discard { temp_dir } => assert_eq!(temp_dir, format!("tmp-{}-42", ABC)),
        other => panic!("not a removal: {:?}", other),
    }
}

/// The directories of a cache's root, by name.
#[derive(Default)]
struct Root(BTreeSet<String>);

impl Root {
    fn query(&self, input: &[u8], suffix: u32) -> CacheQueryResult {
        let cache = Cache::new("cache".to_string());
        let id = Cache::hash_input(input, &[]);
        let exists = self.0.contains(&id.to_hex_lowercase());
        cache.query_with_suffix(id, exists, suffix)
    }

    fn create(&mut self, w: &CacheWriter) {
        self.0.insert(w.temp_dir().to_string());
    }

    fn finish(&mut self, w: &CacheWriter) {
        let seen = self.0.contains(w.final_dir());
        self.act(w.finish(seen));
    }

    fn act(&mut self, action: WriterAction) {
        match action {
            WriterAction::Discard { temp_dir } => {
                assert!(self.0.remove(&temp_dir));
            }
            WriterAction::Commit { temp_dir, final_dir } => {
                assert!(self.0.remove(&temp_dir));
                self.0.insert(final_dir);
            }
        }
    }
}

#[test]
fn a_written_entry_is_hit_afterwards() {
    let mut root = Root::default();
    let CacheQueryResult::Miss(w) = root.query(b"abc", 1) else { panic!("not a miss") };
    root.create(&w);
    assert!(matches!(root.query(b"abc", 2), CacheQueryResult::Miss(_)));
    root.finish(&w);
    match root.query(b"abc", 3) {
        CacheQueryResult::Hit(dir) => assert_eq!(dir, ABC),
        other => panic!("not a hit: {:?}", other),
    }
    assert_eq!(root.0.into_iter().collect::<Vec<_>>(), vec![ABC]);
}

#[test]
fn two_writers_leave_one_entry_and_no_temporary_directory() {
    // Each writer creates, looks and acts; try every order of the six steps.
    for schedule in 0u32..64 {
        if schedule.count_ones() != 3 {
            continue;
        }
        let mut root = Root::default();
        root.0.insert("another entry".to_string());
        let writers = [writer(b"abc", 10), writer(b"abc", 11)];
        let mut stage = [0, 0];
        let mut seen = [false, false];
        for step in 0..6 {
            let i = (schedule >> step & 1) as usize;
            match stage[i] {
                0 => root.create(&writers[i]),
                1 => seen[i] = root.0.contains(writers[i].final_dir()),
                _ => root.act(writers[i].finish(seen[i])),
            }
            stage[i] += 1;
        }
        assert_eq!(
            root.0.into_iter().collect::<Vec<_>>(),
            vec![ABC, "another entry"],
            "schedule {:06b}",
            schedule
        );
    }
}
