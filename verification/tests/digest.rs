use mist::digest::{digest_walk, hash_metadata, Entry, EntryKind};
use std::hash::{Hash, Hasher};

fn file(path: &str, size: u64) -> Entry {
    Entry { path: path.as_bytes().to_vec(), kind: EntryKind::File, size, modified: 0 }
}

fn other(path: &str, kind: EntryKind) -> Entry {
    Entry { path: path.as_bytes().to_vec(), kind, size: 4096, modified: 0 }
}

/// The digest as a streaming hasher yields it when names and sizes are fed
/// to it one by one, in the order given.
fn streamed(files: &[(&str, u64)]) -> u64 {
    let mut h = twox_hash::XxHash64::with_seed(42);
    for (name, size) in files {
        let name: &[u8] = name.as_bytes();
        h.write(&(name.len() as u64).to_le_bytes());
        h.write(name);
        h.write(&size.to_le_bytes());
    }
    h.finish()
}

#[test]
fn digest_of_an_empty_tree() {
    assert_eq!(hash_metadata(&vec![]), 0x98b1_582b_0977_e704);
    assert_eq!(hash_metadata(&vec![]), twox_hash::XxHash64::with_seed(42).finish());
    assert_eq!(hash_metadata(&vec![other("root", EntryKind::Directory)]), hash_metadata(&vec![]));
}

#[test]
fn digest_of_one_file() {
    let d = hash_metadata(&vec![file("root/notes.txt", 120)]);
    assert_eq!(d, 0x25e2_2790_e72b_65da);
    assert_eq!(d, streamed(&[("notes.txt", 120)]));
}

#[test]
fn digest_feeds_names_and_sizes_in_path_order() {
    let listing = vec![
        other("root", EntryKind::Directory),
        file("root/b.txt", 2),
        other("root/sub", EntryKind::Directory),
        file("root/sub/z", 26),
        file("root/a.txt", 1),
        file("root/sub/a", 7),
    ];
    let d = hash_metadata(&listing);
    assert_eq!(d, streamed(&[("a.txt", 1), ("b.txt", 2), ("a", 7), ("z", 26)]));
}

#[test]
fn digest_does_not_depend_on_listing_order() {
    let a = vec![file("r/x", 1), file("r/y", 2), file("r/d/z", 3), file("r/a", 4)];
    let b = vec![file("r/a", 4), file("r/d/z", 3), file("r/y", 2), file("r/x", 1)];
    let c = vec![file("r/y", 2), file("r/a", 4), file("r/x", 1), file("r/d/z", 3)];
    assert_eq!(hash_metadata(&a), hash_metadata(&b));
    assert_eq!(hash_metadata(&a), hash_metadata(&c));
}

#[test]
fn digest_is_repeatable() {
    let a = vec![file("r/x", 1), other("r/d", EntryKind::Directory), file("r/d/z", 3)];
    assert_eq!(hash_metadata(&a), hash_metadata(&a));
}

#[test]
fn digest_ignores_modification_times() {
    let mut a = vec![file("r/x", 10), file("r/y", 20)];
    let before = hash_metadata(&a);
    a[0].modified = 1_700_000_000;
    a[1].modified = 1;
    assert_eq!(hash_metadata(&a), before);
}

#[test]
fn digest_changes_with_a_size() {
    let a = vec![file("r/x", 10), file("r/y", 20)];
    let b = vec![file("r/x", 10), file("r/y", 21)];
    assert_ne!(hash_metadata(&a), hash_metadata(&b));
}

#[test]
fn digest_changes_with_a_name() {
    let a = vec![file("r/x", 10), file("r/y", 20)];
    let b = vec![file("r/x", 10), file("r/w", 20)];
    assert_ne!(hash_metadata(&a), hash_metadata(&b));
}

#[test]
fn digest_tells_where_one_name_ends() {
    let a = vec![file("r/ab", 1), file("r/c", 1)];
    let b = vec![file("r/a", 1), file("r/bc", 1)];
    assert_ne!(hash_metadata(&a), hash_metadata(&b));
}

#[test]
fn digest_skips_what_is_no_regular_file() {
    let plain = vec![file("r/x", 10)];
    let mixed = vec![
        other("r", EntryKind::Directory),
        other("r/link", EntryKind::Other),
        file("r/x", 10),
        other("r/locked", EntryKind::Unreadable),
    ];
    assert_eq!(hash_metadata(&mixed), hash_metadata(&plain));
}

#[test]
fn digest_takes_only_the_file_name_of_a_path() {
    let a = vec![file("left/deep/name", 5)];
    let b = vec![file("name", 5)];
    assert_eq!(hash_metadata(&a), hash_metadata(&b));
}

#[test]
fn digest_agrees_with_hashing_names_and_sizes_as_std_does() {
    let listing = vec![file("root/b.txt", 2), file("root/a.txt", 1)];
    assert_eq!(hash_metadata(&listing), 0x4e2b_5e8a_7958_57b7);
    let mut h = twox_hash::XxHash64::with_seed(42);
    for (name, size) in [("a.txt", 1u64), ("b.txt", 2u64)] {
        std::path::Path::new(name).file_name().unwrap().hash(&mut h);
        size.hash(&mut h);
    }
    if 1u64.to_ne_bytes() == 1u64.to_le_bytes() && std::mem::size_of::<usize>() == 8 {
        assert_eq!(hash_metadata(&listing), h.finish());
    }
}

#[test]
fn a_walk_without_a_root_has_no_digest() {
    assert_eq!(digest_walk(&None), None);
}

#[test]
fn a_walk_has_the_digest_of_its_entries() {
    let listing = vec![file("r/x", 10), other("r/locked", EntryKind::Unreadable)];
    assert_eq!(digest_walk(&Some(listing.clone())), Some(hash_metadata(&listing)));
    assert_eq!(digest_walk(&Some(vec![])), Some(hash_metadata(&vec![])));
}

#[test]
fn files_with_equal_names_are_fed_in_path_order() {
    let listing = vec![file("r/z/n", 1), file("r/a/n", 2)];
    assert_eq!(hash_metadata(&listing), streamed(&[("n", 2), ("n", 1)]));
    assert_ne!(hash_metadata(&listing), streamed(&[("n", 1), ("n", 2)]));
}
