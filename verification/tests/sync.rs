use oxylos::config::DEFAULT_OUT_MSG;
use oxylos::errors::StorageError;
use oxylos::message::sync::{auto_sync, bidirectional_sync, drop_path, SyncPlan, SyncReport};
use oxylos::storage::fsio::{BlobWrite, Directory, Entry, FsView};
use oxylos::storage::paths::Platform;

fn file(path: &str, content: &[u8]) -> Entry {
    Entry { path: String::from(path), is_file: true, content: Some(content.to_vec()) }
}

fn dir(path: &str, entries: Vec<Entry>) -> Directory {
    Directory { path: String::from(path), entries }
}

fn landed(writes: &[BlobWrite]) -> Vec<Entry> {
    writes.iter().map(|w| file(&w.path, &w.content)).collect()
}

fn is_uuid(name: &str) -> bool {
    name.len() == 36
        && name.chars().enumerate().all(|(i, c)| {
            if i == 8 || i == 13 || i == 18 || i == 23 {
                c == '-'
            } else {
                c.is_ascii_digit() || ('a'..='f').contains(&c)
            }
        })
}

fn contents(writes: &[BlobWrite]) -> Vec<Vec<u8>> {
    writes.iter().map(|w| w.content.clone()).collect()
}

#[test]
fn outbox_blob_missing_from_the_dropboxes_is_copied_once() {
    let outbox = vec![file("out/a", b"content one"), file("out/b", b"content two")];
    let persistent = vec![file("/tmp/Oxylos/x", b"content two")];
    let ephemeral: Vec<Entry> = vec![];
    let plan = bidirectional_sync(
        &outbox,
        &[&persistent[..], &ephemeral[..]],
        "out/",
        "/tmp/Oxylos/",
    )
    .unwrap();
    let report = plan.report();
    assert_eq!(report.copied_to_remote, 1);
    assert_eq!(report.copied_to_local, 0);
    assert_eq!(report, SyncReport { copied_to_remote: 1, copied_to_local: 0 });
    assert_eq!(plan.to_remote[0].content, b"content one".to_vec());
    assert!(plan.to_remote[0].path.starts_with("/tmp/Oxylos/"));
    assert!(is_uuid(&plan.to_remote[0].path["/tmp/Oxylos/".len()..]));
    assert_eq!(outbox.len(), 2);
    assert_eq!(outbox[0].path, "out/a");
    assert_eq!(outbox[1].path, "out/b");
}

#[test]
fn second_sync_copies_nothing() {
    let mut outbox = vec![file("out/a", b"one"), file("out/b", b"two")];
    let mut persistent = vec![file("/p/x", b"two"), file("/p/y", b"three")];
    let ephemeral = vec![file("/r/z", b"four")];
    let first =
        bidirectional_sync(&outbox, &[&persistent[..], &ephemeral[..]], "out/", "/p/").unwrap();
    assert_eq!(first.report(), SyncReport { copied_to_remote: 1, copied_to_local: 2 });
    assert_eq!(contents(&first.to_remote), vec![b"one".to_vec()]);
    assert_eq!(contents(&first.to_local), vec![b"three".to_vec(), b"four".to_vec()]);
    outbox.extend(landed(&first.to_local));
    persistent.extend(landed(&first.to_remote));
    let second =
        bidirectional_sync(&outbox, &[&persistent[..], &ephemeral[..]], "out/", "/p/").unwrap();
    assert_eq!(second.report(), SyncReport { copied_to_remote: 0, copied_to_local: 0 });
    assert!(second.to_remote.is_empty());
    assert!(second.to_local.is_empty());
}

#[test]
fn same_bytes_under_other_names_are_not_copied() {
    let outbox = vec![file("out/first-name", b"identical bytes")];
    let ephemeral = vec![file("/dev/shm/Oxylos/second-name", b"identical bytes")];
    let persistent: Vec<Entry> = vec![];
    let plan = bidirectional_sync(
        &outbox,
        &[&persistent[..], &ephemeral[..]],
        "out/",
        "/tmp/Oxylos/",
    )
    .unwrap();
    assert_eq!(plan.report(), SyncReport { copied_to_remote: 0, copied_to_local: 0 });
}

#[test]
fn content_held_twice_on_one_side_is_copied_once_from_its_last_file() {
    let outbox = vec![
        file("out/1", b"dup"),
        file("out/2", b"solo"),
        file("out/3", b"dup"),
    ];
    let remote = vec![file("/p/a", b"far"), file("/p/b", b"far")];
    let plan = bidirectional_sync(&outbox, &[&remote[..]], "out/", "/p/").unwrap();
    assert_eq!(contents(&plan.to_remote), vec![b"solo".to_vec(), b"dup".to_vec()]);
    assert_eq!(contents(&plan.to_local), vec![b"far".to_vec()]);
    assert_ne!(plan.to_remote[0].path, plan.to_remote[1].path);
}

#[test]
fn sync_of_nothing_is_nothing() {
    let none: Vec<Entry> = vec![];
    let plan = bidirectional_sync(&none, &[], "out/", "/p/").unwrap();
    assert_eq!(plan.report(), SyncReport { copied_to_remote: 0, copied_to_local: 0 });
    let plan = bidirectional_sync(&none, &[&none[..], &none[..]], "out/", "/p/").unwrap();
    assert_eq!(plan.report(), SyncReport { copied_to_remote: 0, copied_to_local: 0 });
}

#[test]
fn empty_blobs_are_blobs() {
    let outbox = vec![file("out/empty", b"")];
    let remote = vec![file("/p/full", b"x")];
    let plan = bidirectional_sync(&outbox, &[&remote[..]], "out/", "/p/").unwrap();
    assert_eq!(contents(&plan.to_remote), vec![Vec::<u8>::new()]);
    assert_eq!(contents(&plan.to_local), vec![b"x".to_vec()]);
}

#[test]
fn unreadable_file_stops_the_sync() {
    let outbox = vec![
        file("out/a", b"one"),
        Entry { path: String::from("out/sub"), is_file: false, content: None },
    ];
    let remote = vec![Entry { path: String::from("/p/locked"), is_file: true, content: None }];
    match bidirectional_sync(&outbox, &[&remote[..]], "out/", "/p/") {
        Err(StorageError::Unreadable(path)) => assert_eq!(path, "out/sub"),
        _ => panic!("an unreadable file was expected"),
    }
    let fine = vec![file("out/a", b"one")];
    match bidirectional_sync(&fine, &[&remote[..]], "out/", "/p/") {
        Err(StorageError::Unreadable(path)) => assert_eq!(path, "/p/locked"),
        _ => panic!("an unreadable file was expected"),
    }
}

#[test]
fn drop_paths_are_the_destination_and_a_fresh_name() {
    let first = drop_path("storage/messages/");
    let second = drop_path("storage/messages/");
    assert!(first.starts_with("storage/messages/"));
    assert!(is_uuid(&first["storage/messages/".len()..]));
    assert!(is_uuid(&second["storage/messages/".len()..]));
    assert_ne!(first, second);
    assert!(is_uuid(&drop_path("")));
}

#[test]
fn auto_sync_joins_the_outbox_and_the_platform_dropboxes() {
    let view = FsView {
        dirs: vec![
            dir(DEFAULT_OUT_MSG, vec![file("storage/messages/a", b"one")]),
            dir("/tmp/Oxylos/", vec![file("/tmp/Oxylos/x", b"two")]),
            dir("/dev/shm/Oxylos/", vec![file("/dev/shm/Oxylos/y", b"one")]),
        ],
    };
    let plan = auto_sync(&view, Platform::Unix).unwrap();
    assert_eq!(plan.report(), SyncReport { copied_to_remote: 0, copied_to_local: 1 });
    assert_eq!(plan.to_local[0].content, b"two".to_vec());
    assert!(plan.to_local[0].path.starts_with("storage/messages/"));
    let plan = auto_sync(&view, Platform::MacOs).unwrap();
    assert_eq!(plan.report(), SyncReport { copied_to_remote: 1, copied_to_local: 1 });
    assert!(plan.to_remote[0].path.starts_with("/tmp/Oxylos/"));
    assert_eq!(plan.to_remote[0].content, b"one".to_vec());
}

#[test]
fn auto_sync_without_dropboxes_copies_nothing() {
    let view = FsView {
        dirs: vec![dir(
            DEFAULT_OUT_MSG,
            vec![file("storage/messages/a", b"one"), file("storage/messages/b", b"two")],
        )],
    };
    let plan = auto_sync(&view, Platform::Unix).unwrap();
    assert_eq!(plan.report(), SyncReport { copied_to_remote: 0, copied_to_local: 0 });
    let plan = auto_sync(&view, Platform::Windows).unwrap();
    assert_eq!(plan.report(), SyncReport { copied_to_remote: 0, copied_to_local: 0 });
}

#[test]
fn auto_sync_copies_nothing_into_a_missing_dropbox() {
    let view = FsView {
        dirs: vec![
            dir(DEFAULT_OUT_MSG, vec![file("storage/messages/a", b"one")]),
            dir("/dev/shm/Oxylos/", vec![file("/dev/shm/Oxylos/y", b"two")]),
        ],
    };
    let plan = auto_sync(&view, Platform::Unix).unwrap();
    assert_eq!(plan.report(), SyncReport { copied_to_remote: 0, copied_to_local: 1 });
    assert_eq!(plan.to_local[0].content, b"two".to_vec());
}

#[test]
fn auto_sync_needs_the_outbox() {
    let view = FsView { dirs: vec![dir("/tmp/Oxylos/", vec![file("/tmp/Oxylos/x", b"two")])] };
    match auto_sync(&view, Platform::Unix) {
        Err(StorageError::MissingDirectory(path)) => assert_eq!(path, DEFAULT_OUT_MSG),
        _ => panic!("a missing outbox was expected"),
    }
}

#[test]
fn report_counts_the_writes_of_the_plan() {
    let plan = SyncPlan {
        to_remote: vec![
            BlobWrite { path: String::from("/p/1"), content: vec![1] },
            BlobWrite { path: String::from("/p/2"), content: vec![2] },
        ],
        to_local: vec![BlobWrite { path: String::from("out/3"), content: vec![3] }],
    };
    assert_eq!(plan.report(), SyncReport { copied_to_remote: 2, copied_to_local: 1 });
}
