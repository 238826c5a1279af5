use openssl::pkey::PKey;
use openssl::rsa::Rsa;
use oxylos::crypto::rsa::encrypt_with_pub;
use oxylos::errors::CryptoError;
use oxylos::message::scan::{
    get_intended_messages, get_intended_messages_in_with_pass, get_intended_messages_with_pass,
    keep_opened, missing_dropboxes, search_messages, search_messages_in, trials,
};
use oxylos::storage::fsio::{Directory, Entry, FsView};
use oxylos::storage::paths::Platform;

fn test_keys() -> (String, String) {
    let rsa = Rsa::generate(2048).unwrap();
    let pkey = PKey::from_rsa(rsa).unwrap();
    let pk_pem = String::from_utf8(pkey.public_key_to_pem().unwrap()).unwrap();
    let sk_pem = String::from_utf8(pkey.private_key_to_pem_pkcs8().unwrap()).unwrap();
    (pk_pem, sk_pem)
}

fn file(path: &str, content: &[u8]) -> Entry {
    Entry { path: String::from(path), is_file: true, content: Some(content.to_vec()) }
}

fn dir(path: &str, entries: Vec<Entry>) -> Directory {
    Directory { path: String::from(path), entries }
}

#[test]
fn search_messages_missing_dirs_yields_empty_ok() {
    let view = FsView::new();
    let list = search_messages_in(&view, "/this/does/not/exist", "/neither/does/this");
    assert!(list.is_empty());
}

#[test]
fn get_intended_messages_returns_only_decryptable() {
    let rsa = Rsa::generate(2048).unwrap();
    let pkey = PKey::from_rsa(rsa).unwrap();
    let pk_pem = String::from_utf8(pkey.public_key_to_pem().unwrap()).unwrap();
    let sk_pem = String::from_utf8(pkey.private_key_to_pem_pkcs8().unwrap()).unwrap();
    let msg1 = b"alpha";
    let msg2 = b"bravo";
    let c1 = encrypt_with_pub(msg1, &pk_pem).unwrap();
    let c2 = encrypt_with_pub(msg2, &pk_pem).unwrap();
    let view = FsView {
        dirs: vec![
            dir(
                "/d/persistent",
                vec![
                    file("/d/persistent/m1.msg", &c1),
                    file("/d/persistent/noise.bin", b"\x01\x02\x03\x04\x05"),
                ],
            ),
            dir("/d/ram", vec![file("/d/ram/m2.msg", &c2)]),
        ],
    };
    let list =
        get_intended_messages_in_with_pass(&view, &sk_pem, None, "/d/persistent", "/d/ram")
            .unwrap();
    assert_eq!(list.len(), 2);
    let plains: Vec<String> =
        list.iter().map(|(_, v)| String::from_utf8_lossy(v).to_string()).collect();
    assert!(plains.contains(&"alpha".to_string()));
    assert!(plains.contains(&"bravo".to_string()));
}

#[test]
fn found_messages_come_with_their_paths_ephemeral_dropbox_first() {
    let (pk_pem, sk_pem) = test_keys();
    let c1 = encrypt_with_pub(b"alpha", &pk_pem).unwrap();
    let c2 = encrypt_with_pub(b"bravo", &pk_pem).unwrap();
    let view = FsView {
        dirs: vec![
            dir("/p/", vec![file("/p/noise", b"garbage"), file("/p/m1", &c1)]),
            dir("/r/", vec![file("/r/m2", &c2)]),
        ],
    };
    let list = get_intended_messages_in_with_pass(&view, &sk_pem, None, "/p/", "/r/").unwrap();
    assert_eq!(
        list,
        vec![
            (String::from("/r/m2"), b"bravo".to_vec()),
            (String::from("/p/m1"), b"alpha".to_vec()),
        ]
    );
}

#[test]
fn blobs_for_somebody_else_and_other_entries_are_passed_over() {
    let (pk_pem, sk_pem) = test_keys();
    let (other_pk, _) = test_keys();
    let mine = encrypt_with_pub(b"for me", &pk_pem).unwrap();
    let theirs = encrypt_with_pub(b"for them", &other_pk).unwrap();
    let mut damaged = mine.clone();
    damaged[10] ^= 0xff;
    let view = FsView {
        dirs: vec![dir(
            "/p/",
            vec![
                file("/p/theirs", &theirs),
                file("/p/damaged", &damaged),
                file("/p/empty", b""),
                Entry { path: String::from("/p/sub"), is_file: false, content: None },
                Entry { path: String::from("/p/link"), is_file: false, content: Some(mine.clone()) },
                Entry { path: String::from("/p/locked"), is_file: true, content: None },
                file("/p/mine", &mine),
            ],
        )],
    };
    let list = get_intended_messages_in_with_pass(&view, &sk_pem, None, "/p/", "/r/").unwrap();
    assert_eq!(list, vec![(String::from("/p/mine"), b"for me".to_vec())]);
    let entries = search_messages_in(&view, "/p/", "/r/");
    let picked: Vec<&str> = trials(&entries).iter().map(|e| e.path.as_str()).collect();
    assert_eq!(picked, vec!["/p/theirs", "/p/damaged", "/p/empty", "/p/mine"]);
}

#[test]
fn one_missing_dropbox_does_not_hide_the_other() {
    let (pk_pem, sk_pem) = test_keys();
    let c1 = encrypt_with_pub(b"alpha", &pk_pem).unwrap();
    let view = FsView { dirs: vec![dir("/p/", vec![file("/p/m1", &c1)])] };
    assert_eq!(search_messages_in(&view, "/p/", "/r/").len(), 1);
    let list = get_intended_messages_in_with_pass(&view, &sk_pem, None, "/p/", "/r/").unwrap();
    assert_eq!(list, vec![(String::from("/p/m1"), b"alpha".to_vec())]);
    let lines = missing_dropboxes(&view, "/p/", "/r/");
    assert_eq!(lines, vec![String::from("Couldn't find RAM folder at /r/")]);
}

#[test]
fn missing_dropboxes_are_reported_and_yield_nothing() {
    let (_, sk_pem) = test_keys();
    let view = FsView::new();
    let list = get_intended_messages_in_with_pass(
        &view,
        &sk_pem,
        None,
        "/this/does/not/exist",
        "/neither/does/this",
    )
    .unwrap();
    assert!(list.is_empty());
    assert!(get_intended_messages(&view, Platform::Unix, &sk_pem).unwrap().is_empty());
    assert!(get_intended_messages(&view, Platform::Unix, "no key").unwrap().is_empty());
    let lines = missing_dropboxes(&view, "/this/does/not/exist", "/neither/does/this");
    assert_eq!(
        lines,
        vec![
            String::from("Couldn't find persistent folder at /this/does/not/exist"),
            String::from("Couldn't find RAM folder at /neither/does/this"),
        ]
    );
    let present = FsView { dirs: vec![dir("/p/", vec![]), dir("/r/", vec![])] };
    assert!(missing_dropboxes(&present, "/p/", "/r/").is_empty());
}

#[test]
fn platform_dropboxes_are_the_ones_scanned() {
    let (pk_pem, sk_pem) = test_keys();
    let c1 = encrypt_with_pub(b"alpha", &pk_pem).unwrap();
    let c2 = encrypt_with_pub(b"bravo", &pk_pem).unwrap();
    let c3 = encrypt_with_pub(b"charlie", &pk_pem).unwrap();
    let view = FsView {
        dirs: vec![
            dir("/tmp/Oxylos/", vec![file("/tmp/Oxylos/1", &c1)]),
            dir("/dev/shm/Oxylos/", vec![file("/dev/shm/Oxylos/2", &c2)]),
            dir("/tmp/Oxylos.shm/", vec![file("/tmp/Oxylos.shm/3", &c3)]),
        ],
    };
    assert_eq!(search_messages(&view, Platform::Unix).len(), 2);
    assert_eq!(search_messages(&view, Platform::Windows).len(), 0);
    let unix = get_intended_messages(&view, Platform::Unix, &sk_pem).unwrap();
    assert_eq!(
        unix,
        vec![
            (String::from("/dev/shm/Oxylos/2"), b"bravo".to_vec()),
            (String::from("/tmp/Oxylos/1"), b"alpha".to_vec()),
        ]
    );
    let mac = get_intended_messages_with_pass(&view, Platform::MacOs, &sk_pem, None).unwrap();
    assert_eq!(
        mac,
        vec![
            (String::from("/tmp/Oxylos.shm/3"), b"charlie".to_vec()),
            (String::from("/tmp/Oxylos/1"), b"alpha".to_vec()),
        ]
    );
    assert!(get_intended_messages(&view, Platform::Windows, &sk_pem).unwrap().is_empty());
}

#[test]
fn unusable_key_fails_the_scan() {
    let (pk_pem, sk_pem) = test_keys();
    let c1 = encrypt_with_pub(b"alpha", &pk_pem).unwrap();
    let view = FsView {
        dirs: vec![dir("/p/", vec![file("/p/m1", &c1)]), dir("/r/", vec![file("/r/x", b"x")])],
    };
    match get_intended_messages_in_with_pass(&view, "no key", None, "/p/", "/r/") {
        Err(e) => assert!(e.to_string().starts_with("private: ")),
        Ok(_) => panic!("a key that cannot be loaded was taken"),
    }
    match get_intended_messages_in_with_pass(&view, "no key", Some(b"pw"), "/p/", "/r/") {
        Err(e) => assert!(e.to_string().starts_with("private+pass: ")),
        Ok(_) => panic!("a key that cannot be loaded was taken"),
    }
    match get_intended_messages_in_with_pass(&view, &sk_pem, Some(b"a\0b"), "/p/", "/r/") {
        Err(e) => assert_eq!(e.to_string(), "the passphrase holds a zero byte"),
        Ok(_) => panic!("a passphrase with a zero byte was taken"),
    }
    assert!(get_intended_messages(&view, Platform::Unix, "no key").unwrap().is_empty());
    match get_intended_messages_with_pass(
        &FsView { dirs: vec![dir("/tmp/Oxylos/", vec![file("/tmp/Oxylos/m1", &c1)])] },
        Platform::Unix,
        "no key",
        None,
    ) {
        Err(e) => assert!(e.to_string().starts_with("private: ")),
        Ok(_) => panic!("a key that cannot be loaded was taken"),
    }
}

#[test]
fn key_is_not_needed_where_there_is_no_blob() {
    let view = FsView {
        dirs: vec![
            dir("/p/", vec![Entry { path: String::from("/p/sub"), is_file: false, content: None }]),
            dir("/r/", vec![]),
        ],
    };
    let found = get_intended_messages_in_with_pass(&view, "no key", None, "/p/", "/r/").unwrap();
    assert!(found.is_empty());
}

#[test]
fn outcome_of_a_trial_is_kept_or_dropped() {
    let mut found = vec![(String::from("/p/0"), b"zero".to_vec())];
    keep_opened(&mut found, "/p/1", Ok(b"one".to_vec()));
    keep_opened(&mut found, "/p/2", Err(CryptoError::OpenSsl(String::from("decryption failed"))));
    keep_opened(&mut found, "/p/3", Ok(Vec::new()));
    assert_eq!(
        found,
        vec![
            (String::from("/p/0"), b"zero".to_vec()),
            (String::from("/p/1"), b"one".to_vec()),
            (String::from("/p/3"), Vec::new()),
        ]
    );
}
