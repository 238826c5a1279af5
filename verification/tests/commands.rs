use openssl::pkey::PKey;
use openssl::rsa::Rsa;
use oxylos::cli::Args;
use oxylos::commands::{decrypt, dispatch, encrypt, inbox, Command};
use oxylos::crypto::rsa::{decrypt_with_priv, encrypt_with_pub};
use oxylos::errors::{CommandError, UsageError};
use oxylos::storage::fsio::{Directory, Entry, FsView};
use oxylos::storage::paths::Platform;

fn test_keys() -> (String, String) {
    let rsa = Rsa::generate(2048).unwrap();
    let pkey = PKey::from_rsa(rsa).unwrap();
    let pk_pem = String::from_utf8(pkey.public_key_to_pem().unwrap()).unwrap();
    let sk_pem = String::from_utf8(pkey.private_key_to_pem_pkcs8().unwrap()).unwrap();
    (pk_pem, sk_pem)
}

fn args() -> Args {
    Args {
        encrypt: false,
        decrypt: false,
        inbox: false,
        path: None,
        generate_new_keys: false,
        public_key: String::from("storage/keys/public.pem"),
        private_key: String::from("storage/keys/private.pem"),
        passphrase: None,
    }
}

#[test]
fn flags_select_the_command() {
    assert_eq!(dispatch(&args()), Command::Scan);
    assert_eq!(dispatch(&Args { encrypt: true, ..args() }), Command::Encrypt);
    assert_eq!(dispatch(&Args { decrypt: true, ..args() }), Command::Decrypt);
    assert_eq!(dispatch(&Args { inbox: true, ..args() }), Command::Inbox);
    assert_eq!(dispatch(&Args { generate_new_keys: true, ..args() }), Command::GenerateKeys);
}

#[test]
fn earlier_flags_win() {
    let all = Args { encrypt: true, decrypt: true, inbox: true, generate_new_keys: true, ..args() };
    assert_eq!(dispatch(&all), Command::GenerateKeys);
    let three = Args { encrypt: true, decrypt: true, inbox: true, ..args() };
    assert_eq!(dispatch(&three), Command::Encrypt);
    let two = Args { decrypt: true, inbox: true, ..args() };
    assert_eq!(dispatch(&two), Command::Decrypt);
}

#[test]
fn passphrase_is_handed_on_as_bytes() {
    assert_eq!(args().passphrase_bytes(), None);
    let with = Args { passphrase: Some(String::from("s\u{e9}same")), ..args() };
    assert_eq!(with.passphrase_bytes(), Some("s\u{e9}same".as_bytes()));
}

#[test]
fn decrypt_needs_a_path() {
    match decrypt::input_path(&args()) {
        Err(e) => {
            assert_eq!(e, UsageError::PathRequired);
            assert_eq!(e.to_string(), "--path is required for --decrypt");
        }
        Ok(_) => panic!("a usage error was expected"),
    }
    let with = Args { path: Some(String::from("/tmp/Oxylos/blob")), ..args() };
    assert_eq!(decrypt::input_path(&with).unwrap(), "/tmp/Oxylos/blob");
}

#[test]
fn decrypt_command_opens_the_blob() {
    let (pk_pem, sk_pem) = test_keys();
    let cipher = encrypt_with_pub(b"Author: me\nhi", &pk_pem).unwrap();
    let with = Args { path: Some(String::from("/tmp/Oxylos/blob")), ..args() };
    let plain = decrypt::run(&with, &sk_pem, &cipher).unwrap();
    assert_eq!(plain, b"Author: me\nhi".to_vec());
    match decrypt::run(&with, &sk_pem, b"garbage") {
        Err(CommandError::Crypto(e)) => assert_eq!(e.to_string(), "decryption failed"),
        _ => panic!("a failed decryption was expected"),
    }
    match decrypt::run(&with, "no key", &cipher) {
        Err(e) => assert!(e.to_string().starts_with("private: ")),
        Ok(_) => panic!("a key error was expected"),
    }
}

#[test]
fn decrypt_command_fails_without_a_path() {
    let (pk_pem, sk_pem) = test_keys();
    let cipher = encrypt_with_pub(b"Author: me\nhi", &pk_pem).unwrap();
    match decrypt::run(&args(), &sk_pem, &cipher) {
        Err(e) => {
            assert!(matches!(e, CommandError::Usage(UsageError::PathRequired)));
            assert_eq!(e.to_string(), "--path is required for --decrypt");
        }
        Ok(_) => panic!("a usage error was expected"),
    }
    assert!(matches!(
        decrypt::run(&args(), "no key", b""),
        Err(CommandError::Usage(UsageError::PathRequired))
    ));
}

#[test]
fn payload_names_the_author_and_loses_trailing_white_space() {
    assert_eq!(encrypt::compose_payload("ann\n", "hello\n"), "Author: ann\n\nhello");
    assert_eq!(encrypt::compose_payload("ann", "hello  \t\r\n \n"), "Author: ann\nhello");
    assert_eq!(encrypt::compose_payload("", ""), "Author:");
    assert_eq!(encrypt::compose_payload("ann\n", ""), "Author: ann");
    assert_eq!(encrypt::compose_payload("  ann", "  hi"), "Author:   ann\n  hi");
    assert_eq!(encrypt::compose_payload("z\u{fc}rich", "gr\u{fc}\u{df}e\u{a0}\u{2003}"), "Author: z\u{fc}rich\ngr\u{fc}\u{df}e");
}

#[test]
fn trimming_matches_the_standard_library() {
    for text in ["", " ", "a", "a ", " a", "a b \n", "\n\n", "tab\t", "nb\u{a0}", "x\u{3000}\u{2028}", "  x  y  "] {
        assert_eq!(encrypt::trim_end(text), text.trim_end());
    }
}

#[test]
fn encrypt_command_stores_the_blob_in_the_outbox() {
    let (pk_pem, sk_pem) = test_keys();
    let write = encrypt::run(&args(), "ann\n", "hello\n", &pk_pem).unwrap();
    assert!(write.path.starts_with("storage/messages/"));
    assert_eq!(write.path.len(), "storage/messages/".len() + 36);
    let plain = decrypt_with_priv(&write.content, &sk_pem, None).unwrap();
    assert_eq!(plain, b"Author: ann\n\nhello".to_vec());
}

#[test]
fn encrypt_command_stores_the_blob_where_it_is_told() {
    let (pk_pem, _) = test_keys();
    let with = Args { path: Some(String::from("/tmp/Oxylos/direct")), ..args() };
    let write = encrypt::run(&with, "ann", "hello", &pk_pem).unwrap();
    assert_eq!(write.path, "/tmp/Oxylos/direct");
    assert_eq!(write.content.len(), 256);
    assert!(encrypt::run(&with, "ann", "hello", "no key").is_err());
}

#[test]
fn blob_goes_to_the_given_path_or_to_the_fresh_one() {
    let with = Args { path: Some(String::from("/tmp/Oxylos/direct")), ..args() };
    let write = encrypt::blob_for(&with, vec![1, 2, 3], String::from("storage/messages/fresh"));
    assert_eq!(write.path, "/tmp/Oxylos/direct");
    assert_eq!(write.content, vec![1, 2, 3]);
    let write = encrypt::blob_for(&args(), vec![4], String::from("storage/messages/fresh"));
    assert_eq!(write.path, "storage/messages/fresh");
    assert_eq!(write.content, vec![4]);
}

#[test]
fn inbox_prints_each_message_after_its_path() {
    let found = vec![
        (String::from("/r/m2"), b"bravo".to_vec()),
        (String::from("/p/m1"), b"alpha\n".to_vec()),
    ];
    assert_eq!(inbox::render(&found), b"/r/m2\n---\nbravo\n/p/m1\n---\nalpha\n\n".to_vec());
    assert!(inbox::render(&Vec::new()).is_empty());
}

#[test]
fn inbox_command_shows_what_the_key_opens() {
    let (pk_pem, sk_pem) = test_keys();
    let cipher = encrypt_with_pub(b"Author: ann\nhello", &pk_pem).unwrap();
    let view = FsView {
        dirs: vec![Directory {
            path: String::from("/tmp/Oxylos/"),
            entries: vec![
                Entry { path: String::from("/tmp/Oxylos/noise"), is_file: true, content: Some(vec![9; 256]) },
                Entry { path: String::from("/tmp/Oxylos/blob"), is_file: true, content: Some(cipher) },
            ],
        }],
    };
    let out = inbox::run(&args(), &view, Platform::Unix, &sk_pem).unwrap();
    assert_eq!(out, b"/tmp/Oxylos/blob\n---\nAuthor: ann\nhello\n".to_vec());
    assert!(inbox::run(&args(), &view, Platform::Windows, &sk_pem).unwrap().is_empty());
    assert!(inbox::run(&args(), &view, Platform::Windows, "no key").unwrap().is_empty());
    match inbox::run(&args(), &view, Platform::Unix, "no key") {
        Err(e) => assert!(e.to_string().starts_with("private: ")),
        Ok(_) => panic!("a key error was expected"),
    }
}
