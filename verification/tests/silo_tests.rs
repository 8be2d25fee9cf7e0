use aes_gcm::aead::{Aead, KeyInit};
use aura::silo::{
    is_silo_file, should_purge, silo_file_name, Cookie, SiloError, SiloManager,
};

fn hex(bytes: &[u8]) -> String {
    bytes.iter().map(|b| format!("{:02x}", b)).collect()
}

#[test]
fn silo_file_is_named_by_domain_hash() {
    assert_eq!(
        silo_file_name("github.com"),
        "3aeb002460381c6f258e8395d3026f571f0d9a76488dcd837639b13aed316560.silo.db"
    );
    assert_eq!(
        silo_file_name(""),
        "e3b0c44298fc1c149afbf4c8996fb92427ae41e4649b934ca495991b7852b855.silo.db"
    );
}

#[test]
fn silo_names_never_leave_the_directory() {
    for domain in ["../../etc/passwd", "a/b", "..", "\\evil", "\u{1f600}.example"] {
        let name = silo_file_name(domain);
        assert_eq!(name.len(), 72);
        assert!(!name.contains('/') && !name.contains('\\'));
        assert!(name[..64].chars().all(|c| c.is_ascii_digit() || ('a'..='f').contains(&c)));
        assert!(name.ends_with(".silo.db"));
    }
}

fn silo_cipher(master: &[u8; 32], domain: &str) -> aes_gcm::Aes256Gcm {
    let hk = hkdf::Hkdf::<sha2::Sha256>::new(None, master);
    let mut key = [0u8; 32];
    hk.expand(domain.as_bytes(), &mut key).unwrap();
    aes_gcm::Aes256Gcm::new(aes_gcm::Key::<aes_gcm::Aes256Gcm>::from_slice(&key))
}

#[test]
fn gcm_known_answers() {
    let master = [0u8; 32];
    let m = SiloManager::new("/tmp".into(), master);
    let cipher = silo_cipher(&master, "github.com");
    let empty = m.seal_with_nonce("github.com", &[0u8; 12], &[]).unwrap();
    let expected = cipher.encrypt(aes_gcm::Nonce::from_slice(&[0u8; 12]), &[][..]).unwrap();
    assert_eq!(hex(&empty), format!("{}{}", "00".repeat(12), hex(&expected)));
    assert_eq!(empty.len(), 12 + 16);
    let block = m.seal_with_nonce("github.com", &[0u8; 12], &[0u8; 16]).unwrap();
    let expected = cipher.encrypt(aes_gcm::Nonce::from_slice(&[0u8; 12]), &[0u8; 16][..]).unwrap();
    assert_eq!(block[..12], [0u8; 12]);
    assert_eq!(block[12..], expected[..]);
    // Not the master key itself.
    let raw = aes_gcm::Aes256Gcm::new(aes_gcm::Key::<aes_gcm::Aes256Gcm>::from_slice(&master));
    let under_master = raw.encrypt(aes_gcm::Nonce::from_slice(&[0u8; 12]), &[][..]).unwrap();
    assert_eq!(hex(&under_master), "530f8afbc74536b9a963b4f1c4cb738b");
    assert_ne!(empty[12..], under_master[..]);
}

#[test]
fn each_silo_has_its_own_key() {
    let m = SiloManager::new("/tmp".into(), [5u8; 32]);
    let a = m.seal_with_nonce("github.com", &[1u8; 12], b"same value").unwrap();
    let b = m.seal_with_nonce("example.org", &[1u8; 12], b"same value").unwrap();
    assert_eq!(a.len(), b.len());
    assert_eq!(a[..12], b[..12]);
    assert_ne!(a[12..], b[12..]);
    assert_eq!(m.decrypt_value("github.com", &a).unwrap(), b"same value");
    assert_eq!(m.decrypt_value("example.org", &a).err(), Some(SiloError::DecryptionFailed));
}

#[test]
fn sealed_value_opens_to_plaintext() {
    let key = [7u8; 32];
    let m = SiloManager::new("/tmp".into(), key);
    let plaintext = b"session=abc123";
    let sealed = m.encrypt_value("github.com", plaintext).unwrap();
    assert_eq!(sealed.len(), 12 + plaintext.len() + 16);
    assert_ne!(&sealed[12..12 + plaintext.len()], &plaintext[..]);
    let opened = silo_cipher(&key, "github.com")
        .decrypt(aes_gcm::Nonce::from_slice(&sealed[..12]), &sealed[12..])
        .unwrap();
    assert_eq!(opened, plaintext);
    assert_eq!(m.decrypt_value("github.com", &sealed).unwrap(), plaintext);
}

#[test]
fn empty_value_round_trips() {
    let m = SiloManager::new("/tmp".into(), [8u8; 32]);
    let sealed = m.encrypt_value("a.example", b"").unwrap();
    assert_eq!(sealed.len(), 28);
    assert_eq!(m.decrypt_value("a.example", &sealed).unwrap(), Vec::<u8>::new());
}

#[test]
fn damaged_values_do_not_open() {
    let m = SiloManager::new("/tmp".into(), [7u8; 32]);
    let sealed = m.encrypt_value("github.com", b"session=abc123").unwrap();
    let mut tampered = sealed.clone();
    tampered[20] ^= 1;
    assert_eq!(m.decrypt_value("github.com", &tampered).err(), Some(SiloError::DecryptionFailed));
    let mut wrong_nonce = sealed.clone();
    wrong_nonce[0] ^= 0x80;
    assert_eq!(m.decrypt_value("github.com", &wrong_nonce).err(), Some(SiloError::DecryptionFailed));
    assert_eq!(m.decrypt_value("github.com", &sealed[..11]).err(), Some(SiloError::DecryptionFailed));
    assert_eq!(m.decrypt_value("github.com", &sealed[..12]).err(), Some(SiloError::DecryptionFailed));
    assert_eq!(m.decrypt_value("github.com", &[]).err(), Some(SiloError::DecryptionFailed));
    let other = SiloManager::new("/tmp".into(), [9u8; 32]);
    assert_eq!(other.decrypt_value("github.com", &sealed).err(), Some(SiloError::DecryptionFailed));
}

#[test]
fn fresh_nonces_differ() {
    let m = SiloManager::new("/tmp".into(), [1u8; 32]);
    let a = m.encrypt_value("x.org", b"same").unwrap();
    let b = m.encrypt_value("x.org", b"same").unwrap();
    assert_ne!(a, b);
}

#[test]
fn stored_key_is_used() {
    let stored = "00".repeat(32);
    let (m, to_store) = SiloManager::init("/silos".into(), Some(stored)).unwrap();
    assert!(to_store.is_none());
    assert_eq!(m.base_dir(), "/silos");
    let reference = SiloManager::new("/silos".into(), [0u8; 32]);
    assert_eq!(
        m.seal_with_nonce("x.org", &[3u8; 12], b"v").unwrap(),
        reference.seal_with_nonce("x.org", &[3u8; 12], b"v").unwrap()
    );
}

#[test]
fn stored_key_in_upper_case() {
    let stored = "AB".repeat(32);
    let (m, _) = SiloManager::init("/silos".into(), Some(stored)).unwrap();
    let reference = SiloManager::new("/silos".into(), [0xabu8; 32]);
    assert_eq!(
        m.seal_with_nonce("x.org", &[0u8; 12], b"v").unwrap(),
        reference.seal_with_nonce("x.org", &[0u8; 12], b"v").unwrap()
    );
}

#[test]
fn stored_key_that_is_not_hex_fails() {
    assert_eq!(
        SiloManager::init("/s".into(), Some("zz".into())).err(),
        Some(SiloError::EncryptionFailed)
    );
    assert_eq!(
        SiloManager::init("/s".into(), Some("abc".into())).err(),
        Some(SiloError::EncryptionFailed)
    );
}

#[test]
fn missing_key_is_generated_and_handed_back() {
    let (m, to_store) = SiloManager::init("/s".into(), None).unwrap();
    let stored = to_store.unwrap();
    assert_eq!(stored.len(), 64);
    assert!(stored.chars().all(|c| c.is_ascii_digit() || ('a'..='f').contains(&c)));
    let (again, none) = SiloManager::init("/s".into(), Some(stored)).unwrap();
    assert!(none.is_none());
    assert_eq!(
        m.seal_with_nonce("x.org", &[9u8; 12], b"cookie").unwrap(),
        again.seal_with_nonce("x.org", &[9u8; 12], b"cookie").unwrap()
    );
}

#[test]
fn cookie_record_seals_value_and_flags() {
    let m = SiloManager::new("/s".into(), [2u8; 32]);
    let cookie = Cookie {
        host: "api.github.com".into(),
        name: "sid".into(),
        value: b"secret".to_vec(),
        path: "/".into(),
        secure: true,
        http_only: false,
        same_site: "Lax".into(),
        expiry_utc: Some(1_700_000_000),
    };
    let rec = m.cookie_record("github.com", &cookie).unwrap();
    assert_eq!(rec.host, "api.github.com");
    assert_eq!(rec.name, "sid");
    assert_eq!(rec.path, "/");
    assert_eq!(rec.secure, 1);
    assert_eq!(rec.http_only, 0);
    assert_eq!(rec.same_site, "Lax");
    assert_eq!(rec.expiry_utc, Some(1_700_000_000));
    assert_eq!(rec.value.len(), 12 + 6 + 16);
    let nonce: [u8; 12] = rec.value[..12].try_into().unwrap();
    assert_eq!(rec.value, m.seal_with_nonce("github.com", &nonce, b"secret").unwrap());
    assert_eq!(m.decrypt_value("github.com", &rec.value).unwrap(), b"secret");
}

#[test]
fn only_db_files_are_silos() {
    assert!(is_silo_file("3aeb.silo.db"));
    assert!(is_silo_file("x.db"));
    assert!(!is_silo_file(".db"));
    assert!(!is_silo_file("db"));
    assert!(!is_silo_file("x.db-wal"));
    assert!(!is_silo_file("x.dbx"));
    assert!(!is_silo_file(".."));
    assert!(!is_silo_file("x."));
}

#[test]
fn unpinned_silos_are_purged() {
    assert!(should_purge(None));
    assert!(should_purge(Some("0")));
    assert!(!should_purge(Some("1")));
    assert!(!should_purge(Some("-3")));
    assert!(!should_purge(Some("")));
}

#[test]
fn silo_error_messages() {
    assert_eq!(SiloError::Db("locked".into()).message(), "Database error: locked");
    assert_eq!(SiloError::Io("denied".into()).message(), "IO error: denied");
    assert_eq!(SiloError::EncryptionFailed.message(), "Encryption failed");
    assert_eq!(SiloError::DecryptionFailed.message(), "Decryption failed");
}
