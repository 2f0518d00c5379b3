use base64::Engine;
use hc_ops::retrieve::crypt::{apply_key, split_key_blob, Key, MEM_LIMIT, OPS_LIMIT};
use hc_ops::retrieve::{database_path, load_database_key, DbKind, KEY_FILE_PATH};
use hc_ops::hash::{HashType, HoloHash};
use hc_ops::HcOpsError;

const STORE_KEY: [u8; 32] = [
    0x00, 0x01, 0x0a, 0x0f, 0x10, 0x1f, 0x7f, 0x80, 0x9a, 0xab, 0xbc, 0xcd, 0xde, 0xef, 0xf0, 0xff,
    1, 2, 3, 4, 5, 6, 7, 8, 9, 10, 11, 12, 13, 14, 15, 16,
];

const SALT: [u8; 16] = [0xa0, 0xb1, 0xc2, 0xd3, 0xe4, 0xf5, 0x06, 0x17, 8, 9, 10, 11, 12, 13, 14, 255];

fn key_blob(passphrase: &[u8]) -> Vec<u8> {
    let nonce = [7u8; 24];
    let mut secret = sodoken::SizedLockedArray::<32>::new().unwrap();
    sodoken::argon2::blocking_argon2id(
        &mut *secret.lock(),
        passphrase,
        &SALT,
        sodoken::argon2::ARGON2_ID_OPSLIMIT_MODERATE,
        sodoken::argon2::ARGON2_ID_MEMLIMIT_MODERATE,
    )
    .unwrap();
    let mut cipher = [0u8; 48];
    sodoken::secretbox::xsalsa_easy(&mut cipher, &nonce, &STORE_KEY, &secret.lock()).unwrap();
    let mut blob = Vec::new();
    blob.extend_from_slice(&nonce);
    blob.extend_from_slice(&cipher);
    blob.extend_from_slice(&SALT);
    blob
}

fn encoded(blob: &[u8]) -> String {
    base64::engine::general_purpose::URL_SAFE_NO_PAD.encode(blob)
}

fn passphrase(text: &str) -> sodoken::LockedArray {
    sodoken::LockedArray::from(text.as_bytes().to_vec())
}

fn hex(bytes: &[u8]) -> String {
    bytes.iter().map(|b| format!("{:02X}", b)).collect()
}

fn expected_statement() -> String {
    format!(
        "\nPRAGMA key = \"x'{}'\";\nPRAGMA cipher_salt = \"x'{}'\";\nPRAGMA cipher_compatibility = 4;\nPRAGMA cipher_plaintext_header_size = 32;\n",
        hex(&STORE_KEY),
        hex(&SALT)
    )
}

#[test]
fn split_key_blob_takes_fixed_offsets() {
    let blob: Vec<u8> = (0u8..88).collect();
    let parts = split_key_blob(&blob).unwrap();
    assert_eq!(parts.nonce.to_vec(), (0u8..24).collect::<Vec<u8>>());
    assert_eq!(parts.cipher.to_vec(), (24u8..72).collect::<Vec<u8>>());
    assert_eq!(parts.salt.to_vec(), (72u8..88).collect::<Vec<u8>>());
}

#[test]
fn split_key_blob_refuses_short_blobs() {
    assert!(split_key_blob(&Vec::new()).is_none());
    assert!(split_key_blob(&vec![0u8; 87]).is_none());
    assert!(split_key_blob(&vec![0u8; 88]).is_some());
}

#[test]
fn split_key_blob_ignores_what_follows() {
    let mut blob: Vec<u8> = (0u8..88).collect();
    blob.extend_from_slice(&[1, 2, 3]);
    let parts = split_key_blob(&blob).unwrap();
    assert_eq!(parts.salt.to_vec(), (72u8..88).collect::<Vec<u8>>());
}

#[test]
fn load_unlocks_the_key_and_apply_key_writes_it() {
    let text = encoded(&key_blob(b"correct horse"));
    let mut key = Key::load(&text, passphrase("correct horse")).unwrap();
    assert_eq!(key.to_debug_text(), format!("Key {{ key: \"hidden\", salt: {:?} }}", SALT));
    let mut statement = apply_key(&mut key).unwrap();
    let written = statement.lock().to_vec();
    assert_eq!(written.len(), 220);
    assert_eq!(String::from_utf8(written).unwrap(), expected_statement());
    let mut again = apply_key(&mut key).unwrap();
    assert_eq!(String::from_utf8(again.lock().to_vec()).unwrap(), expected_statement());
}

#[test]
fn statement_has_key_and_salt_at_fixed_places() {
    let statement = expected_statement();
    assert_eq!(&statement[17..21], "0001");
    assert_eq!(&statement[17 + 62..17 + 64], "10");
    assert_eq!(&statement[109..113], "A0B1");
    assert_eq!(&statement[109 + 30..109 + 32], "FF");
}

#[test]
fn load_with_a_wrong_passphrase_fails_to_decrypt() {
    let text = encoded(&key_blob(b"correct horse"));
    match Key::load(&text, passphrase("wrong horse")) {
        Err(HcOpsError::Other(cause)) => assert_eq!(cause, "Failed to decrypt key"),
        Err(other) => panic!("unexpected error: {:?}", other),
        Ok(_) => panic!("a key was returned"),
    }
}

#[test]
fn load_with_a_damaged_blob_fails_to_decrypt() {
    let mut blob = key_blob(b"correct horse");
    blob[40] ^= 1;
    match Key::load(&encoded(&blob), passphrase("correct horse")) {
        Err(HcOpsError::Other(cause)) => assert_eq!(cause, "Failed to decrypt key"),
        Err(other) => panic!("unexpected error: {:?}", other),
        Ok(_) => panic!("a key was returned"),
    }
}

#[test]
fn load_refuses_text_that_is_not_base64() {
    match Key::load("not base64!", passphrase("x")) {
        Err(HcOpsError::Other(_)) => {}
        Err(other) => panic!("unexpected error: {:?}", other),
        Ok(_) => panic!("a key was returned"),
    }
    let text = format!("{}\n", encoded(&key_blob(b"correct horse")));
    assert!(matches!(Key::load(&text, passphrase("correct horse")), Err(HcOpsError::Other(_))));
}

#[test]
fn load_refuses_a_short_blob() {
    match Key::load(&encoded(&[1u8; 87]), passphrase("x")) {
        Err(HcOpsError::Other(cause)) => assert_eq!(cause, "Key blob is too short"),
        Err(other) => panic!("unexpected error: {:?}", other),
        Ok(_) => panic!("a key was returned"),
    }
}

#[test]
fn no_key_file_means_no_key() {
    assert!(load_database_key(None, passphrase("x")).unwrap().is_none());
}

#[test]
fn key_file_is_unlocked() {
    let text = encoded(&key_blob(b"pass"));
    let mut key = load_database_key(Some(&text), passphrase("pass")).unwrap().unwrap();
    let mut statement = apply_key(&mut key).unwrap();
    assert_eq!(String::from_utf8(statement.lock().to_vec()).unwrap(), expected_statement());
    assert!(load_database_key(Some(&text), passphrase("other")).is_err());
    assert_eq!(KEY_FILE_PATH, "databases/db.key");
}

fn hash(hash_type: HashType, code: u8, fill: u8) -> HoloHash {
    let mut bytes = vec![0x84, code, 0x24];
    bytes.extend(vec![fill; 36]);
    HoloHash::try_from_raw_39(hash_type, bytes).unwrap()
}

#[test]
fn database_paths_follow_the_layout() {
    let dna = hash(HashType::Dna, 0x2d, 0xdb);
    let agent = hash(HashType::Agent, 0x20, 0x01);
    let dna_text = holochain_zome_types::prelude::DnaHash::from_raw_36(vec![0xdb; 36]).to_string();
    let agent_text =
        holochain_zome_types::prelude::AgentPubKey::from_raw_36(vec![0x01; 36]).to_string();
    assert!(dna_text.starts_with("uhC0k"));
    assert!(agent_text.starts_with("uhCAk"));
    assert_eq!(database_path(&DbKind::Dht, &dna), format!("databases/dht/{}", dna_text));
    assert_eq!(database_path(&DbKind::Cache, &dna), format!("databases/cache/{}", dna_text));
    assert_eq!(
        database_path(&DbKind::Authored(agent), &dna),
        format!("databases/authored/{}-{}", dna_text, agent_text)
    );
}

#[test]
fn the_password_hash_runs_at_the_moderate_limits() {
    assert_eq!(OPS_LIMIT, sodoken::argon2::ARGON2_ID_OPSLIMIT_MODERATE);
    assert_eq!(MEM_LIMIT, sodoken::argon2::ARGON2_ID_MEMLIMIT_MODERATE);
}
