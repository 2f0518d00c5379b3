//! The key that protects a node's stores: unlocking it with a passphrase, and
//! the statement that hands it to a store connection.

use crate::encoding::{
    append_joined_bytes, base64_url_no_pad_decoded, decode_url_no_pad, joined_bytes,
};
use crate::error::{HcOpsError, HcOpsResult};
use sodoken::{LockedArray, SizedLockedArray};
use vstd::prelude::*;
use vstd::string::*;

verus! {

/// `sodoken::LockedArray`: bytes in memory that is kept from swap and
/// cleared when it is freed.
#[verifier::external_type_specification]
#[verifier::external_body]
pub struct ExLockedArray(LockedArray);

/// `sodoken::SizedLockedArray`: a `LockedArray` of a length that the type
/// gives.
#[verifier::external_type_specification]
#[verifier::external_body]
pub struct ExSizedLockedArray<const N: usize>(SizedLockedArray<N>);

/// Number of bytes of a store key, and of the secret that unlocks it.
pub const KEY_BYTES: usize = 32;

/// Number of bytes of the nonce at the start of a key blob.
pub const NONCE_BYTES: usize = 24;

/// Number of bytes of the authentication tag in a key blob.
pub const MAC_BYTES: usize = 16;

/// Number of bytes of the salt at the end of a key blob.
pub const SALT_BYTES: usize = 16;

/// Number of bytes of a key blob: nonce, tag, encrypted key and salt.
pub const KEY_BLOB_BYTES: usize = 88;

/// What a failed decryption of the key is reported as.
pub const DECRYPT_FAILED_MESSAGE: &'static str = "Failed to decrypt key";

/// What a key blob that is too short is reported as.
pub const SHORT_BLOB_MESSAGE: &'static str = "Key blob is too short";

/// The bytes that a `LockedArray` holds.
pub uninterp spec fn locked_bytes(array: LockedArray) -> Seq<u8>;

/// The 32 bytes that a `SizedLockedArray<32>` holds.
pub uninterp spec fn sized_locked_bytes(array: SizedLockedArray<32>) -> Seq<u8>;

/// The 32-byte argon2id hash of a passphrase and a salt, at a limit on
/// operations and a limit on memory.
pub uninterp spec fn argon2id_hash(
    passphrase: Seq<u8>,
    salt: Seq<u8>,
    ops_limit: u32,
    mem_limit: u32,
) -> Seq<u8>;

/// The limit on operations of the password hash: the one that libsodium
/// calls moderate.
pub const OPS_LIMIT: u32 = 3;

/// The limit on memory of the password hash, in bytes: the one that
/// libsodium calls moderate.
pub const MEM_LIMIT: u32 = 268_435_456;

/// The message that an xsalsa20-poly1305 secretbox holds, or `None` where
/// the box does not authenticate under the key and nonce.
pub uninterp spec fn xsalsa_opened(cipher: Seq<u8>, nonce: Seq<u8>, key: Seq<u8>) -> Option<
    Seq<u8>,
>;

/// Calls `LockedArray::new` of `sodoken`. Trusted: a new array has the
/// length asked for and holds zeros; the call fails where the memory cannot
/// be had. The crate rounds the length up to a multiple of eight, so lengths
/// within seven of `usize::MAX` are left out.
#[verifier::external_body]
fn new_locked(len: usize) -> (array: Result<LockedArray, String>)
    requires
        len <= usize::MAX - 7,
    ensures
        array matches Ok(fresh) ==> locked_bytes(fresh) == Seq::new(len as nat, |i: int| 0u8),
{
    match LockedArray::new(len) {
        Ok(array) => Ok(array),
        Err(e) => Err(e.to_string()),
    }
}

/// Calls `SizedLockedArray::new` of `sodoken`. Trusted: a new array holds 32
/// zeros; the call fails where the memory cannot be had.
#[verifier::external_body]
fn new_sized_locked() -> (array: Result<SizedLockedArray<32>, String>)
    ensures
        array matches Ok(fresh) ==> sized_locked_bytes(fresh) == Seq::new(32, |i: int| 0u8),
{
    match SizedLockedArray::<32>::new() {
        Ok(array) => Ok(array),
        Err(e) => Err(e.to_string()),
    }
}

/// Writes one byte through `LockedArray::lock` of `sodoken`. Trusted: the
/// byte at `index` is replaced and no other.
#[verifier::external_body]
fn write_locked(array: &mut LockedArray, index: usize, byte: u8)
    requires
        index < locked_bytes(*old(array)).len(),
    ensures
        locked_bytes(*final(array)) == locked_bytes(*old(array)).update(index as int, byte),
{
    array.lock()[index] = byte;
}

/// Reads one byte through `SizedLockedArray::lock` of `sodoken`. Trusted:
/// the byte at `index` is returned and the array holds what it held.
#[verifier::external_body]
fn read_sized_locked(array: &mut SizedLockedArray<32>, index: usize) -> (byte: u8)
    requires
        index < 32,
    ensures
        sized_locked_bytes(*old(array)).len() == 32,
        byte == sized_locked_bytes(*old(array))[index as int],
        sized_locked_bytes(*final(array)) == sized_locked_bytes(*old(array)),
{
    array.lock()[index]
}

/// Calls `argon2::blocking_argon2id` of `sodoken`. Trusted: where the call
/// succeeds, `secret` holds the hash of the passphrase and the salt at the
/// limits given; the passphrase is left as it was. The call fails on limits
/// that libsodium does not take, and may fail where the machine cannot give
/// the memory that the hash needs.
#[verifier::external_body]
fn hash_passphrase(
    secret: &mut SizedLockedArray<32>,
    passphrase: &mut LockedArray,
    salt: &[u8; 16],
    ops_limit: u32,
    mem_limit: u32,
) -> (hashed: Result<(), String>)
    ensures
        locked_bytes(*final(passphrase)) == locked_bytes(*old(passphrase)),
        hashed is Ok ==> sized_locked_bytes(*final(secret)) == argon2id_hash(
            locked_bytes(*old(passphrase)),
            salt@,
            ops_limit,
            mem_limit,
        ),
{
    match sodoken::argon2::blocking_argon2id(
        &mut *secret.lock(),
        &passphrase.lock(),
        salt,
        ops_limit,
        mem_limit,
    ) {
        Ok(()) => Ok(()),
        Err(e) => Err(e.to_string()),
    }
}

/// Calls `secretbox::xsalsa_open_easy` of `sodoken`. Trusted: the call
/// succeeds exactly where the box authenticates under the secret and the
/// nonce, and `key` then holds the message of the box; the secret is left as
/// it was.
#[verifier::external_body]
fn open_key_box(
    key: &mut SizedLockedArray<32>,
    cipher: &[u8; 48],
    nonce: &[u8; 24],
    secret: &mut SizedLockedArray<32>,
) -> (opened: bool)
    ensures
        sized_locked_bytes(*final(secret)) == sized_locked_bytes(*old(secret)),
        opened == (xsalsa_opened(cipher@, nonce@, sized_locked_bytes(*old(secret))) is Some),
        opened ==> Some(sized_locked_bytes(*final(key))) == xsalsa_opened(
            cipher@,
            nonce@,
            sized_locked_bytes(*old(secret)),
        ),
{
    sodoken::secretbox::xsalsa_open_easy(&mut *key.lock(), cipher, nonce, &secret.lock()).is_ok()
}

/// The three parts of a key blob.
#[derive(Debug)]
pub struct KeyBlob {
    pub nonce: [u8; 24],
    /// The authentication tag, then the encrypted key.
    pub cipher: [u8; 48],
    pub salt: [u8; 16],
}

/// A key blob as a mathematical value.
pub struct KeyBlobView {
    pub nonce: Seq<u8>,
    pub cipher: Seq<u8>,
    pub salt: Seq<u8>,
}

impl View for KeyBlob {
    type V = KeyBlobView;

    open spec fn view(&self) -> KeyBlobView {
        KeyBlobView { nonce: self.nonce@, cipher: self.cipher@, salt: self.salt@ }
    }
}

/// The parts of a key blob: 24 bytes of nonce, 48 of tag and encrypted key,
/// 16 of salt. A blob of fewer than 88 bytes has no parts; bytes after the
/// 88th are not read.
pub open spec fn key_blob_parts(blob: Seq<u8>) -> Option<KeyBlobView> {
    if blob.len() < 88 {
        None
    } else {
        Some(
            KeyBlobView {
                nonce: blob.subrange(0, 24),
                cipher: blob.subrange(24, 72),
                salt: blob.subrange(72, 88),
            },
        )
    }
}

/// The parts of the key blob that a text encodes, in base64 with the
/// URL-safe alphabet and no padding; `None` where the text is no such
/// encoding or the blob is too short.
pub open spec fn encoded_key_blob(text: Seq<char>) -> Option<KeyBlobView> {
    match base64_url_no_pad_decoded(text) {
        Some(blob) => key_blob_parts(blob),
        None => None,
    }
}

/// Splits a key blob into its parts.
pub fn split_key_blob(blob: &Vec<u8>) -> (parts: Option<KeyBlob>)
    ensures
        match parts {
            Some(found) => key_blob_parts(blob@) == Some(found@),
            None => key_blob_parts(blob@) is None,
        },
{
    if blob.len() < KEY_BLOB_BYTES {
        return None;
    }
    let mut nonce = [0u8; 24];
    let mut cipher = [0u8; 48];
    let mut salt = [0u8; 16];
    let mut at: usize = 0;
    while at < 88
        invariant
            at <= 88 <= blob@.len(),
            forall|i: int| 0 <= i < at && i < 24 ==> nonce@[i] == blob@[i],
            forall|i: int| 24 <= i < at && i < 72 ==> cipher@[i - 24] == blob@[i],
            forall|i: int| 72 <= i < at ==> salt@[i - 72] == blob@[i],
        decreases 88 - at,
    {
        if at < 24 {
            nonce[at] = blob[at];
        } else if at < 72 {
            cipher[at - 24] = blob[at];
        } else {
            salt[at - 72] = blob[at];
        }
        at = at + 1;
    }
    assert(nonce@ =~= blob@.subrange(0, 24));
    assert(cipher@ =~= blob@.subrange(24, 72)) by {
        assert forall|j: int| 0 <= j < 48 implies cipher@[j] == blob@.subrange(24, 72)[j] by {
            assert(cipher@[(j + 24) - 24] == blob@[j + 24]);
        }
    }
    assert(salt@ =~= blob@.subrange(72, 88)) by {
        assert forall|j: int| 0 <= j < 16 implies salt@[j] == blob@.subrange(72, 88)[j] by {
            assert(salt@[(j + 72) - 72] == blob@[j + 72]);
        }
    }
    Some(KeyBlob { nonce, cipher, salt })
}

/// The key of a node's stores, with the salt that was stored beside it. The
/// key lies in locked memory.
pub struct Key {
    key: SizedLockedArray<32>,
    salt: [u8; 16],
}

/// A key as a mathematical value.
pub struct KeyView {
    pub key: Seq<u8>,
    pub salt: Seq<u8>,
}

impl View for Key {
    type V = KeyView;

    closed spec fn view(&self) -> KeyView {
        KeyView { key: sized_locked_bytes(self.key), salt: self.salt@ }
    }
}

/// The key that a passphrase unlocks from the parts of a key blob: the
/// passphrase and the salt are hashed to a secret, at the moderate limits,
/// and the secret opens the box that holds the key. `None` where the box does not open, as with a
/// wrong passphrase or a damaged blob.
pub open spec fn unlocked_key(parts: KeyBlobView, passphrase: Seq<u8>) -> Option<KeyView> {
    match xsalsa_opened(
        parts.cipher,
        parts.nonce,
        argon2id_hash(passphrase, parts.salt, OPS_LIMIT, MEM_LIMIT),
    ) {
        Some(key) => Some(KeyView { key, salt: parts.salt }),
        None => None,
    }
}

/// Whether `loaded` is an outcome of unlocking the key that `encoded` holds
/// with `passphrase`. A key is the key that the passphrase unlocks. A
/// failure is one of three: the text is no base64; the blob is too short;
/// the box did not open, which is reported as a failed decryption. Beside
/// these, locked memory that cannot be had is reported as an error of
/// input and output, whatever the text and the passphrase are.
pub open spec fn is_key_loading(
    loaded: HcOpsResult<Key>,
    encoded: Seq<char>,
    passphrase: Seq<u8>,
) -> bool {
    match loaded {
        Ok(key) => encoded_key_blob(encoded) is Some && unlocked_key(
            encoded_key_blob(encoded).unwrap(),
            passphrase,
        ) == Some(key@),
        Err(error) => match error {
            HcOpsError::IO(_) => encoded_key_blob(encoded) is Some,
            HcOpsError::Other(cause) => {
                ||| base64_url_no_pad_decoded(encoded) is None
                ||| base64_url_no_pad_decoded(encoded) is Some && encoded_key_blob(encoded) is None
                    && cause@ == SHORT_BLOB_MESSAGE@
                ||| encoded_key_blob(encoded) is Some && cause@ == DECRYPT_FAILED_MESSAGE@
                    && unlocked_key(encoded_key_blob(encoded).unwrap(), passphrase) is None
            },
            _ => false,
        },
    }
}

impl Key {
    /// Makes a key of what opening the box gave. A box that did not open is
    /// a failure, whatever `key` holds: no key comes of it.
    pub fn from_opened(opened: bool, key: SizedLockedArray<32>, salt: [u8; 16]) -> (made:
        HcOpsResult<Key>)
        ensures
            match made {
                Ok(kept) => opened && kept@ == (KeyView {
                    key: sized_locked_bytes(key),
                    salt: salt@,
                }),
                Err(error) => {
                    &&& !opened
                    &&& error matches HcOpsError::Other(cause)
                    &&& error->Other_0@ == DECRYPT_FAILED_MESSAGE@
                },
            },
    {
        if opened {
            Ok(Key { key, salt })
        } else {
            Err(HcOpsError::Other(String::from_str(DECRYPT_FAILED_MESSAGE)))
        }
    }

    /// The key as it is shown: its salt, and the key itself hidden.
    pub fn to_debug_text(&self) -> (text: String)
        ensures
            text@ == "Key { key: \"hidden\", salt: ["@ + joined_bytes(self@.salt) + "] }"@,
    {
        let mut text = String::from_str("Key { key: \"hidden\", salt: [");
        append_joined_bytes(&mut text, self.salt.as_slice());
        text.append("] }");
        text
    }

    /// Unlocks the key with a passphrase. `encoded` is what the key file
    /// holds: the key blob in base64. A text that is no base64, a blob that
    /// is too short and a box that does not open are failures, and so is
    /// locked memory that cannot be had; in none of these cases is a key
    /// returned.
    pub fn load(encoded: &str, passphrase: LockedArray) -> (loaded: HcOpsResult<Key>)
        ensures
            is_key_loading(loaded, encoded@, locked_bytes(passphrase)),
            encoded_key_blob(encoded@) is None ==> loaded is Err,
            encoded_key_blob(encoded@) is Some && unlocked_key(
                encoded_key_blob(encoded@).unwrap(),
                locked_bytes(passphrase),
            ) is None ==> loaded is Err,
    {
        let mut passphrase = passphrase;
        let blob = match decode_url_no_pad(encoded) {
            Ok(blob) => blob,
            Err(cause) => {
                return Err(HcOpsError::Other(cause));
            },
        };
        let parts = match split_key_blob(&blob) {
            Some(parts) => parts,
            None => {
                return Err(HcOpsError::Other(String::from_str(SHORT_BLOB_MESSAGE)));
            },
        };
        let mut secret = match new_sized_locked() {
            Ok(secret) => secret,
            Err(cause) => {
                return Err(HcOpsError::IO(cause));
            },
        };
        match hash_passphrase(&mut secret, &mut passphrase, &parts.salt, OPS_LIMIT, MEM_LIMIT) {
            Ok(()) => {},
            Err(cause) => {
                return Err(HcOpsError::IO(cause));
            },
        }
        let mut key = match new_sized_locked() {
            Ok(key) => key,
            Err(cause) => {
                return Err(HcOpsError::IO(cause));
            },
        };
        let opened = open_key_box(&mut key, &parts.cipher, &parts.nonce, &mut secret);
        Key::from_opened(opened, key, parts.salt)
    }
}

/// How the statement that hands a key to a connection begins.
pub const STATEMENT_HEAD: &'static str = "\nPRAGMA key = \"x'";

/// What stands between the key and the salt in that statement.
pub const STATEMENT_MIDDLE: &'static str = "'\";\nPRAGMA cipher_salt = \"x'";

/// How that statement ends: the cipher profile and the size of the header
/// that is left in the clear.
pub const STATEMENT_TAIL: &'static str =
    "'\";\nPRAGMA cipher_compatibility = 4;\nPRAGMA cipher_plaintext_header_size = 32;\n";

/// Number of bytes of that statement.
pub const STATEMENT_BYTES: usize = 220;

/// The upper-case hexadecimal digit of a number below sixteen.
pub open spec fn hex_digit(nibble: int) -> u8 {
    if nibble < 10 {
        (0x30 + nibble) as u8
    } else {
        (0x37 + nibble) as u8
    }
}

/// Bytes in upper-case hexadecimal: two digits for each byte, the high half
/// first.
pub open spec fn hex_upper(bytes: Seq<u8>) -> Seq<u8> {
    Seq::new(
        2 * bytes.len(),
        |i: int|
            if i % 2 == 0 {
                hex_digit(bytes[i / 2] as int / 16)
            } else {
                hex_digit(bytes[i / 2] as int % 16)
            },
    )
}

/// The statement that hands a key to a connection: four directives, which
/// give the key and the salt in hexadecimal, the cipher profile, and the size
/// of the header that is left in the clear.
pub open spec fn key_statement(key: KeyView) -> Seq<u8> {
    STATEMENT_HEAD.spec_bytes() + hex_upper(key.key) + STATEMENT_MIDDLE.spec_bytes() + hex_upper(
        key.salt,
    ) + STATEMENT_TAIL.spec_bytes()
}

proof fn lemma_statement_lengths()
    ensures
        STATEMENT_HEAD.spec_bytes().len() == 17,
        STATEMENT_MIDDLE.spec_bytes().len() == 28,
        STATEMENT_TAIL.spec_bytes().len() == 79,
{
    reveal_strlit("\nPRAGMA key = \"x'");
    reveal_strlit("'\";\nPRAGMA cipher_salt = \"x'");
    reveal_strlit(
        "'\";\nPRAGMA cipher_compatibility = 4;\nPRAGMA cipher_plaintext_header_size = 32;\n",
    );
    broadcast use is_ascii_spec_bytes;

    assert(is_ascii(STATEMENT_HEAD));
    assert(is_ascii(STATEMENT_MIDDLE));
    assert(is_ascii(STATEMENT_TAIL));
}

fn hex_digit_of(nibble: u8) -> (digit: u8)
    requires
        nibble < 16,
    ensures
        digit == hex_digit(nibble as int),
{
    if nibble < 10 {
        0x30 + nibble
    } else {
        0x37 + nibble
    }
}

/// Writes `byte` at `at`, behind what has been written so far.
fn put_byte(statement: &mut LockedArray, at: usize, byte: u8)
    requires
        at < locked_bytes(*old(statement)).len(),
    ensures
        locked_bytes(*final(statement)).len() == locked_bytes(*old(statement)).len(),
        locked_bytes(*final(statement)).subrange(0, at + 1) == locked_bytes(
            *old(statement),
        ).subrange(0, at as int).push(byte),
{
    write_locked(statement, at, byte);
    assert(locked_bytes(*statement).subrange(0, at + 1) =~= locked_bytes(
        *old(statement),
    ).subrange(0, at as int).push(byte));
}

/// Writes the bytes of `text` from `at` on.
fn put_text(statement: &mut LockedArray, at: usize, text: &str) -> (end: usize)
    requires
        at + text.spec_bytes().len() <= locked_bytes(*old(statement)).len(),
        locked_bytes(*old(statement)).len() <= usize::MAX,
    ensures
        end == at + text.spec_bytes().len(),
        locked_bytes(*final(statement)).len() == locked_bytes(*old(statement)).len(),
        locked_bytes(*final(statement)).subrange(0, end as int) == locked_bytes(
            *old(statement),
        ).subrange(0, at as int) + text.spec_bytes(),
{
    let bytes = text.as_bytes();
    let ghost before = locked_bytes(*statement).subrange(0, at as int);
    let mut done: usize = 0;
    assert(before + bytes@.subrange(0, 0) =~= before);
    while done < bytes.len()
        invariant
            done <= bytes@.len(),
            bytes@ == text.spec_bytes(),
            at + bytes@.len() <= locked_bytes(*statement).len(),
            locked_bytes(*statement).len() == locked_bytes(*old(statement)).len(),
            locked_bytes(*statement).len() <= usize::MAX,
            locked_bytes(*statement).subrange(0, at + done) == before + bytes@.subrange(
                0,
                done as int,
            ),
        decreases bytes@.len() - done,
    {
        put_byte(statement, at + done, bytes[done]);
        assert((before + bytes@.subrange(0, done as int)).push(bytes@[done as int]) =~= before
            + bytes@.subrange(0, done + 1));
        done = done + 1;
    }
    assert(bytes@.subrange(0, done as int) =~= bytes@);
    at + done
}

/// Writes `byte` as two hexadecimal digits at `at` and `at + 1`.
fn put_hex(statement: &mut LockedArray, at: usize, byte: u8)
    requires
        at + 2 <= locked_bytes(*old(statement)).len(),
        locked_bytes(*old(statement)).len() <= usize::MAX,
    ensures
        locked_bytes(*final(statement)).len() == locked_bytes(*old(statement)).len(),
        locked_bytes(*final(statement)).subrange(0, at + 2) == locked_bytes(
            *old(statement),
        ).subrange(0, at as int).push(hex_digit(byte as int / 16)).push(
            hex_digit(byte as int % 16),
        ),
{
    put_byte(statement, at, hex_digit_of(byte / 16));
    put_byte(statement, at + 1, hex_digit_of(byte % 16));
}

/// Makes the statement that hands `key` to a connection, in locked memory.
/// The connection is to run it as it stands. Fails only where the locked
/// memory cannot be had.
pub fn apply_key(key: &mut Key) -> (statement: HcOpsResult<LockedArray>)
    ensures
        final(key)@ == old(key)@,
        match statement {
            Ok(text) => locked_bytes(text) == key_statement(old(key)@),
            Err(error) => error is IO,
        },
{
    proof {
        lemma_statement_lengths();
    }
    let mut statement = match new_locked(STATEMENT_BYTES) {
        Ok(statement) => statement,
        Err(cause) => {
            return Err(HcOpsError::IO(cause));
        },
    };
    let ghost secret = key@.key;
    let ghost salt = key@.salt;
    assert(locked_bytes(statement).subrange(0, 0) + STATEMENT_HEAD.spec_bytes()
        =~= STATEMENT_HEAD.spec_bytes());
    let mut at = put_text(&mut statement, 0, STATEMENT_HEAD);
    let mut index: usize = 0;
    assert(STATEMENT_HEAD.spec_bytes() + hex_upper(secret).subrange(0, 0)
        =~= STATEMENT_HEAD.spec_bytes());
    while index < 32
        invariant
            index <= 32,
            at == 17 + 2 * index,
            index > 0 ==> secret.len() == 32,
            key@.key == secret,
            key@.salt == salt,
            key@ == old(key)@,
            locked_bytes(statement).len() == 220,
            STATEMENT_HEAD.spec_bytes().len() == 17,
            locked_bytes(statement).subrange(0, at as int) == STATEMENT_HEAD.spec_bytes()
                + hex_upper(secret).subrange(0, 2 * index),
        decreases 32 - index,
    {
        let byte = read_sized_locked(&mut key.key, index);
        put_hex(&mut statement, at, byte);
        assert((STATEMENT_HEAD.spec_bytes() + hex_upper(secret).subrange(0, 2 * index)).push(
            hex_digit(byte as int / 16),
        ).push(hex_digit(byte as int % 16)) =~= STATEMENT_HEAD.spec_bytes() + hex_upper(
            secret,
        ).subrange(0, 2 * (index + 1)));
        at = at + 2;
        index = index + 1;
    }
    assert(hex_upper(secret).subrange(0, 64) =~= hex_upper(secret));
    let ghost first = STATEMENT_HEAD.spec_bytes() + hex_upper(secret)
        + STATEMENT_MIDDLE.spec_bytes();
    at = put_text(&mut statement, at, STATEMENT_MIDDLE);
    index = 0;
    assert(first + hex_upper(salt).subrange(0, 0) =~= first);
    while index < 16
        invariant
            index <= 16,
            at == 109 + 2 * index,
            key@.salt == salt,
            salt.len() == 16,
            key@ == old(key)@,
            locked_bytes(statement).len() == 220,
            locked_bytes(statement).subrange(0, at as int) == first + hex_upper(salt).subrange(
                0,
                2 * index,
            ),
        decreases 16 - index,
    {
        let byte = key.salt[index];
        put_hex(&mut statement, at, byte);
        assert((first + hex_upper(salt).subrange(0, 2 * index)).push(
            hex_digit(byte as int / 16),
        ).push(hex_digit(byte as int % 16)) =~= first + hex_upper(salt).subrange(
            0,
            2 * (index + 1),
        ));
        at = at + 2;
        index = index + 1;
    }
    assert(hex_upper(salt).subrange(0, 32) =~= hex_upper(salt));
    at = put_text(&mut statement, at, STATEMENT_TAIL);
    assert(locked_bytes(statement).subrange(0, 220) =~= locked_bytes(statement));
    Ok(statement)
}

} // verus!
