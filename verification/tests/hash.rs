use hc_ops::hash::{HashType, HoloHash, HoloHashError};
use holochain_zome_types::prelude::{
    ActionHash, AgentPubKey, AnyDhtHash, AnyLinkableHash, DhtOpHash, DnaHash, EntryHash,
    ExternalHash,
};

fn raw(code: u8, fill: u8) -> Vec<u8> {
    let mut bytes = vec![0x84, code, 0x24];
    bytes.extend(vec![fill; 36]);
    bytes
}

const CODES: [u8; 9] = [0x20, 0x21, 0x24, 0x29, 0x2a, 0x2b, 0x2c, 0x2d, 0x2f];

#[test]
fn decoding_agrees_with_holo_hash_on_every_prefix() {
    for code in CODES {
        let bytes = raw(code, 3);
        let cases = [
            (HashType::Agent, AgentPubKey::try_from_raw_39(bytes.clone()).is_ok()),
            (HashType::Entry, EntryHash::try_from_raw_39(bytes.clone()).is_ok()),
            (HashType::DhtOp, DhtOpHash::try_from_raw_39(bytes.clone()).is_ok()),
            (HashType::Dna, DnaHash::try_from_raw_39(bytes.clone()).is_ok()),
            (HashType::Action, ActionHash::try_from_raw_39(bytes.clone()).is_ok()),
            (HashType::External, ExternalHash::try_from_raw_39(bytes.clone()).is_ok()),
            (HashType::AnyDht, AnyDhtHash::try_from_raw_39(bytes.clone()).is_ok()),
            (HashType::AnyLinkable, AnyLinkableHash::try_from_raw_39(bytes.clone()).is_ok()),
        ];
        for (hash_type, accepted) in cases {
            assert_eq!(
                HoloHash::try_from_raw_39(hash_type, bytes.clone()).is_ok(),
                accepted,
                "{:?} with code {:#x}",
                hash_type,
                code
            );
        }
    }
}

#[test]
fn decoding_checks_all_three_prefix_bytes() {
    let mut bytes = raw(0x20, 1);
    bytes[0] = 0x85;
    assert_eq!(
        HoloHash::try_from_raw_39(HashType::Agent, bytes.clone()).unwrap_err(),
        HoloHashError::BadPrefix { expected: HashType::Agent, first: 0x85, second: 0x20, third: 0x24 }
    );
    assert!(AgentPubKey::try_from_raw_39(bytes).is_err());
    let mut bytes = raw(0x20, 1);
    bytes[2] = 0x25;
    assert!(HoloHash::try_from_raw_39(HashType::Agent, bytes.clone()).is_err());
    assert!(AgentPubKey::try_from_raw_39(bytes).is_err());
}

#[test]
fn decoding_checks_the_length() {
    assert_eq!(
        HoloHash::try_from_raw_39(HashType::Agent, vec![0x84, 0x20, 0x24]).unwrap_err(),
        HoloHashError::BadSize
    );
    let mut long = raw(0x20, 1);
    long.push(0);
    assert_eq!(
        HoloHash::try_from_raw_39(HashType::Agent, long).unwrap_err(),
        HoloHashError::BadSize
    );
    assert_eq!(
        HoloHash::try_from_raw_39(HashType::Dna, Vec::new()).unwrap_err(),
        HoloHashError::BadSize
    );
}

#[test]
fn a_hash_keeps_its_bytes_and_type() {
    let bytes = raw(0x29, 9);
    let hash = HoloHash::try_from_raw_39(HashType::AnyLinkable, bytes.clone()).unwrap();
    assert_eq!(hash.get_raw_39(), &bytes);
    assert_eq!(hash.hash_type(), HashType::AnyLinkable);
    let copy = hash.duplicate();
    assert!(copy.same_as(&hash));
    let other = HoloHash::try_from_raw_39(HashType::Action, bytes.clone()).unwrap();
    assert!(!other.same_as(&hash));
    let third = HoloHash::try_from_raw_39(HashType::AnyLinkable, raw(0x29, 8)).unwrap();
    assert!(!third.same_as(&hash));
}

#[test]
fn text_forms_are_those_of_holo_hash() {
    let agent = AgentPubKey::from_raw_36(vec![5; 36]);
    let mine = HoloHash::try_from_raw_39(HashType::Agent, agent.get_raw_39().to_vec()).unwrap();
    assert_eq!(mine.to_text(), agent.to_string());
    assert_eq!(mine.to_debug_text(), format!("{:?}", agent));
    assert!(mine.to_text().starts_with("uhCAk"));
    assert_eq!(mine.to_text().len(), 53);
    let dna = DnaHash::from_raw_36(vec![0xdb; 36]);
    let mine = HoloHash::try_from_raw_39(HashType::Dna, dna.get_raw_39().to_vec()).unwrap();
    assert_eq!(mine.to_debug_text(), format!("{:?}", dna));
    let any = AnyLinkableHash::try_from_raw_39(raw(0x2f, 1)).unwrap();
    let mine = HoloHash::try_from_raw_39(HashType::AnyLinkable, raw(0x2f, 1)).unwrap();
    assert_eq!(mine.to_debug_text(), format!("{:?}", any));
}

#[test]
fn error_messages_are_those_of_holo_hash() {
    let bad = raw(0x21, 1);
    let theirs = AgentPubKey::try_from_raw_39(bad.clone()).unwrap_err();
    let mine = HoloHash::try_from_raw_39(HashType::Agent, bad.clone()).unwrap_err();
    assert_eq!(mine.message(), theirs.to_string());
    assert_eq!(mine.message(), "Holo Hash AgentPubKey has unknown prefix [132, 33, 36]");
    let theirs = AnyLinkableHash::try_from_raw_39(raw(0x20, 1)).unwrap_err();
    let mine = HoloHash::try_from_raw_39(HashType::AnyLinkable, raw(0x20, 1)).unwrap_err();
    assert_eq!(mine.message(), theirs.to_string());
    let theirs = AnyDhtHash::try_from_raw_39(raw(0x20, 1)).unwrap_err();
    let mine = HoloHash::try_from_raw_39(HashType::AnyDht, raw(0x20, 1)).unwrap_err();
    assert_eq!(mine.message(), theirs.to_string());
    let theirs = DnaHash::try_from_raw_39(vec![1]).unwrap_err();
    assert_eq!(HoloHashError::BadSize.message(), theirs.to_string());
    assert_eq!(HoloHashError::BadSize.message(), "Holo Hash has incorrect size");
}

#[test]
fn hash_types_have_names() {
    assert_eq!(HashType::Agent.name(), "AgentPubKey");
    assert_eq!(HashType::Entry.name(), "EntryHash");
    assert_eq!(HashType::DhtOp.name(), "DhtOpHash");
    assert_eq!(HashType::Dna.name(), "DnaHash");
    assert_eq!(HashType::Action.name(), "ActionHash");
    assert_eq!(HashType::External.name(), "ExternalHash");
    assert_eq!(HashType::AnyDht.name(), "AnyDhtHash");
    assert_eq!(HashType::AnyLinkable.name(), "AnyLinkableHash");
    assert!(HashType::AnyDht.accepts(0x21));
    assert!(!HashType::AnyDht.accepts(0x2f));
}
