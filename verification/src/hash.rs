//! Typed hash identifiers: 39 bytes, of which the first three say what the
//! hash is a hash of.

use crate::encoding::append_decimal;
use crate::encoding::decimal_text;
use holochain_zome_types::prelude::holo_hash_encode;
use vstd::prelude::*;
use vstd::slice::slice_to_vec;

verus! {

/// Number of bytes that say what a hash is a hash of.
pub const HOLO_HASH_PREFIX_LEN: usize = 3;

/// Number of bytes of a full hash: prefix, core and location.
pub const HOLO_HASH_FULL_LEN: usize = 39;

/// What a hash identifier is expected to be a hash of. The last two stand
/// for more than one kind of thing.
#[derive(Clone, Copy, Debug, PartialEq, Eq, Structural)]
pub enum HashType {
    Agent,
    Entry,
    DhtOp,
    Dna,
    Action,
    External,
    /// An entry or an action.
    AnyDht,
    /// An entry, an action or something external.
    AnyLinkable,
}

/// Why bytes are not a hash identifier of the expected type.
#[derive(Clone, Copy, Debug, PartialEq, Eq, Structural)]
pub enum HoloHashError {
    /// The bytes are not 39 long.
    BadSize,
    /// The first three bytes, given here, do not stand for the expected type.
    BadPrefix { expected: HashType, first: u8, second: u8, third: u8 },
}

/// Whether the middle byte of a prefix stands for something that
/// `hash_type` covers.
pub open spec fn accepts_code(hash_type: HashType, code: u8) -> bool {
    match hash_type {
        HashType::Agent => code == 0x20,
        HashType::Entry => code == 0x21,
        HashType::DhtOp => code == 0x24,
        HashType::Dna => code == 0x2d,
        HashType::Action => code == 0x29,
        HashType::External => code == 0x2f,
        HashType::AnyDht => code == 0x21 || code == 0x29,
        HashType::AnyLinkable => code == 0x21 || code == 0x29 || code == 0x2f,
    }
}

/// Whether `prefix` is a prefix of hashes of type `hash_type`.
pub open spec fn accepts_prefix(hash_type: HashType, prefix: Seq<u8>) -> bool {
    &&& prefix.len() == 3
    &&& prefix[0] == 0x84
    &&& accepts_code(hash_type, prefix[1])
    &&& prefix[2] == 0x24
}

/// Whether `bytes` are a hash identifier of type `hash_type`.
pub open spec fn is_hash_of_type(hash_type: HashType, bytes: Seq<u8>) -> bool {
    bytes.len() == 39 && accepts_prefix(hash_type, bytes.subrange(0, 3))
}

/// What decoding `bytes` as a hash of type `hash_type` gives: nothing wrong,
/// or the first thing that is.
pub open spec fn hash_decoding(hash_type: HashType, bytes: Seq<u8>) -> Result<(), HoloHashError> {
    if bytes.len() != 39 {
        Err(HoloHashError::BadSize)
    } else if !accepts_prefix(hash_type, bytes.subrange(0, 3)) {
        Err(
            HoloHashError::BadPrefix {
                expected: hash_type,
                first: bytes[0],
                second: bytes[1],
                third: bytes[2],
            },
        )
    } else {
        Ok(())
    }
}

/// The name under which a hash type is shown.
pub open spec fn hash_type_name(hash_type: HashType) -> Seq<char> {
    match hash_type {
        HashType::Agent => "AgentPubKey"@,
        HashType::Entry => "EntryHash"@,
        HashType::DhtOp => "DhtOpHash"@,
        HashType::Dna => "DnaHash"@,
        HashType::Action => "ActionHash"@,
        HashType::External => "ExternalHash"@,
        HashType::AnyDht => "AnyDhtHash"@,
        HashType::AnyLinkable => "AnyLinkableHash"@,
    }
}

/// The name by which an error calls the hash type that it expected.
pub open spec fn expected_name(hash_type: HashType) -> Seq<char> {
    match hash_type {
        HashType::AnyDht => "AnyDht"@,
        HashType::AnyLinkable => "AnyLinkable"@,
        _ => hash_type_name(hash_type),
    }
}

/// The location that the last four of the 39 bytes of a hash give.
pub open spec fn location_of(bytes: Seq<u8>) -> int {
    bytes[35] + bytes[36] * 0x100 + bytes[37] * 0x1_0000 + bytes[38] * 0x100_0000
}

/// The text form of the 39 bytes of a hash: the letter `u` and their base64
/// in the URL-safe alphabet, without padding.
pub uninterp spec fn holo_hash_encoded(bytes: Seq<u8>) -> Seq<char>;

/// Calls `holo_hash_encode` of the `holo_hash` crate. Trusted: the result is
/// the text form that the crate gives the bytes.
#[verifier::external_body]
fn encode_hash_bytes(bytes: &[u8]) -> (text: String)
    requires
        bytes@.len() == 39,
    ensures
        text@ == holo_hash_encoded(bytes@),
{
    holo_hash_encode(bytes)
}

impl HashType {
    /// The name under which the hash type is shown.
    pub fn name(&self) -> (name: &'static str)
        ensures
            name@ == hash_type_name(*self),
    {
        match self {
            HashType::Agent => "AgentPubKey",
            HashType::Entry => "EntryHash",
            HashType::DhtOp => "DhtOpHash",
            HashType::Dna => "DnaHash",
            HashType::Action => "ActionHash",
            HashType::External => "ExternalHash",
            HashType::AnyDht => "AnyDhtHash",
            HashType::AnyLinkable => "AnyLinkableHash",
        }
    }

    /// Whether a prefix with this middle byte stands for something that the
    /// hash type covers.
    pub fn accepts(&self, code: u8) -> (accepted: bool)
        ensures
            accepted == accepts_code(*self, code),
    {
        match self {
            HashType::Agent => code == 0x20,
            HashType::Entry => code == 0x21,
            HashType::DhtOp => code == 0x24,
            HashType::Dna => code == 0x2d,
            HashType::Action => code == 0x29,
            HashType::External => code == 0x2f,
            HashType::AnyDht => code == 0x21 || code == 0x29,
            HashType::AnyLinkable => code == 0x21 || code == 0x29 || code == 0x2f,
        }
    }
}

/// The text of a prefix as a list of three numbers.
pub open spec fn prefix_text(first: u8, second: u8, third: u8) -> Seq<char> {
    "["@ + decimal_text(first as nat) + ", "@ + decimal_text(second as nat) + ", "@
        + decimal_text(third as nat) + "]"@
}

/// What an error says.
pub open spec fn hash_error_text(error: HoloHashError) -> Seq<char> {
    match error {
        HoloHashError::BadSize => "Holo Hash has incorrect size"@,
        HoloHashError::BadPrefix { expected, first, second, third } => "Holo Hash "@
            + expected_name(expected) + " has unknown prefix "@ + prefix_text(first, second, third),
    }
}

impl HoloHashError {
    /// What the error says.
    pub fn message(&self) -> (text: String)
        ensures
            text@ == hash_error_text(*self),
    {
        match self {
            HoloHashError::BadSize => String::from_str("Holo Hash has incorrect size"),
            HoloHashError::BadPrefix { expected, first, second, third } => {
                let mut text = String::from_str("Holo Hash ");
                match expected {
                    HashType::AnyDht => text.append("AnyDht"),
                    HashType::AnyLinkable => text.append("AnyLinkable"),
                    _ => text.append(expected.name()),
                }
                text.append(" has unknown prefix ");
                text.append("[");
                append_decimal(&mut text, *first as u64);
                text.append(", ");
                append_decimal(&mut text, *second as u64);
                text.append(", ");
                append_decimal(&mut text, *third as u64);
                text.append("]");
                assert(text@ =~= hash_error_text(*self));
                text
            },
        }
    }
}

/// A hash identifier with its type: 39 bytes whose prefix fits the type.
#[derive(Debug)]
pub struct HoloHash {
    hash_type: HashType,
    hash: Vec<u8>,
}

/// A hash identifier as a mathematical value.
pub struct HoloHashView {
    pub hash_type: HashType,
    pub bytes: Seq<u8>,
}

impl View for HoloHash {
    type V = HoloHashView;

    closed spec fn view(&self) -> HoloHashView {
        HoloHashView { hash_type: self.hash_type, bytes: self.hash@ }
    }
}

impl DeepView for HoloHash {
    type V = HoloHashView;

    open spec fn deep_view(&self) -> HoloHashView {
        self@
    }
}

impl HoloHash {
    #[verifier::type_invariant]
    spec fn well_formed(self) -> bool {
        is_hash_of_type(self.hash_type, self.hash@)
    }

    /// Decodes 39 raw bytes as a hash of the expected type.
    pub fn try_from_raw_39(hash_type: HashType, bytes: Vec<u8>) -> (decoded: Result<
        HoloHash,
        HoloHashError,
    >)
        ensures
            match decoded {
                Ok(hash) => hash_decoding(hash_type, bytes@) is Ok && hash@ == (HoloHashView {
                    hash_type,
                    bytes: bytes@,
                }),
                Err(error) => hash_decoding(hash_type, bytes@) == Err::<(), HoloHashError>(error),
            },
    {
        if bytes.len() != HOLO_HASH_FULL_LEN {
            return Err(HoloHashError::BadSize);
        }
        assert(bytes@.subrange(0, 3) =~= seq![bytes@[0], bytes@[1], bytes@[2]]);
        if bytes[0] != 0x84 || !hash_type.accepts(bytes[1]) || bytes[2] != 0x24 {
            return Err(
                HoloHashError::BadPrefix {
                    expected: hash_type,
                    first: bytes[0],
                    second: bytes[1],
                    third: bytes[2],
                },
            );
        }
        Ok(HoloHash { hash_type, hash: bytes })
    }

    /// The type of the hash.
    pub fn hash_type(&self) -> (hash_type: HashType)
        ensures
            hash_type == self@.hash_type,
    {
        self.hash_type
    }

    /// The 39 bytes of the hash.
    pub fn get_raw_39(&self) -> (bytes: &Vec<u8>)
        ensures
            bytes@ == self@.bytes,
            is_hash_of_type(self@.hash_type, bytes@),
    {
        proof {
            use_type_invariant(self);
        }
        &self.hash
    }

    /// The location of the hash in the space that the network shares out:
    /// its last four bytes, read as a number with the lowest byte first.
    pub fn get_loc(&self) -> (loc: u32)
        ensures
            loc == location_of(self@.bytes),
    {
        proof {
            use_type_invariant(self);
        }
        let low = self.hash[35] as u32 + self.hash[36] as u32 * 0x100;
        let high = self.hash[37] as u32 * 0x1_0000 + self.hash[38] as u32 * 0x100_0000;
        low + high
    }

    /// A copy of the hash.
    pub fn duplicate(&self) -> (copy: HoloHash)
        ensures
            copy@ == self@,
    {
        proof {
            use_type_invariant(self);
        }
        HoloHash { hash_type: self.hash_type, hash: slice_to_vec(self.hash.as_slice()) }
    }

    /// Whether two hashes have the same type and the same bytes.
    pub fn same_as(&self, other: &HoloHash) -> (same: bool)
        ensures
            same == (self@ == other@),
    {
        let same_type = self.hash_type == other.hash_type;
        let same_bytes = crate::retrieve::model::bytes_equal(&self.hash, &other.hash);
        same_type && same_bytes
    }

    /// The text form of the hash.
    pub fn to_text(&self) -> (text: String)
        ensures
            text@ == holo_hash_encoded(self@.bytes),
    {
        proof {
            use_type_invariant(self);
        }
        encode_hash_bytes(self.hash.as_slice())
    }

    /// The hash as it is shown to an operator: the name of its type and, in
    /// brackets, its text form.
    pub fn to_debug_text(&self) -> (text: String)
        ensures
            text@ == hash_type_name(self@.hash_type) + "("@ + holo_hash_encoded(self@.bytes)
                + ")"@,
    {
        let mut text = String::from_str(self.hash_type.name());
        text.append("(");
        let encoded = self.to_text();
        text.append(encoded.as_str());
        text.append(")");
        text
    }
}

} // verus!
