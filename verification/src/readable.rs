//! The readable form of stored values: JSON in which hashes, timestamps
//! and byte arrays are shown as text.

pub mod json;
pub mod action;
pub mod app_info;
pub mod entry;
pub mod rules;
pub mod store;

use crate::bits::{signed_64, to_signed_64};
use crate::encoding::{append_joined_bytes, joined_bytes};
use crate::error::{error_chain, HcOpsError, HcOpsResult};
use crate::hash::{
    hash_decoding, hash_error_text, hash_type_name, holo_hash_encoded, HashType, HoloHash,
};
use crate::readable::json::{lemma_json_view, Json, JsonView};
use holochain_zome_types::prelude::Timestamp;
use vstd::prelude::*;

verus! {

/// What a list that should hold bytes and holds something else is reported
/// as.
pub const INVALID_BYTE_ARRAY_MESSAGE: &'static str = "Invalid byte array field";

/// The text of an instant given in microseconds since the Unix epoch: its
/// date and time of day where the year has four digits, else the number of
/// microseconds in brackets.
pub uninterp spec fn timestamp_text(micros: i64) -> Seq<char>;

/// The JSON text of the value that MessagePack bytes hold; `None` where the
/// bytes hold no such value.
pub uninterp spec fn msgpack_json_text(blob: Seq<u8>) -> Option<Seq<char>>;

/// Writes an instant with the `Display` of `Timestamp` of
/// `holochain_timestamp`. Trusted: the result is the text that the crate
/// gives the instant.
#[verifier::external_body]
fn timestamp_string(micros: i64) -> (text: String)
    ensures
        text@ == timestamp_text(micros),
{
    Timestamp(micros).to_string()
}

/// Decodes MessagePack bytes with `decode` of `holochain_serialized_bytes`
/// into a `serde_json::Value`, and writes the value as JSON text. Trusted:
/// the result is that text, and `None` exactly where the bytes do not
/// decode.
#[verifier::external_body]
fn msgpack_to_json(blob: &[u8]) -> (text: Option<String>)
    ensures
        text is Some <==> msgpack_json_text(blob@) is Some,
        text matches Some(written) ==> written@ == msgpack_json_text(blob@).unwrap(),
{
    match holochain_serialized_bytes::decode::<_, serde_json::Value>(blob) {
        Ok(value) => Some(value.to_string()),
        Err(_) => None,
    }
}

/// The causes of a failure of no particular kind that says `message`.
pub open spec fn fault(message: Seq<char>) -> Seq<Seq<char>> {
    seq!["Other error: "@ + message]
}

/// Whether `made` is what `owed` asks for: a value with that view, or an
/// error with those causes.
pub open spec fn is_reading(made: HcOpsResult<Json>, owed: Result<JsonView, Seq<Seq<char>>>) -> bool {
    match owed {
        Ok(value) => made is Ok && made->Ok_0@ == value,
        Err(causes) => made is Err && error_chain(made->Err_0) == causes,
    }
}

pub(crate) fn failure<T>(message: &str) -> (failed: HcOpsResult<T>)
    ensures
        failed is Err,
        error_chain(failed->Err_0) == fault(message@),
{
    let error = HcOpsError::Other(String::from_str(message));
    assert(error_chain(error) =~= fault(message@));
    Err(error)
}

/// The lowest eight bits of a number.
pub open spec fn low_byte(number: u64) -> u8 {
    (number % 256) as u8
}

/// Whether every item is a whole number that is not negative.
pub open spec fn all_unsigned(items: Seq<JsonView>) -> bool {
    forall|i: int| 0 <= i < items.len() ==> (#[trigger] items[i]) is Unsigned
}

/// The bytes that a list of numbers holds: of each number its lowest eight
/// bits.
pub open spec fn low_bytes(items: Seq<JsonView>) -> Seq<u8> {
    Seq::new(items.len(), |i: int| low_byte(items[i]->Unsigned_0))
}

/// The bytes that a list holds, or why it holds none.
pub open spec fn bytes_of_items(items: Seq<JsonView>) -> Result<Seq<u8>, Seq<Seq<char>>> {
    if all_unsigned(items) {
        Ok(low_bytes(items))
    } else {
        Err(fault(INVALID_BYTE_ARRAY_MESSAGE@))
    }
}

/// The bytes that a value holds, or why it holds none: a value that is no
/// list is reported in the words of `not_a_list`.
pub open spec fn bytes_of(value: JsonView, not_a_list: Seq<char>) -> Result<
    Seq<u8>,
    Seq<Seq<char>>,
> {
    match value {
        JsonView::Array(items) => bytes_of_items(items),
        _ => Err(fault(not_a_list)),
    }
}

/// Whether `made` is what `owed` asks for: bytes, or an error with those
/// causes.
pub open spec fn is_bytes_reading(
    made: HcOpsResult<Vec<u8>>,
    owed: Result<Seq<u8>, Seq<Seq<char>>>,
) -> bool {
    match owed {
        Ok(bytes) => made is Ok && made->Ok_0@ == bytes,
        Err(causes) => made is Err && error_chain(made->Err_0) == causes,
    }
}

/// Reads a list as bytes. An item that is no whole number, or a negative
/// one, fails the whole list.
pub fn convert_byte_array(from: &Vec<Json>) -> (bytes: HcOpsResult<Vec<u8>>)
    ensures
        is_bytes_reading(bytes, bytes_of_items(from.deep_view())),
{
    let mut bytes: Vec<u8> = Vec::new();
    let mut index: usize = 0;
    while index < from.len()
        invariant
            index <= from.len(),
            bytes@.len() == index,
            forall|i: int| 0 <= i < index ==> (#[trigger] from.deep_view()[i]) is Unsigned,
            forall|i: int|
                0 <= i < index ==> bytes@[i] == low_byte(from.deep_view()[i]->Unsigned_0),
        decreases from.len() - index,
    {
        match &from[index] {
            Json::Unsigned(number) => {
                bytes.push((*number % 256) as u8);
            },
            _ => {
                assert(!(from.deep_view()[index as int] is Unsigned));
                return failure(INVALID_BYTE_ARRAY_MESSAGE);
            },
        }
        index = index + 1;
    }
    assert(bytes@ =~= low_bytes(from.deep_view()));
    Ok(bytes)
}

/// Reads a value as bytes. A value that is no list is reported in the
/// words of `not_a_list`.
pub fn value_bytes(value: &Json, not_a_list: &str) -> (bytes: HcOpsResult<Vec<u8>>)
    ensures
        is_bytes_reading(bytes, bytes_of(value@, not_a_list@)),
{
    proof {
        lemma_json_view(*value);
    }
    match value {
        Json::Array(items) => convert_byte_array(items),
        _ => failure(not_a_list),
    }
}

/// Bytes in their readable form: `ByteArray([` and `])` around their
/// numbers.
pub open spec fn byte_array_text(bytes: Seq<u8>) -> Seq<char> {
    "ByteArray(["@ + joined_bytes(bytes) + "])"@
}

/// The readable form of bytes, as one text.
pub fn flatten_byte_array(bytes: &Vec<u8>) -> (text: String)
    ensures
        text@ == byte_array_text(bytes@),
{
    let mut text = String::from_str("ByteArray([");
    append_joined_bytes(&mut text, bytes.as_slice());
    text.append("])");
    text
}

/// The ways in which a value is put in its readable form.
#[derive(Clone, Copy, Debug, PartialEq, Eq, Structural)]
pub enum Transform {
    /// The bytes of the hash of a shard become its text.
    DnaHash,
    /// The bytes of an agent's key become its text.
    AgentPubKey,
    /// The bytes of the hash of an operation become its text.
    DhtOpHash,
    /// The bytes of the hash of an entry or an action become its text.
    AnyLinkableHash,
    /// The bytes of the hash of an action become its text.
    ActionHash,
    /// The bytes of the hash of an entry become its text.
    EntryHash,
    /// The two hashes of a cell become their texts.
    CellId,
    /// A number of microseconds becomes the text of an instant.
    Timestamp,
    /// MessagePack bytes become the value that they hold, or, where they
    /// hold none, the text of the bytes.
    MsgpackBlob,
    /// Bytes become one text.
    FlattenByteArray,
}

/// The readable form of a hash given as a list of bytes.
pub open spec fn hash_reading(value: JsonView, hash_type: HashType, not_a_list: Seq<char>) -> Result<
    JsonView,
    Seq<Seq<char>>,
> {
    match bytes_of(value, not_a_list) {
        Err(causes) => Err(causes),
        Ok(bytes) => match hash_decoding(hash_type, bytes) {
            Err(cause) => Err(fault(hash_error_text(cause))),
            Ok(_) => Ok(
                JsonView::Text(
                    hash_type_name(hash_type) + "("@ + holo_hash_encoded(bytes) + ")"@,
                ),
            ),
        },
    }
}

/// The readable form of a list of bytes: one text.
pub open spec fn flat_reading(value: JsonView) -> Result<JsonView, Seq<Seq<char>>> {
    match bytes_of(value, "Invalid byte array"@) {
        Err(causes) => Err(causes),
        Ok(bytes) => Ok(JsonView::Text(byte_array_text(bytes))),
    }
}

/// The readable form of a cell: a list of the texts of its two hashes.
pub open spec fn cell_reading(value: JsonView) -> Result<JsonView, Seq<Seq<char>>> {
    match value {
        JsonView::Array(parts) => {
            if parts.len() != 2 {
                Err(fault("Invalid cell id, should have two components"@))
            } else {
                match hash_reading(
                    parts[0],
                    HashType::Dna,
                    "Cannot convert to a dna hash, not an array"@,
                ) {
                    Err(causes) => Err(causes),
                    Ok(dna) => match hash_reading(
                        parts[1],
                        HashType::Agent,
                        "Cannot convert to an agent pub key, not an array"@,
                    ) {
                        Err(causes) => Err(causes),
                        Ok(agent) => Ok(JsonView::Array(seq![dna, agent])),
                    },
                }
            }
        },
        _ => Err(fault("Cannot convert to a cell id, not an array"@)),
    }
}

/// What a transform makes of a value, or why it makes nothing of it.
pub open spec fn transformed(transform: Transform, value: JsonView) -> Result<
    JsonView,
    Seq<Seq<char>>,
> {
    match transform {
        Transform::DnaHash => hash_reading(
            value,
            HashType::Dna,
            "Cannot convert to a dna hash, not an array"@,
        ),
        Transform::AgentPubKey => hash_reading(
            value,
            HashType::Agent,
            "Cannot convert to an agent pub key, not an array"@,
        ),
        Transform::DhtOpHash => hash_reading(
            value,
            HashType::DhtOp,
            "Cannot convert to a dht op hash, not an array"@,
        ),
        Transform::AnyLinkableHash => hash_reading(
            value,
            HashType::AnyDht,
            "Cannot convert to an any dht op hash, not an array"@,
        ),
        Transform::ActionHash => hash_reading(
            value,
            HashType::Action,
            "Cannot convert to an action hash, not an array"@,
        ),
        Transform::EntryHash => hash_reading(
            value,
            HashType::Entry,
            "Cannot convert to an entry hash, not an array"@,
        ),
        Transform::CellId => cell_reading(value),
        Transform::Timestamp => match value {
            JsonView::Unsigned(micros) => Ok(
                JsonView::Text(timestamp_text(signed_64(micros as nat) as i64)),
            ),
            _ => Err(fault("Invalid timestamp"@)),
        },
        Transform::MsgpackBlob => match bytes_of(value, "Invalid msgpack blob"@) {
            Err(causes) => Err(causes),
            Ok(bytes) => match msgpack_json_text(bytes) {
                Some(text) => Ok(JsonView::Encoded(text)),
                None => flat_reading(value),
            },
        },
        Transform::FlattenByteArray => flat_reading(value),
    }
}

pub(crate) fn transform_hash(value: &Json, hash_type: HashType, not_a_list: &str) -> (made: HcOpsResult<Json>)
    ensures
        is_reading(made, hash_reading(value@, hash_type, not_a_list@)),
{
    let bytes = match value_bytes(value, not_a_list) {
        Ok(bytes) => bytes,
        Err(error) => {
            return Err(error);
        },
    };
    match HoloHash::try_from_raw_39(hash_type, bytes) {
        Ok(hash) => Ok(Json::Text(hash.to_debug_text())),
        Err(cause) => {
            let message = cause.message();
            failure(message.as_str())
        },
    }
}

pub(crate) fn transform_flatten_byte_array(value: &Json) -> (made: HcOpsResult<Json>)
    ensures
        is_reading(made, flat_reading(value@)),
{
    match value_bytes(value, "Invalid byte array") {
        Ok(bytes) => Ok(Json::Text(flatten_byte_array(&bytes))),
        Err(error) => Err(error),
    }
}

pub(crate) fn transform_cell_id(value: &Json) -> (made: HcOpsResult<Json>)
    ensures
        is_reading(made, cell_reading(value@)),
{
    proof {
        lemma_json_view(*value);
    }
    match value {
        Json::Array(parts) => {
            if parts.len() != 2 {
                return failure("Invalid cell id, should have two components");
            }
            let dna = match transform_hash(
                &parts[0],
                HashType::Dna,
                "Cannot convert to a dna hash, not an array",
            ) {
                Ok(dna) => dna,
                Err(error) => {
                    return Err(error);
                },
            };
            let agent = match transform_hash(
                &parts[1],
                HashType::Agent,
                "Cannot convert to an agent pub key, not an array",
            ) {
                Ok(agent) => agent,
                Err(error) => {
                    return Err(error);
                },
            };
            let mut out: Vec<Json> = Vec::new();
            out.push(dna);
            out.push(agent);
            let made = Json::Array(out);
            proof {
                lemma_json_view(made);
                assert(out.deep_view() =~= seq![dna@, agent@]);
            }
            Ok(made)
        },
        _ => failure("Cannot convert to a cell id, not an array"),
    }
}

impl Transform {
    /// Puts a value in its readable form.
    pub fn apply(&self, value: &Json) -> (made: HcOpsResult<Json>)
        ensures
            is_reading(made, transformed(*self, value@)),
    {
        match self {
            Transform::DnaHash => transform_hash(
                value,
                HashType::Dna,
                "Cannot convert to a dna hash, not an array",
            ),
            Transform::AgentPubKey => transform_hash(
                value,
                HashType::Agent,
                "Cannot convert to an agent pub key, not an array",
            ),
            Transform::DhtOpHash => transform_hash(
                value,
                HashType::DhtOp,
                "Cannot convert to a dht op hash, not an array",
            ),
            Transform::AnyLinkableHash => transform_hash(
                value,
                HashType::AnyDht,
                "Cannot convert to an any dht op hash, not an array",
            ),
            Transform::ActionHash => transform_hash(
                value,
                HashType::Action,
                "Cannot convert to an action hash, not an array",
            ),
            Transform::EntryHash => transform_hash(
                value,
                HashType::Entry,
                "Cannot convert to an entry hash, not an array",
            ),
            Transform::CellId => transform_cell_id(value),
            Transform::Timestamp => match value {
                Json::Unsigned(micros) => Ok(Json::Text(timestamp_string(to_signed_64(*micros)))),
                _ => failure("Invalid timestamp"),
            },
            Transform::MsgpackBlob => {
                let bytes = match value_bytes(value, "Invalid msgpack blob") {
                    Ok(bytes) => bytes,
                    Err(error) => {
                        return Err(error);
                    },
                };
                match msgpack_to_json(bytes.as_slice()) {
                    Some(text) => Ok(Json::Encoded(text)),
                    None => transform_flatten_byte_array(value),
                }
            },
            Transform::FlattenByteArray => transform_flatten_byte_array(value),
        }
    }
}

} // verus!
