//! The readable form of what the stores hold: operations, and records of a
//! chain.

use crate::error::{HcOpsError, HcOpsResult};
use crate::hash::{hash_decoding, hash_error_text, hash_type_name, holo_hash_encoded, HashType, HoloHash};
use crate::readable::action::{named_fields_view, object_of};
use crate::readable::json::{fields_view, lemma_json_view, Json, JsonView};
use crate::readable::rules::{replace_if_present, replaced_if_present, FieldsView};
use crate::readable::{
    failure, fault, is_reading, timestamp_string, timestamp_text, Transform,
};
use crate::retrieve::model::{
    op_type_name, stage_name, status_name, AuthoredMeta, CacheMeta, DhtMeta, DhtOp, Timestamp,
    ValidationStage, ValidationStatus,
};
use vstd::prelude::*;

verus! {

/// A time as a number of microseconds, or nothing.
pub open spec fn optional_time_view(time: Option<Timestamp>) -> JsonView {
    match time {
        Some(at) => if at.0 >= 0 {
            JsonView::Unsigned(at.0 as u64)
        } else {
            JsonView::Signed(at.0)
        },
        None => JsonView::Null,
    }
}

fn optional_time(time: Option<Timestamp>) -> (made: Json)
    ensures
        made@ == optional_time_view(time),
{
    match time {
        Some(at) => if at.0 >= 0 {
            Json::Unsigned(at.0 as u64)
        } else {
            Json::Signed(at.0)
        },
        None => Json::Null,
    }
}

/// What a kind of store keeps beside the common fields of an operation,
/// written in JSON.
pub trait ReadableMeta: Sized {
    /// The JSON that holds these values.
    spec fn meta_view(self) -> JsonView;

    /// Writes these values in JSON.
    fn meta_json(&self) -> (made: Json)
        ensures
            made@ == self.meta_view(),
    ;
}

impl ReadableMeta for () {
    open spec fn meta_view(self) -> JsonView {
        JsonView::Null
    }

    fn meta_json(&self) -> (made: Json) {
        Json::Null
    }
}

impl ReadableMeta for CacheMeta {
    open spec fn meta_view(self) -> JsonView {
        JsonView::Object(Seq::empty())
    }

    fn meta_json(&self) -> (made: Json) {
        let fields: Vec<(&'static str, Json)> = Vec::new();
        assert(named_fields_view(fields@) =~= Seq::empty());
        object_of(fields)
    }
}

impl ReadableMeta for DhtMeta {
    open spec fn meta_view(self) -> JsonView {
        JsonView::Object(
            seq![
                ("last_validation_attempt"@, optional_time_view(self.last_validation_attempt)),
                (
                    "num_validation_attempts"@,
                    match self.num_validation_attempts {
                        Some(attempts) => JsonView::Unsigned(attempts as u64),
                        None => JsonView::Null,
                    },
                ),
                ("require_receipt"@, JsonView::Bool(self.require_receipt)),
                (
                    "validation_stage"@,
                    match self.validation_stage {
                        Some(stage) => JsonView::Text(stage_name(stage)),
                        None => JsonView::Null,
                    },
                ),
            ],
        )
    }

    fn meta_json(&self) -> (made: Json) {
        let attempts = match self.num_validation_attempts {
            Some(attempts) => Json::Unsigned(attempts as u64),
            None => Json::Null,
        };
        let stage = match self.validation_stage {
            Some(stage) => Json::Text(String::from_str(stage.name())),
            None => Json::Null,
        };
        let last = optional_time(self.last_validation_attempt);
        let receipt = Json::Bool(self.require_receipt);
        let mut fields: Vec<(&'static str, Json)> = Vec::new();
        fields.push(("last_validation_attempt", last));
        fields.push(("num_validation_attempts", attempts));
        fields.push(("require_receipt", receipt));
        fields.push(("validation_stage", stage));
        assert(named_fields_view(fields@) =~= self.meta_view()->Object_0);
        object_of(fields)
    }
}

impl ReadableMeta for AuthoredMeta {
    open spec fn meta_view(self) -> JsonView {
        JsonView::Object(
            seq![
                ("last_publish_time"@, optional_time_view(self.last_publish_time)),
                ("receipts_complete"@, JsonView::Bool(self.receipts_complete)),
                ("withhold_publish"@, JsonView::Bool(self.withhold_publish)),
            ],
        )
    }

    fn meta_json(&self) -> (made: Json) {
        let last = optional_time(self.last_publish_time);
        let complete = Json::Bool(self.receipts_complete);
        let withhold = Json::Bool(self.withhold_publish);
        let mut fields: Vec<(&'static str, Json)> = Vec::new();
        fields.push(("last_publish_time", last));
        fields.push(("receipts_complete", complete));
        fields.push(("withhold_publish", withhold));
        assert(named_fields_view(fields@) =~= self.meta_view()->Object_0);
        object_of(fields)
    }
}

/// The readable form of what a store keeps beside an operation: the time
/// of the last validation attempt, where there is such a field, as the
/// text of an instant.
pub open spec fn meta_reading(meta: JsonView) -> Result<JsonView, Seq<Seq<char>>> {
    match meta {
        JsonView::Object(fields) => match replaced_if_present(
            fields,
            "last_validation_attempt"@,
            Transform::Timestamp,
        ) {
            Err(causes) => Err(causes),
            Ok(readable) => Ok(JsonView::Object(readable)),
        },
        _ => Ok(meta),
    }
}

/// The text of a hash: the name of its type and, in brackets, its text
/// form.
pub open spec fn hash_text(hash_type: HashType, bytes: Seq<u8>) -> Seq<char> {
    hash_type_name(hash_type) + "("@ + holo_hash_encoded(bytes) + ")"@
}

/// The name of a validation status, or nothing.
pub open spec fn optional_status_view(status: Option<ValidationStatus>) -> JsonView {
    match status {
        Some(known) => JsonView::Text(status_name(known)),
        None => JsonView::Null,
    }
}

/// The common fields of the readable form of an operation: its hashes as
/// texts, of which the basis is read as the hash of an entry or an action;
/// the time of authoring as the text of an instant; and its location, type
/// and validation status.
pub open spec fn op_summary_fields<Meta>(op: DhtOp<Meta>) -> FieldsView {
    seq![
        (
            "action_hash"@,
            JsonView::Text(hash_text(op.action_hash@.hash_type, op.action_hash@.bytes)),
        ),
        ("authored_timestamp"@, JsonView::Text(timestamp_text(op.authored_timestamp.0))),
        ("basis_hash"@, JsonView::Text(hash_text(HashType::AnyDht, op.basis_hash@.bytes))),
        ("hash"@, JsonView::Text(hash_text(op.hash@.hash_type, op.hash@.bytes))),
        ("storage_center_loc"@, JsonView::Unsigned(op.storage_center_loc as u64)),
        ("typ"@, JsonView::Text(op_type_name(op.typ))),
        ("validation_status"@, optional_status_view(op.validation_status)),
    ]
}

/// Why the common fields of an operation have no readable form: the basis
/// is neither an entry nor an action, or the time of authoring is before
/// the epoch. `None` where they have one.
pub open spec fn op_fault<Meta>(op: DhtOp<Meta>) -> Option<Seq<Seq<char>>> {
    if hash_decoding(HashType::AnyDht, op.basis_hash@.bytes) is Err {
        Some(fault(hash_error_text(hash_decoding(HashType::AnyDht, op.basis_hash@.bytes)->Err_0)))
    } else if op.authored_timestamp.0 < 0 {
        Some(fault("Invalid timestamp"@))
    } else {
        None
    }
}

/// The summary of an operation: its common fields in readable form.
pub open spec fn op_summary_reading<Meta: ReadableMeta>(op: DhtOp<Meta>) -> Result<
    JsonView,
    Seq<Seq<char>>,
> {
    match op_fault(op) {
        Some(causes) => Err(causes),
        None => match meta_reading(op.meta.meta_view()) {
            Err(causes) => Err(causes),
            Ok(_) => Ok(JsonView::Object(op_summary_fields(op))),
        },
    }
}

/// The readable form of an operation: its common fields, and what its
/// store keeps beside them as `meta`.
pub open spec fn op_reading<Meta: ReadableMeta>(op: DhtOp<Meta>) -> Result<JsonView, Seq<Seq<char>>> {
    match op_fault(op) {
        Some(causes) => Err(causes),
        None => match meta_reading(op.meta.meta_view()) {
            Err(causes) => Err(causes),
            Ok(meta) => Ok(JsonView::Object(op_summary_fields(op).insert(4, ("meta"@, meta)))),
        },
    }
}

fn meta_readable(meta: Json) -> (made: HcOpsResult<Json>)
    ensures
        is_reading(made, meta_reading(meta@)),
{
    proof {
        lemma_json_view(meta);
    }
    match meta {
        Json::Object(fields) => {
            let mut fields = fields;
            match replace_if_present(&mut fields, "last_validation_attempt", Transform::Timestamp) {
                Ok(()) => {
                    let made = Json::Object(fields);
                    proof {
                        lemma_json_view(made);
                    }
                    Ok(made)
                },
                Err(error) => Err(error),
            }
        },
        other => Ok(other),
    }
}

/// The common fields of an operation in readable form, and beside them
/// the readable form of what its store keeps.
fn op_parts<Meta: ReadableMeta>(op: &DhtOp<Meta>) -> (made: HcOpsResult<
    (Vec<(&'static str, Json)>, Json),
>)
    ensures
        match made {
            Ok(parts) => {
                &&& op_fault(*op) is None
                &&& meta_reading(op.meta.meta_view()) == Ok::<JsonView, Seq<Seq<char>>>(parts.1@)
                &&& named_fields_view(parts.0@) == op_summary_fields(*op)
            },
            Err(error) => match op_fault(*op) {
                Some(causes) => crate::error::error_chain(error) == causes,
                None => meta_reading(op.meta.meta_view()) == Err::<JsonView, Seq<Seq<char>>>(
                    crate::error::error_chain(error),
                ),
            },
        },
{
    let basis = match HoloHash::try_from_raw_39(
        HashType::AnyDht,
        vstd::slice::slice_to_vec(op.basis_hash.get_raw_39().as_slice()),
    ) {
        Ok(basis) => basis,
        Err(cause) => {
            let message = cause.message();
            return failure(message.as_str());
        },
    };
    if op.authored_timestamp.0 < 0 {
        return failure("Invalid timestamp");
    }
    let meta = match meta_readable(op.meta.meta_json()) {
        Ok(meta) => meta,
        Err(error) => {
            return Err(error);
        },
    };
    let status = match op.validation_status {
        Some(known) => Json::Text(String::from_str(known.name())),
        None => Json::Null,
    };
    let mut fields: Vec<(&'static str, Json)> = Vec::new();
    fields.push(("action_hash", Json::Text(op.action_hash.to_debug_text())));
    fields.push(
        ("authored_timestamp", Json::Text(timestamp_string(op.authored_timestamp.0))),
    );
    fields.push(("basis_hash", Json::Text(basis.to_debug_text())));
    fields.push(("hash", Json::Text(op.hash.to_debug_text())));
    fields.push(("storage_center_loc", Json::Unsigned(op.storage_center_loc as u64)));
    fields.push(("typ", Json::Text(String::from_str(op.typ.name()))));
    fields.push(("validation_status", status));
    assert(named_fields_view(fields@) =~= op_summary_fields(*op));
    Ok((fields, meta))
}

/// Puts an operation in its readable form. An operation has none where
/// its basis is neither an entry nor an action, where it was authored
/// before the epoch, or where its store keeps a time of the last
/// validation attempt and the operation has none.
pub fn dht_op_readable<Meta: ReadableMeta>(op: &DhtOp<Meta>) -> (made: HcOpsResult<Json>)
    ensures
        is_reading(made, op_reading(*op)),
{
    match op_parts(op) {
        Ok((fields, meta)) => {
            let mut fields = fields;
            let ghost common = named_fields_view(fields@);
            fields.insert(4, ("meta", meta));
            assert(named_fields_view(fields@) =~= common.insert(4, ("meta"@, meta@)));
            Ok(object_of(fields))
        },
        Err(error) => Err(error),
    }
}

/// Puts an operation in its summary form: the readable form without what
/// its store keeps beside the common fields. What fails the readable form
/// fails the summary.
pub fn dht_op_summary<Meta: ReadableMeta>(op: &DhtOp<Meta>) -> (made: HcOpsResult<Json>)
    ensures
        is_reading(made, op_summary_reading(*op)),
{
    match op_parts(op) {
        Ok((fields, _)) => Ok(object_of(fields)),
        Err(error) => Err(error),
    }
}

/// The readable form of a hash: its text.
pub fn hash_readable(hash: &HoloHash) -> (made: Json)
    ensures
        made@ == JsonView::Text(hash_text(hash@.hash_type, hash@.bytes)),
{
    Json::Text(hash.to_debug_text())
}

/// A value, or nothing.
pub open spec fn optional_view(value: Option<Json>) -> JsonView {
    match value {
        Some(held) => held@,
        None => JsonView::Null,
    }
}

fn optional_json(value: Option<Json>) -> (made: Json)
    ensures
        made@ == optional_view(value),
{
    match value {
        Some(held) => held,
        None => Json::Null,
    }
}

/// The readable form of a record of a chain, made of the readable forms
/// of its action and, where it has one, of its entry.
pub fn chain_record_readable(
    action: Json,
    validation_status: ValidationStatus,
    entry: Option<Json>,
) -> (made: Json)
    ensures
        made@ == JsonView::Object(
            seq![
                ("action"@, action@),
                ("entry"@, optional_view(entry)),
                ("validation_status"@, JsonView::Text(status_name(validation_status))),
            ],
        ),
{
    let status = Json::Text(String::from_str(validation_status.name()));
    let held = optional_json(entry);
    let mut fields: Vec<(&'static str, Json)> = Vec::new();
    fields.push(("action", action));
    fields.push(("entry", held));
    fields.push(("validation_status", status));
    assert(named_fields_view(fields@) =~= seq![
        ("action"@, action@),
        ("entry"@, optional_view(entry)),
        ("validation_status"@, JsonView::Text(status_name(validation_status))),
    ]);
    object_of(fields)
}

/// The readable form of an operation with its action and entry, made of
/// the readable forms of the three.
pub fn record_readable(dht_op: Json, action: Json, entry: Option<Json>) -> (made: Json)
    ensures
        made@ == JsonView::Object(
            seq![("action"@, action@), ("dht_op"@, dht_op@), ("entry"@, optional_view(entry))],
        ),
{
    let held = optional_json(entry);
    let mut fields: Vec<(&'static str, Json)> = Vec::new();
    fields.push(("action", action));
    fields.push(("dht_op", dht_op));
    fields.push(("entry", held));
    assert(named_fields_view(fields@) =~= seq![
        ("action"@, action@),
        ("dht_op"@, dht_op@),
        ("entry"@, optional_view(entry)),
    ]);
    object_of(fields)
}

} // verus!
