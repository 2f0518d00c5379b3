//! Rows as they are stored, and the typed values decoded from them.

use crate::bits::{to_unsigned_32, unsigned_32};
use crate::encoding::{append_signed_decimal, signed_decimal_text};
use crate::error::{HcOpsError, HcOpsResult};
use crate::hash::{hash_decoding, HashType, HoloHash, HoloHashError, HoloHashView};
use std::cmp::Ordering;
use vstd::prelude::*;

verus! {

/// An instant, as signed microseconds since the Unix epoch.
#[derive(Clone, Copy, Debug, PartialEq, Eq, Structural)]
pub struct Timestamp(pub i64);

impl Timestamp {
    /// The number of microseconds since the Unix epoch.
    pub fn as_micros(&self) -> (micros: i64)
        ensures
            micros == self.0,
    {
        self.0
    }
}

/// Whether two byte vectors hold the same bytes.
pub fn bytes_equal(left: &Vec<u8>, right: &Vec<u8>) -> (same: bool)
    ensures
        same == (left@ == right@),
{
    if left.len() != right.len() {
        return false;
    }
    let mut i: usize = 0;
    while i < left.len()
        invariant
            left.len() == right.len(),
            i <= left.len(),
            forall|j: int| 0 <= j < i ==> left@[j] == right@[j],
        decreases left.len() - i,
    {
        if left[i] != right[i] {
            return false;
        }
        i += 1;
    }
    assert(left@ =~= right@);
    true
}

/// The digest a node keeps for one coverage range during one time slice.
#[derive(Clone, Debug)]
pub struct SliceHash {
    pub arc_start: i32,
    pub arc_end: i32,
    pub slice_index: i64,
    pub hash: Vec<u8>,
}

/// A slice hash as a mathematical value.
pub struct SliceHashView {
    pub arc_start: int,
    pub arc_end: int,
    pub slice_index: int,
    pub hash: Seq<u8>,
}

impl View for SliceHash {
    type V = SliceHashView;

    open spec fn view(&self) -> SliceHashView {
        SliceHashView {
            arc_start: self.arc_start as int,
            arc_end: self.arc_end as int,
            slice_index: self.slice_index as int,
            hash: self.hash@,
        }
    }
}

impl DeepView for SliceHash {
    type V = SliceHashView;

    open spec fn deep_view(&self) -> SliceHashView {
        self@
    }
}

impl PartialEq for SliceHash {
    fn eq(&self, other: &Self) -> (same: bool) {
        self.arc_start == other.arc_start && self.arc_end == other.arc_end && self.slice_index
            == other.slice_index && bytes_equal(&self.hash, &other.hash)
    }
}

impl vstd::std_specs::cmp::PartialEqSpecImpl for SliceHash {
    open spec fn obeys_eq_spec() -> bool {
        true
    }

    open spec fn eq_spec(&self, other: &Self) -> bool {
        self.arc_start == other.arc_start && self.arc_end == other.arc_end && self.slice_index
            == other.slice_index && self.hash@ == other.hash@
    }
}

impl Eq for SliceHash {

}

impl PartialOrd for SliceHash {
    fn partial_cmp(&self, other: &Self) -> (order: Option<Ordering>) {
        if self.slice_index == other.slice_index {
            if self.arc_start < other.arc_start {
                Some(Ordering::Less)
            } else if self.arc_start == other.arc_start {
                Some(Ordering::Equal)
            } else {
                Some(Ordering::Greater)
            }
        } else if self.slice_index < other.slice_index {
            Some(Ordering::Less)
        } else {
            Some(Ordering::Greater)
        }
    }
}

impl vstd::std_specs::cmp::PartialOrdSpecImpl for SliceHash {
    open spec fn obeys_partial_cmp_spec() -> bool {
        true
    }

    open spec fn partial_cmp_spec(&self, other: &Self) -> Option<Ordering> {
        if self.slice_index == other.slice_index {
            if self.arc_start < other.arc_start {
                Some(Ordering::Less)
            } else if self.arc_start == other.arc_start {
                Some(Ordering::Equal)
            } else {
                Some(Ordering::Greater)
            }
        } else if self.slice_index < other.slice_index {
            Some(Ordering::Less)
        } else {
            Some(Ordering::Greater)
        }
    }
}

/// The kind of a ledger operation.
#[derive(Clone, Copy, Debug, PartialEq, Eq, Structural)]
pub enum DhtOpType {
    StoreRecord,
    StoreEntry,
    RegisterAgentActivity,
    RegisterUpdatedContent,
    RegisterUpdatedRecord,
    RegisterDeletedBy,
    RegisterDeletedEntryAction,
    RegisterAddLink,
    RegisterRemoveLink,
}

/// The name under which a kind of operation is stored.
pub open spec fn op_type_name(typ: DhtOpType) -> Seq<char> {
    match typ {
        DhtOpType::StoreRecord => "StoreRecord"@,
        DhtOpType::StoreEntry => "StoreEntry"@,
        DhtOpType::RegisterAgentActivity => "RegisterAgentActivity"@,
        DhtOpType::RegisterUpdatedContent => "RegisterUpdatedContent"@,
        DhtOpType::RegisterUpdatedRecord => "RegisterUpdatedRecord"@,
        DhtOpType::RegisterDeletedBy => "RegisterDeletedBy"@,
        DhtOpType::RegisterDeletedEntryAction => "RegisterDeletedEntryAction"@,
        DhtOpType::RegisterAddLink => "RegisterAddLink"@,
        DhtOpType::RegisterRemoveLink => "RegisterRemoveLink"@,
    }
}

/// Whether `text` is the stored name of some kind of operation.
pub open spec fn is_op_type_name(text: Seq<char>) -> bool {
    exists|typ: DhtOpType| text == op_type_name(typ)
}

/// The nine names are nine different texts.
pub proof fn lemma_op_type_names_differ(a: DhtOpType, b: DhtOpType)
    ensures
        op_type_name(a) == op_type_name(b) ==> a == b,
{
    reveal_strlit("StoreRecord");
    reveal_strlit("StoreEntry");
    reveal_strlit("RegisterAgentActivity");
    reveal_strlit("RegisterUpdatedContent");
    reveal_strlit("RegisterUpdatedRecord");
    reveal_strlit("RegisterDeletedBy");
    reveal_strlit("RegisterDeletedEntryAction");
    reveal_strlit("RegisterAddLink");
    reveal_strlit("RegisterRemoveLink");
    if a != b && op_type_name(a) == op_type_name(b) {
        assert(op_type_name(a).len() == op_type_name(b).len());
        assert(op_type_name(a)[5] == op_type_name(b)[5]);
        assert(op_type_name(a)[8] == op_type_name(b)[8]);
        assert(op_type_name(a)[15] == op_type_name(b)[15]);
    }
}

/// Whether two texts are the same.
fn same_text(left: &str, right: &str) -> (same: bool)
    ensures
        same == (left@ == right@),
{
    String::from_str(left) == String::from_str(right)
}

impl DhtOpType {
    /// The name under which the kind is stored.
    pub fn name(&self) -> (name: &'static str)
        ensures
            name@ == op_type_name(*self),
    {
        match self {
            DhtOpType::StoreRecord => "StoreRecord",
            DhtOpType::StoreEntry => "StoreEntry",
            DhtOpType::RegisterAgentActivity => "RegisterAgentActivity",
            DhtOpType::RegisterUpdatedContent => "RegisterUpdatedContent",
            DhtOpType::RegisterUpdatedRecord => "RegisterUpdatedRecord",
            DhtOpType::RegisterDeletedBy => "RegisterDeletedBy",
            DhtOpType::RegisterDeletedEntryAction => "RegisterDeletedEntryAction",
            DhtOpType::RegisterAddLink => "RegisterAddLink",
            DhtOpType::RegisterRemoveLink => "RegisterRemoveLink",
        }
    }

    /// Reads a stored kind of operation. A text that is none of the nine
    /// names is an error that gives the text.
    pub fn from_sql(text: &str) -> (read: Result<DhtOpType, String>)
        ensures
            match read {
                Ok(typ) => text@ == op_type_name(typ),
                Err(cause) => !is_op_type_name(text@) && cause@ == "Unknown DhtOpType: "@
                    + text@,
            },
    {
        if same_text(text, "StoreRecord") {
            Ok(DhtOpType::StoreRecord)
        } else if same_text(text, "StoreEntry") {
            Ok(DhtOpType::StoreEntry)
        } else if same_text(text, "RegisterAgentActivity") {
            Ok(DhtOpType::RegisterAgentActivity)
        } else if same_text(text, "RegisterUpdatedContent") {
            Ok(DhtOpType::RegisterUpdatedContent)
        } else if same_text(text, "RegisterUpdatedRecord") {
            Ok(DhtOpType::RegisterUpdatedRecord)
        } else if same_text(text, "RegisterDeletedBy") {
            Ok(DhtOpType::RegisterDeletedBy)
        } else if same_text(text, "RegisterDeletedEntryAction") {
            Ok(DhtOpType::RegisterDeletedEntryAction)
        } else if same_text(text, "RegisterAddLink") {
            Ok(DhtOpType::RegisterAddLink)
        } else if same_text(text, "RegisterRemoveLink") {
            Ok(DhtOpType::RegisterRemoveLink)
        } else {
            assert forall|typ: DhtOpType| text@ != op_type_name(typ) by {}
            Err(String::from_str("Unknown DhtOpType: ").concat(text))
        }
    }
}

/// How far the validation of an operation has come.
#[derive(Clone, Copy, Debug, PartialEq, Eq, Structural)]
pub enum ValidationStage {
    /// Is awaiting to be system validated
    Pending,
    /// Is waiting for dependencies so the op can proceed to system validation
    AwaitingSysDeps,
    /// Is awaiting to be app validated
    SysValidated,
    /// Is waiting for dependencies so the op can proceed to app validation
    AwaitingAppDeps,
    /// Is awaiting to be integrated.
    AwaitingIntegration,
}

/// The number under which a validation stage is stored.
pub open spec fn stage_code(stage: ValidationStage) -> int {
    match stage {
        ValidationStage::Pending => 0,
        ValidationStage::AwaitingSysDeps => 1,
        ValidationStage::SysValidated => 2,
        ValidationStage::AwaitingAppDeps => 3,
        ValidationStage::AwaitingIntegration => 4,
    }
}

/// The name of a validation stage.
pub open spec fn stage_name(stage: ValidationStage) -> Seq<char> {
    match stage {
        ValidationStage::Pending => "Pending"@,
        ValidationStage::AwaitingSysDeps => "AwaitingSysDeps"@,
        ValidationStage::SysValidated => "SysValidated"@,
        ValidationStage::AwaitingAppDeps => "AwaitingAppDeps"@,
        ValidationStage::AwaitingIntegration => "AwaitingIntegration"@,
    }
}

impl ValidationStage {
    /// The name of the stage.
    pub fn name(&self) -> (name: &'static str)
        ensures
            name@ == stage_name(*self),
    {
        match self {
            ValidationStage::Pending => "Pending",
            ValidationStage::AwaitingSysDeps => "AwaitingSysDeps",
            ValidationStage::SysValidated => "SysValidated",
            ValidationStage::AwaitingAppDeps => "AwaitingAppDeps",
            ValidationStage::AwaitingIntegration => "AwaitingIntegration",
        }
    }

    /// Reads a stored validation stage. A number that is none of the five
    /// codes is an error that gives the number.
    pub fn from_sql(code: i16) -> (read: Result<ValidationStage, String>)
        ensures
            match read {
                Ok(stage) => code == stage_code(stage),
                Err(cause) => !(0 <= code <= 4) && cause@ == "Unknown ValidationStage: "@
                    + signed_decimal_text(code as int),
            },
    {
        if code == 0 {
            Ok(ValidationStage::Pending)
        } else if code == 1 {
            Ok(ValidationStage::AwaitingSysDeps)
        } else if code == 2 {
            Ok(ValidationStage::SysValidated)
        } else if code == 3 {
            Ok(ValidationStage::AwaitingAppDeps)
        } else if code == 4 {
            Ok(ValidationStage::AwaitingIntegration)
        } else {
            let mut cause = String::from_str("Unknown ValidationStage: ");
            append_signed_decimal(&mut cause, code as i64);
            Err(cause)
        }
    }
}

/// The outcome of the validation of an operation.
#[derive(Clone, Copy, Debug, PartialEq, Eq, Structural)]
pub enum ValidationStatus {
    /// All dependencies were found and validation passed
    Valid,
    /// Item was rejected by validation
    Rejected,
    /// Validation will not be attempted again, commonly because dependencies
    /// stayed missing for too long
    Abandoned,
}

/// The number under which a validation status is stored.
pub open spec fn status_code(status: ValidationStatus) -> int {
    match status {
        ValidationStatus::Valid => 0,
        ValidationStatus::Rejected => 1,
        ValidationStatus::Abandoned => 2,
    }
}

/// The name of a validation status.
pub open spec fn status_name(status: ValidationStatus) -> Seq<char> {
    match status {
        ValidationStatus::Valid => "Valid"@,
        ValidationStatus::Rejected => "Rejected"@,
        ValidationStatus::Abandoned => "Abandoned"@,
    }
}

impl ValidationStatus {
    /// The name of the status.
    pub fn name(&self) -> (name: &'static str)
        ensures
            name@ == status_name(*self),
    {
        match self {
            ValidationStatus::Valid => "Valid",
            ValidationStatus::Rejected => "Rejected",
            ValidationStatus::Abandoned => "Abandoned",
        }
    }

    /// Reads a stored validation status. A number that is none of the three
    /// codes is an error that gives the number.
    pub fn from_sql(code: i16) -> (read: Result<ValidationStatus, String>)
        ensures
            match read {
                Ok(status) => code == status_code(status),
                Err(cause) => !(0 <= code <= 2) && cause@ == "Unknown ValidationStatus: "@
                    + signed_decimal_text(code as int),
            },
    {
        if code == 0 {
            Ok(ValidationStatus::Valid)
        } else if code == 1 {
            Ok(ValidationStatus::Rejected)
        } else if code == 2 {
            Ok(ValidationStatus::Abandoned)
        } else {
            let mut cause = String::from_str("Unknown ValidationStatus: ");
            append_signed_decimal(&mut cause, code as i64);
            Err(cause)
        }
    }

    /// The number under which the status is stored.
    pub fn to_sql(&self) -> (code: i16)
        ensures
            code == status_code(*self),
    {
        match self {
            ValidationStatus::Valid => 0,
            ValidationStatus::Rejected => 1,
            ValidationStatus::Abandoned => 2,
        }
    }
}

/// A ledger operation as its store holds it. Columns that only one kind of
/// store fills are empty in the others.
#[derive(Debug)]
pub struct DbDhtOp {
    pub hash: Vec<u8>,
    pub typ: Option<DhtOpType>,
    pub basis_hash: Option<Vec<u8>>,
    pub action_hash: Option<Vec<u8>>,
    /// Shared ledger only.
    pub require_receipt: Option<bool>,
    pub storage_center_loc: Option<i32>,
    pub authored_timestamp: Option<i64>,
    pub op_order: String,
    pub validation_status: Option<ValidationStatus>,
    pub when_integrated: Option<i64>,
    /// Authored only.
    pub withhold_publish: Option<bool>,
    /// Authored only.
    pub receipts_complete: Option<bool>,
    /// Authored only.
    pub last_publish_time: Option<i64>,
    /// Shared ledger only.
    pub validation_stage: Option<ValidationStage>,
    /// Shared ledger only.
    pub num_validation_attempts: Option<i32>,
    /// Shared ledger only.
    pub last_validation_attempt: Option<i64>,
    pub dependency: Option<Vec<u8>>,
    /// Shared ledger only.
    pub when_sys_validated: Option<i32>,
    /// Shared ledger only.
    pub when_app_validated: Option<i32>,
    /// Shared ledger only.
    pub when_stored: Option<i32>,
    /// Shared ledger only.
    pub serialized_size: Option<i32>,
}

impl DbDhtOp {
    /// Whether the operation is still to be integrated: it has no time of
    /// integration.
    pub open spec fn pending(&self) -> bool {
        self.when_integrated is None
    }

    /// Whether the row keeps the rule that a validation status and a time of
    /// integration are set together or not at all.
    pub open spec fn consistent(&self) -> bool {
        self.validation_status is Some <==> self.when_integrated is Some
    }

    /// Whether the operation is still to be integrated.
    pub fn is_pending(&self) -> (pending: bool)
        ensures
            pending == self.pending(),
    {
        self.when_integrated.is_none()
    }

    /// Whether a validation status and a time of integration are set
    /// together or not at all.
    pub fn is_consistent(&self) -> (consistent: bool)
        ensures
            consistent == self.consistent(),
    {
        self.validation_status.is_some() == self.when_integrated.is_some()
    }
}

/// What only a shared-ledger store keeps of an operation.
#[derive(Clone, Copy, Debug, PartialEq, Eq, Structural)]
pub struct DhtMeta {
    pub require_receipt: bool,
    pub validation_stage: Option<ValidationStage>,
    pub num_validation_attempts: Option<u32>,
    pub last_validation_attempt: Option<Timestamp>,
}

/// What only a cache store keeps of an operation: nothing.
#[derive(Clone, Copy, Debug, PartialEq, Eq, Structural)]
pub struct CacheMeta {}

/// What only an authored store keeps of an operation.
#[derive(Clone, Copy, Debug, PartialEq, Eq, Structural)]
pub struct AuthoredMeta {
    pub withhold_publish: bool,
    pub receipts_complete: bool,
    pub last_publish_time: Option<Timestamp>,
}

/// A ledger operation with typed fields, and with what its kind of store
/// keeps beside them.
#[derive(Debug)]
pub struct DhtOp<Meta = ()> {
    pub hash: HoloHash,
    pub typ: DhtOpType,
    pub basis_hash: HoloHash,
    pub action_hash: HoloHash,
    pub storage_center_loc: u32,
    pub authored_timestamp: Timestamp,
    pub validation_status: Option<ValidationStatus>,
    pub meta: Meta,
}

/// What can be wrong with the common columns of a stored operation.
pub enum RowFault {
    /// A hash column does not hold a hash of the type that belongs there.
    BadHash(HoloHashError),
    NoType,
    NoBasisHash,
    NoActionHash,
    NoLocation,
    NoTimestamp,
}

/// What is reported for a column that is empty.
pub open spec fn fault_text(fault: RowFault) -> Seq<char> {
    match fault {
        RowFault::BadHash(_) => Seq::empty(),
        RowFault::NoType => "No DhtOpType stored"@,
        RowFault::NoBasisHash => "No basis hash stored"@,
        RowFault::NoActionHash => "No action hash stored"@,
        RowFault::NoLocation => "Missing storage center location"@,
        RowFault::NoTimestamp => "Missing authored timestamp"@,
    }
}

/// Whether `error` is the report of `fault`.
pub open spec fn reports(error: HcOpsError, fault: RowFault) -> bool {
    match fault {
        RowFault::BadHash(cause) => error == HcOpsError::HoloHash(cause),
        _ => error is Other && error->Other_0@ == fault_text(fault),
    }
}

/// The first thing wrong with the common columns of a stored operation, in
/// the order hash, type, basis hash, action hash, location, timestamp;
/// `None` where nothing is.
pub open spec fn row_fault(row: DbDhtOp) -> Option<RowFault> {
    if hash_decoding(HashType::DhtOp, row.hash@) is Err {
        Some(RowFault::BadHash(hash_decoding(HashType::DhtOp, row.hash@)->Err_0))
    } else if row.typ is None {
        Some(RowFault::NoType)
    } else if row.basis_hash is None {
        Some(RowFault::NoBasisHash)
    } else if hash_decoding(HashType::AnyLinkable, row.basis_hash->0@) is Err {
        Some(RowFault::BadHash(hash_decoding(HashType::AnyLinkable, row.basis_hash->0@)->Err_0))
    } else if row.action_hash is None {
        Some(RowFault::NoActionHash)
    } else if hash_decoding(HashType::Action, row.action_hash->0@) is Err {
        Some(RowFault::BadHash(hash_decoding(HashType::Action, row.action_hash->0@)->Err_0))
    } else if row.storage_center_loc is None {
        Some(RowFault::NoLocation)
    } else if row.authored_timestamp is None {
        Some(RowFault::NoTimestamp)
    } else {
        None
    }
}

/// Whether the common fields of `op` are those that `row` holds: the hashes
/// typed, the location read as unsigned, the timestamp in microseconds.
pub open spec fn holds_common_columns<Meta>(op: DhtOp<Meta>, row: DbDhtOp) -> bool {
    &&& op.hash@ == (HoloHashView { hash_type: HashType::DhtOp, bytes: row.hash@ })
    &&& row.typ == Some(op.typ)
    &&& row.basis_hash is Some
    &&& op.basis_hash@ == (HoloHashView {
        hash_type: HashType::AnyLinkable,
        bytes: row.basis_hash->0@,
    })
    &&& row.action_hash is Some
    &&& op.action_hash@ == (HoloHashView {
        hash_type: HashType::Action,
        bytes: row.action_hash->0@,
    })
    &&& row.storage_center_loc is Some
    &&& op.storage_center_loc == unsigned_32(row.storage_center_loc->0 as int)
    &&& row.authored_timestamp == Some(op.authored_timestamp.0)
    &&& op.validation_status == row.validation_status
}

/// What a shared-ledger store keeps beside the common columns of `row`.
pub open spec fn dht_meta_of(row: DbDhtOp) -> DhtMeta {
    DhtMeta {
        require_receipt: match row.require_receipt {
            Some(required) => required,
            None => false,
        },
        validation_stage: row.validation_stage,
        num_validation_attempts: match row.num_validation_attempts {
            Some(attempts) => Some(unsigned_32(attempts as int) as u32),
            None => None,
        },
        last_validation_attempt: match row.last_validation_attempt {
            Some(micros) => Some(Timestamp(micros)),
            None => None,
        },
    }
}

/// What an authored store keeps beside the common columns of `row`.
pub open spec fn authored_meta_of(row: DbDhtOp) -> AuthoredMeta {
    AuthoredMeta {
        withhold_publish: match row.withhold_publish {
            Some(withheld) => withheld,
            None => false,
        },
        receipts_complete: match row.receipts_complete {
            Some(complete) => complete,
            None => false,
        },
        last_publish_time: match row.last_publish_time {
            Some(micros) => Some(Timestamp(micros)),
            None => None,
        },
    }
}

/// Whether `decoded` is what decoding `row` owes, with `meta` beside the
/// common fields: the typed operation where nothing is wrong with the row,
/// else the report of the first thing that is.
pub open spec fn is_row_decoding<Meta>(
    decoded: HcOpsResult<DhtOp<Meta>>,
    row: DbDhtOp,
    meta: Meta,
) -> bool {
    match decoded {
        Ok(op) => row_fault(row) is None && holds_common_columns(op, row) && op.meta == meta,
        Err(error) => row_fault(row) is Some && reports(error, row_fault(row)->0),
    }
}

fn missing<T>(what: &'static str) -> (failed: HcOpsResult<T>)
    ensures
        failed is Err,
        failed->Err_0 is Other,
        failed->Err_0->Other_0@ == what@,
{
    Err(HcOpsError::Other(String::from_str(what)))
}

fn typed_hash(hash_type: HashType, bytes: Vec<u8>) -> (typed: HcOpsResult<HoloHash>)
    ensures
        match typed {
            Ok(hash) => hash_decoding(hash_type, bytes@) is Ok && hash@ == (HoloHashView {
                hash_type,
                bytes: bytes@,
            }),
            Err(error) => hash_decoding(hash_type, bytes@) is Err && error == HcOpsError::HoloHash(
                hash_decoding(hash_type, bytes@)->Err_0,
            ),
        },
{
    match HoloHash::try_from_raw_39(hash_type, bytes) {
        Ok(hash) => Ok(hash),
        Err(cause) => Err(HcOpsError::HoloHash(cause)),
    }
}

fn timestamp_of(micros: Option<i64>) -> (time: Option<Timestamp>)
    ensures
        time == match micros {
            Some(value) => Some(Timestamp(value)),
            None => None::<Timestamp>,
        },
{
    match micros {
        Some(value) => Some(Timestamp(value)),
        None => None,
    }
}

fn flag_of(flag: Option<bool>) -> (set: bool)
    ensures
        set == match flag {
            Some(value) => value,
            None => false,
        },
{
    match flag {
        Some(value) => value,
        None => false,
    }
}

impl<Meta> DhtOp<Meta> {
    /// Types the common columns of a stored operation and puts `meta` beside
    /// them. Any column that is empty or holds what does not belong there
    /// fails the whole row.
    pub fn from_row(row: DbDhtOp, meta: Meta) -> (decoded: HcOpsResult<DhtOp<Meta>>)
        ensures
            is_row_decoding(decoded, row, meta),
    {
        let DbDhtOp {
            hash,
            typ,
            basis_hash,
            action_hash,
            storage_center_loc,
            authored_timestamp,
            validation_status,
            ..
        } = row;
        let hash = match typed_hash(HashType::DhtOp, hash) {
            Ok(hash) => hash,
            Err(error) => {
                return Err(error);
            },
        };
        let typ = match typ {
            Some(typ) => typ,
            None => {
                return missing("No DhtOpType stored");
            },
        };
        let basis_hash = match basis_hash {
            Some(bytes) => match typed_hash(HashType::AnyLinkable, bytes) {
                Ok(hash) => hash,
                Err(error) => {
                    return Err(error);
                },
            },
            None => {
                return missing("No basis hash stored");
            },
        };
        let action_hash = match action_hash {
            Some(bytes) => match typed_hash(HashType::Action, bytes) {
                Ok(hash) => hash,
                Err(error) => {
                    return Err(error);
                },
            },
            None => {
                return missing("No action hash stored");
            },
        };
        let storage_center_loc = match storage_center_loc {
            Some(loc) => to_unsigned_32(loc),
            None => {
                return missing("Missing storage center location");
            },
        };
        let authored_timestamp = match authored_timestamp {
            Some(micros) => Timestamp(micros),
            None => {
                return missing("Missing authored timestamp");
            },
        };
        Ok(
            DhtOp {
                hash,
                typ,
                basis_hash,
                action_hash,
                storage_center_loc,
                authored_timestamp,
                validation_status,
                meta,
            },
        )
    }
}

/// What a kind of store keeps beside the common columns of an operation.
pub trait StoreMeta: Sized {
    /// What the store keeps for `row`.
    spec fn meta_of(row: DbDhtOp) -> Self;

    /// Reads from `row` what the store keeps beside the common columns.
    fn of_row(row: &DbDhtOp) -> (meta: Self)
        ensures
            meta == Self::meta_of(*row),
    ;
}

impl StoreMeta for () {
    open spec fn meta_of(row: DbDhtOp) -> () {
        ()
    }

    fn of_row(row: &DbDhtOp) -> (meta: ()) {
        ()
    }
}

impl StoreMeta for DhtMeta {
    open spec fn meta_of(row: DbDhtOp) -> DhtMeta {
        dht_meta_of(row)
    }

    /// A missing receipt flag reads as unset.
    fn of_row(row: &DbDhtOp) -> (meta: DhtMeta) {
        DhtMeta {
            require_receipt: flag_of(row.require_receipt),
            validation_stage: row.validation_stage,
            num_validation_attempts: match row.num_validation_attempts {
                Some(attempts) => Some(to_unsigned_32(attempts)),
                None => None,
            },
            last_validation_attempt: timestamp_of(row.last_validation_attempt),
        }
    }
}

impl StoreMeta for CacheMeta {
    open spec fn meta_of(row: DbDhtOp) -> CacheMeta {
        CacheMeta {  }
    }

    fn of_row(row: &DbDhtOp) -> (meta: CacheMeta) {
        CacheMeta {  }
    }
}

impl StoreMeta for AuthoredMeta {
    open spec fn meta_of(row: DbDhtOp) -> AuthoredMeta {
        authored_meta_of(row)
    }

    /// Missing flags read as unset.
    fn of_row(row: &DbDhtOp) -> (meta: AuthoredMeta) {
        AuthoredMeta {
            withhold_publish: flag_of(row.withhold_publish),
            receipts_complete: flag_of(row.receipts_complete),
            last_publish_time: timestamp_of(row.last_publish_time),
        }
    }
}

impl<Meta: StoreMeta> DhtOp<Meta> {
    /// Types a stored operation of the kind of store that `Meta` stands
    /// for: the common columns, and what that store keeps beside them.
    pub fn try_from(value: DbDhtOp) -> (decoded: HcOpsResult<DhtOp<Meta>>)
        ensures
            is_row_decoding(decoded, value, Meta::meta_of(value)),
    {
        let meta = Meta::of_row(&value);
        DhtOp::from_row(value, meta)
    }
}

/// Whether `decoded` is what decoding `rows` owes: an operation for each
/// row, in their order, where no row has a fault; else the report of the
/// first fault of the first row that has one.
pub open spec fn is_rows_decoding<Meta: StoreMeta>(
    decoded: HcOpsResult<Vec<DhtOp<Meta>>>,
    rows: Seq<DbDhtOp>,
) -> bool {
    match decoded {
        Ok(ops) => {
            &&& ops.len() == rows.len()
            &&& forall|i: int|
                0 <= i < rows.len() ==> {
                    &&& row_fault(#[trigger] rows[i]) is None
                    &&& holds_common_columns(ops[i], rows[i])
                    &&& ops[i].meta == Meta::meta_of(rows[i])
                }
        },
        Err(error) => exists|i: int|
            {
                &&& 0 <= i < rows.len()
                &&& row_fault(#[trigger] rows[i]) is Some
                &&& reports(error, row_fault(rows[i])->0)
                &&& forall|j: int| 0 <= j < i ==> row_fault(#[trigger] rows[j]) is None
            },
    }
}

/// Types the operations that a listing gave. One row that does not decode
/// fails the whole listing: no row is passed over.
pub fn decode_ops<Meta: StoreMeta>(rows: Vec<DbDhtOp>) -> (decoded: HcOpsResult<Vec<DhtOp<Meta>>>)
    ensures
        is_rows_decoding(decoded, rows@),
{
    let mut left = rows;
    let mut ops: Vec<DhtOp<Meta>> = Vec::new();
    let mut done: usize = 0;
    assert(rows@.skip(0) =~= rows@);
    while left.len() > 0
        invariant
            done + left.len() == rows.len(),
            left@ == rows@.skip(done as int),
            ops.len() == done,
            forall|i: int|
                0 <= i < done ==> {
                    &&& row_fault(#[trigger] rows@[i]) is None
                    &&& holds_common_columns(ops[i], rows@[i])
                    &&& ops[i].meta == Meta::meta_of(rows@[i])
                },
        decreases left.len(),
    {
        let ghost rest = left@;
        let row = left.remove(0);
        assert(row == rows@[done as int]);
        assert(left@ =~= rows@.skip(done + 1));
        match DhtOp::<Meta>::try_from(row) {
            Ok(op) => {
                ops.push(op);
            },
            Err(error) => {
                assert(row_fault(rows@[done as int]) is Some);
                return Err(error);
            },
        }
        done = done + 1;
    }
    Ok(ops)
}

/// An entry as its store holds it.
#[derive(Debug)]
pub struct DbEntry {
    pub hash: Vec<u8>,
    pub blob: Vec<u8>,
    pub tag: Option<String>,
    pub grantor: Option<Vec<u8>>,
    pub cap_secret: Option<Vec<u8>>,
    pub functions: Option<Vec<u8>>,
    pub access_type: Option<String>,
    pub access_secret: Option<Vec<u8>>,
    pub access_assignees: Option<Vec<u8>>,
}

/// A chain entry as its store holds it.
#[derive(Debug)]
pub struct DbAction {
    pub hash: Vec<u8>,
    pub typ: String,
    pub seq: i32,
    pub author: Vec<u8>,
    pub blob: Vec<u8>,
    pub prev_hash: Option<Vec<u8>>,
    pub entry_hash: Option<Vec<u8>>,
    pub entry_type: Option<String>,
    pub private_entry: Option<bool>,
    pub original_entry_hash: Option<Vec<u8>>,
    pub original_action_hash: Option<Vec<u8>>,
    pub deletes_entry_hash: Option<Vec<u8>>,
    pub deletes_action_hash: Option<Vec<u8>>,
    pub base_hash: Option<Vec<u8>>,
    pub zome_index: Option<i32>,
    pub link_type: Option<i32>,
    pub tag: Option<Vec<u8>>,
    pub create_link_hash: Option<Vec<u8>>,
    pub membrane_proof: Option<Vec<u8>>,
    pub prev_dna_hash: Option<Vec<u8>>,
}

} // verus!
