use hc_ops::hash::{HashType, HoloHashError};
use hc_ops::retrieve::list_discovered_agents;
use hc_ops::retrieve::model::{
    bytes_equal, decode_ops, AuthoredMeta, CacheMeta, DbDhtOp, DhtMeta, DhtOp, DhtOpType,
    SliceHash, Timestamp, ValidationStage, ValidationStatus,
};
use hc_ops::{HcOpsError, HcOpsResultContextExt};
use std::cmp::Ordering;

fn raw(code: u8, fill: u8) -> Vec<u8> {
    let mut bytes = vec![0x84, code, 0x24];
    bytes.extend(vec![fill; 36]);
    bytes
}

fn row() -> DbDhtOp {
    DbDhtOp {
        hash: raw(0x24, 1),
        typ: Some(DhtOpType::StoreEntry),
        basis_hash: Some(raw(0x21, 2)),
        action_hash: Some(raw(0x29, 3)),
        require_receipt: Some(true),
        storage_center_loc: Some(-2),
        authored_timestamp: Some(1_700_000_000_000_000),
        op_order: "order".to_string(),
        validation_status: Some(ValidationStatus::Rejected),
        when_integrated: Some(5),
        withhold_publish: Some(true),
        receipts_complete: None,
        last_publish_time: Some(77),
        validation_stage: Some(ValidationStage::SysValidated),
        num_validation_attempts: Some(4),
        last_validation_attempt: Some(99),
        dependency: None,
        when_sys_validated: None,
        when_app_validated: None,
        when_stored: None,
        serialized_size: None,
    }
}

#[test]
fn op_type_reads_the_nine_names() {
    let names = [
        ("StoreRecord", DhtOpType::StoreRecord),
        ("StoreEntry", DhtOpType::StoreEntry),
        ("RegisterAgentActivity", DhtOpType::RegisterAgentActivity),
        ("RegisterUpdatedContent", DhtOpType::RegisterUpdatedContent),
        ("RegisterUpdatedRecord", DhtOpType::RegisterUpdatedRecord),
        ("RegisterDeletedBy", DhtOpType::RegisterDeletedBy),
        ("RegisterDeletedEntryAction", DhtOpType::RegisterDeletedEntryAction),
        ("RegisterAddLink", DhtOpType::RegisterAddLink),
        ("RegisterRemoveLink", DhtOpType::RegisterRemoveLink),
    ];
    for (name, typ) in names {
        assert_eq!(DhtOpType::from_sql(name), Ok(typ));
        assert_eq!(typ.name(), name);
    }
}

#[test]
fn op_type_refuses_any_other_text_and_names_it() {
    assert_eq!(
        DhtOpType::from_sql("StoreNothing"),
        Err("Unknown DhtOpType: StoreNothing".to_string())
    );
    assert_eq!(DhtOpType::from_sql(""), Err("Unknown DhtOpType: ".to_string()));
    assert_eq!(
        DhtOpType::from_sql("storerecord"),
        Err("Unknown DhtOpType: storerecord".to_string())
    );
    assert_eq!(
        DhtOpType::from_sql("StoreRecord "),
        Err("Unknown DhtOpType: StoreRecord ".to_string())
    );
}

#[test]
fn validation_stage_reads_its_codes() {
    assert_eq!(ValidationStage::from_sql(0), Ok(ValidationStage::Pending));
    assert_eq!(ValidationStage::from_sql(1), Ok(ValidationStage::AwaitingSysDeps));
    assert_eq!(ValidationStage::from_sql(2), Ok(ValidationStage::SysValidated));
    assert_eq!(ValidationStage::from_sql(3), Ok(ValidationStage::AwaitingAppDeps));
    assert_eq!(ValidationStage::from_sql(4), Ok(ValidationStage::AwaitingIntegration));
    assert_eq!(ValidationStage::from_sql(5), Err("Unknown ValidationStage: 5".to_string()));
    assert_eq!(ValidationStage::from_sql(-1), Err("Unknown ValidationStage: -1".to_string()));
    assert_eq!(
        ValidationStage::from_sql(i16::MIN),
        Err("Unknown ValidationStage: -32768".to_string())
    );
}

#[test]
fn validation_status_reads_and_writes_its_codes() {
    assert_eq!(ValidationStatus::from_sql(0), Ok(ValidationStatus::Valid));
    assert_eq!(ValidationStatus::from_sql(1), Ok(ValidationStatus::Rejected));
    assert_eq!(ValidationStatus::from_sql(2), Ok(ValidationStatus::Abandoned));
    assert_eq!(ValidationStatus::from_sql(3), Err("Unknown ValidationStatus: 3".to_string()));
    assert_eq!(
        ValidationStatus::from_sql(i16::MAX),
        Err("Unknown ValidationStatus: 32767".to_string())
    );
    for status in [ValidationStatus::Valid, ValidationStatus::Rejected, ValidationStatus::Abandoned] {
        assert_eq!(ValidationStatus::from_sql(status.to_sql()), Ok(status));
    }
    assert_eq!(ValidationStatus::Abandoned.to_sql(), 2);
}

#[test]
fn op_decodes_its_common_columns() {
    let op = DhtOp::<()>::try_from(row()).unwrap();
    assert_eq!(op.hash.get_raw_39(), &raw(0x24, 1));
    assert_eq!(op.hash.hash_type(), HashType::DhtOp);
    assert_eq!(op.typ, DhtOpType::StoreEntry);
    assert_eq!(op.basis_hash.get_raw_39(), &raw(0x21, 2));
    assert_eq!(op.basis_hash.hash_type(), HashType::AnyLinkable);
    assert_eq!(op.action_hash.get_raw_39(), &raw(0x29, 3));
    assert_eq!(op.action_hash.hash_type(), HashType::Action);
    assert_eq!(op.storage_center_loc, 4294967294);
    assert_eq!(op.authored_timestamp, Timestamp(1_700_000_000_000_000));
    assert_eq!(op.validation_status, Some(ValidationStatus::Rejected));
}

#[test]
fn op_decodes_what_each_store_keeps() {
    let op = DhtOp::<DhtMeta>::try_from(row()).unwrap();
    assert_eq!(
        op.meta,
        DhtMeta {
            require_receipt: true,
            validation_stage: Some(ValidationStage::SysValidated),
            num_validation_attempts: Some(4),
            last_validation_attempt: Some(Timestamp(99)),
        }
    );
    let op = DhtOp::<AuthoredMeta>::try_from(row()).unwrap();
    assert_eq!(
        op.meta,
        AuthoredMeta {
            withhold_publish: true,
            receipts_complete: false,
            last_publish_time: Some(Timestamp(77)),
        }
    );
    let op = DhtOp::<CacheMeta>::try_from(row()).unwrap();
    assert_eq!(op.meta, CacheMeta {});
    let mut bare = row();
    bare.require_receipt = None;
    bare.num_validation_attempts = Some(-1);
    bare.last_validation_attempt = None;
    bare.validation_stage = None;
    let op = DhtOp::<DhtMeta>::try_from(bare).unwrap();
    assert_eq!(
        op.meta,
        DhtMeta {
            require_receipt: false,
            validation_stage: None,
            num_validation_attempts: Some(u32::MAX),
            last_validation_attempt: None,
        }
    );
}

fn other_error(row: DbDhtOp) -> String {
    match DhtOp::<()>::try_from(row) {
        Err(HcOpsError::Other(cause)) => cause,
        Err(other) => panic!("unexpected error: {:?}", other),
        Ok(_) => panic!("the row decoded"),
    }
}

fn hash_error(row: DbDhtOp) -> HoloHashError {
    match DhtOp::<DhtMeta>::try_from(row) {
        Err(HcOpsError::HoloHash(cause)) => cause,
        Err(other) => panic!("unexpected error: {:?}", other),
        Ok(_) => panic!("the row decoded"),
    }
}

#[test]
fn op_reports_each_empty_column() {
    let mut r = row();
    r.typ = None;
    assert_eq!(other_error(r), "No DhtOpType stored");
    let mut r = row();
    r.basis_hash = None;
    assert_eq!(other_error(r), "No basis hash stored");
    let mut r = row();
    r.action_hash = None;
    assert_eq!(other_error(r), "No action hash stored");
    let mut r = row();
    r.storage_center_loc = None;
    assert_eq!(other_error(r), "Missing storage center location");
    let mut r = row();
    r.authored_timestamp = None;
    assert_eq!(other_error(r), "Missing authored timestamp");
}

#[test]
fn op_reports_the_first_fault() {
    let mut r = row();
    r.hash = vec![1, 2, 3];
    r.typ = None;
    assert_eq!(hash_error(r), HoloHashError::BadSize);
    let mut r = row();
    r.typ = None;
    r.basis_hash = Some(raw(0x20, 2));
    assert_eq!(other_error(r), "No DhtOpType stored");
    let mut r = row();
    r.basis_hash = Some(raw(0x20, 2));
    r.action_hash = None;
    assert_eq!(
        hash_error(r),
        HoloHashError::BadPrefix {
            expected: HashType::AnyLinkable,
            first: 0x84,
            second: 0x20,
            third: 0x24
        }
    );
    let mut r = row();
    r.action_hash = Some(raw(0x21, 2));
    r.authored_timestamp = None;
    assert_eq!(
        hash_error(r),
        HoloHashError::BadPrefix { expected: HashType::Action, first: 0x84, second: 0x21, third: 0x24 }
    );
    let mut r = row();
    r.hash = raw(0x29, 1);
    assert_eq!(
        hash_error(r),
        HoloHashError::BadPrefix { expected: HashType::DhtOp, first: 0x84, second: 0x29, third: 0x24 }
    );
}

#[test]
fn basis_hash_may_be_entry_action_or_external() {
    for code in [0x21, 0x29, 0x2f] {
        let mut r = row();
        r.basis_hash = Some(raw(code, 7));
        assert!(DhtOp::<()>::try_from(r).is_ok());
    }
}

#[test]
fn pending_rows_have_no_time_of_integration() {
    let mut r = row();
    assert!(!r.is_pending());
    assert!(r.is_consistent());
    r.when_integrated = None;
    assert!(r.is_pending());
    assert!(!r.is_consistent());
    r.validation_status = None;
    assert!(r.is_consistent());
}

#[test]
fn slice_hashes_order_by_slice_then_start() {
    let a = SliceHash { arc_start: 5, arc_end: 9, slice_index: 1, hash: vec![1] };
    let b = SliceHash { arc_start: 0, arc_end: 9, slice_index: 2, hash: vec![1] };
    let c = SliceHash { arc_start: 5, arc_end: 1, slice_index: 1, hash: vec![2] };
    let d = SliceHash { arc_start: 6, arc_end: 1, slice_index: 1, hash: vec![2] };
    assert_eq!(a.partial_cmp(&b), Some(Ordering::Less));
    assert_eq!(b.partial_cmp(&a), Some(Ordering::Greater));
    assert_eq!(a.partial_cmp(&c), Some(Ordering::Equal));
    assert_eq!(a.partial_cmp(&d), Some(Ordering::Less));
    assert!(a < b);
    assert!(d > a);
    assert!(a != c);
    assert!(a == SliceHash { arc_start: 5, arc_end: 9, slice_index: 1, hash: vec![1] });
}

#[test]
fn bytes_compare_by_content() {
    assert!(bytes_equal(&vec![], &vec![]));
    assert!(bytes_equal(&vec![1, 2], &vec![1, 2]));
    assert!(!bytes_equal(&vec![1, 2], &vec![1, 3]));
    assert!(!bytes_equal(&vec![1, 2], &vec![1, 2, 3]));
}

#[test]
fn discovered_agents_are_listed_once() {
    let agents = list_discovered_agents(
        vec![raw(0x20, 1), raw(0x20, 2), raw(0x20, 1)],
        vec![raw(0x20, 3), raw(0x20, 2), raw(0x20, 4)],
    )
    .unwrap();
    let found: Vec<Vec<u8>> = agents.iter().map(|a| a.get_raw_39().clone()).collect();
    assert_eq!(found, vec![raw(0x20, 1), raw(0x20, 2), raw(0x20, 3), raw(0x20, 4)]);
    assert!(agents.iter().all(|a| a.hash_type() == HashType::Agent));
    assert!(list_discovered_agents(Vec::new(), Vec::new()).unwrap().is_empty());
}

#[test]
fn discovered_agents_fail_on_a_key_that_is_no_agent_key() {
    let failed = list_discovered_agents(vec![raw(0x20, 1)], vec![raw(0x21, 3)]).unwrap_err();
    assert!(matches!(
        failed,
        HcOpsError::HoloHash(HoloHashError::BadPrefix { expected: HashType::Agent, .. })
    ));
    let failed = list_discovered_agents(vec![vec![1, 2, 3]], Vec::new()).unwrap_err();
    assert!(matches!(failed, HcOpsError::HoloHash(HoloHashError::BadSize)));
}

#[test]
fn errors_say_what_they_are() {
    assert_eq!(HcOpsError::other("boom".to_string()).message(), "Other error: boom");
    assert_eq!(
        HcOpsError::client("refused".to_string()).message(),
        "Holochain client error: refused"
    );
    assert_eq!(HcOpsError::IO("gone".to_string()).message(), "IO error: gone");
    assert_eq!(HcOpsError::Database("locked".to_string()).message(), "Database error: locked");
    assert_eq!(HcOpsError::JSON("eof".to_string()).message(), "JSON error: eof");
    assert_eq!(
        HcOpsError::SerializedBytes("bad".to_string()).message(),
        "Serialized bytes error: bad"
    );
    assert_eq!(
        HcOpsError::HoloHash(HoloHashError::BadSize).message(),
        "HoloHash error: Holo Hash has incorrect size"
    );
}

#[test]
fn context_wraps_only_failures() {
    let fine: Result<u8, HcOpsError> = Ok(3);
    assert_eq!(fine.context("reading".to_string()).unwrap(), 3);
    let failed: Result<u8, HcOpsError> = Err(HcOpsError::IO("gone".to_string()));
    let wrapped = failed.context("Failed to open the DHT database".to_string()).unwrap_err();
    assert_eq!(wrapped.message(), "Failed to open the DHT database\n\tcaused by: IO error: gone");
    let twice: Result<u8, HcOpsError> = Err(wrapped);
    let outer = twice.context("exploring".to_string()).unwrap_err();
    assert_eq!(
        outer.message(),
        "exploring\n\tcaused by: Failed to open the DHT database\n\tcaused by: IO error: gone"
    );
    assert!(matches!(outer, HcOpsError::Context { .. }));
}

#[test]
fn a_listing_decodes_every_row_or_fails() {
    let ops = decode_ops::<DhtMeta>(vec![row(), row(), row()]).unwrap();
    assert_eq!(ops.len(), 3);
    assert!(ops.iter().all(|op| op.typ == DhtOpType::StoreEntry && op.meta.require_receipt));
    assert!(decode_ops::<CacheMeta>(Vec::new()).unwrap().is_empty());
    let mut second = row();
    second.typ = None;
    let mut third = row();
    third.hash = vec![1];
    match decode_ops::<AuthoredMeta>(vec![row(), second, third]) {
        Err(HcOpsError::Other(cause)) => assert_eq!(cause, "No DhtOpType stored"),
        Err(other) => panic!("unexpected error: {:?}", other),
        Ok(_) => panic!("the listing decoded"),
    }
}
