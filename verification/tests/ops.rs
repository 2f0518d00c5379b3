use hc_ops::encoding::{append_decimal, append_signed_decimal, decimal_string};
use hc_ops::bits::{to_signed_32, to_signed_64, to_unsigned_32, to_unsigned_64};
use hc_ops::hash::{HashType, HoloHash};
use hc_ops::ops::{is_cell_initialized, select_app_interface, AppInterface};
use hc_ops::partition::checked_time_bounds_for_slice;
use hc_ops::render::{AgentTag, AgentTagTable, ConductorTag, ConductorTagTable};
use hc_ops::retrieve::model::{DbAction, DbDhtOp, DhtOpType, ValidationStage};
use hc_ops::retrieve::Record;
use hc_ops::HcOpsError;
use holochain_zome_types::prelude::{
    Action, ActionData, ActionHash, ActionHashed, ActionHeader, AgentPubKey, CreateData,
    EntryHash, EntryType, Signature, SignedAction, Timestamp, SIGNATURE_BYTES,
};

fn types(names: &[Option<&str>]) -> Option<Vec<Option<String>>> {
    Some(names.iter().map(|n| n.map(|s| s.to_string())).collect())
}

#[test]
fn cell_is_initialized_once_the_marker_is_there() {
    assert_eq!(
        is_cell_initialized(types(&[Some("Dna"), Some("AgentValidationPkg"), Some("Create")]))
            .unwrap(),
        false
    );
    assert_eq!(
        is_cell_initialized(types(&[Some("Dna"), None, Some("InitZomesComplete"), Some("Create")]))
            .unwrap(),
        true
    );
    assert_eq!(is_cell_initialized(types(&[])).unwrap(), false);
    assert_eq!(is_cell_initialized(types(&[Some("initzomescomplete")])).unwrap(), false);
}

#[test]
fn a_dump_without_records_is_an_error() {
    match is_cell_initialized(None) {
        Err(HcOpsError::Other(cause)) => assert_eq!(cause, "No records found in dump"),
        other => panic!("unexpected outcome: {:?}", other),
    }
}

fn interface(port: u16, app: Option<&str>, origin_allowed: bool) -> AppInterface {
    AppInterface { port, installed_app_id: app.map(|a| a.to_string()), origin_allowed }
}

#[test]
fn the_first_interface_that_can_serve_is_chosen() {
    let interfaces = vec![
        interface(1, Some("other"), true),
        interface(2, None, false),
        interface(3, Some("mine"), false),
        interface(4, Some("mine"), true),
        interface(5, None, true),
    ];
    assert_eq!(select_app_interface(&interfaces, "mine"), Some(4));
    assert_eq!(select_app_interface(&interfaces, "other"), Some(1));
    assert_eq!(select_app_interface(&interfaces, "third"), Some(5));
    assert_eq!(select_app_interface(&interfaces[..4].iter().map(|i| interface(i.port, i.installed_app_id.as_deref(), i.origin_allowed)).collect(), "third"), None);
    assert_eq!(select_app_interface(&Vec::new(), "mine"), None);
}

#[test]
fn decimal_numerals() {
    assert_eq!(decimal_string(0), "0");
    assert_eq!(decimal_string(9), "9");
    assert_eq!(decimal_string(10), "10");
    assert_eq!(decimal_string(1234567890), "1234567890");
    assert_eq!(decimal_string(u64::MAX), "18446744073709551615");
    let mut text = "n=".to_string();
    append_decimal(&mut text, 405);
    assert_eq!(text, "n=405");
    append_signed_decimal(&mut text, -17);
    assert_eq!(text, "n=405-17");
    let mut text = String::new();
    append_signed_decimal(&mut text, i64::MIN);
    assert_eq!(text, "-9223372036854775808");
    let mut text = String::new();
    append_signed_decimal(&mut text, i64::MAX);
    assert_eq!(text, "9223372036854775807");
}

#[test]
fn bits_are_kept_between_signed_and_unsigned() {
    assert_eq!(to_signed_32(0), 0);
    assert_eq!(to_signed_32(0x7FFF_FFFF), i32::MAX);
    assert_eq!(to_signed_32(0x8000_0000), i32::MIN);
    assert_eq!(to_signed_32(u32::MAX), -1);
    assert_eq!(to_unsigned_32(-1), u32::MAX);
    assert_eq!(to_unsigned_32(i32::MIN), 0x8000_0000);
    assert_eq!(to_unsigned_32(5), 5);
    assert_eq!(to_signed_64(u64::MAX), -1);
    assert_eq!(to_signed_64(1 << 63), i64::MIN);
    assert_eq!(to_signed_64(77), 77);
    assert_eq!(to_unsigned_64(-1), u64::MAX);
    assert_eq!(to_unsigned_64(i64::MIN), 1 << 63);
    assert_eq!(to_unsigned_64(i64::MAX), i64::MAX as u64);
    for v in [0u32, 1, 0x7FFF_FFFF, 0x8000_0000, 0xFFFF_FFFE] {
        assert_eq!(to_unsigned_32(to_signed_32(v)), v);
        assert_eq!(to_signed_32(v), v as i32);
    }
}

#[test]
fn slice_bounds_beyond_the_last_slice_are_none() {
    let (start, end) = checked_time_bounds_for_slice(2).unwrap();
    assert_eq!(start.as_micros(), 921_600_000_000);
    assert_eq!(end.as_micros(), 1_382_400_000_000);
    assert!(checked_time_bounds_for_slice(20_015_997).is_some());
    assert!(checked_time_bounds_for_slice(20_015_998).is_none());
    assert!(checked_time_bounds_for_slice(u64::MAX).is_none());
}

fn raw(code: u8, fill: u8) -> Vec<u8> {
    let mut bytes = vec![0x84, code, 0x24];
    bytes.extend(vec![fill; 36]);
    bytes
}

#[test]
fn tag_rows_show_what_the_tags_hold() {
    let key = AgentPubKey::from_raw_36(vec![4; 36]);
    let row = AgentTagTable::from(AgentTag {
        agent: key.get_raw_39().to_vec(),
        tag: "alice".to_string(),
    });
    assert_eq!(row.agent, format!("{:?}", key));
    assert_eq!(row.tag, "alice");
    let row = ConductorTagTable::from(ConductorTag {
        tag: "local".to_string(),
        address: "127.0.0.1".to_string(),
        port: 4444,
    });
    assert_eq!((row.tag.as_str(), row.address.as_str(), row.port), ("local", "127.0.0.1", 4444));
}

#[test]
fn hash_location_is_read_from_the_last_bytes() {
    let mut bytes = raw(0x24, 0);
    bytes[35] = 0x01;
    bytes[36] = 0x02;
    bytes[37] = 0x03;
    bytes[38] = 0xff;
    let hash = HoloHash::try_from_raw_39(HashType::DhtOp, bytes.clone()).unwrap();
    assert_eq!(hash.get_loc(), 0xff030201);
    let theirs = holochain_zome_types::prelude::DhtOpHash::try_from_raw_39(bytes).unwrap();
    assert_eq!(hash.get_loc(), theirs.get_loc());
}

fn op_row() -> DbDhtOp {
    DbDhtOp {
        hash: raw(0x24, 1),
        typ: Some(DhtOpType::RegisterAgentActivity),
        basis_hash: Some(raw(0x2f, 2)),
        action_hash: Some(raw(0x29, 3)),
        require_receipt: None,
        storage_center_loc: Some(12),
        authored_timestamp: Some(5),
        op_order: String::new(),
        validation_status: None,
        when_integrated: None,
        withhold_publish: None,
        receipts_complete: None,
        last_publish_time: None,
        validation_stage: Some(ValidationStage::AwaitingAppDeps),
        num_validation_attempts: None,
        last_validation_attempt: None,
        dependency: None,
        when_sys_validated: None,
        when_app_validated: None,
        when_stored: None,
        serialized_size: None,
    }
}

fn action_row(blob: Vec<u8>) -> DbAction {
    DbAction {
        hash: Vec::new(),
        typ: "Create".to_string(),
        seq: 0,
        author: Vec::new(),
        blob,
        prev_hash: None,
        entry_hash: None,
        entry_type: None,
        private_entry: None,
        original_entry_hash: None,
        original_action_hash: None,
        deletes_entry_hash: None,
        deletes_action_hash: None,
        base_hash: None,
        zome_index: None,
        link_type: None,
        tag: None,
        create_link_hash: None,
        membrane_proof: None,
        prev_dna_hash: None,
    }
}

fn action() -> Action {
    Action {
        header: ActionHeader {
            author: AgentPubKey::from_raw_36(vec![1; 36]),
            timestamp: Timestamp::from_micros(1),
            action_seq: 11,
            prev_action: Some(ActionHash::from_raw_36(vec![2; 36])),
        },
        data: ActionData::Create(CreateData {
            entry_type: EntryType::AgentPubKey,
            entry_hash: EntryHash::from_raw_36(vec![3; 36]),
        }),
    }
}

#[test]
fn joined_rows_make_records() {
    let blob = holochain_serialized_bytes::encode(&SignedAction::new(
        action(),
        Signature([0; SIGNATURE_BYTES]),
    ))
    .unwrap();
    let record = Record::try_from((op_row(), action_row(blob.clone()), None)).unwrap();
    assert_eq!(record.dht_op.typ, DhtOpType::RegisterAgentActivity);
    assert_eq!(record.dht_op.meta.validation_stage, Some(ValidationStage::AwaitingAppDeps));
    assert!(!record.dht_op.meta.require_receipt);
    assert_eq!(record.action.seq, 11);
    assert_eq!(
        record.action.hash.get_raw_39().as_slice(),
        ActionHashed::from_content_sync(action()).hash.get_raw_39()
    );
    assert_eq!(record.action.blob, blob);
    assert_eq!(record.entry, None);

    let mut bad_op = op_row();
    bad_op.typ = None;
    match Record::try_from((bad_op, action_row(vec![1]), None)) {
        Err(HcOpsError::Other(cause)) => assert_eq!(cause, "No DhtOpType stored"),
        other => panic!("unexpected outcome: {:?}", other),
    }
    assert!(matches!(
        Record::try_from((op_row(), action_row(vec![1]), None)),
        Err(HcOpsError::SerializedBytes(_))
    ));
    assert!(matches!(
        Record::try_from((op_row(), action_row(blob), Some(vec![0xc1]))),
        Err(HcOpsError::SerializedBytes(_))
    ));
}

#[test]
fn error_chains_list_contexts_first() {
    let root = HcOpsError::Database("locked".to_string());
    assert_eq!(root.chain(), vec!["Database error: locked".to_string()]);
    let wrapped = HcOpsError::Context {
        source: Box::new(HcOpsError::Context {
            source: Box::new(root),
            context: "inner".to_string(),
        }),
        context: "outer".to_string(),
    };
    assert_eq!(
        wrapped.chain(),
        vec!["outer".to_string(), "inner".to_string(), "Database error: locked".to_string()]
    );
}
