use hc_ops::hash::{HashType, HoloHash};
use hc_ops::readable::action::{
    action_readable, signed_action_hashed_readable, signed_action_readable,
    signed_action_summary,
};
use hc_ops::readable::app_info::{app_info_readable, app_info_summary};
use hc_ops::readable::entry::entry_readable;
use hc_ops::readable::json::Json;
use hc_ops::readable::store::{
    chain_record_readable, dht_op_readable, dht_op_summary, hash_readable, record_readable,
};
use hc_ops::readable::{convert_byte_array, flatten_byte_array, value_bytes, Transform};
use hc_ops::retrieve::model::{
    AuthoredMeta, CacheMeta, DbDhtOp, DhtMeta, DhtOp, DhtOpType, ValidationStage,
    ValidationStatus,
};
use hc_ops::HcOpsError;
use holochain_zome_types::prelude::{ActionHash, AgentPubKey, AnyDhtHash, DnaHash, EntryHash};

fn to_json(value: &serde_json::Value) -> Json {
    match value {
        serde_json::Value::Null => Json::Null,
        serde_json::Value::Bool(b) => Json::Bool(*b),
        serde_json::Value::Number(n) => {
            if let Some(u) = n.as_u64() {
                Json::Unsigned(u)
            } else if let Some(i) = n.as_i64() {
                Json::Signed(i)
            } else {
                Json::Float(n.to_string())
            }
        }
        serde_json::Value::String(s) => Json::Text(s.clone()),
        serde_json::Value::Array(items) => Json::Array(items.iter().map(to_json).collect()),
        serde_json::Value::Object(fields) => {
            Json::Object(fields.iter().map(|(k, v)| (k.clone(), to_json(v))).collect())
        }
    }
}

fn from_json(json: Json) -> serde_json::Value {
    match json {
        Json::Null => serde_json::Value::Null,
        Json::Bool(b) => b.into(),
        Json::Unsigned(u) => u.into(),
        Json::Signed(i) => i.into(),
        Json::Float(numeral) => serde_json::from_str(&numeral).unwrap(),
        Json::Text(text) => text.into(),
        Json::Array(items) => serde_json::Value::Array(items.into_iter().map(from_json).collect()),
        Json::Object(fields) => {
            let mut map = serde_json::Map::new();
            for (key, value) in fields {
                map.insert(key, from_json(value));
            }
            serde_json::Value::Object(map)
        }
        Json::Encoded(text) => serde_json::from_str(&text).unwrap(),
    }
}

fn parse(text: &str) -> Json {
    to_json(&serde_json::from_str::<serde_json::Value>(text).unwrap())
}

fn value(text: &str) -> serde_json::Value {
    serde_json::from_str(text).unwrap()
}

fn raw(code: u8, fill: u8) -> Vec<u8> {
    let mut bytes = vec![0x84, code, 0x24];
    bytes.extend(vec![fill; 36]);
    bytes
}

fn list(bytes: &[u8]) -> String {
    format!("[{}]", bytes.iter().map(|b| b.to_string()).collect::<Vec<_>>().join(","))
}

fn other(result: Result<Json, HcOpsError>) -> String {
    match result {
        Err(HcOpsError::Other(cause)) => cause,
        Err(other) => panic!("unexpected error: {:?}", other),
        Ok(made) => panic!("unexpected value: {:?}", made),
    }
}

#[test]
fn byte_arrays_read_the_low_bits() {
    let items = vec![
        Json::Unsigned(0),
        Json::Unsigned(255),
        Json::Unsigned(256),
        Json::Unsigned(513),
        Json::Unsigned(u64::MAX),
    ];
    assert_eq!(convert_byte_array(&items).unwrap(), vec![0, 255, 0, 1, 255]);
    assert!(convert_byte_array(&Vec::new()).unwrap().is_empty());
    for bad in [Json::Signed(-1), Json::Null, Json::Text("1".to_string()), Json::Float("1.5".to_string())] {
        match convert_byte_array(&vec![Json::Unsigned(1), bad, Json::Unsigned(2)]) {
            Err(HcOpsError::Other(cause)) => assert_eq!(cause, "Invalid byte array field"),
            other => panic!("unexpected outcome: {:?}", other),
        }
    }
    assert_eq!(value_bytes(&parse("[1,2,3]"), "no list").unwrap(), vec![1, 2, 3]);
    match value_bytes(&parse("{}"), "no list") {
        Err(HcOpsError::Other(cause)) => assert_eq!(cause, "no list"),
        other => panic!("unexpected outcome: {:?}", other),
    }
}

#[test]
fn byte_arrays_flatten_to_one_text() {
    assert_eq!(flatten_byte_array(&vec![]), "ByteArray([])");
    assert_eq!(flatten_byte_array(&vec![7]), "ByteArray([7])");
    assert_eq!(flatten_byte_array(&vec![1, 20, 255, 0]), "ByteArray([1, 20, 255, 0])");
    assert_eq!(
        from_json(Transform::FlattenByteArray.apply(&parse("[1,2]")).unwrap()),
        value("\"ByteArray([1, 2])\"")
    );
    assert_eq!(other(Transform::FlattenByteArray.apply(&parse("3"))), "Invalid byte array");
}

#[test]
fn hashes_become_their_texts() {
    let cases = [
        (Transform::DnaHash, 0x2d, format!("{:?}", DnaHash::from_raw_36(vec![7; 36]))),
        (Transform::AgentPubKey, 0x20, format!("{:?}", AgentPubKey::from_raw_36(vec![7; 36]))),
        (Transform::ActionHash, 0x29, format!("{:?}", ActionHash::from_raw_36(vec![7; 36]))),
        (Transform::EntryHash, 0x21, format!("{:?}", EntryHash::from_raw_36(vec![7; 36]))),
        (
            Transform::AnyLinkableHash,
            0x21,
            format!("{:?}", AnyDhtHash::try_from_raw_39(raw(0x21, 7)).unwrap()),
        ),
    ];
    for (transform, code, expected) in cases {
        let made = transform.apply(&parse(&list(&raw(code, 7)))).unwrap();
        assert_eq!(from_json(made), serde_json::Value::String(expected));
    }
    let made = Transform::DhtOpHash.apply(&parse(&list(&raw(0x24, 1)))).unwrap();
    assert!(matches!(made, Json::Text(text) if text.starts_with("DhtOpHash(uhCQk")));
}

#[test]
fn hashes_that_are_none_are_failures() {
    assert_eq!(
        other(Transform::DnaHash.apply(&parse("\"x\""))),
        "Cannot convert to a dna hash, not an array"
    );
    assert_eq!(
        other(Transform::AgentPubKey.apply(&parse("null"))),
        "Cannot convert to an agent pub key, not an array"
    );
    assert_eq!(
        other(Transform::DhtOpHash.apply(&parse("1"))),
        "Cannot convert to a dht op hash, not an array"
    );
    assert_eq!(
        other(Transform::AnyLinkableHash.apply(&parse("{}"))),
        "Cannot convert to an any dht op hash, not an array"
    );
    assert_eq!(
        other(Transform::ActionHash.apply(&parse("true"))),
        "Cannot convert to an action hash, not an array"
    );
    assert_eq!(
        other(Transform::EntryHash.apply(&parse("2.5"))),
        "Cannot convert to an entry hash, not an array"
    );
    assert_eq!(other(Transform::EntryHash.apply(&parse("[1,-2]"))), "Invalid byte array field");
    assert_eq!(other(Transform::EntryHash.apply(&parse("[1,2]"))), "Holo Hash has incorrect size");
    assert_eq!(
        other(Transform::EntryHash.apply(&parse(&list(&raw(0x29, 1))))),
        "Holo Hash EntryHash has unknown prefix [132, 41, 36]"
    );
    assert_eq!(
        other(Transform::AnyLinkableHash.apply(&parse(&list(&raw(0x2f, 1))))),
        "Holo Hash AnyDht has unknown prefix [132, 47, 36]"
    );
}

#[test]
fn cell_ids_become_two_texts() {
    let cell = format!("[{},{}]", list(&raw(0x2d, 1)), list(&raw(0x20, 2)));
    let made = from_json(Transform::CellId.apply(&parse(&cell)).unwrap());
    assert_eq!(
        made,
        serde_json::Value::Array(vec![
            format!("{:?}", DnaHash::from_raw_36(vec![1; 36])).into(),
            format!("{:?}", AgentPubKey::from_raw_36(vec![2; 36])).into(),
        ])
    );
    assert_eq!(
        other(Transform::CellId.apply(&parse("7"))),
        "Cannot convert to a cell id, not an array"
    );
    assert_eq!(
        other(Transform::CellId.apply(&parse("[1]"))),
        "Invalid cell id, should have two components"
    );
    let swapped = format!("[{},{}]", list(&raw(0x20, 2)), list(&raw(0x2d, 1)));
    assert_eq!(
        other(Transform::CellId.apply(&parse(&swapped))),
        "Holo Hash DnaHash has unknown prefix [132, 32, 36]"
    );
}

#[test]
fn timestamps_become_instants() {
    let made = Transform::Timestamp.apply(&parse("1700000000000000")).unwrap();
    assert_eq!(from_json(made), value("\"2023-11-14T22:13:20Z\""));
    let made = Transform::Timestamp.apply(&parse("0")).unwrap();
    assert_eq!(from_json(made), value("\"1970-01-01T00:00:00Z\""));
    let made = Transform::Timestamp.apply(&parse("1500")).unwrap();
    assert_eq!(
        from_json(made),
        serde_json::Value::String(holochain_zome_types::prelude::Timestamp(1500).to_string())
    );
    let made = Transform::Timestamp.apply(&Json::Unsigned(u64::MAX)).unwrap();
    assert_eq!(
        from_json(made),
        serde_json::Value::String(holochain_zome_types::prelude::Timestamp(-1).to_string())
    );
    assert_eq!(other(Transform::Timestamp.apply(&parse("-5"))), "Invalid timestamp");
    assert_eq!(other(Transform::Timestamp.apply(&parse("null"))), "Invalid timestamp");
}

#[test]
fn msgpack_becomes_its_value_or_one_text() {
    let made = Transform::MsgpackBlob.apply(&parse("[129,161,97,1]")).unwrap();
    assert_eq!(from_json(made), value("{\"a\":1}"));
    let made = Transform::MsgpackBlob.apply(&parse("[193]")).unwrap();
    assert_eq!(from_json(made), value("\"ByteArray([193])\""));
    assert_eq!(other(Transform::MsgpackBlob.apply(&parse("\"x\""))), "Invalid msgpack blob");
    assert_eq!(other(Transform::MsgpackBlob.apply(&parse("[\"x\"]"))), "Invalid byte array field");
}

fn create_action_json(typ: &str, extra: &str) -> String {
    format!(
        "{{\"type\":\"{}\",\"author\":{},\"timestamp\":1700000000000000,\"action_seq\":3,\"prev_action\":{}{}}}",
        typ,
        list(&raw(0x20, 1)),
        list(&raw(0x29, 2)),
        extra
    )
}

#[test]
fn actions_show_their_common_fields() {
    let text = create_action_json(
        "Create",
        &format!(",\"entry_hash\":{},\"weight\":{{\"bucket_id\":0}}", list(&raw(0x21, 3))),
    );
    let made = from_json(action_readable(parse(&text)).unwrap());
    assert_eq!(made["type"], "Create");
    assert_eq!(made["author"], format!("{:?}", AgentPubKey::from_raw_36(vec![1; 36])));
    assert_eq!(made["timestamp"], "2023-11-14T22:13:20Z");
    assert_eq!(made["prev_action"], format!("{:?}", ActionHash::from_raw_36(vec![2; 36])));
    assert_eq!(made["entry_hash"], format!("{:?}", EntryHash::from_raw_36(vec![3; 36])));
    assert_eq!(made["action_seq"], 3);
    assert_eq!(made["weight"], value("{\"bucket_id\":0}"));
}

#[test]
fn actions_show_what_their_type_holds() {
    let text = create_action_json("Dna", &format!(",\"hash\":{}", list(&raw(0x2d, 4))));
    let made = from_json(action_readable(parse(&text)).unwrap());
    assert_eq!(made["hash"], format!("{:?}", DnaHash::from_raw_36(vec![4; 36])));

    let text = create_action_json("Create", &format!(",\"hash\":{}", list(&raw(0x2d, 4))));
    let made = from_json(action_readable(parse(&text)).unwrap());
    assert_eq!(made["hash"], value(&list(&raw(0x2d, 4))));

    let text = create_action_json(
        "CreateLink",
        &format!(
            ",\"base_address\":{},\"target_address\":{},\"tag\":[1,2,3]",
            list(&raw(0x21, 5)),
            list(&raw(0x29, 6))
        ),
    );
    let made = from_json(action_readable(parse(&text)).unwrap());
    assert_eq!(made["base_address"], format!("{:?}", AnyDhtHash::try_from_raw_39(raw(0x21, 5)).unwrap()));
    assert_eq!(made["target_address"], format!("{:?}", AnyDhtHash::try_from_raw_39(raw(0x29, 6)).unwrap()));
    assert_eq!(made["tag"], "ByteArray([1, 2, 3])");

    let text = create_action_json(
        "DeleteLink",
        &format!(
            ",\"base_address\":{},\"link_add_address\":{},\"tag\":[1]",
            list(&raw(0x21, 5)),
            list(&raw(0x29, 6))
        ),
    );
    let made = from_json(action_readable(parse(&text)).unwrap());
    assert_eq!(made["link_add_address"], format!("{:?}", ActionHash::from_raw_36(vec![6; 36])));
    assert_eq!(made["tag"], value("[1]"));

    let text = create_action_json(
        "Update",
        &format!(
            ",\"original_action_address\":{},\"original_entry_address\":{}",
            list(&raw(0x29, 7)),
            list(&raw(0x21, 8))
        ),
    );
    let made = from_json(action_readable(parse(&text)).unwrap());
    assert_eq!(made["original_action_address"], format!("{:?}", ActionHash::from_raw_36(vec![7; 36])));
    assert_eq!(made["original_entry_address"], format!("{:?}", EntryHash::from_raw_36(vec![8; 36])));

    let text = create_action_json(
        "Delete",
        &format!(
            ",\"deletes_address\":{},\"deletes_entry_address\":{}",
            list(&raw(0x29, 9)),
            list(&raw(0x21, 10))
        ),
    );
    let made = from_json(action_readable(parse(&text)).unwrap());
    assert_eq!(made["deletes_address"], format!("{:?}", ActionHash::from_raw_36(vec![9; 36])));
    assert_eq!(made["deletes_entry_address"], format!("{:?}", EntryHash::from_raw_36(vec![10; 36])));
}

#[test]
fn actions_fail_on_the_first_field_that_cannot_be_read() {
    let text = "{\"author\":[1],\"timestamp\":\"x\"}";
    assert_eq!(other(action_readable(parse(text))), "Holo Hash has incorrect size");
    let text = format!("{{\"author\":{},\"timestamp\":\"x\"}}", list(&raw(0x20, 1)));
    assert_eq!(other(action_readable(parse(&text))), "Invalid timestamp");
    assert_eq!(from_json(action_readable(parse("[1,2]")).unwrap()), value("[1,2]"));
    assert_eq!(from_json(action_readable(parse("{}")).unwrap()), value("{}"));
}

#[test]
fn signed_actions_show_data_and_signature() {
    let action = create_action_json("Create", ",\"weight\":{\"bucket_id\":0}");
    let made = from_json(signed_action_readable(parse(&action), &parse("[9,8]")).unwrap());
    assert_eq!(made["signature"], "ByteArray([9, 8])");
    assert_eq!(made["data"]["timestamp"], "2023-11-14T22:13:20Z");
    assert_eq!(made["data"]["weight"], value("{\"bucket_id\":0}"));
    let summary = from_json(signed_action_summary(parse(&action), &parse("[9,8]")).unwrap());
    assert!(summary.get("signature").is_none());
    assert!(summary["data"].get("weight").is_none());
    assert_eq!(summary["data"]["action_seq"], 3);
    assert_eq!(
        other(signed_action_summary(parse(&action), &parse("\"sig\""))),
        "Invalid byte array"
    );
    let hashed = from_json(
        signed_action_hashed_readable(parse(&action), &parse(&list(&raw(0x29, 4))), &parse("[1]"))
            .unwrap(),
    );
    assert_eq!(hashed["hash"], format!("{:?}", ActionHash::from_raw_36(vec![4; 36])));
    assert_eq!(hashed["signature"], "ByteArray([1])");
    assert_eq!(hashed["content"]["type"], "Create");
    assert_eq!(
        other(signed_action_hashed_readable(parse(&action), &parse(&list(&raw(0x21, 4))), &parse("[1]"))),
        "Holo Hash ActionHash has unknown prefix [132, 33, 36]"
    );
}

#[test]
fn entries_show_what_they_hold() {
    let agent = format!("{{\"entry_type\":\"Agent\",\"entry\":{}}}", list(&raw(0x20, 3)));
    let made = from_json(entry_readable(parse(&agent)).unwrap());
    assert_eq!(made["entry"], format!("{:?}", AgentPubKey::from_raw_36(vec![3; 36])));
    assert_eq!(made["entry_type"], "Agent");

    let app = "{\"entry_type\":\"App\",\"entry\":[129,164,110,97,109,101,163,66,111,98]}";
    let made = from_json(entry_readable(parse(app)).unwrap());
    assert_eq!(made["entry"], value("{\"name\":\"Bob\"}"));

    let app = "{\"entry_type\":\"App\",\"entry\":[193,1]}";
    let made = from_json(entry_readable(parse(app)).unwrap());
    assert_eq!(made["entry"], "ByteArray([193, 1])");

    let other_type = "{\"entry_type\":\"CounterSign\",\"entry\":[1,2]}";
    assert_eq!(from_json(entry_readable(parse(other_type)).unwrap()), value(other_type));
    assert_eq!(from_json(entry_readable(parse("{\"entry\":[1]}")).unwrap()), value("{\"entry\":[1]}"));
    assert_eq!(from_json(entry_readable(parse("5")).unwrap()), value("5"));
}

#[test]
fn app_entries_that_cannot_be_read_fail_in_context() {
    let app = "{\"entry_type\":\"App\",\"entry\":\"text\"}";
    let failed = entry_readable(parse(app)).unwrap_err();
    assert_eq!(
        failed.chain(),
        vec![
            "Could not convert app entry from msgpack".to_string(),
            "Other error: Invalid msgpack blob".to_string()
        ]
    );
    assert_eq!(
        failed.message(),
        "Could not convert app entry from msgpack\n\tcaused by: Other error: Invalid msgpack blob"
    );
}

#[test]
fn capability_entries_hide_their_secrets() {
    let claim = format!(
        "{{\"entry_type\":\"CapClaim\",\"entry\":{{\"tag\":\"sample\",\"grantor\":{},\"secret\":[1,2,3]}}}}",
        list(&raw(0x20, 4))
    );
    let made = from_json(entry_readable(parse(&claim)).unwrap());
    assert_eq!(made["entry"]["grantor"], format!("{:?}", AgentPubKey::from_raw_36(vec![4; 36])));
    assert_eq!(made["entry"]["secret"], "...");
    assert_eq!(made["entry"]["tag"], "sample");

    let grant = format!(
        "{{\"entry_type\":\"CapGrant\",\"entry\":{{\"tag\":\"t\",\"access\":{{\"Assigned\":{{\"secret\":[9],\"assignees\":[{},{}]}}}}}}}}",
        list(&raw(0x20, 5)),
        list(&raw(0x20, 6))
    );
    let made = from_json(entry_readable(parse(&grant)).unwrap());
    assert_eq!(made["entry"]["access"]["Assigned"]["secret"], "...");
    assert_eq!(
        made["entry"]["access"]["Assigned"]["assignees"],
        serde_json::Value::Array(vec![
            format!("{:?}", AgentPubKey::from_raw_36(vec![5; 36])).into(),
            format!("{:?}", AgentPubKey::from_raw_36(vec![6; 36])).into(),
        ])
    );

    let grant = "{\"entry_type\":\"CapGrant\",\"entry\":{\"access\":{\"Transferable\":{\"secret\":[9]}}}}";
    let made = from_json(entry_readable(parse(grant)).unwrap());
    assert_eq!(made["entry"]["access"]["Transferable"]["secret"], "...");

    let grant = "{\"entry_type\":\"CapGrant\",\"entry\":{\"access\":\"Unrestricted\"}}";
    assert_eq!(from_json(entry_readable(parse(grant)).unwrap()), value(grant));

    let grant = format!(
        "{{\"entry_type\":\"CapGrant\",\"entry\":{{\"access\":{{\"Assigned\":{{\"secret\":[9],\"assignees\":[{},[1]]}}}}}}}}",
        list(&raw(0x20, 5))
    );
    assert_eq!(other(entry_readable(parse(&grant))), "Holo Hash has incorrect size");
}

fn app_info_json(cells: &str) -> String {
    format!(
        "{{\"installed_app_id\":\"app\",\"agent_pub_key\":{},\"manifest\":{{\"name\":\"m\"}},\"cell_info\":{}}}",
        list(&raw(0x20, 1)),
        cells
    )
}

#[test]
fn app_info_shows_keys_and_cells_as_texts() {
    let cell = format!("[{},{}]", list(&raw(0x2d, 1)), list(&raw(0x20, 2)));
    let cells = format!(
        "{{\"main\":[{{\"provisioned\":{{\"cell_id\":{},\"name\":\"n\"}}}},{{\"cloned\":{{\"cell_id\":{},\"original_dna_hash\":{}}}}},{{\"stem\":{{}}}}],\"empty\":[]}}",
        cell,
        cell,
        list(&raw(0x2d, 9))
    );
    let made = from_json(app_info_readable(parse(&app_info_json(&cells))).unwrap());
    let dna = format!("{:?}", DnaHash::from_raw_36(vec![1; 36]));
    let agent = format!("{:?}", AgentPubKey::from_raw_36(vec![2; 36]));
    assert_eq!(made["agent_pub_key"], format!("{:?}", AgentPubKey::from_raw_36(vec![1; 36])));
    assert_eq!(
        made["cell_info"]["main"][0]["provisioned"]["cell_id"],
        serde_json::Value::Array(vec![dna.clone().into(), agent.clone().into()])
    );
    assert_eq!(made["cell_info"]["main"][0]["provisioned"]["name"], "n");
    assert_eq!(
        made["cell_info"]["main"][1]["cloned"]["original_dna_hash"],
        format!("{:?}", DnaHash::from_raw_36(vec![9; 36]))
    );
    assert_eq!(made["cell_info"]["main"][2], value("{\"stem\":{}}"));
    assert_eq!(made["cell_info"]["empty"], value("[]"));
    assert_eq!(made["manifest"], value("{\"name\":\"m\"}"));
    let summary = from_json(app_info_summary(parse(&app_info_json(&cells))).unwrap());
    assert!(summary.get("manifest").is_none());
    assert_eq!(summary["installed_app_id"], "app");
}

#[test]
fn app_info_that_is_not_written_as_expected_fails() {
    assert_eq!(other(app_info_readable(parse("{\"cell_info\":{}}"))), "Missing field: agent_pub_key");
    assert_eq!(other(app_info_readable(parse("[]"))), "Missing field: agent_pub_key");
    let missing = format!("{{\"agent_pub_key\":{}}}", list(&raw(0x20, 1)));
    assert_eq!(other(app_info_readable(parse(&missing))), "Unexpected cell info format");
    assert_eq!(other(app_info_readable(parse(&app_info_json("[]")))), "Unexpected cell info format");
    assert_eq!(
        other(app_info_readable(parse(&app_info_json("{\"main\":{}}")))),
        "Unexpected cell info format"
    );
    assert_eq!(
        other(app_info_readable(parse(&app_info_json("{\"main\":[1]}")))),
        "Unexpected cell info format"
    );
    assert_eq!(
        other(app_info_readable(parse(&app_info_json("{\"main\":[{\"provisioned\":{}}]}")))),
        "Missing field: cell_id"
    );
    assert_eq!(
        other(app_info_summary(parse(&app_info_json("{\"main\":[{\"provisioned\":1}]}")))),
        "Missing field: cell_id"
    );
    let cell = format!("[{},{}]", list(&raw(0x2d, 1)), list(&raw(0x20, 2)));
    let cloned = format!("{{\"main\":[{{\"cloned\":{{\"cell_id\":{}}}}}]}}", cell);
    assert_eq!(
        other(app_info_readable(parse(&app_info_json(&cloned)))),
        "Missing field: original_dna_hash"
    );
}

fn row() -> DbDhtOp {
    DbDhtOp {
        hash: raw(0x24, 1),
        typ: Some(DhtOpType::StoreEntry),
        basis_hash: Some(raw(0x21, 2)),
        action_hash: Some(raw(0x29, 3)),
        require_receipt: Some(true),
        storage_center_loc: Some(12),
        authored_timestamp: Some(1_700_000_000_000_000),
        op_order: "order".to_string(),
        validation_status: Some(ValidationStatus::Rejected),
        when_integrated: Some(5),
        withhold_publish: Some(true),
        receipts_complete: None,
        last_publish_time: Some(77),
        validation_stage: Some(ValidationStage::SysValidated),
        num_validation_attempts: Some(4),
        last_validation_attempt: Some(0),
        dependency: None,
        when_sys_validated: None,
        when_app_validated: None,
        when_stored: None,
        serialized_size: None,
    }
}

#[test]
fn operations_show_their_fields() {
    let op = DhtOp::<DhtMeta>::try_from(row()).unwrap();
    let made = from_json(dht_op_readable(&op).unwrap());
    assert!(made["hash"].as_str().unwrap().starts_with("DhtOpHash(uhCQk"));
    assert_eq!(made["basis_hash"], format!("{:?}", AnyDhtHash::try_from_raw_39(raw(0x21, 2)).unwrap()));
    assert_eq!(made["action_hash"], format!("{:?}", ActionHash::from_raw_36(vec![3; 36])));
    assert_eq!(made["authored_timestamp"], "2023-11-14T22:13:20Z");
    assert_eq!(made["storage_center_loc"], 12);
    assert_eq!(made["typ"], "StoreEntry");
    assert_eq!(made["validation_status"], "Rejected");
    assert_eq!(
        made["meta"],
        value("{\"last_validation_attempt\":\"1970-01-01T00:00:00Z\",\"num_validation_attempts\":4,\"require_receipt\":true,\"validation_stage\":\"SysValidated\"}")
    );
    let summary = from_json(dht_op_summary(&op).unwrap());
    assert!(summary.get("meta").is_none());
    assert_eq!(summary["typ"], "StoreEntry");

    let op = DhtOp::<AuthoredMeta>::try_from(row()).unwrap();
    let made = from_json(dht_op_readable(&op).unwrap());
    assert_eq!(
        made["meta"],
        value("{\"last_publish_time\":77,\"receipts_complete\":false,\"withhold_publish\":true}")
    );
    let op = DhtOp::<CacheMeta>::try_from(row()).unwrap();
    assert_eq!(from_json(dht_op_readable(&op).unwrap())["meta"], value("{}"));
    let op = DhtOp::<()>::try_from(row()).unwrap();
    assert_eq!(from_json(dht_op_readable(&op).unwrap())["meta"], value("null"));
}

#[test]
fn operations_without_a_readable_form() {
    let mut external = row();
    external.basis_hash = Some(raw(0x2f, 2));
    let op = DhtOp::<CacheMeta>::try_from(external).unwrap();
    assert_eq!(other(dht_op_readable(&op)), "Holo Hash AnyDht has unknown prefix [132, 47, 36]");
    assert_eq!(other(dht_op_summary(&op)), "Holo Hash AnyDht has unknown prefix [132, 47, 36]");

    let mut early = row();
    early.authored_timestamp = Some(-1);
    let op = DhtOp::<CacheMeta>::try_from(early).unwrap();
    assert_eq!(other(dht_op_readable(&op)), "Invalid timestamp");

    let mut untried = row();
    untried.last_validation_attempt = None;
    let op = DhtOp::<DhtMeta>::try_from(untried).unwrap();
    assert_eq!(other(dht_op_readable(&op)), "Invalid timestamp");
    assert_eq!(other(dht_op_summary(&op)), "Invalid timestamp");
    let mut unpublished = row();
    unpublished.last_publish_time = None;
    let op = DhtOp::<AuthoredMeta>::try_from(unpublished).unwrap();
    assert_eq!(from_json(dht_op_readable(&op).unwrap())["meta"]["last_publish_time"], value("null"));
}

#[test]
fn records_are_made_of_their_parts() {
    let made = from_json(chain_record_readable(
        parse("{\"a\":1}"),
        ValidationStatus::Abandoned,
        Some(parse("[2]")),
    ));
    assert_eq!(
        made,
        value("{\"action\":{\"a\":1},\"entry\":[2],\"validation_status\":\"Abandoned\"}")
    );
    let made = from_json(chain_record_readable(parse("1"), ValidationStatus::Valid, None));
    assert_eq!(made, value("{\"action\":1,\"entry\":null,\"validation_status\":\"Valid\"}"));
    let made = from_json(record_readable(parse("\"op\""), parse("\"act\""), None));
    assert_eq!(made, value("{\"action\":\"act\",\"dht_op\":\"op\",\"entry\":null}"));
    let hash = HoloHash::try_from_raw_39(HashType::Agent, raw(0x20, 8)).unwrap();
    assert_eq!(
        from_json(hash_readable(&hash)),
        serde_json::Value::String(format!("{:?}", AgentPubKey::from_raw_36(vec![8; 36])))
    );
}
