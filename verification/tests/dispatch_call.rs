//! The generic call's plans and replies.

use tryx_postgres::dispatch::{
    finish_bytes, finish_expired_count, finish_lid_mapping, finish_secret_with_ts,
    finish_query, finish_sender_key_devices, row_shape, DispatchError, Finish, LidMappingRow,
    QueryRows, RowShape,
};
use tryx_postgres::json::JsonValue;
use tryx_postgres::pg::{opcode, PgStore};
use tryx_postgres::statement::{Command, Statement};

const NOW: i64 = 1_700_000_000;

fn text(s: &str) -> JsonValue {
    JsonValue::Str(s.to_string())
}

fn object(members: Vec<(&str, JsonValue)>) -> JsonValue {
    JsonValue::Object(members.into_iter().map(|(k, v)| (k.to_string(), v)).collect())
}

fn bytes_json(b: &[u64]) -> JsonValue {
    JsonValue::Array(b.iter().map(|n| JsonValue::PosInt(*n)).collect())
}

fn s(x: &str) -> String {
    x.to_string()
}

#[test]
fn put_mutation_macs_writes_each_entry() {
    let store = PgStore::new();
    let args = object(vec![
        ("name", text("regular")),
        ("version", JsonValue::PosInt(4)),
        (
            "macs",
            JsonValue::Array(vec![
                object(vec![("index_mac", bytes_json(&[1])), ("value_mac", bytes_json(&[2]))]),
                object(vec![("index_mac", bytes_json(&[3])), ("value_mac", bytes_json(&[4]))]),
            ]),
        ),
    ]);
    let plan = store.dispatch(opcode::PUT_MUTATION_MACS, &args, NOW);
    let expected: Vec<Statement> = vec![
        Command::PutMutationMac { name: s("regular"), version: 4, index_mac: vec![1], value_mac: vec![2], device: 1 },
        Command::PutMutationMac { name: s("regular"), version: 4, index_mac: vec![3], value_mac: vec![4], device: 1 },
    ];
    assert_eq!(plan.writes, expected);
    assert_eq!(plan.finish, Finish::Done(None));
}

#[test]
fn put_mutation_macs_stops_at_bad_entry() {
    let store = PgStore::new();
    let args = object(vec![(
        "macs",
        JsonValue::Array(vec![
            object(vec![("index_mac", bytes_json(&[1])), ("value_mac", bytes_json(&[2]))]),
            object(vec![("index_mac", bytes_json(&[3])), ("value_mac", text("x"))]),
            object(vec![("index_mac", bytes_json(&[5])), ("value_mac", bytes_json(&[6]))]),
        ]),
    )]);
    let plan = store.dispatch(24, &args, NOW);
    let expected: Vec<Statement> = vec![Command::PutMutationMac {
        name: s(""),
        version: 0,
        index_mac: vec![1],
        value_mac: vec![2],
        device: 1,
    }];
    assert_eq!(plan.writes, expected);
    assert_eq!(plan.finish, Finish::Fail(DispatchError::InvalidArgument));
}

#[test]
fn put_mutation_macs_without_list_does_nothing() {
    let plan = PgStore::new().dispatch(24, &object(vec![("macs", text("no"))]), NOW);
    assert!(plan.writes.is_empty());
    assert_eq!(plan.finish, Finish::Done(None));
}

#[test]
fn get_mutation_mac_queries_or_fails() {
    let store = PgStore::new();
    let plan = store.dispatch(25, &object(vec![("name", text("n")), ("index_mac", bytes_json(&[9]))]), NOW);
    assert!(plan.writes.is_empty());
    assert_eq!(plan.finish, Finish::Query(Command::GetMutationMac { name: s("n"), index_mac: vec![9], device: 1 }));
    let plan = store.dispatch(25, &object(vec![("name", text("n"))]), NOW);
    assert_eq!(plan.finish, Finish::Fail(DispatchError::InvalidArgument));
}

#[test]
fn delete_mutation_macs_is_all_or_nothing() {
    let store = PgStore::new();
    let plan = store.dispatch(
        26,
        &object(vec![("name", text("n")), ("index_macs", JsonValue::Array(vec![bytes_json(&[1]), bytes_json(&[2])]))]),
        NOW,
    );
    let expected: Vec<Statement> = vec![
        Command::DeleteMutationMac { name: s("n"), index_mac: vec![1], device: 1 },
        Command::DeleteMutationMac { name: s("n"), index_mac: vec![2], device: 1 },
    ];
    assert_eq!(plan.writes, expected);
    assert_eq!(plan.finish, Finish::Done(None));
    let plan = store.dispatch(
        26,
        &object(vec![("index_macs", JsonValue::Array(vec![bytes_json(&[1]), JsonValue::Null]))]),
        NOW,
    );
    assert!(plan.writes.is_empty());
    assert_eq!(plan.finish, Finish::Fail(DispatchError::InvalidArgument));
}

#[test]
fn sender_key_status_is_stamped_with_the_time() {
    let store = PgStore::new();
    let args = object(vec![
        ("group_jid", text("g")),
        ("entries", JsonValue::Array(vec![JsonValue::Array(vec![text("d"), JsonValue::Bool(true)])])),
    ]);
    let plan = store.dispatch(31, &args, NOW);
    let expected: Vec<Statement> = vec![Command::SetSenderKeyStatus {
        group: s("g"),
        member: s("d"),
        has_key: 1,
        device: 1,
        updated_at: NOW,
    }];
    assert_eq!(plan.writes, expected);
    let bad = object(vec![("entries", JsonValue::Null)]);
    assert_eq!(store.dispatch(31, &bad, NOW).finish, Finish::Fail(DispatchError::InvalidArgument));
}

#[test]
fn clear_operations() {
    let store = PgStore::new();
    let plan = store.dispatch(32, &object(vec![("group_jid", text("g"))]), NOW);
    let expected: Vec<Statement> = vec![Command::ClearSenderKeyDevices { group: s("g"), device: 1 }];
    assert_eq!(plan.writes, expected);
    let plan = store.dispatch(33, &JsonValue::Null, NOW);
    let expected: Vec<Statement> = vec![Command::ClearAllSenderKeyDevices { device: 1 }];
    assert_eq!(plan.writes, expected);
    assert_eq!(plan.finish, Finish::Done(None));
}

#[test]
fn lid_mapping_operations() {
    let store = PgStore::new();
    let plan = store.dispatch(35, &object(vec![("lid", text("l"))]), NOW);
    assert_eq!(plan.finish, Finish::Query(Command::GetLidMapping { lid: s("l"), device: 1 }));
    let plan = store.dispatch(
        37,
        &object(vec![
            ("lid", text("l")),
            ("phone_number", text("p")),
            ("created_at", JsonValue::PosInt(5)),
            ("learning_source", text("src")),
            ("updated_at", JsonValue::NegInt(-2)),
        ]),
        NOW,
    );
    let expected: Vec<Statement> = vec![Command::PutLidMapping {
        lid: s("l"),
        phone_number: s("p"),
        created_at: 5,
        learning_source: s("src"),
        updated_at: -2,
        device: 1,
    }];
    assert_eq!(plan.writes, expected);
}

#[test]
fn sent_message_operations() {
    let store = PgStore::new();
    let args = object(vec![("chat_jid", text("c")), ("message_id", text("m")), ("payload", bytes_json(&[1, 2]))]);
    let plan = store.dispatch(52, &args, NOW);
    let expected: Vec<Statement> = vec![Command::StoreSentMessage {
        chat: s("c"),
        message_id: s("m"),
        payload: vec![1, 2],
        device: 1,
        created_at: NOW,
    }];
    assert_eq!(plan.writes, expected);
    let no_payload = object(vec![("chat_jid", text("c"))]);
    assert_eq!(store.dispatch(52, &no_payload, NOW).finish, Finish::Fail(DispatchError::InvalidArgument));
    let plan = store.dispatch(53, &args, NOW);
    assert_eq!(plan.finish, Finish::Query(Command::TakeSentMessage { chat: s("c"), message_id: s("m"), device: 1 }));
}

#[test]
fn put_msg_secrets_counts_entries() {
    let store = PgStore::new();
    let entry = |id: &str, secret: JsonValue| {
        object(vec![
            ("chat", text("c")),
            ("sender", text("s")),
            ("msg_id", text(id)),
            ("secret", secret),
            ("expires_at", JsonValue::PosInt(10)),
        ])
    };
    let args = object(vec![("entries", JsonValue::Array(vec![entry("1", bytes_json(&[7])), entry("2", bytes_json(&[8]))]))]);
    let plan = store.dispatch(60, &args, NOW);
    assert_eq!(plan.writes.len(), 2);
    assert_eq!(
        plan.writes[1],
        Command::PutMsgSecret {
            chat: s("c"),
            sender: s("s"),
            msg_id: s("2"),
            secret: vec![8],
            device: 1,
            created_at: NOW,
            expires_at: 10,
            message_ts: 0,
        }
    );
    assert_eq!(plan.finish, Finish::Done(Some(b"2".to_vec())));

    let args = object(vec![("entries", JsonValue::Array(vec![entry("1", bytes_json(&[7])), entry("2", JsonValue::Null)]))]);
    let plan = store.dispatch(60, &args, NOW);
    assert_eq!(plan.writes.len(), 1);
    assert_eq!(plan.finish, Finish::Fail(DispatchError::InvalidArgument));

    let args = object(vec![("entries", text("none"))]);
    let plan = store.dispatch(60, &args, NOW);
    assert!(plan.writes.is_empty());
    assert_eq!(plan.finish, Finish::Fail(DispatchError::InvalidArgument));

    let plan = store.dispatch(60, &object(vec![("entries", JsonValue::Array(vec![]))]), NOW);
    assert_eq!(plan.finish, Finish::Done(Some(b"0".to_vec())));
}

#[test]
fn msg_secret_queries() {
    let store = PgStore::new();
    let args = object(vec![("chat", text("c")), ("sender", text("s")), ("msg_id", text("m"))]);
    assert_eq!(
        store.dispatch(61, &args, NOW).finish,
        Finish::Query(Command::GetMsgSecret { chat: s("c"), sender: s("s"), msg_id: s("m"), device: 1 })
    );
    assert_eq!(
        store.dispatch(62, &args, NOW).finish,
        Finish::Query(Command::GetMsgSecretWithTs { chat: s("c"), sender: s("s"), msg_id: s("m"), device: 1 })
    );
    assert_eq!(
        store.dispatch(63, &object(vec![("cutoff", JsonValue::PosInt(99))]), NOW).finish,
        Finish::Query(Command::DeleteExpiredMsgSecrets { cutoff: 99, device: 1 })
    );
}

#[test]
fn unserved_operations_reply_nothing() {
    let store = PgStore::new();
    for op in [0u32, 7, 14, 34, 36, 38, 39, 45, 51, 54, 64, u32::MAX] {
        let plan = store.dispatch(op, &object(vec![("lid", text("x"))]), NOW);
        assert!(plan.writes.is_empty());
        assert_eq!(plan.finish, Finish::Done(None));
    }
}

#[test]
fn sender_key_device_reply() {
    let rows = vec![(s("a"), 1), (s("b"), 0), (s("c"), 7)];
    let pair = |t: &str, f: bool| JsonValue::Array(vec![text(t), JsonValue::Bool(f)]);
    assert_eq!(
        finish_sender_key_devices(&rows),
        JsonValue::Array(vec![pair("a", true), pair("b", false), pair("c", true)])
    );
    assert_eq!(
        finish_query(QueryRows::Members(rows)),
        Some(br#"[["a",true],["b",false],["c",true]]"#.to_vec())
    );
    assert_eq!(finish_query(QueryRows::Members(vec![])), Some(b"[]".to_vec()));
    let escaped = vec![(s("q\"u\u{e9}"), 1)];
    assert_eq!(
        finish_query(QueryRows::Members(escaped)),
        Some("[[\"q\\\"u\u{e9}\",true]]".as_bytes().to_vec())
    );
}

#[test]
fn query_replies_are_json_text() {
    let row = LidMappingRow {
        lid: s("l"),
        phone_number: s("p"),
        created_at: -3,
        learning_source: s("src"),
        updated_at: 4,
    };
    assert_eq!(
        finish_query(QueryRows::LidMapping(Some(row))),
        Some(br#"{"created_at":-3,"learning_source":"src","lid":"l","phone_number":"p","updated_at":4}"#.to_vec())
    );
    assert_eq!(finish_query(QueryRows::LidMapping(None)), None);
    assert_eq!(
        finish_query(QueryRows::SecretWithTs(Some((vec![1, 255], 12)))),
        Some(br#"{"message_ts":12,"secret":[1,255]}"#.to_vec())
    );
    assert_eq!(finish_query(QueryRows::SecretWithTs(None)), None);
    assert_eq!(finish_query(QueryRows::Count((1i64 << 32) + 5)), Some(b"5".to_vec()));
    assert_eq!(finish_query(QueryRows::Bytes(Some(vec![0, 7, 255]))), Some(b"[0,7,255]".to_vec()));
    assert_eq!(finish_query(QueryRows::Bytes(Some(vec![]))), Some(b"[]".to_vec()));
    assert_eq!(finish_query(QueryRows::Bytes(None)), None);
}

#[test]
fn each_query_names_the_rows_it_reads() {
    let store = PgStore::new();
    let args = object(vec![
        ("group_jid", text("g")),
        ("lid", text("l")),
        ("index_mac", bytes_json(&[1])),
        ("chat", text("c")),
        ("cutoff", JsonValue::PosInt(1)),
    ]);
    let shape = |op: u32| match store.dispatch(op, &args, NOW).finish {
        Finish::Query(q) => row_shape(&q),
        other => panic!("no query: {:?}", other),
    };
    assert_eq!(shape(opcode::GET_SENDER_KEY_DEVICES), RowShape::Members);
    assert_eq!(shape(opcode::GET_LID_MAPPING), RowShape::LidMapping);
    assert_eq!(shape(opcode::GET_MSG_SECRET_WITH_TS), RowShape::SecretWithTs);
    assert_eq!(shape(opcode::DELETE_EXPIRED_MSG_SECRETS), RowShape::Count);
    assert_eq!(shape(opcode::GET_MSG_SECRET), RowShape::Bytes);
    assert_eq!(shape(opcode::GET_MUTATION_MAC), RowShape::Bytes);
    assert_eq!(shape(opcode::TAKE_SENT_MESSAGE), RowShape::Bytes);
}

#[test]
fn raw_input_is_read_as_json() {
    let store = PgStore::new();
    let plan = store.plan_call(opcode::CLEAR_ALL_SENDER_KEY_DEVICES, b"", NOW).unwrap();
    assert_eq!(plan.writes, vec![Command::ClearAllSenderKeyDevices { device: 1 }]);
    assert_eq!(plan.finish, Finish::Done(None));

    for op in [opcode::CLEAR_ALL_SENDER_KEY_DEVICES, opcode::GET_LID_MAPPING, opcode::PUT_MSG_SECRETS, 0] {
        assert_eq!(store.plan_call(op, b"{not json", NOW).err(), Some(DispatchError::InvalidInput));
        assert_eq!(store.plan_call(op, b"  ", NOW).err(), Some(DispatchError::InvalidInput));
    }

    let plan = store.plan_call(opcode::GET_LID_MAPPING, br#"{"lid": "x@lid", "other": [1.5, -2]}"#, NOW).unwrap();
    assert_eq!(plan.finish, Finish::Query(Command::GetLidMapping { lid: s("x@lid"), device: 1 }));

    let input = br#"{"entries":[{"chat":"c","sender":"s","msg_id":"m","secret":[7],"expires_at":-1}]}"#;
    let plan = store.plan_call(opcode::PUT_MSG_SECRETS, input, NOW).unwrap();
    assert_eq!(plan.writes.len(), 1);
    assert_eq!(plan.finish, Finish::Done(Some(b"1".to_vec())));
}

#[test]
fn lid_mapping_reply() {
    let row = LidMappingRow {
        lid: s("l"),
        phone_number: s("p"),
        created_at: -3,
        learning_source: s("src"),
        updated_at: 4,
    };
    assert_eq!(
        finish_lid_mapping(Some(row)),
        Some(object(vec![
            ("created_at", JsonValue::NegInt(-3)),
            ("learning_source", text("src")),
            ("lid", text("l")),
            ("phone_number", text("p")),
            ("updated_at", JsonValue::PosInt(4)),
        ]))
    );
    assert_eq!(finish_lid_mapping(None), None);
}

#[test]
fn secret_with_ts_reply() {
    assert_eq!(
        finish_secret_with_ts(Some((vec![1, 255], 12))),
        Some(object(vec![("message_ts", JsonValue::PosInt(12)), ("secret", bytes_json(&[1, 255]))]))
    );
    assert_eq!(finish_secret_with_ts(None), None);
}

#[test]
fn expired_count_reply_is_cut_to_32_bits() {
    assert_eq!(finish_expired_count(3), JsonValue::PosInt(3));
    assert_eq!(finish_expired_count((1i64 << 32) + 5), JsonValue::PosInt(5));
    assert_eq!(finish_expired_count(258), JsonValue::PosInt(258));
    assert_eq!(finish_expired_count(-1), JsonValue::PosInt(u32::MAX as u64));
}

#[test]
fn single_value_reply_is_a_byte_array() {
    assert_eq!(finish_bytes(Some(vec![0, 7, 255])), Some(bytes_json(&[0, 7, 255])));
    assert_eq!(finish_bytes(Some(vec![])), Some(JsonValue::Array(vec![])));
    assert_eq!(finish_bytes(None), None);
}
