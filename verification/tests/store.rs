//! The store's operations run against an in-memory table set that follows
//! the statements' meaning, so that the round trips can be checked without
//! a database server.

use std::collections::BTreeMap;

use tryx_postgres::dispatch::{finish_query, row_shape, DispatchPlan, Finish, LidMappingRow, QueryRows, RowShape};
use tryx_postgres::ffi::lookup_outcome;
use tryx_postgres::json::JsonValue;
use tryx_postgres::pg::PgStore;
use tryx_postgres::statement::{Command, Statement};

#[derive(Default)]
struct Tables {
    identities: BTreeMap<(String, i32), Vec<u8>>,
    sessions: BTreeMap<(String, i32), Vec<u8>>,
    prekeys: BTreeMap<(i32, i32), (Vec<u8>, bool)>,
    devices: BTreeMap<i32, Option<Vec<u8>>>,
    sender_key_devices: BTreeMap<(String, String, i32), (i32, i64)>,
    mutation_macs: BTreeMap<(String, Vec<u8>, i32), (i64, Vec<u8>)>,
    sent_messages: BTreeMap<(String, String, i32), (Vec<u8>, i64)>,
    msg_secrets: BTreeMap<(String, String, String, i32), (Vec<u8>, i64, i64, i64)>,
    lid_mappings: BTreeMap<(String, i32), (String, i64, String, i64)>,
}

enum Rows {
    Written,
    Bytes(Option<Vec<u8>>),
    Int(i64),
    Members(Vec<(String, i32)>),
    Lid(Option<LidMappingRow>),
    SecretTs(Option<(Vec<u8>, i64)>),
}

impl Tables {
    fn run(&mut self, s: &Statement) -> Rows {
        match s {
            Command::PutIdentity { address, key, device } => {
                self.identities.insert((address.clone(), *device), key.clone());
                Rows::Written
            }
            Command::LoadIdentity { address, device } => {
                Rows::Bytes(self.identities.get(&(address.clone(), *device)).cloned())
            }
            Command::DeleteIdentity { address, device } => {
                self.identities.remove(&(address.clone(), *device));
                Rows::Written
            }
            Command::PutSession { address, record, device } => {
                self.sessions.insert((address.clone(), *device), record.clone());
                Rows::Written
            }
            Command::GetSession { address, device } => {
                Rows::Bytes(self.sessions.get(&(address.clone(), *device)).cloned())
            }
            Command::DeleteSession { address, device } => {
                self.sessions.remove(&(address.clone(), *device));
                Rows::Written
            }
            Command::StorePrekey { id, key, uploaded, device } => {
                self.prekeys.insert((*id, *device), (key.clone(), *uploaded));
                Rows::Written
            }
            Command::LoadPrekey { id, device } => {
                Rows::Bytes(self.prekeys.get(&(*id, *device)).map(|p| p.0.clone()))
            }
            Command::RemovePrekey { id, device } => {
                self.prekeys.remove(&(*id, *device));
                Rows::Written
            }
            Command::MaxPrekeyId { device } => Rows::Int(
                self.prekeys.keys().filter(|k| k.1 == *device).map(|k| k.0 as i64).max().unwrap_or(0),
            ),
            Command::CreateDevice { device } => {
                self.devices.entry(*device).or_insert(None);
                Rows::Written
            }
            Command::CountDevice { device } => Rows::Int(self.devices.contains_key(device) as i64),
            Command::SaveDevice { device, noise_key } => {
                self.devices.insert(*device, Some(noise_key.clone()));
                Rows::Written
            }
            Command::LoadDevice { device } => {
                Rows::Bytes(self.devices.get(device).cloned().flatten())
            }
            Command::SetSenderKeyStatus { group, member, has_key, device, updated_at } => {
                self.sender_key_devices
                    .insert((group.clone(), member.clone(), *device), (*has_key, *updated_at));
                Rows::Written
            }
            Command::GetSenderKeyDevices { group, device } => Rows::Members(
                self.sender_key_devices
                    .iter()
                    .filter(|(k, _)| &k.0 == group && k.2 == *device)
                    .map(|(k, v)| (k.1.clone(), v.0))
                    .collect(),
            ),
            Command::ClearSenderKeyDevices { group, device } => {
                self.sender_key_devices.retain(|k, _| !(&k.0 == group && k.2 == *device));
                Rows::Written
            }
            Command::ClearAllSenderKeyDevices { device } => {
                self.sender_key_devices.retain(|k, _| k.2 != *device);
                Rows::Written
            }
            Command::PutMutationMac { name, version, index_mac, value_mac, device } => {
                self.mutation_macs
                    .insert((name.clone(), index_mac.clone(), *device), (*version, value_mac.clone()));
                Rows::Written
            }
            Command::GetMutationMac { name, index_mac, device } => Rows::Bytes(
                self.mutation_macs.get(&(name.clone(), index_mac.clone(), *device)).map(|v| v.1.clone()),
            ),
            Command::DeleteMutationMac { name, index_mac, device } => {
                self.mutation_macs.remove(&(name.clone(), index_mac.clone(), *device));
                Rows::Written
            }
            Command::StoreSentMessage { chat, message_id, payload, device, created_at } => {
                self.sent_messages
                    .insert((chat.clone(), message_id.clone(), *device), (payload.clone(), *created_at));
                Rows::Written
            }
            Command::TakeSentMessage { chat, message_id, device } => Rows::Bytes(
                self.sent_messages.remove(&(chat.clone(), message_id.clone(), *device)).map(|v| v.0),
            ),
            Command::PutMsgSecret { chat, sender, msg_id, secret, device, created_at, expires_at, message_ts } => {
                let key = (chat.clone(), sender.clone(), msg_id.clone(), *device);
                let row = match self.msg_secrets.get(&key) {
                    Some(old) => (
                        secret.clone(),
                        *created_at,
                        if old.2 == 0 || *expires_at == 0 { 0 } else { old.2.max(*expires_at) },
                        old.3.max(*message_ts),
                    ),
                    None => (secret.clone(), *created_at, *expires_at, *message_ts),
                };
                self.msg_secrets.insert(key, row);
                Rows::Written
            }
            Command::GetMsgSecretWithTs { chat, sender, msg_id, device } => Rows::SecretTs(
                self.msg_secrets
                    .get(&(chat.clone(), sender.clone(), msg_id.clone(), *device))
                    .map(|v| (v.0.clone(), v.3)),
            ),
            Command::GetLidMapping { lid, device } => Rows::Lid(self.lid_mappings.get(&(lid.clone(), *device)).map(
                |r| LidMappingRow {
                    lid: lid.clone(),
                    phone_number: r.0.clone(),
                    created_at: r.1,
                    learning_source: r.2.clone(),
                    updated_at: r.3,
                },
            )),
            Command::GetMsgSecret { chat, sender, msg_id, device } => Rows::Bytes(
                self.msg_secrets.get(&(chat.clone(), sender.clone(), msg_id.clone(), *device)).map(|v| v.0.clone()),
            ),
            Command::DeleteExpiredMsgSecrets { cutoff, device } => {
                let before = self.msg_secrets.len();
                self.msg_secrets.retain(|k, v| !(k.3 == *device && v.2 > 0 && v.2 <= *cutoff));
                Rows::Int((before - self.msg_secrets.len()) as i64)
            }
            Command::PutLidMapping { lid, phone_number, created_at, learning_source, updated_at, device } => {
                let key = (lid.clone(), *device);
                let created = self.lid_mappings.get(&key).map(|r| r.1).unwrap_or(*created_at);
                self.lid_mappings
                    .insert(key, (phone_number.clone(), created, learning_source.clone(), *updated_at));
                Rows::Written
            }
            _ => panic!("statement not modelled in this test"),
        }
    }

    fn bytes(&mut self, s: &Statement) -> Option<Vec<u8>> {
        match self.run(s) {
            Rows::Bytes(b) => b,
            _ => panic!("not a lookup"),
        }
    }

    fn number(&mut self, s: &Statement) -> i64 {
        match self.run(s) {
            Rows::Int(n) => n,
            _ => panic!("not a count"),
        }
    }

    fn call(&mut self, plan: DispatchPlan) -> Option<Vec<u8>> {
        for w in &plan.writes {
            self.run(w);
        }
        match plan.finish {
            Finish::Done(reply) => reply,
            Finish::Fail(e) => panic!("call failed: {:?}", e),
            Finish::Query(q) => {
                let rows = match (row_shape(&q), self.run(&q)) {
                    (RowShape::Members, Rows::Members(m)) => QueryRows::Members(m),
                    (RowShape::LidMapping, Rows::Lid(r)) => QueryRows::LidMapping(r),
                    (RowShape::SecretWithTs, Rows::SecretTs(r)) => QueryRows::SecretWithTs(r),
                    (RowShape::Count, Rows::Int(n)) => QueryRows::Count(n),
                    (RowShape::Bytes, Rows::Bytes(b)) => QueryRows::Bytes(b),
                    _ => panic!("rows do not fit the query"),
                };
                finish_query(rows)
            }
        }
    }
}

fn text(s: &str) -> JsonValue {
    JsonValue::Str(s.to_string())
}

fn object(members: Vec<(&str, JsonValue)>) -> JsonValue {
    JsonValue::Object(members.into_iter().map(|(k, v)| (k.to_string(), v)).collect())
}

const TEST_DSN: &str =
    "host=localhost port=5432 dbname=tryx_test user=postgres password= sslmode=disable";

#[test]
fn test_connect() {
    let (store, plan) = PgStore::connect(TEST_DSN, 1, 3);
    assert_eq!(store.device_id(), 1);
    assert_eq!(plan.max_size, 3);
    assert_eq!(plan.settings.host.as_deref(), Some("localhost"));
    assert_eq!(plan.settings.port, Some(5432));
    assert_eq!(plan.settings.dbname.as_deref(), Some("tryx_test"));
    assert_eq!(plan.settings.user.as_deref(), Some("postgres"));
    assert_eq!(plan.settings.password.as_deref(), Some(""));
}

#[test]
fn test_identity_crud() {
    let (store, _) = PgStore::connect(TEST_DSN, 1, 3);
    let mut db = Tables::default();
    let addr = "test-identity@s.whatsapp.net";
    let key = vec![0xAA; 32];

    db.run(&store.put_identity(addr, &key));
    let loaded = db.bytes(&store.load_identity(addr));
    assert_eq!(loaded, Some(key.clone()));

    db.run(&store.delete_identity(addr));
    let loaded = db.bytes(&store.load_identity(addr));
    assert_eq!(loaded, None);
}

#[test]
fn test_session_crud() {
    let (store, _) = PgStore::connect(TEST_DSN, 1, 3);
    let mut db = Tables::default();
    let addr = "test-session@s.whatsapp.net";
    let data = b"session-record-data".to_vec();

    db.run(&store.put_session(addr, &data));
    let loaded = db.bytes(&store.get_session(addr));
    assert_eq!(loaded, Some(data));

    db.run(&store.delete_session(addr));
    let loaded = db.bytes(&store.get_session(addr));
    assert_eq!(loaded, None);
}

#[test]
fn test_prekey_crud() {
    let (store, _) = PgStore::connect(TEST_DSN, 1, 3);
    let mut db = Tables::default();
    let pk_data = b"prekey-record".to_vec();

    db.run(&store.store_prekey(100, &pk_data, false));
    let loaded = db.bytes(&store.load_prekey(100));
    assert_eq!(loaded, Some(pk_data));

    let max_id = PgStore::max_prekey_id_of(db.number(&store.get_max_prekey_id()) as i32);
    assert!(max_id >= 100);

    db.run(&store.remove_prekey(100));
    assert_eq!(db.bytes(&store.load_prekey(100)), None);
}

#[test]
fn test_device_lifecycle() {
    let (store, _) = PgStore::connect(TEST_DSN, 1, 3);
    let mut db = Tables::default();

    db.run(&store.create_device());
    let id = store.created_device_id();
    assert_eq!(id, 1);

    let exists = PgStore::device_exists_of(db.number(&store.device_exists()));
    assert!(exists);

    let device_data = b"device-blob-data".to_vec();
    db.run(&store.save_device(&device_data));
    let loaded = db.bytes(&store.load_device());
    assert_eq!(loaded, Some(device_data));
}

#[test]
fn test_dispatch_sender_key_devices() {
    let (store, _) = PgStore::connect(TEST_DSN, 1, 3);
    let mut db = Tables::default();

    let input = object(vec![
        ("group_jid", text("test-group@g.us")),
        (
            "entries",
            JsonValue::Array(vec![
                JsonValue::Array(vec![text("device1@s.whatsapp.net"), JsonValue::Bool(true)]),
                JsonValue::Array(vec![text("device2@s.whatsapp.net"), JsonValue::Bool(false)]),
            ]),
        ),
    ]);
    db.call(store.dispatch(31, &input, 1_700_000_000));

    let input = object(vec![("group_jid", text("test-group@g.us"))]);
    let result = db.call(store.dispatch(30, &input, 1_700_000_000));
    assert!(result.is_some());
    assert_eq!(
        result,
        Some(br#"[["device1@s.whatsapp.net",true],["device2@s.whatsapp.net",false]]"#.to_vec())
    );

    db.call(store.dispatch(32, &input, 1_700_000_000));
    let result = db.call(store.dispatch(30, &input, 1_700_000_000));
    assert_eq!(result, Some(b"[]".to_vec()));
}

#[test]
fn identity_of_one_address_leaves_others() {
    let store = PgStore::new();
    let mut db = Tables::default();
    db.run(&store.put_identity("a", &[1]));
    db.run(&store.put_identity("b", &[2]));
    db.run(&store.delete_identity("a"));
    assert_eq!(db.bytes(&store.load_identity("b")), Some(vec![2]));
    assert_eq!(db.bytes(&store.load_identity("a")), None);
}

#[test]
fn creating_the_device_twice_keeps_its_blob() {
    let store = PgStore::new();
    let mut db = Tables::default();
    db.run(&store.save_device(&[9, 9]));
    db.run(&store.create_device());
    assert_eq!(db.bytes(&store.load_device()), Some(vec![9, 9]));
}

fn doc_bytes(b: &[u64]) -> Option<Vec<u8>> {
    let items: Vec<String> = b.iter().map(|n| n.to_string()).collect();
    Some(format!("[{}]", items.join(",")).into_bytes())
}

fn bytes_json(b: &[u64]) -> JsonValue {
    JsonValue::Array(b.iter().map(|n| JsonValue::PosInt(*n)).collect())
}

#[test]
fn mutation_macs_round_trip_through_calls() {
    let store = PgStore::new();
    let mut db = Tables::default();
    let put = object(vec![
        ("name", text("regular")),
        ("version", JsonValue::PosInt(2)),
        (
            "macs",
            JsonValue::Array(vec![
                object(vec![("index_mac", bytes_json(&[1])), ("value_mac", bytes_json(&[10]))]),
                object(vec![("index_mac", bytes_json(&[1])), ("value_mac", bytes_json(&[11]))]),
                object(vec![("index_mac", bytes_json(&[2])), ("value_mac", bytes_json(&[20]))]),
            ]),
        ),
    ]);
    assert_eq!(db.call(store.dispatch(24, &put, 0)), None);
    let get = |idx: u64| object(vec![("name", text("regular")), ("index_mac", bytes_json(&[idx]))]);
    assert_eq!(db.call(store.dispatch(25, &get(1), 0)), doc_bytes(&[11]));
    assert_eq!(db.call(store.dispatch(25, &get(2), 0)), doc_bytes(&[20]));
    let del = object(vec![("name", text("regular")), ("index_macs", JsonValue::Array(vec![bytes_json(&[1])]))]);
    db.call(store.dispatch(26, &del, 0));
    assert_eq!(db.call(store.dispatch(25, &get(1), 0)), None);
    assert_eq!(db.call(store.dispatch(25, &get(2), 0)), doc_bytes(&[20]));
}

#[test]
fn msg_secrets_round_trip_and_purge() {
    let store = PgStore::new();
    let mut db = Tables::default();
    let entry = |id: &str, secret: u64, expires: u64, ts: u64| {
        object(vec![
            ("chat", text("c")),
            ("sender", text("s")),
            ("msg_id", text(id)),
            ("secret", bytes_json(&[secret])),
            ("expires_at", JsonValue::PosInt(expires)),
            ("message_ts", JsonValue::PosInt(ts)),
        ])
    };
    let put = object(vec![(
        "entries",
        JsonValue::Array(vec![entry("a", 1, 100, 5), entry("b", 2, 0, 5), entry("c", 3, 300, 5)]),
    )]);
    assert_eq!(db.call(store.dispatch(60, &put, 7)), Some(b"3".to_vec()));
    let get = |id: &str| object(vec![("chat", text("c")), ("sender", text("s")), ("msg_id", text(id))]);
    assert_eq!(db.call(store.dispatch(61, &get("a"), 7)), doc_bytes(&[1]));

    let again = object(vec![("entries", JsonValue::Array(vec![entry("b", 9, 50, 1)]))]);
    db.call(store.dispatch(60, &again, 8));
    assert_eq!(db.call(store.dispatch(61, &get("b"), 8)), doc_bytes(&[9]));
    let b_row = db.msg_secrets.get(&(text_key("c"), text_key("s"), text_key("b"), 1)).cloned().unwrap();
    assert_eq!(b_row.2, 0);
    assert_eq!(b_row.3, 5);

    let purge = object(vec![("cutoff", JsonValue::PosInt(200))]);
    assert_eq!(db.call(store.dispatch(63, &purge, 9)), Some(b"1".to_vec()));
    assert_eq!(db.call(store.dispatch(61, &get("a"), 9)), None);
    assert_eq!(db.call(store.dispatch(61, &get("b"), 9)), doc_bytes(&[9]));
    assert_eq!(db.call(store.dispatch(61, &get("c"), 9)), doc_bytes(&[3]));
}

fn text_key(s: &str) -> String {
    s.to_string()
}

#[test]
fn sent_message_is_taken_once() {
    let store = PgStore::new();
    let mut db = Tables::default();
    let args = object(vec![("chat_jid", text("c")), ("message_id", text("m")), ("payload", bytes_json(&[4, 5]))]);
    db.call(store.dispatch(52, &args, 1));
    assert_eq!(db.call(store.dispatch(53, &args, 1)), doc_bytes(&[4, 5]));
    assert_eq!(db.call(store.dispatch(53, &args, 1)), None);
}

#[test]
fn lid_mapping_keeps_its_creation_time() {
    let store = PgStore::new();
    let mut db = Tables::default();
    let put = |pn: &str, created: u64| {
        object(vec![
            ("lid", text("l")),
            ("phone_number", text(pn)),
            ("created_at", JsonValue::PosInt(created)),
            ("learning_source", text("s")),
            ("updated_at", JsonValue::PosInt(created)),
        ])
    };
    db.call(store.dispatch(37, &put("111", 10), 0));
    db.call(store.dispatch(37, &put("222", 20), 0));
    assert_eq!(
        db.lid_mappings.get(&(text_key("l"), 1)),
        Some(&(text_key("222"), 10, text_key("s"), 20))
    );
}

#[test]
fn every_call_statement_is_scoped_to_the_device() {
    let store = PgStore::new();
    let args = object(vec![
        ("macs", JsonValue::Array(vec![object(vec![("index_mac", bytes_json(&[1])), ("value_mac", bytes_json(&[1]))])])),
        ("index_mac", bytes_json(&[1])),
        ("index_macs", JsonValue::Array(vec![bytes_json(&[1])])),
        ("entries", JsonValue::Array(vec![])),
        ("payload", bytes_json(&[1])),
    ]);
    for op in 0u32..70 {
        let plan = store.dispatch(op, &args, 0);
        let mut all: Vec<&Statement> = plan.writes.iter().collect();
        if let Finish::Query(q) = &plan.finish {
            all.push(q);
        }
        for st in all {
            let text = format!("{:?}", st);
            assert!(text.contains("device: 1"), "{}", text);
        }
    }
}

#[test]
fn sender_key_statuses_read_back_as_each_members_last() {
    let store = PgStore::new();
    let mut db = Tables::default();
    let input = br#"{"group_jid":"g","entries":[["a@s",true],["b@s",false],["a@s",false],["c@s",true]]}"#;
    assert_eq!(db.call(store.plan_call(31, input, 5).unwrap()), None);
    let reply = db.call(store.plan_call(30, br#"{"group_jid":"g"}"#, 5).unwrap());
    assert_eq!(reply, Some(br#"[["a@s",false],["b@s",false],["c@s",true]]"#.to_vec()));
}

#[test]
fn merged_secret_reads_back_with_the_later_time() {
    let store = PgStore::new();
    let mut db = Tables::default();
    let first = br#"{"entries":[{"chat":"c","sender":"s","msg_id":"m","secret":[1],"expires_at":100,"message_ts":5}]}"#;
    assert_eq!(db.call(store.plan_call(60, first, 1).unwrap()), Some(b"1".to_vec()));
    let second = br#"{"entries":[{"chat":"c","sender":"s","msg_id":"m","secret":[9],"expires_at":50,"message_ts":3}]}"#;
    assert_eq!(db.call(store.plan_call(60, second, 2).unwrap()), Some(b"1".to_vec()));
    let get = br#"{"chat":"c","sender":"s","msg_id":"m"}"#;
    assert_eq!(
        db.call(store.plan_call(62, get, 3).unwrap()),
        Some(br#"{"message_ts":5,"secret":[9]}"#.to_vec())
    );
    let row = db.msg_secrets.get(&(text_key("c"), text_key("s"), text_key("m"), 1)).cloned().unwrap();
    assert_eq!(row.2, 100);
    assert_eq!(db.call(store.plan_call(62, br#"{"chat":"c","sender":"s","msg_id":"x"}"#, 3).unwrap()), None);
}

#[test]
fn lid_mapping_read_after_two_puts_keeps_the_first_creation_time() {
    let store = PgStore::new();
    let mut db = Tables::default();
    let first = br#"{"lid":"l","phone_number":"111","created_at":10,"learning_source":"s1","updated_at":10}"#;
    let second = br#"{"lid":"l","phone_number":"222","created_at":20,"learning_source":"s2","updated_at":20}"#;
    assert_eq!(db.call(store.plan_call(37, first, 0).unwrap()), None);
    assert_eq!(db.call(store.plan_call(37, second, 0).unwrap()), None);
    assert_eq!(
        db.call(store.plan_call(35, br#"{"lid":"l"}"#, 0).unwrap()),
        Some(br#"{"created_at":10,"learning_source":"s2","lid":"l","phone_number":"222","updated_at":20}"#.to_vec())
    );
    assert_eq!(db.call(store.plan_call(35, br#"{"lid":"other"}"#, 0).unwrap()), None);
}

#[test]
fn calls_leave_other_devices_rows_alone() {
    let store = PgStore::new();
    let mut db = Tables::default();
    db.run(&Command::SetSenderKeyStatus {
        group: text_key("g"),
        member: text_key("x"),
        has_key: 1,
        device: 2,
        updated_at: 0,
    });
    db.run(&Command::PutIdentity { address: text_key("a"), key: vec![7], device: 2 });
    db.call(store.plan_call(33, b"", 0).unwrap());
    db.call(store.plan_call(32, br#"{"group_jid":"g"}"#, 0).unwrap());
    db.run(&store.delete_identity("a"));
    assert_eq!(db.sender_key_devices.get(&(text_key("g"), text_key("x"), 2)), Some(&(1, 0)));
    assert_eq!(db.identities.get(&(text_key("a"), 2)), Some(&vec![7]));
    assert_eq!(db.call(store.plan_call(30, br#"{"group_jid":"g"}"#, 0).unwrap()), Some(b"[]".to_vec()));
}

#[test]
fn identity_key_crosses_the_boundary_unchanged() {
    let store = PgStore::new();
    let mut db = Tables::default();
    db.run(&store.put_identity("a", &[1, 2, 3]));
    let (code, buf) = lookup_outcome::<()>(Ok(db.bytes(&store.load_identity("a"))));
    assert_eq!(code, 0);
    assert_eq!(buf.unwrap().into_bytes(), Some(vec![1, 2, 3]));
    db.run(&store.put_identity("e", &[]));
    let (code, buf) = lookup_outcome::<()>(Ok(db.bytes(&store.load_identity("e"))));
    assert_eq!(code, 0);
    let buf = buf.unwrap();
    assert_eq!(buf.len(), 0);
    assert!(!buf.is_null());
    let (code, buf) = lookup_outcome::<()>(Ok(db.bytes(&store.load_identity("missing"))));
    assert_eq!(code, 1);
    assert!(buf.unwrap().is_null());
}
