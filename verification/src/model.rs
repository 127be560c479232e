//! A model of the store's tables and of what each statement does to them
//! and answers, and the laws the store's operations obey over it.
//!
//! Every table is keyed by its conflict key, which always includes the
//! device. The model gives each statement the meaning its query text has
//! for the database: an insert that meets an existing key updates the
//! columns it names and keeps the others.

use vstd::prelude::*;
use crate::statement::{Command, StatementView};

verus! {

/// A stored message secret.
pub struct SecretRow {
    pub secret: Seq<u8>,
    pub created_at: i64,
    pub expires_at: i64,
    pub message_ts: i64,
}

/// A stored LID-to-phone-number mapping.
pub struct LidRow {
    pub phone_number: Seq<char>,
    pub created_at: i64,
    pub learning_source: Seq<char>,
    pub updated_at: i64,
}

/// The contents of the store's tables.
#[verifier::ext_equal]
pub struct Db {
    pub identities: Map<(Seq<char>, i32), Seq<u8>>,
    pub sessions: Map<(Seq<char>, i32), Seq<u8>>,
    /// Pre-keys: the key and whether it was uploaded.
    pub prekeys: Map<(i32, i32), (Seq<u8>, bool)>,
    pub signed_prekeys: Map<(i32, i32), Seq<u8>>,
    pub sender_keys: Map<(Seq<char>, i32), Seq<u8>>,
    pub sync_keys: Map<(Seq<u8>, i32), Seq<u8>>,
    pub versions: Map<(Seq<char>, i32), Seq<u8>>,
    /// Device rows and their blob, which a row created by `CreateDevice`
    /// lacks until one is saved.
    pub devices: Map<i32, Option<Seq<u8>>>,
    /// Mutation MACs by (name, index MAC, device): version and value MAC.
    pub mutation_macs: Map<(Seq<char>, Seq<u8>, i32), (i64, Seq<u8>)>,
    /// Sender-key devices by (group, member, device): has-key flag and update time.
    pub sender_key_devices: Map<(Seq<char>, Seq<char>, i32), (i32, i64)>,
    pub lid_mappings: Map<(Seq<char>, i32), LidRow>,
    /// Sent messages by (chat, message id, device): payload and time.
    pub sent_messages: Map<(Seq<char>, Seq<char>, i32), (Seq<u8>, i64)>,
    pub msg_secrets: Map<(Seq<char>, Seq<char>, Seq<char>, i32), SecretRow>,
}

/// What a statement answers.
pub enum Answer {
    /// A write answers nothing.
    Written,
    /// The one column of the matching row, if any.
    Row(Option<Seq<u8>>),
    /// A single number.
    Number(int),
    /// The `(member, has_key)` rows of a group, in no particular order.
    Members(Set<(Seq<char>, i32)>),
    /// A LID mapping row: lid, phone number, creation time, source, update time.
    Lid(Option<(Seq<char>, Seq<char>, i64, Seq<char>, i64)>),
    /// A secret and its message time.
    SecretWithTs(Option<(Seq<u8>, i64)>),
    /// The matching row's column holds no bytes (a device row created
    /// without a blob), so the row cannot be read as bytes.
    Unreadable,
}

/// The usual order on `i32`.
pub open spec fn i32_le() -> spec_fn(i32, i32) -> bool {
    |a: i32, b: i32| a <= b
}

/// Whether a pre-key key belongs to `device`.
pub open spec fn of_device(device: i32) -> spec_fn((i32, i32)) -> bool {
    |k: (i32, i32)| k.1 == device
}

/// The id part of a pre-key key.
pub open spec fn id_part() -> spec_fn((i32, i32)) -> i32 {
    |k: (i32, i32)| k.0
}

/// The ids of the pre-keys of `device`.
pub open spec fn prekey_ids(db: Db, device: i32) -> Set<i32> {
    db.prekeys.dom().filter(of_device(device)).map(id_part())
}

/// `COALESCE(MAX(id), 0)` over the pre-keys of `device`.
pub open spec fn max_prekey(db: Db, device: i32) -> i32 {
    let ids = prekey_ids(db, device);
    if ids.len() > 0 {
        ids.find_unique_maximal(i32_le())
    } else {
        0
    }
}

/// Whether byte string `a` sorts at or before `b` (byte-wise, a prefix
/// first).
pub open spec fn bytes_le(a: Seq<u8>, b: Seq<u8>) -> bool
    decreases a.len(),
{
    if a.len() == 0 {
        true
    } else if b.len() == 0 {
        false
    } else if a[0] != b[0] {
        a[0] < b[0]
    } else {
        bytes_le(a.drop_first(), b.drop_first())
    }
}

/// The sync key ids of `device`.
pub open spec fn sync_key_ids(db: Db, device: i32) -> Set<Seq<u8>> {
    Set::new(|id: Seq<u8>| db.sync_keys.dom().contains((id, device)))
}

/// The greatest sync key id of `device`, if it has any.
pub open spec fn latest_sync_key(db: Db, device: i32) -> Option<Seq<u8>> {
    let ids = sync_key_ids(db, device);
    if exists|id: Seq<u8>| ids.contains(id) {
        Some(choose|id: Seq<u8>| ids.contains(id) && forall|x: Seq<u8>| ids.contains(x) ==> bytes_le(x, id))
    } else {
        None
    }
}

/// Whether a message secret row is removed by a purge at `cutoff`.
pub open spec fn expired(r: SecretRow, cutoff: i64) -> bool {
    0 < r.expires_at <= cutoff
}

/// The message secret after storing `new` over `old`: the secret and
/// creation time are replaced; the expiry stays zero (never) once either
/// is zero and is otherwise the later one; the message time is the later
/// one.
pub open spec fn merge_secret(old: SecretRow, new: SecretRow) -> SecretRow {
    SecretRow {
        secret: new.secret,
        created_at: new.created_at,
        expires_at: if old.expires_at == 0 || new.expires_at == 0 {
            0
        } else if old.expires_at >= new.expires_at {
            old.expires_at
        } else {
            new.expires_at
        },
        message_ts: if old.message_ts >= new.message_ts { old.message_ts } else { new.message_ts },
    }
}

/// `m` without the keys that satisfy `gone`.
pub open spec fn remove_where<K, V>(m: Map<K, V>, gone: spec_fn(K) -> bool) -> Map<K, V> {
    m.restrict(m.dom().filter(|k: K| !gone(k)))
}

/// What statement `s` does to the tables.
pub open spec fn apply(db: Db, s: StatementView) -> Db {
    match s {
        Command::PutIdentity { address, key, device } =>
            Db { identities: db.identities.insert((address, device), key), ..db },
        Command::DeleteIdentity { address, device } =>
            Db { identities: db.identities.remove((address, device)), ..db },
        Command::PutSession { address, record, device } =>
            Db { sessions: db.sessions.insert((address, device), record), ..db },
        Command::DeleteSession { address, device } =>
            Db { sessions: db.sessions.remove((address, device)), ..db },
        Command::StorePrekey { id, key, uploaded, device } =>
            Db { prekeys: db.prekeys.insert((id, device), (key, uploaded)), ..db },
        Command::RemovePrekey { id, device } => Db { prekeys: db.prekeys.remove((id, device)), ..db },
        Command::StoreSignedPrekey { id, record, device } =>
            Db { signed_prekeys: db.signed_prekeys.insert((id, device), record), ..db },
        Command::RemoveSignedPrekey { id, device } =>
            Db { signed_prekeys: db.signed_prekeys.remove((id, device)), ..db },
        Command::PutSenderKey { address, record, device } =>
            Db { sender_keys: db.sender_keys.insert((address, device), record), ..db },
        Command::DeleteSenderKey { address, device } =>
            Db { sender_keys: db.sender_keys.remove((address, device)), ..db },
        Command::SetSyncKey { key_id, key_data, device } =>
            Db { sync_keys: db.sync_keys.insert((key_id, device), key_data), ..db },
        Command::SetVersion { name, state, device } =>
            Db { versions: db.versions.insert((name, device), state), ..db },
        Command::SaveDevice { device, noise_key } =>
            Db { devices: db.devices.insert(device, Some(noise_key)), ..db },
        Command::CreateDevice { device } => if db.devices.dom().contains(device) {
            db
        } else {
            Db { devices: db.devices.insert(device, None), ..db }
        },
        Command::PutMutationMac { name, version, index_mac, value_mac, device } =>
            Db {
                mutation_macs: db.mutation_macs.insert((name, index_mac, device), (version, value_mac)),
                ..db
            },
        Command::DeleteMutationMac { name, index_mac, device } =>
            Db { mutation_macs: db.mutation_macs.remove((name, index_mac, device)), ..db },
        Command::SetSenderKeyStatus { group, member, has_key, device, updated_at } =>
            Db {
                sender_key_devices: db.sender_key_devices.insert(
                    (group, member, device),
                    (has_key, updated_at),
                ),
                ..db
            },
        Command::ClearSenderKeyDevices { group, device } =>
            Db {
                sender_key_devices: remove_where(
                    db.sender_key_devices,
                    |k: (Seq<char>, Seq<char>, i32)| k.0 == group && k.2 == device,
                ),
                ..db
            },
        Command::ClearAllSenderKeyDevices { device } =>
            Db {
                sender_key_devices: remove_where(
                    db.sender_key_devices,
                    |k: (Seq<char>, Seq<char>, i32)| k.2 == device,
                ),
                ..db
            },
        Command::PutLidMapping {
            lid,
            phone_number,
            created_at,
            learning_source,
            updated_at,
            device,
        } => {
            let created = if db.lid_mappings.dom().contains((lid, device)) {
                db.lid_mappings[(lid, device)].created_at
            } else {
                created_at
            };
            Db {
                lid_mappings: db.lid_mappings.insert(
                    (lid, device),
                    LidRow { phone_number, created_at: created, learning_source, updated_at },
                ),
                ..db
            }
        },
        Command::StoreSentMessage { chat, message_id, payload, device, created_at } =>
            Db {
                sent_messages: db.sent_messages.insert((chat, message_id, device), (payload, created_at)),
                ..db
            },
        Command::TakeSentMessage { chat, message_id, device } =>
            Db { sent_messages: db.sent_messages.remove((chat, message_id, device)), ..db },
        Command::PutMsgSecret {
            chat,
            sender,
            msg_id,
            secret,
            device,
            created_at,
            expires_at,
            message_ts,
        } => {
            let key = (chat, sender, msg_id, device);
            let new = SecretRow { secret, created_at, expires_at, message_ts };
            let row = if db.msg_secrets.dom().contains(key) {
                merge_secret(db.msg_secrets[key], new)
            } else {
                new
            };
            Db { msg_secrets: db.msg_secrets.insert(key, row), ..db }
        },
        Command::DeleteExpiredMsgSecrets { cutoff, device } =>
            Db {
                msg_secrets: remove_where(
                    db.msg_secrets,
                    |k: (Seq<char>, Seq<char>, Seq<char>, i32)|
                        k.3 == device && expired(db.msg_secrets[k], cutoff),
                ),
                ..db
            },
        _ => db,
    }
}

/// The value under `k`, if any.
pub open spec fn lookup<K, V>(m: Map<K, V>, k: K) -> Option<V> {
    if m.dom().contains(k) {
        Some(m[k])
    } else {
        None
    }
}

/// What statement `s` answers when sent to the tables `db`.
pub open spec fn answer(db: Db, s: StatementView) -> Answer {
    match s {
        Command::LoadIdentity { address, device } => Answer::Row(lookup(db.identities, (address, device))),
        Command::GetSession { address, device } => Answer::Row(lookup(db.sessions, (address, device))),
        Command::LoadPrekey { id, device } => Answer::Row(
            match lookup(db.prekeys, (id, device)) {
                Some(p) => Some(p.0),
                None => None,
            },
        ),
        Command::MaxPrekeyId { device } => Answer::Number(max_prekey(db, device) as int),
        Command::LoadSignedPrekey { id, device } =>
            Answer::Row(lookup(db.signed_prekeys, (id, device))),
        Command::GetSenderKey { address, device } =>
            Answer::Row(lookup(db.sender_keys, (address, device))),
        Command::GetSyncKey { key_id, device } => Answer::Row(lookup(db.sync_keys, (key_id, device))),
        Command::GetVersion { name, device } => Answer::Row(lookup(db.versions, (name, device))),
        Command::LatestSyncKeyId { device } => Answer::Row(latest_sync_key(db, device)),
        Command::LoadDevice { device } => match lookup(db.devices, device) {
            Some(Some(blob)) => Answer::Row(Some(blob)),
            Some(None) => Answer::Unreadable,
            None => Answer::Row(None),
        },
        Command::CountDevice { device } => Answer::Number(
            if db.devices.dom().contains(device) { 1 } else { 0 },
        ),
        Command::GetMutationMac { name, index_mac, device } => Answer::Row(
            match lookup(db.mutation_macs, (name, index_mac, device)) {
                Some(v) => Some(v.1),
                None => None,
            },
        ),
        Command::GetSenderKeyDevices { group, device } => Answer::Members(
            Set::new(
                |r: (Seq<char>, i32)|
                    db.sender_key_devices.dom().contains((group, r.0, device))
                        && db.sender_key_devices[(group, r.0, device)].0 == r.1,
            ),
        ),
        Command::GetLidMapping { lid, device } => Answer::Lid(
            match lookup(db.lid_mappings, (lid, device)) {
                Some(r) => Some((lid, r.phone_number, r.created_at, r.learning_source, r.updated_at)),
                None => None,
            },
        ),
        Command::TakeSentMessage { chat, message_id, device } => Answer::Row(
            match lookup(db.sent_messages, (chat, message_id, device)) {
                Some(v) => Some(v.0),
                None => None,
            },
        ),
        Command::GetMsgSecret { chat, sender, msg_id, device } => Answer::Row(
            match lookup(db.msg_secrets, (chat, sender, msg_id, device)) {
                Some(r) => Some(r.secret),
                None => None,
            },
        ),
        Command::GetMsgSecretWithTs { chat, sender, msg_id, device } => Answer::SecretWithTs(
            match lookup(db.msg_secrets, (chat, sender, msg_id, device)) {
                Some(r) => Some((r.secret, r.message_ts)),
                None => None,
            },
        ),
        Command::DeleteExpiredMsgSecrets { cutoff, device } => Answer::Number(
            db.msg_secrets.dom().filter(
                |k: (Seq<char>, Seq<char>, Seq<char>, i32)|
                    k.3 == device && expired(db.msg_secrets[k], cutoff),
            ).len() as int,
        ),
        _ => Answer::Written,
    }
}

/// The tables after the statements `s`, sent in order.
pub open spec fn apply_all(db: Db, s: Seq<StatementView>) -> Db {
    s.fold_left(db, |d: Db, st: StatementView| apply(d, st))
}

/// The device a statement is scoped to.
pub open spec fn device_of(s: StatementView) -> i32 {
    match s {
        Command::PutIdentity { device, .. } => device,
        Command::LoadIdentity { device, .. } => device,
        Command::DeleteIdentity { device, .. } => device,
        Command::PutSession { device, .. } => device,
        Command::GetSession { device, .. } => device,
        Command::DeleteSession { device, .. } => device,
        Command::StorePrekey { device, .. } => device,
        Command::LoadPrekey { device, .. } => device,
        Command::RemovePrekey { device, .. } => device,
        Command::MaxPrekeyId { device } => device,
        Command::StoreSignedPrekey { device, .. } => device,
        Command::LoadSignedPrekey { device, .. } => device,
        Command::RemoveSignedPrekey { device, .. } => device,
        Command::PutSenderKey { device, .. } => device,
        Command::GetSenderKey { device, .. } => device,
        Command::DeleteSenderKey { device, .. } => device,
        Command::GetSyncKey { device, .. } => device,
        Command::SetSyncKey { device, .. } => device,
        Command::GetVersion { device, .. } => device,
        Command::SetVersion { device, .. } => device,
        Command::LatestSyncKeyId { device } => device,
        Command::SaveDevice { device, .. } => device,
        Command::LoadDevice { device } => device,
        Command::CountDevice { device } => device,
        Command::CreateDevice { device } => device,
        Command::PutMutationMac { device, .. } => device,
        Command::GetMutationMac { device, .. } => device,
        Command::DeleteMutationMac { device, .. } => device,
        Command::GetSenderKeyDevices { device, .. } => device,
        Command::SetSenderKeyStatus { device, .. } => device,
        Command::ClearSenderKeyDevices { device, .. } => device,
        Command::ClearAllSenderKeyDevices { device } => device,
        Command::GetLidMapping { device, .. } => device,
        Command::PutLidMapping { device, .. } => device,
        Command::StoreSentMessage { device, .. } => device,
        Command::TakeSentMessage { device, .. } => device,
        Command::PutMsgSecret { device, .. } => device,
        Command::GetMsgSecret { device, .. } => device,
        Command::GetMsgSecretWithTs { device, .. } => device,
        Command::DeleteExpiredMsgSecrets { device, .. } => device,
    }
}

/// The entries of `m` whose keys satisfy `mine`.
pub open spec fn keep<K, V>(m: Map<K, V>, mine: spec_fn(K) -> bool) -> Map<K, V> {
    m.restrict(m.dom().filter(mine))
}

/// Whether a key `(a, device)` belongs to device `d`.
pub open spec fn on_device2<A>(d: i32) -> spec_fn((A, i32)) -> bool {
    |k: (A, i32)| k.1 == d
}

/// Whether a key `(a, b, device)` belongs to device `d`.
pub open spec fn on_device3<A, B>(d: i32) -> spec_fn((A, B, i32)) -> bool {
    |k: (A, B, i32)| k.2 == d
}

/// Whether a key `(a, b, c, device)` belongs to device `d`.
pub open spec fn on_device4<A, B, C>(d: i32) -> spec_fn((A, B, C, i32)) -> bool {
    |k: (A, B, C, i32)| k.3 == d
}

/// Whether a device row is that of device `d`.
pub open spec fn is_device(d: i32) -> spec_fn(i32) -> bool {
    |k: i32| k == d
}

/// The rows of device `d`, in every table.
pub open spec fn rows_of(db: Db, d: i32) -> Db {
    Db {
        identities: keep(db.identities, on_device2(d)),
        sessions: keep(db.sessions, on_device2(d)),
        prekeys: keep(db.prekeys, on_device2(d)),
        signed_prekeys: keep(db.signed_prekeys, on_device2(d)),
        sender_keys: keep(db.sender_keys, on_device2(d)),
        sync_keys: keep(db.sync_keys, on_device2(d)),
        versions: keep(db.versions, on_device2(d)),
        devices: keep(db.devices, is_device(d)),
        mutation_macs: keep(db.mutation_macs, on_device3(d)),
        sender_key_devices: keep(db.sender_key_devices, on_device3(d)),
        lid_mappings: keep(db.lid_mappings, on_device2(d)),
        sent_messages: keep(db.sent_messages, on_device3(d)),
        msg_secrets: keep(db.msg_secrets, on_device4(d)),
    }
}

} // verus!
