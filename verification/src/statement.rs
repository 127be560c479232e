//! The statements the store sends to its database.
//!
//! A statement names one of the store's queries together with its
//! parameters. `Command<String, Vec<u8>>` is what is sent;
//! `Command<Seq<char>, Seq<u8>>` is its view, over which the contracts and
//! the table model of `model` speak.

use vstd::prelude::*;

verus! {

/// One statement of the store, with text parameters of type `T` and byte
/// parameters of type `B`. Every statement is scoped to one device row.
#[derive(Debug, PartialEq, Eq)]
pub enum Command<T, B> {
    PutIdentity { address: T, key: B, device: i32 },
    LoadIdentity { address: T, device: i32 },
    DeleteIdentity { address: T, device: i32 },
    PutSession { address: T, record: B, device: i32 },
    GetSession { address: T, device: i32 },
    DeleteSession { address: T, device: i32 },
    StorePrekey { id: i32, key: B, uploaded: bool, device: i32 },
    LoadPrekey { id: i32, device: i32 },
    RemovePrekey { id: i32, device: i32 },
    MaxPrekeyId { device: i32 },
    StoreSignedPrekey { id: i32, record: B, device: i32 },
    LoadSignedPrekey { id: i32, device: i32 },
    RemoveSignedPrekey { id: i32, device: i32 },
    PutSenderKey { address: T, record: B, device: i32 },
    GetSenderKey { address: T, device: i32 },
    DeleteSenderKey { address: T, device: i32 },
    GetSyncKey { key_id: B, device: i32 },
    SetSyncKey { key_id: B, key_data: B, device: i32 },
    GetVersion { name: T, device: i32 },
    SetVersion { name: T, state: B, device: i32 },
    LatestSyncKeyId { device: i32 },
    SaveDevice { device: i32, noise_key: B },
    LoadDevice { device: i32 },
    CountDevice { device: i32 },
    CreateDevice { device: i32 },
    PutMutationMac { name: T, version: i64, index_mac: B, value_mac: B, device: i32 },
    GetMutationMac { name: T, index_mac: B, device: i32 },
    DeleteMutationMac { name: T, index_mac: B, device: i32 },
    GetSenderKeyDevices { group: T, device: i32 },
    SetSenderKeyStatus { group: T, member: T, has_key: i32, device: i32, updated_at: i64 },
    ClearSenderKeyDevices { group: T, device: i32 },
    ClearAllSenderKeyDevices { device: i32 },
    GetLidMapping { lid: T, device: i32 },
    PutLidMapping {
        lid: T,
        phone_number: T,
        created_at: i64,
        learning_source: T,
        updated_at: i64,
        device: i32,
    },
    StoreSentMessage { chat: T, message_id: T, payload: B, device: i32, created_at: i64 },
    TakeSentMessage { chat: T, message_id: T, device: i32 },
    PutMsgSecret {
        chat: T,
        sender: T,
        msg_id: T,
        secret: B,
        device: i32,
        created_at: i64,
        expires_at: i64,
        message_ts: i64,
    },
    GetMsgSecret { chat: T, sender: T, msg_id: T, device: i32 },
    GetMsgSecretWithTs { chat: T, sender: T, msg_id: T, device: i32 },
    DeleteExpiredMsgSecrets { cutoff: i64, device: i32 },
}

/// A statement as it is sent.
pub type Statement = Command<String, Vec<u8>>;

/// The view of a statement.
pub type StatementView = Command<Seq<char>, Seq<u8>>;

impl View for Command<String, Vec<u8>> {
    type V = Command<Seq<char>, Seq<u8>>;

    open spec fn view(&self) -> Command<Seq<char>, Seq<u8>> {
        match *self {
            Command::PutIdentity { address, key, device } =>
                Command::PutIdentity { address: address@, key: key@, device },
            Command::LoadIdentity { address, device } =>
                Command::LoadIdentity { address: address@, device },
            Command::DeleteIdentity { address, device } =>
                Command::DeleteIdentity { address: address@, device },
            Command::PutSession { address, record, device } =>
                Command::PutSession { address: address@, record: record@, device },
            Command::GetSession { address, device } =>
                Command::GetSession { address: address@, device },
            Command::DeleteSession { address, device } =>
                Command::DeleteSession { address: address@, device },
            Command::StorePrekey { id, key, uploaded, device } =>
                Command::StorePrekey { id, key: key@, uploaded, device },
            Command::LoadPrekey { id, device } => Command::LoadPrekey { id, device },
            Command::RemovePrekey { id, device } => Command::RemovePrekey { id, device },
            Command::MaxPrekeyId { device } => Command::MaxPrekeyId { device },
            Command::StoreSignedPrekey { id, record, device } =>
                Command::StoreSignedPrekey { id, record: record@, device },
            Command::LoadSignedPrekey { id, device } => Command::LoadSignedPrekey { id, device },
            Command::RemoveSignedPrekey { id, device } => Command::RemoveSignedPrekey { id, device },
            Command::PutSenderKey { address, record, device } =>
                Command::PutSenderKey { address: address@, record: record@, device },
            Command::GetSenderKey { address, device } =>
                Command::GetSenderKey { address: address@, device },
            Command::DeleteSenderKey { address, device } =>
                Command::DeleteSenderKey { address: address@, device },
            Command::GetSyncKey { key_id, device } => Command::GetSyncKey { key_id: key_id@, device },
            Command::SetSyncKey { key_id, key_data, device } =>
                Command::SetSyncKey { key_id: key_id@, key_data: key_data@, device },
            Command::GetVersion { name, device } => Command::GetVersion { name: name@, device },
            Command::SetVersion { name, state, device } =>
                Command::SetVersion { name: name@, state: state@, device },
            Command::LatestSyncKeyId { device } => Command::LatestSyncKeyId { device },
            Command::SaveDevice { device, noise_key } =>
                Command::SaveDevice { device, noise_key: noise_key@ },
            Command::LoadDevice { device } => Command::LoadDevice { device },
            Command::CountDevice { device } => Command::CountDevice { device },
            Command::CreateDevice { device } => Command::CreateDevice { device },
            Command::PutMutationMac { name, version, index_mac, value_mac, device } =>
                Command::PutMutationMac {
                    name: name@,
                    version,
                    index_mac: index_mac@,
                    value_mac: value_mac@,
                    device,
                },
            Command::GetMutationMac { name, index_mac, device } =>
                Command::GetMutationMac { name: name@, index_mac: index_mac@, device },
            Command::DeleteMutationMac { name, index_mac, device } =>
                Command::DeleteMutationMac { name: name@, index_mac: index_mac@, device },
            Command::GetSenderKeyDevices { group, device } =>
                Command::GetSenderKeyDevices { group: group@, device },
            Command::SetSenderKeyStatus { group, member, has_key, device, updated_at } =>
                Command::SetSenderKeyStatus {
                    group: group@,
                    member: member@,
                    has_key,
                    device,
                    updated_at,
                },
            Command::ClearSenderKeyDevices { group, device } =>
                Command::ClearSenderKeyDevices { group: group@, device },
            Command::ClearAllSenderKeyDevices { device } =>
                Command::ClearAllSenderKeyDevices { device },
            Command::GetLidMapping { lid, device } => Command::GetLidMapping { lid: lid@, device },
            Command::PutLidMapping {
                lid,
                phone_number,
                created_at,
                learning_source,
                updated_at,
                device,
            } => Command::PutLidMapping {
                lid: lid@,
                phone_number: phone_number@,
                created_at,
                learning_source: learning_source@,
                updated_at,
                device,
            },
            Command::StoreSentMessage { chat, message_id, payload, device, created_at } =>
                Command::StoreSentMessage {
                    chat: chat@,
                    message_id: message_id@,
                    payload: payload@,
                    device,
                    created_at,
                },
            Command::TakeSentMessage { chat, message_id, device } =>
                Command::TakeSentMessage { chat: chat@, message_id: message_id@, device },
            Command::PutMsgSecret {
                chat,
                sender,
                msg_id,
                secret,
                device,
                created_at,
                expires_at,
                message_ts,
            } => Command::PutMsgSecret {
                chat: chat@,
                sender: sender@,
                msg_id: msg_id@,
                secret: secret@,
                device,
                created_at,
                expires_at,
                message_ts,
            },
            Command::GetMsgSecret { chat, sender, msg_id, device } =>
                Command::GetMsgSecret { chat: chat@, sender: sender@, msg_id: msg_id@, device },
            Command::GetMsgSecretWithTs { chat, sender, msg_id, device } =>
                Command::GetMsgSecretWithTs {
                    chat: chat@,
                    sender: sender@,
                    msg_id: msg_id@,
                    device,
                },
            Command::DeleteExpiredMsgSecrets { cutoff, device } =>
                Command::DeleteExpiredMsgSecrets { cutoff, device },
        }
    }
}

/// The views of a list of statements.
pub open spec fn statements_view(s: Seq<Statement>) -> Seq<StatementView> {
    s.map_values(|st: Statement| st@)
}

} // verus!
