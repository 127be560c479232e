//! The store's operations: for each one, the statement it sends and how
//! the database's reply becomes its result.

pub mod opcode;

use vstd::prelude::*;
use vstd::slice::slice_to_vec;
use crate::statement::{Command, Statement, StatementView};
use crate::dsn::{DsnSettings, dsn_settings, parse_dsn};

verus! {

/// The store of one device: every statement it builds is scoped to that
/// device's rows.
#[derive(Debug)]
pub struct PgStore {
    device_id: i32,
}

/// How the connection pool is to be set up.
#[derive(Debug, PartialEq, Eq)]
pub struct PoolPlan {
    /// The connection settings read from the connection string.
    pub settings: DsnSettings,
    /// The largest number of connections the pool holds.
    pub max_size: usize,
}

impl PgStore {
    /// Opening the store: the pool is set up from the settings of `dsn`
    /// with at most `pool_max` connections (the pool has no lower bound, so
    /// `pool_min` is not used), and the store serves device 1.
    pub fn connect(dsn: &str, pool_min: usize, pool_max: usize) -> (r: (PgStore, PoolPlan))
        ensures
            r.0.device() == 1,
            r.1.settings@ == dsn_settings(dsn@),
            r.1.max_size == pool_max,
    {
        let settings = parse_dsn(dsn);
        (PgStore::new(), PoolPlan { settings, max_size: pool_max })
    }

    /// The device whose rows the store reads and writes.
    pub closed spec fn device(&self) -> i32 {
        self.device_id
    }

    /// A store for the default device, number 1.
    pub fn new() -> (s: Self)
        ensures
            s.device() == 1,
    {
        PgStore { device_id: 1 }
    }

    /// The device whose rows the store reads and writes.
    pub fn device_id(&self) -> (d: i32)
        ensures
            d == self.device(),
    {
        self.device_id
    }

    /// The statement that stores the identity key of `addr`, replacing any earlier one.
    pub fn put_identity(&self, addr: &str, key: &[u8]) -> (s: Statement)
        ensures
            s@ == (StatementView::PutIdentity { address: addr@, key: key@, device: self.device() }),
    {
        Command::PutIdentity { address: addr.to_owned(), key: slice_to_vec(key), device: self.device_id }
    }

    /// The statement that reads the identity key of `addr`.
    pub fn load_identity(&self, addr: &str) -> (s: Statement)
        ensures
            s@ == (StatementView::LoadIdentity { address: addr@, device: self.device() }),
    {
        Command::LoadIdentity { address: addr.to_owned(), device: self.device_id }
    }

    /// The statement that removes the identity key of `addr`.
    pub fn delete_identity(&self, addr: &str) -> (s: Statement)
        ensures
            s@ == (StatementView::DeleteIdentity { address: addr@, device: self.device() }),
    {
        Command::DeleteIdentity { address: addr.to_owned(), device: self.device_id }
    }

    /// The statement that reads the session record of `addr`.
    pub fn get_session(&self, addr: &str) -> (s: Statement)
        ensures
            s@ == (StatementView::GetSession { address: addr@, device: self.device() }),
    {
        Command::GetSession { address: addr.to_owned(), device: self.device_id }
    }

    /// The statement that stores the session record of `addr`, replacing any earlier one.
    pub fn put_session(&self, addr: &str, data: &[u8]) -> (s: Statement)
        ensures
            s@ == (StatementView::PutSession { address: addr@, record: data@, device: self.device() }),
    {
        Command::PutSession { address: addr.to_owned(), record: slice_to_vec(data), device: self.device_id }
    }

    /// The statement that removes the session record of `addr`.
    pub fn delete_session(&self, addr: &str) -> (s: Statement)
        ensures
            s@ == (StatementView::DeleteSession { address: addr@, device: self.device() }),
    {
        Command::DeleteSession { address: addr.to_owned(), device: self.device_id }
    }

    /// The statement that stores pre-key `id` with its upload flag; the id is sent as a signed 32-bit integer.
    pub fn store_prekey(&self, id: u32, data: &[u8], uploaded: bool) -> (s: Statement)
        ensures
            s@ == (StatementView::StorePrekey { id: id as i32, key: data@, uploaded, device: self.device() }),
    {
        Command::StorePrekey { id: id as i32, key: slice_to_vec(data), uploaded, device: self.device_id }
    }

    /// The statement that reads pre-key `id`.
    pub fn load_prekey(&self, id: u32) -> (s: Statement)
        ensures
            s@ == (StatementView::LoadPrekey { id: id as i32, device: self.device() }),
    {
        Command::LoadPrekey { id: id as i32, device: self.device_id }
    }

    /// The statement that removes pre-key `id`.
    pub fn remove_prekey(&self, id: u32) -> (s: Statement)
        ensures
            s@ == (StatementView::RemovePrekey { id: id as i32, device: self.device() }),
    {
        Command::RemovePrekey { id: id as i32, device: self.device_id }
    }

    /// The statement that asks for the greatest pre-key id of the device (0 when it has none).
    pub fn get_max_prekey_id(&self) -> (s: Statement)
        ensures
            s@ == (StatementView::MaxPrekeyId { device: self.device() }),
    {
        Command::MaxPrekeyId { device: self.device_id }
    }

    /// The statement that stores signed pre-key `id`, replacing any earlier one.
    pub fn store_signed_prekey(&self, id: u32, data: &[u8]) -> (s: Statement)
        ensures
            s@ == (StatementView::StoreSignedPrekey { id: id as i32, record: data@, device: self.device() }),
    {
        Command::StoreSignedPrekey { id: id as i32, record: slice_to_vec(data), device: self.device_id }
    }

    /// The statement that reads signed pre-key `id`.
    pub fn load_signed_prekey(&self, id: u32) -> (s: Statement)
        ensures
            s@ == (StatementView::LoadSignedPrekey { id: id as i32, device: self.device() }),
    {
        Command::LoadSignedPrekey { id: id as i32, device: self.device_id }
    }

    /// The statement that removes signed pre-key `id`.
    pub fn remove_signed_prekey(&self, id: u32) -> (s: Statement)
        ensures
            s@ == (StatementView::RemoveSignedPrekey { id: id as i32, device: self.device() }),
    {
        Command::RemoveSignedPrekey { id: id as i32, device: self.device_id }
    }

    /// The statement that stores the sender key record of `addr`, replacing any earlier one.
    pub fn put_sender_key(&self, addr: &str, data: &[u8]) -> (s: Statement)
        ensures
            s@ == (StatementView::PutSenderKey { address: addr@, record: data@, device: self.device() }),
    {
        Command::PutSenderKey { address: addr.to_owned(), record: slice_to_vec(data), device: self.device_id }
    }

    /// The statement that reads the sender key record of `addr`.
    pub fn get_sender_key(&self, addr: &str) -> (s: Statement)
        ensures
            s@ == (StatementView::GetSenderKey { address: addr@, device: self.device() }),
    {
        Command::GetSenderKey { address: addr.to_owned(), device: self.device_id }
    }

    /// The statement that removes the sender key record of `addr`.
    pub fn delete_sender_key(&self, addr: &str) -> (s: Statement)
        ensures
            s@ == (StatementView::DeleteSenderKey { address: addr@, device: self.device() }),
    {
        Command::DeleteSenderKey { address: addr.to_owned(), device: self.device_id }
    }

    /// The statement that reads the app-state sync key with id `kid`.
    pub fn get_sync_key(&self, kid: &[u8]) -> (s: Statement)
        ensures
            s@ == (StatementView::GetSyncKey { key_id: kid@, device: self.device() }),
    {
        Command::GetSyncKey { key_id: slice_to_vec(kid), device: self.device_id }
    }

    /// The statement that stores the app-state sync key with id `kid`, replacing any earlier one.
    pub fn set_sync_key(&self, kid: &[u8], data: &[u8]) -> (s: Statement)
        ensures
            s@ == (StatementView::SetSyncKey { key_id: kid@, key_data: data@, device: self.device() }),
    {
        Command::SetSyncKey { key_id: slice_to_vec(kid), key_data: slice_to_vec(data), device: self.device_id }
    }

    /// The statement that reads the app-state version named `name`.
    pub fn get_version(&self, name: &str) -> (s: Statement)
        ensures
            s@ == (StatementView::GetVersion { name: name@, device: self.device() }),
    {
        Command::GetVersion { name: name.to_owned(), device: self.device_id }
    }

    /// The statement that stores the app-state version named `name`, replacing any earlier one.
    pub fn set_version(&self, name: &str, data: &[u8]) -> (s: Statement)
        ensures
            s@ == (StatementView::SetVersion { name: name@, state: data@, device: self.device() }),
    {
        Command::SetVersion { name: name.to_owned(), state: slice_to_vec(data), device: self.device_id }
    }

    /// The statement that asks for the greatest sync key id of the device.
    pub fn get_latest_sync_key_id(&self) -> (s: Statement)
        ensures
            s@ == (StatementView::LatestSyncKeyId { device: self.device() }),
    {
        Command::LatestSyncKeyId { device: self.device_id }
    }

    /// The statement that stores the device blob, creating the device row if needed.
    pub fn save_device(&self, data: &[u8]) -> (s: Statement)
        ensures
            s@ == (StatementView::SaveDevice { device: self.device(), noise_key: data@ }),
    {
        Command::SaveDevice { device: self.device_id, noise_key: slice_to_vec(data) }
    }

    /// The statement that reads the device blob.
    pub fn load_device(&self) -> (s: Statement)
        ensures
            s@ == (StatementView::LoadDevice { device: self.device() }),
    {
        Command::LoadDevice { device: self.device_id }
    }

    /// The statement that counts the rows of the device.
    pub fn device_exists(&self) -> (s: Statement)
        ensures
            s@ == (StatementView::CountDevice { device: self.device() }),
    {
        Command::CountDevice { device: self.device_id }
    }

    /// The statement that creates the device row, leaving an existing one as it is.
    pub fn create_device(&self) -> (s: Statement)
        ensures
            s@ == (StatementView::CreateDevice { device: self.device() }),
    {
        Command::CreateDevice { device: self.device_id }
    }

    /// The result of `get_max_prekey_id` from the integer the database gives
    /// back: its bits read as unsigned.
    pub fn max_prekey_id_of(v: i32) -> (id: u32)
        ensures
            id == v as u32,
    {
        v as u32
    }

    /// The result of `device_exists` from the number of device rows.
    pub fn device_exists_of(count: i64) -> (b: bool)
        ensures
            b == (count > 0),
    {
        count > 0
    }

    /// The result of `create_device`: the store's own device id.
    pub fn created_device_id(&self) -> (id: i32)
        ensures
            id == self.device(),
    {
        self.device_id
    }
}

} // verus!
