//! Laws of the store over the table model: what a read gives back after a
//! write, what a write leaves alone, and what the generic call's writes
//! leave behind.

use vstd::prelude::*;
use vstd::relations::{is_maximal, total_ordering};
use crate::dispatch::{
    Finish, bytes_view, device_flags, flag_list_view, int_view, lid_mapping_view, secret_with_ts_view, dispatch_spec, mac_entry_ok, mac_entry_write, mac_ok_fn, int_or_zero, ok_prefix_len,
    secret_entry_write, secret_ok_fn,
};
use crate::dsn::{DsnView, apply_token, dsn_settings, is_ws, no_settings, scan, split_ws};
use crate::json::{JsonValue, JsonView, doc_view, lemma_docs_view};
use crate::encode::json_document;
use crate::model::{
    Answer, Db, LidRow, SecretRow, device_of, expired, is_device, keep, merge_secret, on_device2,
    on_device3, on_device4, remove_where, rows_of, sync_key_ids, answer, apply, apply_all, i32_le, id_part, max_prekey, of_device, prekey_ids};
use crate::pg::PgStore;
use crate::config::u64_or;
use crate::ffi::lookup_status;
use crate::dispatch::{QueryRows, rows_reply};
use crate::pg::opcode;
use crate::statement::{Command, StatementView};

verus! {

/// A load of an identity key gives back the key last stored for the
/// address, and nothing once it has been deleted.
pub proof fn law_identity_round_trip(store: PgStore, db: Db, addr: Seq<char>, key: Seq<u8>)
    ensures
        answer(
            apply(db, Command::PutIdentity { address: addr, key, device: store.device() }),
            Command::LoadIdentity { address: addr, device: store.device() },
        ) == Answer::Row(Some(key)),
        answer(
            apply(db, Command::DeleteIdentity { address: addr, device: store.device() }),
            Command::LoadIdentity { address: addr, device: store.device() },
        ) == Answer::Row(None),
{
}

/// Storing or deleting the identity key of one address leaves the key of
/// every other address as it was.
pub proof fn law_identity_independent(store: PgStore, db: Db, addr: Seq<char>, other: Seq<char>, key: Seq<u8>)
    requires
        addr != other,
    ensures
        answer(
            apply(db, Command::PutIdentity { address: addr, key, device: store.device() }),
            Command::LoadIdentity { address: other, device: store.device() },
        ) == answer(db, Command::LoadIdentity { address: other, device: store.device() }),
        answer(
            apply(db, Command::DeleteIdentity { address: addr, device: store.device() }),
            Command::LoadIdentity { address: other, device: store.device() },
        ) == answer(db, Command::LoadIdentity { address: other, device: store.device() }),
{
    assert((addr, store.device()) != (other, store.device()));
}

/// A session record reads back as last stored, and as nothing once deleted.
pub proof fn law_session_round_trip(store: PgStore, db: Db, addr: Seq<char>, data: Seq<u8>)
    ensures
        answer(
            apply(db, Command::PutSession { address: addr, record: data, device: store.device() }),
            Command::GetSession { address: addr, device: store.device() },
        ) == Answer::Row(Some(data)),
        answer(
            apply(db, Command::DeleteSession { address: addr, device: store.device() }),
            Command::GetSession { address: addr, device: store.device() },
        ) == Answer::Row(None),
{
}

/// A pre-key reads back as last stored, and as nothing once removed.
pub proof fn law_prekey_round_trip(store: PgStore, db: Db, id: u32, data: Seq<u8>, uploaded: bool)
    ensures
        answer(
            apply(
                db,
                Command::StorePrekey { id: id as i32, key: data, uploaded, device: store.device() },
            ),
            Command::LoadPrekey { id: id as i32, device: store.device() },
        ) == Answer::Row(Some(data)),
        answer(
            apply(db, Command::RemovePrekey { id: id as i32, device: store.device() }),
            Command::LoadPrekey { id: id as i32, device: store.device() },
        ) == Answer::Row(None),
{
}

/// After a pre-key is stored, the greatest pre-key id (read as unsigned) is
/// at least its id, for ids up to `i32::MAX` and a finite table.
pub proof fn law_prekey_max_covers_stored(store: PgStore, db: Db, id: u32, data: Seq<u8>, uploaded: bool)
    requires
        db.prekeys.dom().finite(),
        id <= i32::MAX,
    ensures
        max_prekey(
            apply(
                db,
                Command::StorePrekey { id: id as i32, key: data, uploaded, device: store.device() },
            ),
            store.device(),
        ) as u32 >= id,
{
    let d = store.device();
    let after = apply(db, Command::StorePrekey { id: id as i32, key: data, uploaded, device: d });
    let filtered = after.prekeys.dom().filter(of_device(d));
    let ids = prekey_ids(after, d);
    assert(after.prekeys.dom().finite());
    assert(filtered.finite()) by {
        vstd::set_lib::lemma_set_subset_finite(after.prekeys.dom(), filtered);
    }
    filtered.lemma_map_finite(id_part());
    assert(filtered.contains((id as i32, d)));
    assert((id as i32) == (id_part())((id as i32, d)));
    assert(ids.contains(id as i32));
    assert(ids.len() > 0) by {
        vstd::set_lib::lemma_set_empty_equivalency_len(ids);
    }
    assert(total_ordering(i32_le()));
    ids.find_unique_maximal_ensures(i32_le());
    let m = ids.find_unique_maximal(i32_le());
    assert(is_maximal(i32_le(), m, ids));
    if (i32_le())(m, id as i32) {
        assert((i32_le())(id as i32, m));
    }
    assert(m >= id as i32);
    assert(max_prekey(after, d) == m);
}

/// A signed pre-key reads back as last stored, and as nothing once removed.
pub proof fn law_signed_prekey_round_trip(store: PgStore, db: Db, id: u32, data: Seq<u8>)
    ensures
        answer(
            apply(db, Command::StoreSignedPrekey { id: id as i32, record: data, device: store.device() }),
            Command::LoadSignedPrekey { id: id as i32, device: store.device() },
        ) == Answer::Row(Some(data)),
        answer(
            apply(db, Command::RemoveSignedPrekey { id: id as i32, device: store.device() }),
            Command::LoadSignedPrekey { id: id as i32, device: store.device() },
        ) == Answer::Row(None),
{
}

/// A sender key record reads back as last stored, and as nothing once
/// deleted.
pub proof fn law_sender_key_round_trip(store: PgStore, db: Db, addr: Seq<char>, data: Seq<u8>)
    ensures
        answer(
            apply(db, Command::PutSenderKey { address: addr, record: data, device: store.device() }),
            Command::GetSenderKey { address: addr, device: store.device() },
        ) == Answer::Row(Some(data)),
        answer(
            apply(db, Command::DeleteSenderKey { address: addr, device: store.device() }),
            Command::GetSenderKey { address: addr, device: store.device() },
        ) == Answer::Row(None),
{
}

/// Sync keys and app-state versions read back as last stored.
pub proof fn law_app_state_round_trip(
    store: PgStore,
    db: Db,
    kid: Seq<u8>,
    key_data: Seq<u8>,
    name: Seq<char>,
    state: Seq<u8>,
)
    ensures
        answer(
            apply(db, Command::SetSyncKey { key_id: kid, key_data, device: store.device() }),
            Command::GetSyncKey { key_id: kid, device: store.device() },
        ) == Answer::Row(Some(key_data)),
        answer(
            apply(db, Command::SetVersion { name, state, device: store.device() }),
            Command::GetVersion { name, device: store.device() },
        ) == Answer::Row(Some(state)),
{
}

/// The device row: once created it exists; creating it again changes
/// nothing; a saved blob reads back, and survives a later create.
pub proof fn law_device_lifecycle(store: PgStore, db: Db, blob: Seq<u8>)
    ensures
        answer(
            apply(db, Command::CreateDevice { device: store.device() }),
            Command::CountDevice { device: store.device() },
        ) == Answer::Number(1),
        apply(
            apply(db, Command::CreateDevice { device: store.device() }),
            Command::CreateDevice { device: store.device() },
        ) == apply(db, Command::CreateDevice { device: store.device() }),
        answer(
            apply(db, Command::SaveDevice { device: store.device(), noise_key: blob }),
            Command::LoadDevice { device: store.device() },
        ) == Answer::Row(Some(blob)),
        answer(
            apply(
                apply(db, Command::SaveDevice { device: store.device(), noise_key: blob }),
                Command::CreateDevice { device: store.device() },
            ),
            Command::LoadDevice { device: store.device() },
        ) == Answer::Row(Some(blob)),
{
}

/// A mutation MAC reads back its value MAC as last stored under its name
/// and index MAC, and nothing once deleted.
pub proof fn law_mutation_mac_round_trip(
    store: PgStore,
    db: Db,
    name: Seq<char>,
    version: i64,
    index_mac: Seq<u8>,
    value_mac: Seq<u8>,
)
    ensures
        answer(
            apply(
                db,
                Command::PutMutationMac { name, version, index_mac, value_mac, device: store.device() },
            ),
            Command::GetMutationMac { name, index_mac, device: store.device() },
        ) == Answer::Row(Some(value_mac)),
        answer(
            apply(db, StatementView::DeleteMutationMac { name, index_mac, device: store.device() }),
            Command::GetMutationMac { name, index_mac, device: store.device() },
        ) == Answer::Row(None),
{
}

/// The has-key flag a status entry is stored with.
pub open spec fn flag_value(b: bool) -> i32 {
    if b { 1i32 } else { 0i32 }
}

proof fn lemma_apply_all_step(db: Db, writes: Seq<StatementView>, n: int)
    requires
        0 < n <= writes.len(),
    ensures
        apply_all(db, writes.take(n)) == apply(apply_all(db, writes.take(n - 1)), writes[n - 1]),
{
    assert(writes.take(n).drop_last() =~= writes.take(n - 1));
}

proof fn lemma_status_writes(
    db: Db,
    writes: Seq<StatementView>,
    entries: Seq<(Seq<char>, bool)>,
    group: Seq<char>,
    device: i32,
    now: i64,
    i: int,
    n: int,
)
    requires
        writes.len() == entries.len(),
        forall|j: int|
            0 <= j < entries.len() ==> #[trigger] writes[j] == (StatementView::SetSenderKeyStatus {
                group,
                member: entries[j].0,
                has_key: flag_value(entries[j].1),
                device,
                updated_at: now,
            }),
        0 <= i < n <= entries.len(),
        forall|j: int| i < j < n ==> #[trigger] entries[j].0 != entries[i].0,
    ensures
        apply_all(db, writes.take(n)).sender_key_devices.dom().contains((group, entries[i].0, device)),
        apply_all(db, writes.take(n)).sender_key_devices[(group, entries[i].0, device)] == (
            flag_value(entries[i].1),
            now,
        ),
    decreases n,
{
    lemma_apply_all_step(db, writes, n);
    if n > i + 1 {
        lemma_status_writes(db, writes, entries, group, device, now, i, n - 1);
        assert(writes[n - 1] == (StatementView::SetSenderKeyStatus {
            group,
            member: entries[n - 1].0,
            has_key: flag_value(entries[n - 1].1),
            device,
            updated_at: now,
        }));
        assert(entries[n - 1].0 != entries[i].0);
    } else {
        assert(writes[i] == (StatementView::SetSenderKeyStatus {
            group,
            member: entries[i].0,
            has_key: flag_value(entries[i].1),
            device,
            updated_at: now,
        }));
    }
}

/// After the writes of a sender-key status call, the group's rows hold
/// each member's last status given in the call.
pub proof fn law_sender_key_status_visible(store: PgStore, db: Db, args: JsonValue, now: i64, i: int)
    requires
        args.field("entries"@).flag_pairs() is Some,
        0 <= i < args.field("entries"@).flag_pairs()->0.len(),
        forall|j: int|
            i < j < args.field("entries"@).flag_pairs()->0.len() ==> #[trigger] args.field(
                "entries"@,
            ).flag_pairs()->0[j].0 != args.field("entries"@).flag_pairs()->0[i].0,
    ensures
        ({
            let entries = args.field("entries"@).flag_pairs()->0;
            let group = args.field("group_jid"@).text_or_empty();
            let writes = dispatch_spec(opcode::SET_SENDER_KEY_STATUS, args, store.device(), now).0;
            answer(
                apply_all(db, writes),
                Command::GetSenderKeyDevices { group, device: store.device() },
            ) matches Answer::Members(rows) && rows.contains((entries[i].0, flag_value(entries[i].1)))
        }),
{
    let entries = args.field("entries"@).flag_pairs()->0;
    let group = args.field("group_jid"@).text_or_empty();
    let d = store.device();
    let writes = dispatch_spec(opcode::SET_SENDER_KEY_STATUS, args, d, now).0;
    assert forall|j: int| 0 <= j < entries.len() implies #[trigger] writes[j] == (
    StatementView::SetSenderKeyStatus {
        group,
        member: entries[j].0,
        has_key: flag_value(entries[j].1),
        device: d,
        updated_at: now,
    }) by {}
    assert forall|j: int| i < j < entries.len() implies #[trigger] entries[j].0 != entries[i].0 by {}
    lemma_status_writes(db, writes, entries, group, d, now, i, entries.len() as int);
    assert(writes.take(entries.len() as int) =~= writes);
}

/// After a group's rows are cleared, the group has no rows.
pub proof fn law_clear_sender_key_devices(store: PgStore, db: Db, group: Seq<char>)
    ensures
        answer(
            apply(db, Command::ClearSenderKeyDevices { group, device: store.device() }),
            Command::GetSenderKeyDevices { group, device: store.device() },
        ) == Answer::Members(Set::empty()),
{
    let after = apply(db, Command::ClearSenderKeyDevices { group, device: store.device() });
    match answer(after, Command::GetSenderKeyDevices { group, device: store.device() }) {
        Answer::Members(rows) => {
            assert(rows =~= Set::empty());
        },
        _ => {},
    }
}

/// After the writes of a delete-MACs call, none of the listed MACs reads
/// back.
pub proof fn law_delete_mutation_macs(store: PgStore, db: Db, args: JsonValue, now: i64, i: int)
    requires
        args.field("index_macs"@).byte_lists() is Some,
        0 <= i < args.field("index_macs"@).byte_lists()->0.len(),
    ensures
        ({
            let macs = args.field("index_macs"@).byte_lists()->0;
            let name = args.field("name"@).text_or_empty();
            let writes = dispatch_spec(opcode::DELETE_MUTATION_MACS, args, store.device(), now).0;
            answer(
                apply_all(db, writes),
                Command::GetMutationMac { name, index_mac: macs[i], device: store.device() },
            ) == Answer::Row(None)
        }),
{
    let macs = args.field("index_macs"@).byte_lists()->0;
    let name = args.field("name"@).text_or_empty();
    let d = store.device();
    let writes = dispatch_spec(opcode::DELETE_MUTATION_MACS, args, d, now).0;
    assert forall|j: int| 0 <= j < macs.len() implies #[trigger] writes[j] == (
    StatementView::DeleteMutationMac { name, index_mac: macs[j], device: d }) by {}
    lemma_deletes_stay(db, writes, macs, name, d, i, macs.len() as int);
    assert(writes.take(writes.len() as int) =~= writes);
}

proof fn lemma_deletes_stay(
    db: Db,
    writes: Seq<StatementView>,
    macs: Seq<Seq<u8>>,
    name: Seq<char>,
    device: i32,
    i: int,
    n: int,
)
    requires
        writes.len() == macs.len(),
        forall|j: int|
            0 <= j < macs.len() ==> #[trigger] writes[j] == (StatementView::DeleteMutationMac {
                name,
                index_mac: macs[j],
                device,
            }),
        0 <= i < n <= macs.len(),
    ensures
        !apply_all(db, writes.take(n)).mutation_macs.dom().contains((name, macs[i], device)),
    decreases n,
{
    lemma_apply_all_step(db, writes, n);
    assert(writes[n - 1] == (StatementView::DeleteMutationMac { name, index_mac: macs[n - 1], device }));
    if n > i + 1 {
        lemma_deletes_stay(db, writes, macs, name, device, i, n - 1);
    }
}

/// A LID mapping reads back as last stored, except that the creation time
/// of an existing mapping is kept.
pub proof fn law_lid_mapping_round_trip(
    store: PgStore,
    db: Db,
    lid: Seq<char>,
    phone_number: Seq<char>,
    created_at: i64,
    learning_source: Seq<char>,
    updated_at: i64,
)
    ensures
        ({
            let d = store.device();
            let created = if db.lid_mappings.dom().contains((lid, d)) {
                db.lid_mappings[(lid, d)].created_at
            } else {
                created_at
            };
            answer(
                apply(
                    db,
                    Command::PutLidMapping {
                        lid,
                        phone_number,
                        created_at,
                        learning_source,
                        updated_at,
                        device: d,
                    },
                ),
                Command::GetLidMapping { lid, device: d },
            ) == Answer::Lid(Some((lid, phone_number, created, learning_source, updated_at)))
        }),
{
}

/// A sent message can be taken once: taking it gives back the payload
/// last stored, and taking it again gives nothing.
pub proof fn law_sent_message_taken_once(
    store: PgStore,
    db: Db,
    chat: Seq<char>,
    message_id: Seq<char>,
    payload: Seq<u8>,
    now: i64,
)
    ensures
        ({
            let d = store.device();
            let stored = apply(
                db,
                Command::StoreSentMessage { chat, message_id, payload, device: d, created_at: now },
            );
            let take = Command::TakeSentMessage { chat, message_id, device: d };
            &&& answer(stored, take) == Answer::Row(Some(payload))
            &&& answer(apply(stored, take), take) == Answer::Row(None)
        }),
{
}

/// A message secret reads back as last stored; an entry that never
/// expires (expiry zero) keeps never expiring; the message time never goes
/// back.
pub proof fn law_msg_secret_put(
    store: PgStore,
    db: Db,
    chat: Seq<char>,
    sender: Seq<char>,
    msg_id: Seq<char>,
    secret: Seq<u8>,
    now: i64,
    expires_at: i64,
    message_ts: i64,
)
    ensures
        ({
            let d = store.device();
            let key = (chat, sender, msg_id, d);
            let after = apply(
                db,
                Command::PutMsgSecret {
                    chat,
                    sender,
                    msg_id,
                    secret,
                    device: d,
                    created_at: now,
                    expires_at,
                    message_ts,
                },
            );
            &&& answer(after, Command::GetMsgSecret { chat, sender, msg_id, device: d }) == Answer::Row(
                Some(secret),
            )
            &&& after.msg_secrets[key].message_ts >= message_ts
            &&& db.msg_secrets.dom().contains(key) ==> after.msg_secrets[key].message_ts
                >= db.msg_secrets[key].message_ts
            &&& (db.msg_secrets.dom().contains(key) && db.msg_secrets[key].expires_at == 0)
                ==> after.msg_secrets[key].expires_at == 0
            &&& expires_at == 0 ==> after.msg_secrets[key].expires_at == 0
        }),
{
}

/// A purge at `cutoff` removes exactly the device's secrets that expire at
/// or before `cutoff` (and do expire), and answers how many it removed.
pub proof fn law_purge_expired(store: PgStore, db: Db, cutoff: i64)
    ensures
        ({
            let d = store.device();
            let purge = Command::DeleteExpiredMsgSecrets { cutoff, device: d };
            let after = apply(db, purge);
            &&& forall|k: (Seq<char>, Seq<char>, Seq<char>, i32)|
                #[trigger] after.msg_secrets.dom().contains(k) <==> (db.msg_secrets.dom().contains(k)
                    && !(k.3 == d && 0 < db.msg_secrets[k].expires_at <= cutoff))
            &&& forall|k: (Seq<char>, Seq<char>, Seq<char>, i32)|
                #[trigger] after.msg_secrets.dom().contains(k) ==> after.msg_secrets[k]
                    == db.msg_secrets[k]
        }),
{
}

/// The bytes of a secret handed back in a reply read back as the same
/// bytes.
pub proof fn law_byte_array_reads_back(v: JsonValue, b: Seq<u8>)
    requires
        doc_view(v) == bytes_view(b),
    ensures
        v.bytes() == Some(b),
{
    let items = v->Array_0@;
    lemma_docs_view(items);
    assert forall|i: int| 0 <= i < items.len() implies items[i] == JsonValue::PosInt(b[i] as u64) by {
        assert(doc_view(items[i]) == bytes_view(b)->Array_0[i]);
    }
    assert forall|i: int| 0 <= i < items.len() implies #[trigger] crate::json::is_byte(items[i]) by {
        assert(items[i] == JsonValue::PosInt(b[i] as u64));
    }
    assert(items.map_values(|x: JsonValue| crate::json::byte_of(x)) =~= b);
}

/// Whether every token is non-empty and free of white space.
pub open spec fn words(ts: Seq<Seq<char>>) -> bool {
    forall|i: int| 0 <= i < ts.len() ==> {
        &&& (#[trigger] ts[i]).len() > 0
        &&& forall|j: int| 0 <= j < ts[i].len() ==> !is_ws(#[trigger] ts[i][j])
    }
}

proof fn lemma_scan_words(s: Seq<char>)
    ensures
        words(scan(s).0),
        forall|j: int| 0 <= j < scan(s).1.len() ==> !is_ws(#[trigger] scan(s).1[j]),
    decreases s.len(),
{
    if s.len() > 0 {
        lemma_scan_words(s.drop_last());
        let (done, cur) = scan(s.drop_last());
        if is_ws(s.last()) {
            if cur.len() > 0 {
                assert forall|i: int| 0 <= i < done.push(cur).len() implies {
                    &&& (#[trigger] done.push(cur)[i]).len() > 0
                    &&& forall|j: int| 0 <= j < done.push(cur)[i].len() ==> !is_ws(#[trigger] done.push(cur)[i][j])
                } by {
                    if i < done.len() {
                        assert(done.push(cur)[i] == done[i]);
                    }
                }
            }
        } else {
            assert forall|j: int| 0 <= j < cur.push(s.last()).len() implies !is_ws(#[trigger] cur.push(s.last())[j]) by {
                if j < cur.len() {
                    assert(cur.push(s.last())[j] == cur[j]);
                }
            }
        }
    }
}

/// The tokens of a connection string are non-empty and hold no white
/// space.
pub proof fn law_tokens_are_words(s: Seq<char>)
    ensures
        words(split_ws(s)),
{
    lemma_scan_words(s);
    let (done, cur) = scan(s);
    if cur.len() > 0 {
        assert forall|i: int| 0 <= i < done.push(cur).len() implies {
            &&& (#[trigger] done.push(cur)[i]).len() > 0
            &&& forall|j: int| 0 <= j < done.push(cur)[i].len() ==> !is_ws(#[trigger] done.push(cur)[i][j])
        } by {
            if i < done.len() {
                assert(done.push(cur)[i] == done[i]);
            }
        }
    }
}

/// Every statement the generic call sends, writes and query alike, is
/// scoped to the store's own device.
pub proof fn law_dispatch_scoped_to_device(store: PgStore, op: u32, args: JsonValue, now: i64)
    ensures
        ({
            let (writes, finish) = dispatch_spec(op, args, store.device(), now);
            &&& forall|i: int| 0 <= i < writes.len() ==> device_of(#[trigger] writes[i]) == store.device()
            &&& finish matches Finish::Query(q) ==> device_of(q) == store.device()
        }),
{
}

proof fn lemma_mac_writes(
    db: Db,
    writes: Seq<StatementView>,
    macs: Seq<JsonValue>,
    name: Seq<char>,
    version: i64,
    device: i32,
    i: int,
    n: int,
)
    requires
        n <= writes.len(),
        writes.len() <= macs.len(),
        forall|j: int|
            0 <= j < writes.len() ==> #[trigger] writes[j] == mac_entry_write(name, version, device, macs[j]),
        forall|j: int| 0 <= j < writes.len() ==> #[trigger] mac_entry_ok(macs[j]),
        0 <= i < n,
        forall|j: int|
            i < j < n ==> #[trigger] macs[j].field("index_mac"@).bytes() != macs[i].field(
                "index_mac"@,
            ).bytes(),
    ensures
        answer(
            apply_all(db, writes.take(n)),
            Command::GetMutationMac { name, index_mac: macs[i].field("index_mac"@).bytes()->0, device },
        ) == Answer::Row(Some(macs[i].field("value_mac"@).bytes()->0)),
    decreases n,
{
    lemma_apply_all_step(db, writes, n);
    if n > i + 1 {
        lemma_mac_writes(db, writes, macs, name, version, device, i, n - 1);
        assert(writes[n - 1] == mac_entry_write(name, version, device, macs[n - 1]));
        assert(macs[n - 1].field("index_mac"@).bytes() != macs[i].field("index_mac"@).bytes());
        assert(mac_entry_ok(macs[n - 1]) && mac_entry_ok(macs[i]));
    } else {
        assert(writes[i] == mac_entry_write(name, version, device, macs[i]));
    }
}

/// After the writes of a put-MACs call, each entry that was written reads
/// back its value MAC under its index MAC, unless a later written entry of
/// the call has the same index MAC.
pub proof fn law_mutation_macs_visible(store: PgStore, db: Db, args: JsonValue, now: i64, i: int)
    requires
        args.field("macs"@) is Array,
        0 <= i < ok_prefix_len(args.field("macs"@)->Array_0@, mac_ok_fn()),
        forall|j: int|
            i < j < ok_prefix_len(args.field("macs"@)->Array_0@, mac_ok_fn()) ==> #[trigger] args.field(
                "macs"@,
            )->Array_0@[j].field("index_mac"@).bytes() != args.field("macs"@)->Array_0@[i].field(
                "index_mac"@,
            ).bytes(),
    ensures
        ({
            let m = args.field("macs"@)->Array_0@[i];
            let name = args.field("name"@).text_or_empty();
            let writes = dispatch_spec(opcode::PUT_MUTATION_MACS, args, store.device(), now).0;
            answer(
                apply_all(db, writes),
                Command::GetMutationMac {
                    name,
                    index_mac: m.field("index_mac"@).bytes()->0,
                    device: store.device(),
                },
            ) == Answer::Row(Some(m.field("value_mac"@).bytes()->0))
        }),
{
    let macs = args.field("macs"@)->Array_0@;
    let name = args.field("name"@).text_or_empty();
    let version = int_or_zero(args.field("version"@));
    let d = store.device();
    let k = ok_prefix_len(macs, mac_ok_fn()) as int;
    let writes = dispatch_spec(opcode::PUT_MUTATION_MACS, args, d, now).0;
    lemma_ok_prefix_len_bound(macs, mac_ok_fn());
    lemma_ok_prefix_items(macs, mac_ok_fn());
    assert(writes.len() == k);
    assert forall|j: int| 0 <= j < writes.len() implies #[trigger] mac_entry_ok(macs[j]) by {
        assert((mac_ok_fn())(macs[j]));
    }
    assert forall|j: int| 0 <= j < writes.len() implies #[trigger] writes[j] == mac_entry_write(
        name,
        version,
        d,
        macs[j],
    ) by {}
    assert forall|j: int| i < j < k implies #[trigger] macs[j].field("index_mac"@).bytes() != macs[i].field(
        "index_mac"@,
    ).bytes() by {}
    lemma_mac_writes(db, writes, macs, name, version, d, i, k);
    assert(writes.take(k) =~= writes);
}

proof fn lemma_ok_prefix_items(items: Seq<JsonValue>, ok: spec_fn(JsonValue) -> bool)
    ensures
        forall|j: int| 0 <= j < ok_prefix_len(items, ok) ==> #[trigger] ok(items[j]),
    decreases items.len(),
{
    lemma_ok_prefix_len_bound(items, ok);
    if items.len() > 0 && ok(items[0]) {
        lemma_ok_prefix_items(items.drop_first(), ok);
        assert forall|j: int| 0 <= j < ok_prefix_len(items, ok) implies #[trigger] ok(items[j]) by {
            if j > 0 {
                assert(items[j] == items.drop_first()[j - 1]);
            }
        }
    }
}

proof fn lemma_ok_prefix_len_bound(items: Seq<JsonValue>, ok: spec_fn(JsonValue) -> bool)
    ensures
        ok_prefix_len(items, ok) <= items.len(),
    decreases items.len(),
{
    if items.len() > 0 {
        lemma_ok_prefix_len_bound(items.drop_first(), ok);
    }
}

/// The key a message secret entry is stored under.
pub open spec fn secret_key(e: JsonValue) -> (Seq<char>, Seq<char>, Seq<char>) {
    (e.field("chat"@).text_or_empty(), e.field("sender"@).text_or_empty(), e.field("msg_id"@).text_or_empty())
}

proof fn lemma_secret_writes(
    db: Db,
    writes: Seq<StatementView>,
    entries: Seq<JsonValue>,
    device: i32,
    now: i64,
    i: int,
    n: int,
)
    requires
        n <= writes.len(),
        writes.len() <= entries.len(),
        forall|j: int|
            0 <= j < writes.len() ==> #[trigger] writes[j] == secret_entry_write(device, now, entries[j]),
        0 <= i < n,
        forall|j: int| i < j < n ==> #[trigger] secret_key(entries[j]) != secret_key(entries[i]),
    ensures
        ({
            let (chat, sender, msg_id) = secret_key(entries[i]);
            answer(apply_all(db, writes.take(n)), Command::GetMsgSecret { chat, sender, msg_id, device })
                == Answer::Row(Some(entries[i].field("secret"@).bytes()->0))
        }),
    decreases n,
{
    lemma_apply_all_step(db, writes, n);
    if n > i + 1 {
        lemma_secret_writes(db, writes, entries, device, now, i, n - 1);
        assert(writes[n - 1] == secret_entry_write(device, now, entries[n - 1]));
        assert(secret_key(entries[n - 1]) != secret_key(entries[i]));
    } else {
        assert(writes[i] == secret_entry_write(device, now, entries[i]));
    }
}

/// After the writes of a put-secrets call, each entry that was written
/// reads back its secret under its chat, sender and message id, unless a
/// later written entry of the call has the same key.
pub proof fn law_msg_secrets_visible(store: PgStore, db: Db, args: JsonValue, now: i64, i: int)
    requires
        args.field("entries"@) is Array,
        0 <= i < ok_prefix_len(args.field("entries"@)->Array_0@, secret_ok_fn()),
        forall|j: int|
            i < j < ok_prefix_len(args.field("entries"@)->Array_0@, secret_ok_fn()) ==> #[trigger] secret_key(
                args.field("entries"@)->Array_0@[j],
            ) != secret_key(args.field("entries"@)->Array_0@[i]),
    ensures
        ({
            let e = args.field("entries"@)->Array_0@[i];
            let (chat, sender, msg_id) = secret_key(e);
            let writes = dispatch_spec(opcode::PUT_MSG_SECRETS, args, store.device(), now).0;
            answer(
                apply_all(db, writes),
                Command::GetMsgSecret { chat, sender, msg_id, device: store.device() },
            ) == Answer::Row(Some(e.field("secret"@).bytes()->0))
        }),
{
    let entries = args.field("entries"@)->Array_0@;
    let d = store.device();
    let k = ok_prefix_len(entries, secret_ok_fn()) as int;
    let writes = dispatch_spec(opcode::PUT_MSG_SECRETS, args, d, now).0;
    lemma_ok_prefix_len_bound(entries, secret_ok_fn());
    assert(writes.len() == k);
    assert forall|j: int| 0 <= j < writes.len() implies #[trigger] writes[j] == secret_entry_write(
        d,
        now,
        entries[j],
    ) by {}
    assert forall|j: int| i < j < k implies #[trigger] secret_key(entries[j]) != secret_key(entries[i]) by {}
    lemma_secret_writes(db, writes, entries, d, now, i, k);
    assert(writes.take(k) =~= writes);
}

proof fn lemma_scan_after_break(x: Seq<char>, b: Seq<char>)
    requires
        scan(x).1.len() == 0,
    ensures
        scan(x + b) == (scan(x).0 + scan(b).0, scan(b).1),
    decreases b.len(),
{
    if b.len() == 0 {
        assert(x + b =~= x);
        assert(scan(x).0 + scan(b).0 =~= scan(x).0);
    } else {
        lemma_scan_after_break(x, b.drop_last());
        assert((x + b).drop_last() =~= x + b.drop_last());
        assert((x + b).last() == b.last());
        let (d, _) = scan(x);
        let (s1, c1) = scan(b.drop_last());
        if is_ws(b.last()) && c1.len() > 0 {
            assert(d + s1.push(c1) =~= (d + s1).push(c1));
        }
    }
}

/// A connection string is read token by token from the left: the tokens of
/// `a`, a space and `b` are the tokens of `a` followed by those of `b`, and
/// the settings of `b` are applied over those of `a` (so a later setting of
/// a key replaces an earlier one).
pub proof fn law_dsn_reads_left_to_right(a: Seq<char>, b: Seq<char>)
    ensures
        split_ws(a + seq![' '] + b) == split_ws(a) + split_ws(b),
        dsn_settings(a + seq![' '] + b) == split_ws(b).fold_left(
            dsn_settings(a),
            |d: DsnView, t: Seq<char>| apply_token(d, t),
        ),
{
    let x = a + seq![' '];
    assert(x.drop_last() =~= a);
    assert(is_ws(' '));
    assert(scan(x).0 == split_ws(a));
    lemma_scan_after_break(x, b);
    let (sb, cb) = scan(b);
    if cb.len() > 0 {
        assert(split_ws(a) + sb.push(cb) =~= (split_ws(a) + sb).push(cb));
    }
    let all = split_ws(a) + split_ws(b);
    let f = |d: DsnView, t: Seq<char>| apply_token(d, t);
    let k = split_ws(a).len() as int;
    all.lemma_fold_left_split(no_settings(), f, k);
    assert(all.subrange(0, k) =~= split_ws(a));
    assert(all.subrange(k, all.len() as int) =~= split_ws(b));
}

/// A statement never adds, changes or removes a row of a device other
/// than its own.
pub proof fn law_statement_leaves_other_devices(db: Db, s: StatementView, d: i32)
    requires
        d != device_of(s),
    ensures
        rows_of(apply(db, s), d) == rows_of(db, d),
{
    assert(rows_of(apply(db, s), d) =~= rows_of(db, d));
}

proof fn lemma_keep_agree<K, V>(m1: Map<K, V>, m2: Map<K, V>, f: spec_fn(K) -> bool, k: K)
    requires
        keep(m1, f) == keep(m2, f),
        f(k),
    ensures
        m1.dom().contains(k) == m2.dom().contains(k),
        m1.dom().contains(k) ==> m1[k] == m2[k],
{
    assert(keep(m1, f).dom().contains(k) == m1.dom().contains(k));
    assert(keep(m2, f).dom().contains(k) == m2.dom().contains(k));
    if m1.dom().contains(k) {
        assert(keep(m1, f)[k] == m1[k]);
        assert(keep(m2, f)[k] == m2[k]);
    }
}

proof fn lemma_keep_facts<K, V>(m: Map<K, V>, f: spec_fn(K) -> bool, j: K)
    ensures
        keep(m, f).dom().contains(j) == (m.dom().contains(j) && f(j)),
        keep(m, f).dom().contains(j) ==> keep(m, f)[j] == m[j],
{
}

proof fn lemma_keep_same<K, V>(a1: Map<K, V>, a2: Map<K, V>, f: spec_fn(K) -> bool)
    requires
        forall|j: K| #[trigger] f(j) ==> a1.dom().contains(j) == a2.dom().contains(j),
        forall|j: K| #[trigger] f(j) ==> (a1.dom().contains(j) ==> a1[j] == a2[j]),
    ensures
        keep(a1, f) == keep(a2, f),
{
    assert forall|j: K| #[trigger] keep(a1, f).dom().contains(j) == keep(a2, f).dom().contains(j) by {
        lemma_keep_facts(a1, f, j);
        lemma_keep_facts(a2, f, j);
    }
    assert forall|j: K| #[trigger] keep(a1, f).dom().contains(j) implies keep(a1, f)[j] == keep(a2, f)[j] by {
        lemma_keep_facts(a1, f, j);
        lemma_keep_facts(a2, f, j);
    }
    assert(keep(a1, f) =~= keep(a2, f));
}

proof fn lemma_keep_insert<K, V>(m1: Map<K, V>, m2: Map<K, V>, f: spec_fn(K) -> bool, k: K, v: V)
    requires
        keep(m1, f) == keep(m2, f),
    ensures
        keep(m1.insert(k, v), f) == keep(m2.insert(k, v), f),
{
    assert forall|j: K| #[trigger] f(j) implies m1.insert(k, v).dom().contains(j) == m2.insert(k, v).dom().contains(j) by {
        lemma_keep_agree(m1, m2, f, j);
    }
    assert forall|j: K| #[trigger] f(j) implies (m1.insert(k, v).dom().contains(j) ==> m1.insert(k, v)[j] == m2.insert(k, v)[j]) by {
        lemma_keep_agree(m1, m2, f, j);
    }
    lemma_keep_same(m1.insert(k, v), m2.insert(k, v), f);
}

proof fn lemma_keep_remove<K, V>(m1: Map<K, V>, m2: Map<K, V>, f: spec_fn(K) -> bool, k: K)
    requires
        keep(m1, f) == keep(m2, f),
    ensures
        keep(m1.remove(k), f) == keep(m2.remove(k), f),
{
    assert forall|j: K| #[trigger] f(j) implies m1.remove(k).dom().contains(j) == m2.remove(k).dom().contains(j) by {
        lemma_keep_agree(m1, m2, f, j);
    }
    assert forall|j: K| #[trigger] f(j) implies (m1.remove(k).dom().contains(j) ==> m1.remove(k)[j] == m2.remove(k)[j]) by {
        lemma_keep_agree(m1, m2, f, j);
    }
    lemma_keep_same(m1.remove(k), m2.remove(k), f);
}

proof fn lemma_keep_remove_where<K, V>(
    m1: Map<K, V>,
    m2: Map<K, V>,
    f: spec_fn(K) -> bool,
    g1: spec_fn(K) -> bool,
    g2: spec_fn(K) -> bool,
)
    requires
        keep(m1, f) == keep(m2, f),
        forall|k: K| f(k) && m1.dom().contains(k) ==> g1(k) == g2(k),
    ensures
        keep(remove_where(m1, g1), f) == keep(remove_where(m2, g2), f),
        m1.dom().filter(|k: K| f(k) && g1(k)) == m2.dom().filter(|k: K| f(k) && g2(k)),
{
    let a1 = remove_where(m1, g1);
    let a2 = remove_where(m2, g2);
    assert forall|j: K| #[trigger] f(j) implies a1.dom().contains(j) == a2.dom().contains(j) by {
        lemma_keep_agree(m1, m2, f, j);
    }
    assert forall|j: K| #[trigger] f(j) implies (a1.dom().contains(j) ==> a1[j] == a2[j]) by {
        lemma_keep_agree(m1, m2, f, j);
    }
    lemma_keep_same(a1, a2, f);
    let s1 = m1.dom().filter(|k: K| f(k) && g1(k));
    let s2 = m2.dom().filter(|k: K| f(k) && g2(k));
    assert forall|j: K| #[trigger] s1.contains(j) == s2.contains(j) by {
        if f(j) {
            lemma_keep_agree(m1, m2, f, j);
        }
    }
    assert(s1 =~= s2);
}

/// A statement reads and changes only rows of its own device: two table
/// sets that agree on that device's rows get the same answer, and agree on
/// that device's rows afterwards.
#[verifier::spinoff_prover]
pub proof fn law_statement_reads_own_device(db1: Db, db2: Db, s: StatementView)
    requires
        rows_of(db1, device_of(s)) == rows_of(db2, device_of(s)),
    ensures
        answer(db1, s) == answer(db2, s),
        rows_of(apply(db1, s), device_of(s)) == rows_of(apply(db2, s), device_of(s)),
{
    let d = device_of(s);
    let r1 = rows_of(db1, d);
    let r2 = rows_of(db2, d);
    assert(r1.identities == r2.identities && r1.sessions == r2.sessions && r1.prekeys == r2.prekeys);
    assert(r1.signed_prekeys == r2.signed_prekeys && r1.sender_keys == r2.sender_keys);
    assert(r1.sync_keys == r2.sync_keys && r1.versions == r2.versions && r1.devices == r2.devices);
    assert(r1.mutation_macs == r2.mutation_macs && r1.sender_key_devices == r2.sender_key_devices);
    assert(r1.lid_mappings == r2.lid_mappings && r1.sent_messages == r2.sent_messages);
    assert(r1.msg_secrets == r2.msg_secrets);
    match s {
        Command::PutIdentity { address, key, device } => {
            lemma_keep_insert(db1.identities, db2.identities, on_device2(d), (address, device), key);
        },
        Command::LoadIdentity { address, device } => {
            lemma_keep_agree(db1.identities, db2.identities, on_device2(d), (address, device));
        },
        Command::DeleteIdentity { address, device } => {
            lemma_keep_remove(db1.identities, db2.identities, on_device2(d), (address, device));
        },
        Command::PutSession { address, record, device } => {
            lemma_keep_insert(db1.sessions, db2.sessions, on_device2(d), (address, device), record);
        },
        Command::GetSession { address, device } => {
            lemma_keep_agree(db1.sessions, db2.sessions, on_device2(d), (address, device));
        },
        Command::DeleteSession { address, device } => {
            lemma_keep_remove(db1.sessions, db2.sessions, on_device2(d), (address, device));
        },
        Command::StorePrekey { id, key, uploaded, device } => {
            lemma_keep_insert(db1.prekeys, db2.prekeys, on_device2(d), (id, device), (key, uploaded));
        },
        Command::LoadPrekey { id, device } => {
            lemma_keep_agree(db1.prekeys, db2.prekeys, on_device2(d), (id, device));
        },
        Command::RemovePrekey { id, device } => {
            lemma_keep_remove(db1.prekeys, db2.prekeys, on_device2(d), (id, device));
        },
        Command::MaxPrekeyId { device } => {
            assert forall|k: (i32, i32)| (#[trigger] on_device2::<i32>(d)(k)) implies db1.prekeys.dom().contains(k) == db2.prekeys.dom().contains(k) by {
                lemma_keep_agree(db1.prekeys, db2.prekeys, on_device2(d), k);
            }
            assert(db1.prekeys.dom().filter(of_device(d)) =~= db2.prekeys.dom().filter(of_device(d)));
            assert(prekey_ids(db1, d) =~= prekey_ids(db2, d));
        },
        Command::StoreSignedPrekey { id, record, device } => {
            lemma_keep_insert(db1.signed_prekeys, db2.signed_prekeys, on_device2(d), (id, device), record);
        },
        Command::LoadSignedPrekey { id, device } => {
            lemma_keep_agree(db1.signed_prekeys, db2.signed_prekeys, on_device2(d), (id, device));
        },
        Command::RemoveSignedPrekey { id, device } => {
            lemma_keep_remove(db1.signed_prekeys, db2.signed_prekeys, on_device2(d), (id, device));
        },
        Command::PutSenderKey { address, record, device } => {
            lemma_keep_insert(db1.sender_keys, db2.sender_keys, on_device2(d), (address, device), record);
        },
        Command::GetSenderKey { address, device } => {
            lemma_keep_agree(db1.sender_keys, db2.sender_keys, on_device2(d), (address, device));
        },
        Command::DeleteSenderKey { address, device } => {
            lemma_keep_remove(db1.sender_keys, db2.sender_keys, on_device2(d), (address, device));
        },
        Command::GetSyncKey { key_id, device } => {
            lemma_keep_agree(db1.sync_keys, db2.sync_keys, on_device2(d), (key_id, device));
        },
        Command::SetSyncKey { key_id, key_data, device } => {
            lemma_keep_insert(db1.sync_keys, db2.sync_keys, on_device2(d), (key_id, device), key_data);
        },
        Command::GetVersion { name, device } => {
            lemma_keep_agree(db1.versions, db2.versions, on_device2(d), (name, device));
        },
        Command::SetVersion { name, state, device } => {
            lemma_keep_insert(db1.versions, db2.versions, on_device2(d), (name, device), state);
        },
        Command::LatestSyncKeyId { device } => {
            assert forall|id: Seq<u8>| #[trigger] sync_key_ids(db1, d).contains(id) == sync_key_ids(db2, d).contains(id) by {
                lemma_keep_agree(db1.sync_keys, db2.sync_keys, on_device2(d), (id, d));
            }
            assert(sync_key_ids(db1, d) =~= sync_key_ids(db2, d));
        },
        Command::SaveDevice { device, noise_key } => {
            lemma_keep_insert(db1.devices, db2.devices, is_device(d), device, Some(noise_key));
        },
        Command::LoadDevice { device } => {
            lemma_keep_agree(db1.devices, db2.devices, is_device(d), device);
        },
        Command::CountDevice { device } => {
            lemma_keep_agree(db1.devices, db2.devices, is_device(d), device);
        },
        Command::CreateDevice { device } => {
            lemma_keep_agree(db1.devices, db2.devices, is_device(d), device);
            lemma_keep_insert(db1.devices, db2.devices, is_device(d), device, None::<Seq<u8>>);
        },
        Command::PutMutationMac { name, version, index_mac, value_mac, device } => {
            lemma_keep_insert(db1.mutation_macs, db2.mutation_macs, on_device3(d), (name, index_mac, device), (version, value_mac));
        },
        Command::GetMutationMac { name, index_mac, device } => {
            lemma_keep_agree(db1.mutation_macs, db2.mutation_macs, on_device3(d), (name, index_mac, device));
        },
        Command::DeleteMutationMac { name, index_mac, device } => {
            lemma_keep_remove(db1.mutation_macs, db2.mutation_macs, on_device3(d), (name, index_mac, device));
        },
        Command::GetSenderKeyDevices { group, device } => {
            if let Answer::Members(m1) = answer(db1, s) {
                if let Answer::Members(m2) = answer(db2, s) {
                    assert forall|r: (Seq<char>, i32)| #[trigger] m1.contains(r) == m2.contains(r) by {
                        lemma_keep_agree(db1.sender_key_devices, db2.sender_key_devices, on_device3(d), (group, r.0, d));
                    }
                    assert(m1 =~= m2);
                }
            }
        },
        Command::SetSenderKeyStatus { group, member, has_key, device, updated_at } => {
            lemma_keep_insert(db1.sender_key_devices, db2.sender_key_devices, on_device3(d), (group, member, device), (has_key, updated_at));
        },
        Command::ClearSenderKeyDevices { group, device } => {
            lemma_keep_remove_where(
                db1.sender_key_devices,
                db2.sender_key_devices,
                on_device3(d),
                |k: (Seq<char>, Seq<char>, i32)| k.0 == group && k.2 == device,
                |k: (Seq<char>, Seq<char>, i32)| k.0 == group && k.2 == device,
            );
        },
        Command::ClearAllSenderKeyDevices { device } => {
            lemma_keep_remove_where(
                db1.sender_key_devices,
                db2.sender_key_devices,
                on_device3(d),
                |k: (Seq<char>, Seq<char>, i32)| k.2 == device,
                |k: (Seq<char>, Seq<char>, i32)| k.2 == device,
            );
        },
        Command::GetLidMapping { lid, device } => {
            lemma_keep_agree(db1.lid_mappings, db2.lid_mappings, on_device2(d), (lid, device));
        },
        Command::PutLidMapping { lid, phone_number, created_at, learning_source, updated_at, device } => {
            lemma_keep_agree(db1.lid_mappings, db2.lid_mappings, on_device2(d), (lid, device));
            let created = if db1.lid_mappings.dom().contains((lid, device)) {
                db1.lid_mappings[(lid, device)].created_at
            } else {
                created_at
            };
            lemma_keep_insert(db1.lid_mappings, db2.lid_mappings, on_device2(d), (lid, device), LidRow { phone_number, created_at: created, learning_source, updated_at });
        },
        Command::StoreSentMessage { chat, message_id, payload, device, created_at } => {
            lemma_keep_insert(db1.sent_messages, db2.sent_messages, on_device3(d), (chat, message_id, device), (payload, created_at));
        },
        Command::TakeSentMessage { chat, message_id, device } => {
            lemma_keep_agree(db1.sent_messages, db2.sent_messages, on_device3(d), (chat, message_id, device));
            lemma_keep_remove(db1.sent_messages, db2.sent_messages, on_device3(d), (chat, message_id, device));
        },
        Command::PutMsgSecret { chat, sender, msg_id, secret, device, created_at, expires_at, message_ts } => {
            lemma_keep_agree(db1.msg_secrets, db2.msg_secrets, on_device4(d), (chat, sender, msg_id, device));
            let key = (chat, sender, msg_id, device);
            let new = SecretRow { secret, created_at, expires_at, message_ts };
            let row = if db1.msg_secrets.dom().contains(key) {
                merge_secret(db1.msg_secrets[key], new)
            } else {
                new
            };
            lemma_keep_insert(db1.msg_secrets, db2.msg_secrets, on_device4(d), key, row);
        },
        Command::GetMsgSecret { chat, sender, msg_id, device } => {
            lemma_keep_agree(db1.msg_secrets, db2.msg_secrets, on_device4(d), (chat, sender, msg_id, device));
        },
        Command::GetMsgSecretWithTs { chat, sender, msg_id, device } => {
            lemma_keep_agree(db1.msg_secrets, db2.msg_secrets, on_device4(d), (chat, sender, msg_id, device));
        },
        Command::DeleteExpiredMsgSecrets { cutoff, device } => {
            let g1 = |k: (Seq<char>, Seq<char>, Seq<char>, i32)| k.3 == device && expired(db1.msg_secrets[k], cutoff);
            let g2 = |k: (Seq<char>, Seq<char>, Seq<char>, i32)| k.3 == device && expired(db2.msg_secrets[k], cutoff);
            assert forall|k: (Seq<char>, Seq<char>, Seq<char>, i32)| (#[trigger] on_device4::<Seq<char>, Seq<char>, Seq<char>>(d)(k)) && db1.msg_secrets.dom().contains(k) implies g1(k) == g2(k) by {
                lemma_keep_agree(db1.msg_secrets, db2.msg_secrets, on_device4(d), k);
            }
            lemma_keep_remove_where(db1.msg_secrets, db2.msg_secrets, on_device4(d), g1, g2);
            assert(db1.msg_secrets.dom().filter(g1) =~= db1.msg_secrets.dom().filter(|k: (Seq<char>, Seq<char>, Seq<char>, i32)| on_device4::<Seq<char>, Seq<char>, Seq<char>>(d)(k) && g1(k)));
            assert(db2.msg_secrets.dom().filter(g2) =~= db2.msg_secrets.dom().filter(|k: (Seq<char>, Seq<char>, Seq<char>, i32)| on_device4::<Seq<char>, Seq<char>, Seq<char>>(d)(k) && g2(k)));
        },
    }
    assert(rows_of(apply(db1, s), d) =~= rows_of(apply(db2, s), d));
}

/// Whether entry `i` of a list of statuses is the last one for its member.
pub open spec fn is_last(entries: Seq<(Seq<char>, bool)>, i: int) -> bool {
    &&& 0 <= i < entries.len()
    &&& forall|k: int| i < k < entries.len() ==> #[trigger] entries[k].0 != entries[i].0
}

/// The `(member, has_key)` rows a list of statuses leaves in a group that
/// had none: each member with its last status.
pub open spec fn last_statuses(entries: Seq<(Seq<char>, bool)>) -> Set<(Seq<char>, i32)> {
    Set::new(
        |r: (Seq<char>, i32)|
            exists|i: int| #[trigger] is_last(entries, i) && r == (entries[i].0, flag_value(entries[i].1)),
    )
}

/// The `(member, has_key)` pairs of sender-key device rows, a flag other
/// than zero reading as `true`, as the reply lists them.
pub open spec fn status_pairs(rows: Seq<(Seq<char>, i32)>) -> Seq<(Seq<char>, bool)> {
    rows.map_values(|r: (Seq<char>, i32)| (r.0, r.1 != 0))
}

/// What the sender-key device query of `group` answers after the writes
/// of a status call.
pub open spec fn status_answer(store: PgStore, db: Db, args: JsonValue, now: i64) -> Answer {
    let group = args.field("group_jid"@).text_or_empty();
    let writes = dispatch_spec(opcode::SET_SENDER_KEY_STATUS, args, store.device(), now).0;
    answer(apply_all(db, writes), Command::GetSenderKeyDevices { group, device: store.device() })
}

proof fn lemma_status_rows_come_from_entries(
    db: Db,
    writes: Seq<StatementView>,
    entries: Seq<(Seq<char>, bool)>,
    group: Seq<char>,
    device: i32,
    now: i64,
    n: int,
    m: Seq<char>,
)
    requires
        writes.len() == entries.len(),
        forall|j: int|
            0 <= j < entries.len() ==> #[trigger] writes[j] == (StatementView::SetSenderKeyStatus {
                group,
                member: entries[j].0,
                has_key: flag_value(entries[j].1),
                device,
                updated_at: now,
            }),
        0 <= n <= entries.len(),
        !db.sender_key_devices.dom().contains((group, m, device)),
        apply_all(db, writes.take(n)).sender_key_devices.dom().contains((group, m, device)),
    ensures
        exists|i: int|
            0 <= i < n && entries[i].0 == m && (forall|k: int| i < k < n ==> #[trigger] entries[k].0 != m)
                && apply_all(db, writes.take(n)).sender_key_devices[(group, m, device)] == (
                flag_value(entries[i].1),
                now,
            ),
    decreases n,
{
    if n == 0 {
        assert(writes.take(0) =~= Seq::<StatementView>::empty());
        assert(apply_all(db, writes.take(0)) == db);
    } else {
        lemma_apply_all_step(db, writes, n);
        assert(writes[n - 1] == (StatementView::SetSenderKeyStatus {
            group,
            member: entries[n - 1].0,
            has_key: flag_value(entries[n - 1].1),
            device,
            updated_at: now,
        }));
        if entries[n - 1].0 == m {
            assert(forall|k: int| n - 1 < k < n ==> #[trigger] entries[k].0 != m);
        } else {
            lemma_status_rows_come_from_entries(db, writes, entries, group, device, now, n - 1, m);
            let i = choose|i: int|
                0 <= i < n - 1 && entries[i].0 == m && (forall|k: int| i < k < n - 1 ==> #[trigger] entries[k].0 != m)
                    && apply_all(db, writes.take(n - 1)).sender_key_devices[(group, m, device)] == (
                    flag_value(entries[i].1),
                    now,
                );
            assert(forall|k: int| i < k < n ==> #[trigger] entries[k].0 != m);
        }
    }
}

/// Statuses set by one call, in a group that had no rows, read back as
/// exactly each member's last status. Where the database hands back those
/// rows each once, their members are distinct and their `(member, flag)`
/// pairs, the pairs of the reply, are the members' last statuses.
pub proof fn law_sender_key_status_reads_back(
    store: PgStore,
    db: Db,
    args: JsonValue,
    now: i64,
    rows: Seq<(Seq<char>, i32)>,
)
    requires
        args.field("entries"@).flag_pairs() is Some,
        forall|m: Seq<char>|
            !#[trigger] db.sender_key_devices.dom().contains((args.field("group_jid"@).text_or_empty(), m, store.device())),
        rows.no_duplicates(),
        status_answer(store, db, args, now) == Answer::Members(rows.to_set()),
    ensures
        status_answer(store, db, args, now) == Answer::Members(last_statuses(args.field("entries"@).flag_pairs()->0)),
        forall|a: int, b: int| 0 <= a < b < rows.len() ==> #[trigger] rows[a].0 != #[trigger] rows[b].0,
        forall|j: Seq<char>, h: bool|
            #[trigger] status_pairs(rows).contains((j, h)) <==> exists|i: int|
                #[trigger] is_last(args.field("entries"@).flag_pairs()->0, i) && args.field("entries"@).flag_pairs()->0[i] == (j, h),
{
    let entries = args.field("entries"@).flag_pairs()->0;
    let group = args.field("group_jid"@).text_or_empty();
    let d = store.device();
    let writes = dispatch_spec(opcode::SET_SENDER_KEY_STATUS, args, d, now).0;
    let after = apply_all(db, writes);
    assert forall|j: int| 0 <= j < entries.len() implies #[trigger] writes[j] == (
    StatementView::SetSenderKeyStatus {
        group,
        member: entries[j].0,
        has_key: flag_value(entries[j].1),
        device: d,
        updated_at: now,
    }) by {}
    assert(writes.take(entries.len() as int) =~= writes);
    let got = Set::new(
        |r: (Seq<char>, i32)|
            after.sender_key_devices.dom().contains((group, r.0, d)) && after.sender_key_devices[(group, r.0, d)].0
                == r.1,
    );
    assert(status_answer(store, db, args, now) == Answer::Members(got));
    assert forall|r: (Seq<char>, i32)| got.contains(r) implies #[trigger] last_statuses(entries).contains(r) by {
        lemma_status_rows_come_from_entries(db, writes, entries, group, d, now, entries.len() as int, r.0);
        let i = choose|i: int|
            0 <= i < entries.len() && entries[i].0 == r.0 && (forall|k: int| i < k < entries.len() ==> #[trigger] entries[k].0 != r.0)
                && apply_all(db, writes.take(entries.len() as int)).sender_key_devices[(group, r.0, d)] == (
                flag_value(entries[i].1),
                now,
            );
        assert(is_last(entries, i));
    }
    assert forall|r: (Seq<char>, i32)| last_statuses(entries).contains(r) implies #[trigger] got.contains(r) by {
        let i = choose|i: int| #[trigger] is_last(entries, i) && r == (entries[i].0, flag_value(entries[i].1));
        lemma_status_writes(db, writes, entries, group, d, now, i, entries.len() as int);
    }
    assert(got =~= last_statuses(entries));
    let set = rows.to_set();
    assert(set == last_statuses(entries));
    assert forall|a: int, b: int| 0 <= a < b < rows.len() implies #[trigger] rows[a].0 != #[trigger] rows[b].0 by {
        if rows[a].0 == rows[b].0 {
            assert(set.contains(rows[a]));
            assert(set.contains(rows[b]));
            let ia = choose|i: int| #[trigger] is_last(entries, i) && rows[a] == (entries[i].0, flag_value(entries[i].1));
            let ib = choose|i: int| #[trigger] is_last(entries, i) && rows[b] == (entries[i].0, flag_value(entries[i].1));
            if ia < ib {
                assert(entries[ib].0 != entries[ia].0);
            } else if ib < ia {
                assert(entries[ia].0 != entries[ib].0);
            }
            assert(rows[a] == rows[b]);
        }
    }
    let pairs = status_pairs(rows);
    assert forall|j: Seq<char>, h: bool| #[trigger] pairs.contains((j, h)) implies exists|i: int|
        #[trigger] is_last(entries, i) && entries[i] == (j, h) by {
        let x = choose|x: int| 0 <= x < pairs.len() && pairs[x] == (j, h);
        assert(set.contains(rows[x]));
        let i = choose|i: int| #[trigger] is_last(entries, i) && rows[x] == (entries[i].0, flag_value(entries[i].1));
        assert(entries[i] == (j, h));
    }
    assert forall|j: Seq<char>, h: bool| (exists|i: int| #[trigger] is_last(entries, i) && entries[i] == (j, h)) implies #[trigger] pairs.contains((j, h)) by {
        let i = choose|i: int| #[trigger] is_last(entries, i) && entries[i] == (j, h);
        assert(last_statuses(entries).contains((entries[i].0, flag_value(entries[i].1))));
        assert(set.contains((entries[i].0, flag_value(entries[i].1))));
        let x = choose|x: int| 0 <= x < rows.len() && rows[x] == (entries[i].0, flag_value(entries[i].1));
        assert(pairs[x] == (j, h));
    }
}

/// The reply text the generic call gives for what its query answers,
/// where the answer is at most one row or a number (the rows of a group's
/// sender-key devices come in an order the tables do not fix).
pub open spec fn answer_reply(a: Answer) -> Option<Seq<u8>> {
    match a {
        Answer::Row(Some(b)) => Some(json_document(bytes_view(b))),
        Answer::Lid(Some(r)) => Some(json_document(lid_mapping_view(r.0, r.1, r.2, r.3, r.4))),
        Answer::SecretWithTs(Some(r)) => Some(json_document(secret_with_ts_view(r.0, r.1))),
        Answer::Number(n) => Some(json_document(JsonView::PosInt(((n as i64) as u32) as u64))),
        _ => None,
    }
}

/// The one entry of a call that puts a single message secret.
pub open spec fn only_entry(args: JsonValue) -> JsonValue {
    args.field("entries"@)->Array_0@[0]
}

proof fn lemma_apply_all_one(db: Db, w: StatementView)
    ensures
        apply_all(db, seq![w]) == apply(db, w),
{
    lemma_apply_all_step(db, seq![w], 1);
    assert(seq![w].take(1) =~= seq![w]);
    assert(seq![w].take(0) =~= Seq::<StatementView>::empty());
}

/// A message secret put by one call reads back through the secret-with-time
/// call as the secret given, with the later of the stored and the given
/// message times; the expiry kept is zero where either is zero and the
/// later one otherwise. The put call replies the count `1`.
pub proof fn law_merged_secret_reads_back(store: PgStore, db: Db, put: JsonValue, get: JsonValue, now: i64, later: i64)
    requires
        put.field("entries"@) is Array,
        put.field("entries"@)->Array_0@.len() == 1,
        crate::dispatch::secret_entry_ok(only_entry(put)),
        get.field("chat"@).text_or_empty() == only_entry(put).field("chat"@).text_or_empty(),
        get.field("sender"@).text_or_empty() == only_entry(put).field("sender"@).text_or_empty(),
        get.field("msg_id"@).text_or_empty() == only_entry(put).field("msg_id"@).text_or_empty(),
    ensures
        ({
            let d = store.device();
            let e = only_entry(put);
            let (chat, sender, msg_id) = secret_key(e);
            let key = (chat, sender, msg_id, d);
            let secret = e.field("secret"@).bytes()->0;
            let x1 = int_or_zero(e.field("expires_at"@));
            let m1 = int_or_zero(e.field("message_ts"@));
            let (writes, end) = dispatch_spec(opcode::PUT_MSG_SECRETS, put, d, now);
            let after = apply_all(db, writes);
            let q = Command::GetMsgSecretWithTs { chat, sender, msg_id, device: d };
            let ts = if db.msg_secrets.dom().contains(key) && db.msg_secrets[key].message_ts > m1 {
                db.msg_secrets[key].message_ts
            } else {
                m1
            };
            let x0 = db.msg_secrets[key].expires_at;
            &&& end == Finish::<StatementView, Seq<u8>>::Done(Some(json_document(int_view(1))))
            &&& dispatch_spec(opcode::GET_MSG_SECRET_WITH_TS, get, d, later) == (
                Seq::<StatementView>::empty(),
                Finish::<StatementView, Seq<u8>>::Query(q),
            )
            &&& answer(after, q) == Answer::SecretWithTs(Some((secret, ts)))
            &&& answer_reply(answer(after, q)) == Some(json_document(secret_with_ts_view(secret, ts)))
            &&& after.msg_secrets[key].expires_at == if !db.msg_secrets.dom().contains(key) {
                x1
            } else if x0 == 0 || x1 == 0 {
                0
            } else if x0 >= x1 {
                x0
            } else {
                x1
            }
        }),
{
    reveal_with_fuel(ok_prefix_len, 2);
    let entries = put.field("entries"@)->Array_0@;
    let d = store.device();
    let e = only_entry(put);
    assert(crate::dispatch::secret_ok_fn()(entries[0]));
    assert(entries.drop_first().len() == 0);
    assert(ok_prefix_len(entries, crate::dispatch::secret_ok_fn()) == 1);
    let writes = dispatch_spec(opcode::PUT_MSG_SECRETS, put, d, now).0;
    assert(entries.take(1) =~= seq![e]);
    assert(writes =~= seq![secret_entry_write(d, now, e)]);
    lemma_apply_all_one(db, secret_entry_write(d, now, e));
}

/// A LID mapping stored by two calls, where none was stored before, reads
/// back through the mapping call with the first call's creation time and
/// everything else from the second call.
pub proof fn law_lid_mapping_two_puts(store: PgStore, db: Db, first: JsonValue, second: JsonValue, get: JsonValue, now: i64)
    requires
        second.field("lid"@).text_or_empty() == first.field("lid"@).text_or_empty(),
        get.field("lid"@).text_or_empty() == first.field("lid"@).text_or_empty(),
        !db.lid_mappings.dom().contains((first.field("lid"@).text_or_empty(), store.device())),
    ensures
        ({
            let d = store.device();
            let lid = first.field("lid"@).text_or_empty();
            let (w1, end1) = dispatch_spec(opcode::PUT_LID_MAPPING, first, d, now);
            let (w2, end2) = dispatch_spec(opcode::PUT_LID_MAPPING, second, d, now);
            let after = apply_all(apply_all(db, w1), w2);
            let q = Command::GetLidMapping { lid, device: d };
            let expected = (
                lid,
                second.field("phone_number"@).text_or_empty(),
                int_or_zero(first.field("created_at"@)),
                second.field("learning_source"@).text_or_empty(),
                int_or_zero(second.field("updated_at"@)),
            );
            &&& end1 == Finish::<StatementView, Seq<u8>>::Done(None)
            &&& end2 == Finish::<StatementView, Seq<u8>>::Done(None)
            &&& dispatch_spec(opcode::GET_LID_MAPPING, get, d, now) == (
                Seq::<StatementView>::empty(),
                Finish::<StatementView, Seq<u8>>::Query(q),
            )
            &&& answer(after, q) == Answer::Lid(Some(expected))
            &&& answer_reply(answer(after, q)) == Some(
                json_document(lid_mapping_view(expected.0, expected.1, expected.2, expected.3, expected.4)),
            )
        }),
{
    let d = store.device();
    let w1 = dispatch_spec(opcode::PUT_LID_MAPPING, first, d, now).0;
    let w2 = dispatch_spec(opcode::PUT_LID_MAPPING, second, d, now).0;
    lemma_apply_all_one(db, w1[0]);
    assert(w1 =~= seq![w1[0]]);
    lemma_apply_all_one(apply_all(db, w1), w2[0]);
    assert(w2 =~= seq![w2[0]]);
}

/// Statements all scoped to the store's device, sent in order, leave the
/// rows of every other device as they were.
pub proof fn law_statements_leave_other_devices(store: PgStore, db: Db, ss: Seq<StatementView>, other: i32)
    requires
        other != store.device(),
        forall|i: int| 0 <= i < ss.len() ==> device_of(#[trigger] ss[i]) == store.device(),
    ensures
        rows_of(apply_all(db, ss), other) == rows_of(db, other),
    decreases ss.len(),
{
    if ss.len() == 0 {
        assert(apply_all(db, ss) == db);
    } else {
        let n = ss.len() as int;
        law_statements_leave_other_devices(store, db, ss.drop_last(), other);
        lemma_apply_all_step(db, ss, n);
        assert(ss.take(n) =~= ss);
        assert(ss.take(n - 1) =~= ss.drop_last());
        law_statement_leaves_other_devices(apply_all(db, ss.drop_last()), ss[n - 1], other);
    }
}

/// Every generic call of a store leaves the rows of every other device as
/// they were, and its query answers the same on any tables that hold the
/// same rows of the store's own device.
pub proof fn law_call_stays_on_device(store: PgStore, db: Db, op: u32, args: JsonValue, now: i64, other: i32)
    requires
        other != store.device(),
    ensures
        ({
            let (writes, finish) = dispatch_spec(op, args, store.device(), now);
            let after = apply_all(db, writes);
            &&& rows_of(after, other) == rows_of(db, other)
            &&& forall|tables: Db|
                #[trigger] rows_of(tables, store.device()) == rows_of(after, store.device()) ==> (
                finish matches Finish::Query(q) ==> answer(tables, q) == answer(after, q))
        }),
{
    let (writes, finish) = dispatch_spec(op, args, store.device(), now);
    let after = apply_all(db, writes);
    law_dispatch_scoped_to_device(store, op, args, now);
    law_statements_leave_other_devices(store, db, writes, other);
    assert forall|tables: Db|
        #[trigger] rows_of(tables, store.device()) == rows_of(after, store.device()) implies (
        finish matches Finish::Query(q) ==> answer(tables, q) == answer(after, q)) by {
        if let Finish::Query(q) = finish {
            law_statement_reads_own_device(tables, after, q);
        }
    }
}

/// An identity key written through the store and read back crosses the C
/// boundary as status `0` with an output buffer that holds the key given,
/// an empty key as an empty buffer.
pub proof fn law_identity_round_trip_at_boundary(store: PgStore, db: Db, addr: Seq<char>, key: Seq<u8>)
    ensures
        ({
            let d = store.device();
            let stored = apply(db, Command::PutIdentity { address: addr, key, device: d });
            answer(stored, Command::LoadIdentity { address: addr, device: d }) matches Answer::Row(found)
                && lookup_status(Some(found)) == (0i32, Some(Some(key)))
        }),
{
}

/// The views of a group's `(member, has_key)` rows.
pub open spec fn member_rows(m: Seq<(String, i32)>) -> Seq<(Seq<char>, i32)> {
    m.map_values(|r: (String, i32)| (r.0@, r.1))
}

/// The rows a query gave, as the tables' answer.
pub open spec fn rows_answer(rows: QueryRows) -> Answer {
    match rows {
        QueryRows::Members(m) => Answer::Members(member_rows(m@).to_set()),
        QueryRows::LidMapping(Some(x)) => Answer::Lid(
            Some((x.lid@, x.phone_number@, x.created_at, x.learning_source@, x.updated_at)),
        ),
        QueryRows::LidMapping(None) => Answer::Lid(None),
        QueryRows::SecretWithTs(Some(x)) => Answer::SecretWithTs(Some((x.0@, x.1))),
        QueryRows::SecretWithTs(None) => Answer::SecretWithTs(None),
        QueryRows::Count(n) => Answer::Number(n as int),
        QueryRows::Bytes(Some(b)) => Answer::Row(Some(b@)),
        QueryRows::Bytes(None) => Answer::Row(None),
    }
}

/// The reply the generic call builds from the rows of a query that gives at
/// most one row or a number is the reply of what the tables answer.
pub proof fn law_reply_follows_answer(rows: QueryRows)
    requires
        !(rows is Members),
    ensures
        rows_reply(rows) == answer_reply(rows_answer(rows)),
{
}

proof fn lemma_ok_prefix_all(items: Seq<JsonValue>, ok: spec_fn(JsonValue) -> bool)
    requires
        forall|j: int| 0 <= j < items.len() ==> #[trigger] ok(items[j]),
    ensures
        ok_prefix_len(items, ok) == items.len(),
    decreases items.len(),
{
    if items.len() > 0 {
        assert(ok(items[0]));
        assert forall|j: int| 0 <= j < items.drop_first().len() implies #[trigger] ok(items.drop_first()[j]) by {
            assert(ok(items[j + 1]));
        }
        lemma_ok_prefix_all(items.drop_first(), ok);
    }
}

/// A message-secret call whose entries all give their secret as an array
/// of bytes, whatever its length, stores one secret per entry, in order,
/// with exactly the bytes given, and replies the number of entries.
pub proof fn law_msg_secrets_all_stored(store: PgStore, args: JsonValue, now: i64)
    requires
        args.field("entries"@) is Array,
        forall|i: int|
            0 <= i < args.field("entries"@)->Array_0@.len() ==> #[trigger] args.field(
                "entries"@,
            )->Array_0@[i].field("secret"@).bytes() is Some,
    ensures
        ({
            let entries = args.field("entries"@)->Array_0@;
            let d = store.device();
            let (writes, end) = dispatch_spec(opcode::PUT_MSG_SECRETS, args, d, now);
            &&& writes.len() == entries.len()
            &&& forall|i: int|
                0 <= i < entries.len() ==> #[trigger] writes[i] == (StatementView::PutMsgSecret {
                    chat: entries[i].field("chat"@).text_or_empty(),
                    sender: entries[i].field("sender"@).text_or_empty(),
                    msg_id: entries[i].field("msg_id"@).text_or_empty(),
                    secret: entries[i].field("secret"@).bytes()->0,
                    device: d,
                    created_at: now,
                    expires_at: int_or_zero(entries[i].field("expires_at"@)),
                    message_ts: int_or_zero(entries[i].field("message_ts"@)),
                })
            &&& end == Finish::<StatementView, Seq<u8>>::Done(Some(json_document(int_view(entries.len() as i64))))
        }),
{
    let entries = args.field("entries"@)->Array_0@;
    assert forall|j: int| 0 <= j < entries.len() implies #[trigger] secret_ok_fn()(entries[j]) by {
        assert(entries[j].field("secret"@).bytes() is Some);
    }
    lemma_ok_prefix_all(entries, secret_ok_fn());
    assert(entries.take(entries.len() as int) =~= entries);
}

/// Secrets stored by one call, whatever their length, read back through
/// the store: the last entry for a message gives its bytes.
pub proof fn law_msg_secret_call_round_trip(store: PgStore, db: Db, args: JsonValue, now: i64, i: int)
    requires
        args.field("entries"@) is Array,
        forall|j: int|
            0 <= j < args.field("entries"@)->Array_0@.len() ==> #[trigger] args.field(
                "entries"@,
            )->Array_0@[j].field("secret"@).bytes() is Some,
        0 <= i < args.field("entries"@)->Array_0@.len(),
        forall|j: int|
            i < j < args.field("entries"@)->Array_0@.len() ==> #[trigger] secret_key(
                args.field("entries"@)->Array_0@[j],
            ) != secret_key(args.field("entries"@)->Array_0@[i]),
    ensures
        ({
            let e = args.field("entries"@)->Array_0@[i];
            let (chat, sender, msg_id) = secret_key(e);
            let writes = dispatch_spec(opcode::PUT_MSG_SECRETS, args, store.device(), now).0;
            answer(
                apply_all(db, writes),
                Command::GetMsgSecret { chat, sender, msg_id, device: store.device() },
            ) == Answer::Row(Some(e.field("secret"@).bytes()->0))
        }),
{
    let entries = args.field("entries"@)->Array_0@;
    assert forall|j: int| 0 <= j < entries.len() implies #[trigger] secret_ok_fn()(entries[j]) by {
        assert(entries[j].field("secret"@).bytes() is Some);
    }
    lemma_ok_prefix_all(entries, secret_ok_fn());
    law_msg_secrets_visible(store, db, args, now, i);
}

/// A mutation-MAC call whose entries all give both MACs as arrays of
/// bytes, whatever their length, writes one MAC per entry, in order, with
/// exactly the bytes given, and replies nothing.
pub proof fn law_mutation_macs_all_written(store: PgStore, args: JsonValue, now: i64)
    requires
        args.field("macs"@) is Array,
        forall|i: int|
            0 <= i < args.field("macs"@)->Array_0@.len() ==> (#[trigger] args.field("macs"@)->Array_0@[i]).field(
                "index_mac"@,
            ).bytes() is Some && args.field("macs"@)->Array_0@[i].field("value_mac"@).bytes() is Some,
    ensures
        ({
            let macs = args.field("macs"@)->Array_0@;
            let d = store.device();
            let (writes, end) = dispatch_spec(opcode::PUT_MUTATION_MACS, args, d, now);
            &&& writes.len() == macs.len()
            &&& forall|i: int|
                0 <= i < macs.len() ==> #[trigger] writes[i] == (StatementView::PutMutationMac {
                    name: args.field("name"@).text_or_empty(),
                    version: int_or_zero(args.field("version"@)),
                    index_mac: macs[i].field("index_mac"@).bytes()->0,
                    value_mac: macs[i].field("value_mac"@).bytes()->0,
                    device: d,
                })
            &&& end == Finish::<StatementView, Seq<u8>>::Done(None)
        }),
{
    let macs = args.field("macs"@)->Array_0@;
    assert forall|j: int| 0 <= j < macs.len() implies #[trigger] mac_ok_fn()(macs[j]) by {
        assert(macs[j].field("index_mac"@).bytes() is Some);
    }
    lemma_ok_prefix_all(macs, mac_ok_fn());
    assert(macs.take(macs.len() as int) =~= macs);
}

/// MACs written by one call, whatever their length, read back through the
/// store: the last entry for an index MAC gives its value MAC.
pub proof fn law_mutation_mac_call_round_trip(store: PgStore, db: Db, args: JsonValue, now: i64, i: int)
    requires
        args.field("macs"@) is Array,
        forall|j: int|
            0 <= j < args.field("macs"@)->Array_0@.len() ==> (#[trigger] args.field("macs"@)->Array_0@[j]).field(
                "index_mac"@,
            ).bytes() is Some && args.field("macs"@)->Array_0@[j].field("value_mac"@).bytes() is Some,
        0 <= i < args.field("macs"@)->Array_0@.len(),
        forall|j: int|
            i < j < args.field("macs"@)->Array_0@.len() ==> #[trigger] args.field("macs"@)->Array_0@[j].field(
                "index_mac"@,
            ).bytes() != args.field("macs"@)->Array_0@[i].field("index_mac"@).bytes(),
    ensures
        ({
            let m = args.field("macs"@)->Array_0@[i];
            let name = args.field("name"@).text_or_empty();
            let writes = dispatch_spec(opcode::PUT_MUTATION_MACS, args, store.device(), now).0;
            answer(
                apply_all(db, writes),
                Command::GetMutationMac {
                    name,
                    index_mac: m.field("index_mac"@).bytes()->0,
                    device: store.device(),
                },
            ) == Answer::Row(Some(m.field("value_mac"@).bytes()->0))
        }),
{
    let macs = args.field("macs"@)->Array_0@;
    assert forall|j: int| 0 <= j < macs.len() implies #[trigger] mac_ok_fn()(macs[j]) by {
        assert(macs[j].field("index_mac"@).bytes() is Some);
    }
    lemma_ok_prefix_all(macs, mac_ok_fn());
    law_mutation_macs_visible(store, db, args, now, i);
}

/// A sent message whose payload is an array of bytes, whatever its
/// length, is stored by the call with exactly those bytes, and taking it
/// through the call gives them back, once.
pub proof fn law_sent_message_call_round_trip(store: PgStore, db: Db, args: JsonValue, now: i64)
    requires
        args.field("payload"@).bytes() is Some,
    ensures
        ({
            let d = store.device();
            let chat = args.field("chat_jid"@).text_or_empty();
            let message_id = args.field("message_id"@).text_or_empty();
            let payload = args.field("payload"@).bytes()->0;
            let (writes, end) = dispatch_spec(opcode::STORE_SENT_MESSAGE, args, d, now);
            let take = Command::TakeSentMessage { chat, message_id, device: d };
            let stored = apply_all(db, writes);
            &&& writes == seq![
                StatementView::StoreSentMessage { chat, message_id, payload, device: d, created_at: now },
            ]
            &&& end == Finish::<StatementView, Seq<u8>>::Done(None)
            &&& dispatch_spec(opcode::TAKE_SENT_MESSAGE, args, d, now) == (
                Seq::<StatementView>::empty(),
                Finish::<StatementView, Seq<u8>>::Query(take),
            )
            &&& answer(stored, take) == Answer::Row(Some(payload))
            &&& answer(apply(stored, take), take) == Answer::Row(None)
        }),
{
    let d = store.device();
    let writes = dispatch_spec(opcode::STORE_SENT_MESSAGE, args, d, now).0;
    lemma_apply_all_one(db, writes[0]);
}

/// The reply to the sender-key device query lists one `[member, has_key]`
/// pair for every row the query gave, in the order of the rows, the flag
/// being `true` exactly when the row's flag is not zero.
pub proof fn law_member_reply_lists_every_row(rows: Seq<(String, i32)>)
    ensures
        flag_list_view(device_flags(rows)) is Array,
        flag_list_view(device_flags(rows))->Array_0.len() == rows.len(),
        forall|i: int|
            0 <= i < rows.len() ==> #[trigger] flag_list_view(device_flags(rows))->Array_0[i] == JsonView::Array(
                seq![JsonView::Str(rows[i].0@), JsonView::Bool(rows[i].1 != 0)],
            ),
{
}

/// The reply the generic call builds from a group's rows lists, up to
/// order, exactly the `(member, has_key)` rows the tables answer, each as
/// `[member, has_key != 0]`.
pub proof fn law_member_reply_follows_answer(m: Vec<(String, i32)>)
    ensures
        rows_reply(QueryRows::Members(m)) == Some(json_document(flag_list_view(device_flags(m@)))),
        rows_answer(QueryRows::Members(m)) == Answer::Members(member_rows(m@).to_set()),
        forall|r: (Seq<char>, i32)|
            #[trigger] member_rows(m@).to_set().contains(r) ==> exists|i: int|
                0 <= i < m@.len() && #[trigger] flag_list_view(device_flags(m@))->Array_0[i] == JsonView::Array(
                    seq![JsonView::Str(r.0), JsonView::Bool(r.1 != 0)],
                ),
        forall|i: int|
            0 <= i < m@.len() ==> #[trigger] member_rows(m@).to_set().contains(member_rows(m@)[i])
                && flag_list_view(device_flags(m@))->Array_0[i] == JsonView::Array(
                seq![JsonView::Str(member_rows(m@)[i].0), JsonView::Bool(member_rows(m@)[i].1 != 0)],
            ),
{
    let rv = member_rows(m@);
    let items = flag_list_view(device_flags(m@))->Array_0;
    assert forall|r: (Seq<char>, i32)| #[trigger] rv.to_set().contains(r) implies exists|i: int|
        0 <= i < m@.len() && #[trigger] items[i] == JsonView::Array(
            seq![JsonView::Str(r.0), JsonView::Bool(r.1 != 0)],
        ) by {
        let i = choose|i: int| 0 <= i < rv.len() && rv[i] == r;
        assert(items[i] == JsonView::Array(seq![JsonView::Str(r.0), JsonView::Bool(r.1 != 0)]));
    }
    assert forall|i: int| 0 <= i < m@.len() implies #[trigger] rv.to_set().contains(rv[i]) by {
        assert(rv.contains(rv[i]));
    }
}

/// A pool size given as an unsigned integer is read as given, whatever
/// its size; the default stands only for a member that is missing (read
/// as `null`) or not an unsigned integer.
pub proof fn law_config_size_as_given(v: JsonValue, default: u64)
    ensures
        v matches JsonValue::PosInt(n) ==> u64_or(v, default) == n,
        !(v is PosInt) ==> u64_or(v, default) == default,
        u64_or(JsonValue::Null, default) == default,
{
}

/// A byte string in a reply is the array of its bytes' numbers, one per
/// byte, in order, whatever its length.
pub proof fn law_byte_reply_lists_every_byte(b: Seq<u8>)
    ensures
        bytes_view(b) is Array,
        bytes_view(b)->Array_0.len() == b.len(),
        forall|i: int| 0 <= i < b.len() ==> #[trigger] bytes_view(b)->Array_0[i] == JsonView::PosInt(b[i] as u64),
{
}

} // verus!
