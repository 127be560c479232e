//! The generic call: from an operation code and its input, JSON text or
//! nothing, the statements to send and how the call ends.
//!
//! Input that is not JSON text fails the call before any statement. A
//! plan lists the writes to send in order. After them the call either
//! ends with a reply, ends with an error (an argument that could not be
//! read, met after the writes before it were sent), or sends one query:
//! `row_shape` names the rows it reads and `finish_query` turns them into
//! the reply. Every reply is the compact JSON text of a document; byte
//! strings are written as arrays of numbers. A database error at any
//! statement ends the call with that error.

use vstd::prelude::*;
use crate::json::{
    JsonValue, JsonView, decode_byte_lists, decode_bytes, decode_flag_pairs, doc_view, docs_view, integral,
    members_view,
    lemma_docs_view, lemma_members_view, byte_lists_view, flag_pairs_view,
};
use crate::encode::{encode_document, json_document, json_text, parse_json};
use crate::pg::PgStore;
use crate::pg::opcode;
use crate::statement::{Command, Statement, StatementView, statements_view};

verus! {

/// Why a call could not be carried out.
#[derive(Debug, Clone, Copy, PartialEq, Eq, Structural)]
pub enum DispatchError {
    /// The input is not JSON text.
    InvalidInput,
    /// An argument did not have the shape the operation reads.
    InvalidArgument,
}

/// How a call ends once its writes have been sent.
#[derive(Debug, PartialEq, Eq)]
pub enum Finish<S, B> {
    /// The call returns this reply, JSON text.
    Done(Option<B>),
    /// The call fails.
    Fail(DispatchError),
    /// The call sends this query and builds its reply from the rows.
    Query(S),
}

impl View for Finish<Statement, Vec<u8>> {
    type V = Finish<StatementView, Seq<u8>>;

    open spec fn view(&self) -> Finish<StatementView, Seq<u8>> {
        match *self {
            Finish::Done(Some(b)) => Finish::Done(Some(b@)),
            Finish::Done(None) => Finish::Done(None),
            Finish::Fail(e) => Finish::Fail(e),
            Finish::Query(s) => Finish::Query(s@),
        }
    }
}

/// What a call does: the writes to send, in order, then how it ends.
#[derive(Debug)]
pub struct DispatchPlan {
    pub writes: Vec<Statement>,
    pub finish: Finish<Statement, Vec<u8>>,
}

/// The view of a plan: the writes and the end, as views.
pub open spec fn plan_view(p: DispatchPlan) -> (Seq<StatementView>, Finish<StatementView, Seq<u8>>) {
    (statements_view(p.writes@), p.finish@)
}

/// `v.as_i64().unwrap_or(0)`.
pub open spec fn int_or_zero(v: JsonValue) -> i64 {
    match v.as_i64() {
        Some(n) => n,
        None => 0,
    }
}

/// The number of leading items of `items` that satisfy `ok`.
pub open spec fn ok_prefix_len(items: Seq<JsonValue>, ok: spec_fn(JsonValue) -> bool) -> nat
    decreases items.len(),
{
    if items.len() == 0 {
        0
    } else if ok(items[0]) {
        1 + ok_prefix_len(items.drop_first(), ok)
    } else {
        0
    }
}

/// The prefix of satisfying items has length `i` when the first `i` items
/// satisfy `ok` and the next one (if any) does not.
proof fn lemma_ok_prefix_len(items: Seq<JsonValue>, ok: spec_fn(JsonValue) -> bool, i: int)
    requires
        0 <= i <= items.len(),
        forall|j: int| 0 <= j < i ==> #[trigger] ok(items[j]),
        i < items.len() ==> !ok(items[i]),
    ensures
        ok_prefix_len(items, ok) == i,
    decreases i,
{
    if items.len() > 0 {
        if i > 0 {
            assert(ok(items[0]));
            assert forall|j: int| 0 <= j < i - 1 implies #[trigger] ok(items.drop_first()[j]) by {
                assert(ok(items[j + 1]));
            }
            lemma_ok_prefix_len(items.drop_first(), ok, i - 1);
        }
    }
}

/// Whether a mutation MAC entry has both its MACs as bytes.
pub open spec fn mac_entry_ok(m: JsonValue) -> bool {
    &&& m.field("index_mac"@).bytes() is Some
    &&& m.field("value_mac"@).bytes() is Some
}

/// `mac_entry_ok` as a value.
pub open spec fn mac_ok_fn() -> spec_fn(JsonValue) -> bool {
    |m: JsonValue| mac_entry_ok(m)
}

/// The write for one mutation MAC entry.
pub open spec fn mac_entry_write(name: Seq<char>, version: i64, device: i32, m: JsonValue) -> StatementView {
    Command::PutMutationMac {
        name,
        version,
        index_mac: m.field("index_mac"@).bytes()->0,
        value_mac: m.field("value_mac"@).bytes()->0,
        device,
    }
}

/// Whether a message secret entry has its secret as bytes.
pub open spec fn secret_entry_ok(e: JsonValue) -> bool {
    e.field("secret"@).bytes() is Some
}

/// `secret_entry_ok` as a value.
pub open spec fn secret_ok_fn() -> spec_fn(JsonValue) -> bool {
    |e: JsonValue| secret_entry_ok(e)
}

/// The write for one message secret entry.
pub open spec fn secret_entry_write(device: i32, now: i64, e: JsonValue) -> StatementView {
    Command::PutMsgSecret {
        chat: e.field("chat"@).text_or_empty(),
        sender: e.field("sender"@).text_or_empty(),
        msg_id: e.field("msg_id"@).text_or_empty(),
        secret: e.field("secret"@).bytes()->0,
        device,
        created_at: now,
        expires_at: int_or_zero(e.field("expires_at"@)),
        message_ts: int_or_zero(e.field("message_ts"@)),
    }
}

/// What the generic call with operation `op` and arguments `args` does for
/// `device`, where `now` is the time in seconds since the epoch.
pub open spec fn dispatch_spec(op: u32, args: JsonValue, device: i32, now: i64) -> (
    Seq<StatementView>,
    Finish<StatementView, Seq<u8>>,
) {
    let none: Seq<StatementView> = Seq::empty();
    let bad = Finish::<StatementView, Seq<u8>>::Fail(DispatchError::InvalidArgument);
    if op == opcode::PUT_MUTATION_MACS {
        let name = args.field("name"@).text_or_empty();
        let version = int_or_zero(args.field("version"@));
        match args.field("macs"@) {
            JsonValue::Array(macs) => {
                let k = ok_prefix_len(macs@, mac_ok_fn());
                (
                    macs@.take(k as int).map_values(|m: JsonValue| mac_entry_write(name, version, device, m)),
                    if k < macs@.len() { bad } else { Finish::Done(None) },
                )
            },
            _ => (none, Finish::Done(None)),
        }
    } else if op == opcode::GET_MUTATION_MAC {
        let name = args.field("name"@).text_or_empty();
        match args.field("index_mac"@).bytes() {
            Some(idx) => (none, Finish::Query(Command::GetMutationMac { name, index_mac: idx, device })),
            None => (none, bad),
        }
    } else if op == opcode::DELETE_MUTATION_MACS {
        let name = args.field("name"@).text_or_empty();
        match args.field("index_macs"@).byte_lists() {
            Some(macs) => (
                macs.map_values(|mac: Seq<u8>| Command::DeleteMutationMac { name, index_mac: mac, device }),
                Finish::Done(None),
            ),
            None => (none, bad),
        }
    } else if op == opcode::GET_SENDER_KEY_DEVICES {
        let group = args.field("group_jid"@).text_or_empty();
        (none, Finish::Query(Command::GetSenderKeyDevices { group, device }))
    } else if op == opcode::SET_SENDER_KEY_STATUS {
        let group = args.field("group_jid"@).text_or_empty();
        match args.field("entries"@).flag_pairs() {
            Some(entries) => (
                entries.map_values(
                    |e: (Seq<char>, bool)|
                        Command::SetSenderKeyStatus {
                            group,
                            member: e.0,
                            has_key: if e.1 { 1i32 } else { 0i32 },
                            device,
                            updated_at: now,
                        },
                ),
                Finish::Done(None),
            ),
            None => (none, bad),
        }
    } else if op == opcode::CLEAR_SENDER_KEY_DEVICES {
        let group = args.field("group_jid"@).text_or_empty();
        (seq![Command::ClearSenderKeyDevices { group, device }], Finish::Done(None))
    } else if op == opcode::CLEAR_ALL_SENDER_KEY_DEVICES {
        (seq![Command::ClearAllSenderKeyDevices { device }], Finish::Done(None))
    } else if op == opcode::GET_LID_MAPPING {
        let lid = args.field("lid"@).text_or_empty();
        (none, Finish::Query(Command::GetLidMapping { lid, device }))
    } else if op == opcode::PUT_LID_MAPPING {
        (
            seq![
                Command::PutLidMapping {
                    lid: args.field("lid"@).text_or_empty(),
                    phone_number: args.field("phone_number"@).text_or_empty(),
                    created_at: int_or_zero(args.field("created_at"@)),
                    learning_source: args.field("learning_source"@).text_or_empty(),
                    updated_at: int_or_zero(args.field("updated_at"@)),
                    device,
                },
            ],
            Finish::Done(None),
        )
    } else if op == opcode::STORE_SENT_MESSAGE {
        let chat = args.field("chat_jid"@).text_or_empty();
        let message_id = args.field("message_id"@).text_or_empty();
        match args.field("payload"@).bytes() {
            Some(payload) => (
                seq![Command::StoreSentMessage { chat, message_id, payload, device, created_at: now }],
                Finish::Done(None),
            ),
            None => (none, bad),
        }
    } else if op == opcode::TAKE_SENT_MESSAGE {
        let chat = args.field("chat_jid"@).text_or_empty();
        let message_id = args.field("message_id"@).text_or_empty();
        (none, Finish::Query(Command::TakeSentMessage { chat, message_id, device }))
    } else if op == opcode::PUT_MSG_SECRETS {
        match args.field("entries"@) {
            JsonValue::Array(entries) => {
                let k = ok_prefix_len(entries@, secret_ok_fn());
                (
                    entries@.take(k as int).map_values(|e: JsonValue| secret_entry_write(device, now, e)),
                    if k < entries@.len() {
                        bad
                    } else {
                        Finish::Done(Some(json_document(int_view(entries@.len() as i64))))
                    },
                )
            },
            _ => (none, bad),
        }
    } else if op == opcode::GET_MSG_SECRET || op == opcode::GET_MSG_SECRET_WITH_TS {
        let chat = args.field("chat"@).text_or_empty();
        let sender = args.field("sender"@).text_or_empty();
        let msg_id = args.field("msg_id"@).text_or_empty();
        if op == opcode::GET_MSG_SECRET {
            (none, Finish::Query(Command::GetMsgSecret { chat, sender, msg_id, device }))
        } else {
            (none, Finish::Query(Command::GetMsgSecretWithTs { chat, sender, msg_id, device }))
        }
    } else if op == opcode::DELETE_EXPIRED_MSG_SECRETS {
        let cutoff = int_or_zero(args.field("cutoff"@));
        (none, Finish::Query(Command::DeleteExpiredMsgSecrets { cutoff, device }))
    } else {
        (none, Finish::Done(None))
    }
}

fn plan_put_mutation_macs(args: &JsonValue, device: i32, now: i64) -> (p: DispatchPlan)
    ensures
        plan_view(p) == dispatch_spec(opcode::PUT_MUTATION_MACS, *args, device, now),
{
    let name = args.text_field("name");
    let version = args.i64_field("version");
    let mut writes: Vec<Statement> = Vec::new();
    let ghost spec = dispatch_spec(opcode::PUT_MUTATION_MACS, *args, device, now);
    match args.get("macs") {
        Some(JsonValue::Array(macs)) => {
            let ghost f = |m: JsonValue| mac_entry_write(name@, version, device, m);
            let mut i: usize = 0;
            while i < macs.len()
                invariant
                    0 <= i <= macs@.len(),
                    args.field("macs"@) == JsonValue::Array(*macs),
                    name@ == args.field("name"@).text_or_empty(),
                    version == int_or_zero(args.field("version"@)),
                    spec == dispatch_spec(opcode::PUT_MUTATION_MACS, *args, device, now),
                    f == (|m: JsonValue| mac_entry_write(name@, version, device, m)),
                    forall|j: int| 0 <= j < i ==> #[trigger] mac_entry_ok(macs@[j]),
                    statements_view(writes@) =~= macs@.take(i as int).map_values(f),
                decreases macs@.len() - i,
            {
                let m = &macs[i];
                let idx = match decode_bytes(m.get("index_mac")) {
                    Some(b) => b,
                    None => {
                        proof {
                            lemma_ok_prefix_len(macs@, mac_ok_fn(), i as int);
                            assert(spec.0 =~= statements_view(writes@));
                        }
                        return DispatchPlan { writes, finish: Finish::Fail(DispatchError::InvalidArgument) };
                    },
                };
                let val = match decode_bytes(m.get("value_mac")) {
                    Some(b) => b,
                    None => {
                        proof {
                            lemma_ok_prefix_len(macs@, mac_ok_fn(), i as int);
                            assert(spec.0 =~= statements_view(writes@));
                        }
                        return DispatchPlan { writes, finish: Finish::Fail(DispatchError::InvalidArgument) };
                    },
                };
                let ghost before = writes@;
                writes.push(Command::PutMutationMac { name: name.clone(), version, index_mac: idx, value_mac: val, device });
                proof {
                    assert(macs@.take(i + 1) =~= macs@.take(i as int).push(macs@[i as int]));
                    assert(statements_view(writes@) =~= statements_view(before).push(f(macs@[i as int])));
                }
                i = i + 1;
            }
            proof {
                lemma_ok_prefix_len(macs@, mac_ok_fn(), macs@.len() as int);
                assert(macs@.take(macs@.len() as int) =~= macs@);
                assert(spec.0 =~= statements_view(writes@));
            }
            DispatchPlan { writes, finish: Finish::Done(None) }
        },
        _ => {
            proof {
                assert(spec.0 =~= statements_view(writes@));
            }
            DispatchPlan { writes, finish: Finish::Done(None) }
        },
    }
}

fn plan_put_msg_secrets(args: &JsonValue, device: i32, now: i64) -> (p: DispatchPlan)
    ensures
        plan_view(p) == dispatch_spec(opcode::PUT_MSG_SECRETS, *args, device, now),
{
    let mut writes: Vec<Statement> = Vec::new();
    let ghost spec = dispatch_spec(opcode::PUT_MSG_SECRETS, *args, device, now);
    match args.get("entries") {
        Some(JsonValue::Array(entries)) => {
            let ghost f = |e: JsonValue| secret_entry_write(device, now, e);
            let mut i: usize = 0;
            while i < entries.len()
                invariant
                    0 <= i <= entries@.len(),
                    args.field("entries"@) == JsonValue::Array(*entries),
                    spec == dispatch_spec(opcode::PUT_MSG_SECRETS, *args, device, now),
                    f == (|e: JsonValue| secret_entry_write(device, now, e)),
                    forall|j: int| 0 <= j < i ==> #[trigger] secret_entry_ok(entries@[j]),
                    statements_view(writes@) =~= entries@.take(i as int).map_values(f),
                decreases entries@.len() - i,
            {
                let e = &entries[i];
                let chat = e.text_field("chat");
                let sender = e.text_field("sender");
                let msg_id = e.text_field("msg_id");
                let secret = match decode_bytes(e.get("secret")) {
                    Some(b) => b,
                    None => {
                        proof {
                            lemma_ok_prefix_len(entries@, secret_ok_fn(), i as int);
                            assert(spec.0 =~= statements_view(writes@));
                        }
                        return DispatchPlan { writes, finish: Finish::Fail(DispatchError::InvalidArgument) };
                    },
                };
                let expires_at = e.i64_field("expires_at");
                let message_ts = e.i64_field("message_ts");
                let ghost before = writes@;
                writes.push(
                    Command::PutMsgSecret {
                        chat,
                        sender,
                        msg_id,
                        secret,
                        device,
                        created_at: now,
                        expires_at,
                        message_ts,
                    },
                );
                proof {
                    assert(entries@.take(i + 1) =~= entries@.take(i as int).push(entries@[i as int]));
                    assert(statements_view(writes@) =~= statements_view(before).push(f(entries@[i as int])));
                }
                i = i + 1;
            }
            proof {
                lemma_ok_prefix_len(entries@, secret_ok_fn(), entries@.len() as int);
                assert(entries@.take(entries@.len() as int) =~= entries@);
                assert(spec.0 =~= statements_view(writes@));
            }
            let count = encode_document(&int_value(entries.len() as i64));
            DispatchPlan { writes, finish: Finish::Done(Some(count)) }
        },
        _ => {
            proof {
                assert(spec.0 =~= statements_view(writes@));
            }
            DispatchPlan { writes, finish: Finish::Fail(DispatchError::InvalidArgument) }
        },
    }
}

fn plan_delete_mutation_macs(args: &JsonValue, device: i32, now: i64) -> (p: DispatchPlan)
    ensures
        plan_view(p) == dispatch_spec(opcode::DELETE_MUTATION_MACS, *args, device, now),
{
    let name = args.text_field("name");
    let mut writes: Vec<Statement> = Vec::new();
    let ghost spec = dispatch_spec(opcode::DELETE_MUTATION_MACS, *args, device, now);
    match decode_byte_lists(args.get("index_macs")) {
        Some(macs) => {
            let ghost f = |mac: Seq<u8>| StatementView::DeleteMutationMac { name: name@, index_mac: mac, device };
            let ghost macs_view = byte_lists_view(macs@);
            let mut i: usize = 0;
            while i < macs.len()
                invariant
                    0 <= i <= macs@.len(),
                    macs_view == byte_lists_view(macs@),
                    f == (|mac: Seq<u8>| StatementView::DeleteMutationMac { name: name@, index_mac: mac, device }),
                    statements_view(writes@) =~= macs_view.take(i as int).map_values(f),
                decreases macs@.len() - i,
            {
                let ghost before = writes@;
                writes.push(Command::DeleteMutationMac { name: name.clone(), index_mac: macs[i].clone(), device });
                proof {
                    assert(macs_view.take(i + 1) =~= macs_view.take(i as int).push(macs_view[i as int]));
                    assert(statements_view(writes@) =~= statements_view(before).push(f(macs_view[i as int])));
                }
                i = i + 1;
            }
            proof {
                assert(macs_view.take(macs@.len() as int) =~= macs_view);
                assert(spec.0 =~= statements_view(writes@));
            }
            DispatchPlan { writes, finish: Finish::Done(None) }
        },
        None => {
            proof {
                assert(spec.0 =~= statements_view(writes@));
            }
            DispatchPlan { writes, finish: Finish::Fail(DispatchError::InvalidArgument) }
        },
    }
}

fn plan_set_sender_key_status(args: &JsonValue, device: i32, now: i64) -> (p: DispatchPlan)
    ensures
        plan_view(p) == dispatch_spec(opcode::SET_SENDER_KEY_STATUS, *args, device, now),
{
    let group = args.text_field("group_jid");
    let mut writes: Vec<Statement> = Vec::new();
    let ghost spec = dispatch_spec(opcode::SET_SENDER_KEY_STATUS, *args, device, now);
    match decode_flag_pairs(args.get("entries")) {
        Some(entries) => {
            let ghost f = |e: (Seq<char>, bool)|
                StatementView::SetSenderKeyStatus {
                    group: group@,
                    member: e.0,
                    has_key: if e.1 { 1i32 } else { 0i32 },
                    device,
                    updated_at: now,
                };
            let ghost entries_view = flag_pairs_view(entries@);
            let mut i: usize = 0;
            while i < entries.len()
                invariant
                    0 <= i <= entries@.len(),
                    entries_view == flag_pairs_view(entries@),
                    f == (|e: (Seq<char>, bool)|
                        StatementView::SetSenderKeyStatus {
                            group: group@,
                            member: e.0,
                            has_key: if e.1 { 1i32 } else { 0i32 },
                            device,
                            updated_at: now,
                        }),
                    statements_view(writes@) =~= entries_view.take(i as int).map_values(f),
                decreases entries@.len() - i,
            {
                let ghost before = writes@;
                let has_key: i32 = if entries[i].1 { 1 } else { 0 };
                writes.push(
                    Command::SetSenderKeyStatus {
                        group: group.clone(),
                        member: entries[i].0.clone(),
                        has_key,
                        device,
                        updated_at: now,
                    },
                );
                proof {
                    assert(entries_view.take(i + 1) =~= entries_view.take(i as int).push(entries_view[i as int]));
                    assert(statements_view(writes@) =~= statements_view(before).push(f(entries_view[i as int])));
                }
                i = i + 1;
            }
            proof {
                assert(entries_view.take(entries@.len() as int) =~= entries_view);
                assert(spec.0 =~= statements_view(writes@));
            }
            DispatchPlan { writes, finish: Finish::Done(None) }
        },
        None => {
            proof {
                assert(spec.0 =~= statements_view(writes@));
            }
            DispatchPlan { writes, finish: Finish::Fail(DispatchError::InvalidArgument) }
        },
    }
}

fn no_writes() -> (v: Vec<Statement>)
    ensures
        statements_view(v@) == Seq::<StatementView>::empty(),
{
    let v: Vec<Statement> = Vec::new();
    assert(statements_view(v@) =~= Seq::<StatementView>::empty());
    v
}

fn one_write(s: Statement) -> (v: Vec<Statement>)
    ensures
        statements_view(v@) == seq![s@],
{
    let mut v: Vec<Statement> = Vec::new();
    v.push(s);
    assert(statements_view(v@) =~= seq![s@]);
    v
}

impl PgStore {
    /// The generic call: what operation `op` does with arguments `args`,
    /// `now` being the time in seconds since the epoch, with which the
    /// status, sent-message and secret writes are stamped. Operation codes
    /// the store does not serve
    /// end with no reply and send nothing.
    pub fn dispatch(&self, op: u32, args: &JsonValue, now: i64) -> (p: DispatchPlan)
        ensures
            plan_view(p) == dispatch_spec(op, *args, self.device(), now),
    {
        let device = self.device_id();
        if op == opcode::PUT_MUTATION_MACS {
            plan_put_mutation_macs(args, device, now)
        } else if op == opcode::GET_MUTATION_MAC {
            let name = args.text_field("name");
            match decode_bytes(args.get("index_mac")) {
                Some(idx) => DispatchPlan {
                    writes: no_writes(),
                    finish: Finish::Query(Command::GetMutationMac { name, index_mac: idx, device }),
                },
                None => DispatchPlan { writes: no_writes(), finish: Finish::Fail(DispatchError::InvalidArgument) },
            }
        } else if op == opcode::DELETE_MUTATION_MACS {
            plan_delete_mutation_macs(args, device, now)
        } else if op == opcode::GET_SENDER_KEY_DEVICES {
            let group = args.text_field("group_jid");
            DispatchPlan { writes: no_writes(), finish: Finish::Query(Command::GetSenderKeyDevices { group, device }) }
        } else if op == opcode::SET_SENDER_KEY_STATUS {
            plan_set_sender_key_status(args, device, now)
        } else if op == opcode::CLEAR_SENDER_KEY_DEVICES {
            let group = args.text_field("group_jid");
            DispatchPlan {
                writes: one_write(Command::ClearSenderKeyDevices { group, device }),
                finish: Finish::Done(None),
            }
        } else if op == opcode::CLEAR_ALL_SENDER_KEY_DEVICES {
            DispatchPlan {
                writes: one_write(Command::ClearAllSenderKeyDevices { device }),
                finish: Finish::Done(None),
            }
        } else if op == opcode::GET_LID_MAPPING {
            let lid = args.text_field("lid");
            DispatchPlan { writes: no_writes(), finish: Finish::Query(Command::GetLidMapping { lid, device }) }
        } else if op == opcode::PUT_LID_MAPPING {
            let lid = args.text_field("lid");
            let phone_number = args.text_field("phone_number");
            let created_at = args.i64_field("created_at");
            let learning_source = args.text_field("learning_source");
            let updated_at = args.i64_field("updated_at");
            DispatchPlan {
                writes: one_write(
                    Command::PutLidMapping {
                        lid,
                        phone_number,
                        created_at,
                        learning_source,
                        updated_at,
                        device,
                    },
                ),
                finish: Finish::Done(None),
            }
        } else if op == opcode::STORE_SENT_MESSAGE {
            let chat = args.text_field("chat_jid");
            let message_id = args.text_field("message_id");
            match decode_bytes(args.get("payload")) {
                Some(payload) => DispatchPlan {
                    writes: one_write(
                        Command::StoreSentMessage { chat, message_id, payload, device, created_at: now },
                    ),
                    finish: Finish::Done(None),
                },
                None => DispatchPlan { writes: no_writes(), finish: Finish::Fail(DispatchError::InvalidArgument) },
            }
        } else if op == opcode::TAKE_SENT_MESSAGE {
            let chat = args.text_field("chat_jid");
            let message_id = args.text_field("message_id");
            DispatchPlan {
                writes: no_writes(),
                finish: Finish::Query(Command::TakeSentMessage { chat, message_id, device }),
            }
        } else if op == opcode::PUT_MSG_SECRETS {
            plan_put_msg_secrets(args, device, now)
        } else if op == opcode::GET_MSG_SECRET || op == opcode::GET_MSG_SECRET_WITH_TS {
            let chat = args.text_field("chat");
            let sender = args.text_field("sender");
            let msg_id = args.text_field("msg_id");
            let query = if op == opcode::GET_MSG_SECRET {
                Command::GetMsgSecret { chat, sender, msg_id, device }
            } else {
                Command::GetMsgSecretWithTs { chat, sender, msg_id, device }
            };
            DispatchPlan { writes: no_writes(), finish: Finish::Query(query) }
        } else if op == opcode::DELETE_EXPIRED_MSG_SECRETS {
            let cutoff = args.i64_field("cutoff");
            DispatchPlan {
                writes: no_writes(),
                finish: Finish::Query(Command::DeleteExpiredMsgSecrets { cutoff, device }),
            }
        } else {
            DispatchPlan { writes: no_writes(), finish: Finish::Done(None) }
        }
    }
}

/// How the generic call reads its input: an empty input is `null`, and
/// any other input is read as JSON text.
pub open spec fn call_args_spec(input: Seq<u8>) -> Option<JsonValue> {
    if input.len() == 0 {
        Some(JsonValue::Null)
    } else {
        json_text(input)
    }
}

/// The arguments of the generic call read from its input, or `None` when
/// the input is neither empty nor JSON text.
pub fn call_args(input: &[u8]) -> (r: Option<JsonValue>)
    ensures
        r == call_args_spec(input@),
{
    if input.len() == 0 {
        Some(JsonValue::Null)
    } else {
        parse_json(input)
    }
}

impl PgStore {
    /// The generic call on its raw input: input that is not JSON text
    /// fails before any statement is planned; otherwise the plan is the
    /// one `dispatch` makes of the arguments read.
    pub fn plan_call(&self, op: u32, input: &[u8], now: i64) -> (r: Result<DispatchPlan, DispatchError>)
        ensures
            match call_args_spec(input@) {
                Some(args) => r matches Ok(p) && plan_view(p) == dispatch_spec(op, args, self.device(), now),
                None => r matches Err(e) && e == DispatchError::InvalidInput,
            },
    {
        match call_args(input) {
            Some(args) => Ok(self.dispatch(op, &args, now)),
            None => Err(DispatchError::InvalidInput),
        }
    }
}

/// Which rows the query of a generic call reads.
#[derive(Debug, Clone, Copy, PartialEq, Eq, Structural)]
pub enum RowShape {
    /// Every `(device, has_key)` row.
    Members,
    /// At most one LID mapping row.
    LidMapping,
    /// At most one `(secret, message_ts)` row.
    SecretWithTs,
    /// The number of rows the statement removed.
    Count,
    /// At most one byte string.
    Bytes,
}

/// The rows each query reads.
pub open spec fn shape_of(q: StatementView) -> RowShape {
    match q {
        Command::GetSenderKeyDevices { .. } => RowShape::Members,
        Command::GetLidMapping { .. } => RowShape::LidMapping,
        Command::GetMsgSecretWithTs { .. } => RowShape::SecretWithTs,
        Command::DeleteExpiredMsgSecrets { .. } => RowShape::Count,
        _ => RowShape::Bytes,
    }
}

/// The rows the query `q` of a plan reads, and so the reply it builds.
pub fn row_shape(q: &Statement) -> (r: RowShape)
    ensures
        r == shape_of(q@),
{
    match q {
        Command::GetSenderKeyDevices { .. } => RowShape::Members,
        Command::GetLidMapping { .. } => RowShape::LidMapping,
        Command::GetMsgSecretWithTs { .. } => RowShape::SecretWithTs,
        Command::DeleteExpiredMsgSecrets { .. } => RowShape::Count,
        _ => RowShape::Bytes,
    }
}

/// The rows a query gave, in the shape `row_shape` names.
#[derive(Debug)]
pub enum QueryRows {
    Members(Vec<(String, i32)>),
    LidMapping(Option<LidMappingRow>),
    SecretWithTs(Option<(Vec<u8>, i64)>),
    Count(i64),
    Bytes(Option<Vec<u8>>),
}

/// The reply text the generic call gives for the rows of its query.
pub open spec fn rows_reply(rows: QueryRows) -> Option<Seq<u8>> {
    match rows {
        QueryRows::Members(m) => Some(json_document(flag_list_view(device_flags(m@)))),
        QueryRows::LidMapping(Some(x)) => Some(json_document(row_view(x))),
        QueryRows::SecretWithTs(Some(x)) => Some(json_document(secret_with_ts_view(x.0@, x.1))),
        QueryRows::Count(n) => Some(json_document(JsonView::PosInt((n as u32) as u64))),
        QueryRows::Bytes(Some(b)) => Some(json_document(bytes_view(b@))),
        _ => None,
    }
}

/// The bytes of an optional reply.
pub open spec fn reply_view(r: Option<Vec<u8>>) -> Option<Seq<u8>> {
    match r {
        Some(b) => Some(b@),
        None => None,
    }
}

/// The reply text of the generic call from the rows of its query.
pub fn finish_query(rows: QueryRows) -> (r: Option<Vec<u8>>)
    ensures
        reply_view(r) == rows_reply(rows),
{
    let ghost rows0 = rows;
    proof {
        match rows0 {
            QueryRows::Members(m) => lemma_replies_integral(Seq::empty(), device_flags(m@), 0, 0, (Seq::empty(), Seq::empty(), Seq::empty())),
            QueryRows::LidMapping(Some(x)) => lemma_replies_integral(
                Seq::empty(),
                Seq::empty(),
                x.created_at,
                x.updated_at,
                (x.lid@, x.phone_number@, x.learning_source@),
            ),
            QueryRows::SecretWithTs(Some(x)) => lemma_replies_integral(x.0@, Seq::empty(), x.1, 0, (Seq::empty(), Seq::empty(), Seq::empty())),
            QueryRows::Bytes(Some(x)) => lemma_replies_integral(x@, Seq::empty(), 0, 0, (Seq::empty(), Seq::empty(), Seq::empty())),
            _ => {},
        }
    }
    match rows {
        QueryRows::Members(m) => Some(encode_document(&finish_sender_key_devices(&m))),
        QueryRows::LidMapping(row) => match finish_lid_mapping(row) {
            Some(v) => Some(encode_document(&v)),
            None => None,
        },
        QueryRows::SecretWithTs(row) => match finish_secret_with_ts(row) {
            Some(v) => Some(encode_document(&v)),
            None => None,
        },
        QueryRows::Count(n) => Some(encode_document(&finish_expired_count(n))),
        QueryRows::Bytes(row) => match finish_bytes(row) {
            Some(v) => Some(encode_document(&v)),
            None => None,
        },
    }
}

/// One row of the LID mapping query.
#[derive(Debug, PartialEq, Eq)]
pub struct LidMappingRow {
    pub lid: String,
    pub phone_number: String,
    pub created_at: i64,
    pub learning_source: String,
    pub updated_at: i64,
}

/// The JSON number for an `i64`.
pub open spec fn int_view(n: i64) -> JsonView {
    if n >= 0 {
        JsonView::PosInt(n as u64)
    } else {
        JsonView::NegInt(n)
    }
}

/// The JSON array of the numbers of the bytes `b`.
pub open spec fn bytes_view(b: Seq<u8>) -> JsonView {
    JsonView::Array(b.map_values(|x: u8| JsonView::PosInt(x as u64)))
}

/// The `[text, flag]` array for one pair.
pub open spec fn flag_pair_view(p: (Seq<char>, bool)) -> JsonView {
    JsonView::Array(seq![JsonView::Str(p.0), JsonView::Bool(p.1)])
}

/// The JSON array of `[text, flag]` arrays for a list of pairs.
pub open spec fn flag_list_view(pairs: Seq<(Seq<char>, bool)>) -> JsonView {
    JsonView::Array(pairs.map_values(|p: (Seq<char>, bool)| flag_pair_view(p)))
}

/// The `(device, has_key)` pairs of the sender-key device rows, a flag
/// other than zero reading as `true`.
pub open spec fn device_flags(rows: Seq<(String, i32)>) -> Seq<(Seq<char>, bool)> {
    rows.map_values(|r: (String, i32)| (r.0@, r.1 != 0))
}

/// The JSON object for a LID mapping row, its members in key order.
pub open spec fn lid_mapping_view(lid: Seq<char>, phone_number: Seq<char>, created_at: i64, learning_source: Seq<char>, updated_at: i64) -> JsonView {
    JsonView::Object(
        seq![
            ("created_at"@, int_view(created_at)),
            ("learning_source"@, JsonView::Str(learning_source)),
            ("lid"@, JsonView::Str(lid)),
            ("phone_number"@, JsonView::Str(phone_number)),
            ("updated_at"@, int_view(updated_at)),
        ],
    )
}

/// `lid_mapping_view` of a row.
pub open spec fn row_view(row: LidMappingRow) -> JsonView {
    lid_mapping_view(row.lid@, row.phone_number@, row.created_at, row.learning_source@, row.updated_at)
}

/// The JSON object for a secret and its message time, its members in key
/// order.
pub open spec fn secret_with_ts_view(secret: Seq<u8>, ts: i64) -> JsonView {
    JsonView::Object(seq![("message_ts"@, int_view(ts)), ("secret"@, bytes_view(secret))])
}

/// The documents the replies are built as hold no fractional number.
pub proof fn lemma_replies_integral(
    b: Seq<u8>,
    pairs: Seq<(Seq<char>, bool)>,
    n: i64,
    m: i64,
    texts: (Seq<char>, Seq<char>, Seq<char>),
)
    ensures
        integral(int_view(n)),
        integral(bytes_view(b)),
        integral(flag_list_view(pairs)),
        integral(lid_mapping_view(texts.0, texts.1, n, texts.2, m)),
        integral(secret_with_ts_view(b, n)),
{
    reveal_with_fuel(integral, 3);
    let bv = bytes_view(b);
    assert forall|i: int| 0 <= i < bv->Array_0.len() implies #[trigger] integral(bv->Array_0[i]) by {
        assert(bv->Array_0[i] == JsonView::PosInt(b[i] as u64));
    }
    assert(integral(bv));
    let fv = flag_list_view(pairs);
    assert forall|i: int| 0 <= i < fv->Array_0.len() implies #[trigger] integral(fv->Array_0[i]) by {
        let p = fv->Array_0[i]->Array_0;
        assert(integral(p[0]) && integral(p[1]));
    }
    let rv = lid_mapping_view(texts.0, texts.1, n, texts.2, m);
    assert forall|i: int| 0 <= i < rv->Object_0.len() implies #[trigger] integral(rv->Object_0[i].1) by {}
    let sv = secret_with_ts_view(b, n);
    assert forall|i: int| 0 <= i < sv->Object_0.len() implies #[trigger] integral(sv->Object_0[i].1) by {
        if i == 1 {
            assert(sv->Object_0[1].1 == bv);
        }
    }
}

fn int_value(n: i64) -> (v: JsonValue)
    ensures
        doc_view(v) == int_view(n),
{
    if n >= 0 {
        JsonValue::PosInt(n as u64)
    } else {
        JsonValue::NegInt(n)
    }
}

fn byte_array(b: &Vec<u8>) -> (v: JsonValue)
    ensures
        doc_view(v) == bytes_view(b@),
{
    let mut items: Vec<JsonValue> = Vec::new();
    let mut i: usize = 0;
    while i < b.len()
        invariant
            0 <= i <= b@.len(),
            items@.len() == i,
            forall|j: int| 0 <= j < i ==> items@[j] == JsonValue::PosInt(b@[j] as u64),
        decreases b@.len() - i,
    {
        items.push(JsonValue::PosInt(b[i] as u64));
        i = i + 1;
    }
    proof {
        lemma_docs_view(items@);
        assert(docs_view(items@) =~= bytes_view(b@)->Array_0);
    }
    JsonValue::Array(items)
}

/// The document for the sender-key device rows: the list of
/// `[device, has_key]` pairs, in the order of the rows.
pub fn finish_sender_key_devices(rows: &Vec<(String, i32)>) -> (v: JsonValue)
    ensures
        doc_view(v) == flag_list_view(device_flags(rows@)),
{
    let mut items: Vec<JsonValue> = Vec::new();
    let mut i: usize = 0;
    while i < rows.len()
        invariant
            0 <= i <= rows@.len(),
            items@.len() == i,
            forall|j: int| 0 <= j < i ==> #[trigger] doc_view(items@[j]) == flag_pair_view(device_flags(rows@)[j]),
        decreases rows@.len() - i,
    {
        let mut pair: Vec<JsonValue> = Vec::new();
        pair.push(JsonValue::Str(rows[i].0.clone()));
        pair.push(JsonValue::Bool(rows[i].1 != 0));
        proof {
            lemma_docs_view(pair@);
            assert(docs_view(pair@) =~= flag_pair_view(device_flags(rows@)[i as int])->Array_0);
        }
        items.push(JsonValue::Array(pair));
        i = i + 1;
    }
    proof {
        lemma_docs_view(items@);
        assert(docs_view(items@) =~= flag_list_view(device_flags(rows@))->Array_0);
    }
    JsonValue::Array(items)
}

/// The document for the LID mapping query: the mapping as an object, or
/// none when there is no row.
pub fn finish_lid_mapping(row: Option<LidMappingRow>) -> (r: Option<JsonValue>)
    ensures
        match row {
            Some(x) => r matches Some(v) && doc_view(v) == row_view(x),
            None => r is None,
        },
{
    match row {
        Some(x) => {
            let ghost x0 = x;
            let mut ms: Vec<(String, JsonValue)> = Vec::new();
            ms.push(("created_at".to_owned(), int_value(x.created_at)));
            ms.push(("learning_source".to_owned(), JsonValue::Str(x.learning_source)));
            ms.push(("lid".to_owned(), JsonValue::Str(x.lid)));
            ms.push(("phone_number".to_owned(), JsonValue::Str(x.phone_number)));
            ms.push(("updated_at".to_owned(), int_value(x.updated_at)));
            proof {
                reveal_strlit("created_at");
                reveal_strlit("learning_source");
                reveal_strlit("lid");
                reveal_strlit("phone_number");
                reveal_strlit("updated_at");
                lemma_members_view(ms@);
                assert(members_view(ms@) =~= row_view(x0)->Object_0);
            }
            Some(JsonValue::Object(ms))
        },
        None => None,
    }
}

/// The document for the secret-with-time query: `{"message_ts",
/// "secret"}`, or none when there is no row.
pub fn finish_secret_with_ts(row: Option<(Vec<u8>, i64)>) -> (r: Option<JsonValue>)
    ensures
        match row {
            Some(x) => r matches Some(v) && doc_view(v) == secret_with_ts_view(x.0@, x.1),
            None => r is None,
        },
{
    match row {
        Some(x) => {
            let mut ms: Vec<(String, JsonValue)> = Vec::new();
            ms.push(("message_ts".to_owned(), int_value(x.1)));
            ms.push(("secret".to_owned(), byte_array(&x.0)));
            proof {
                reveal_strlit("message_ts");
                reveal_strlit("secret");
                lemma_members_view(ms@);
                assert(members_view(ms@) =~= secret_with_ts_view(x.0@, x.1)->Object_0);
            }
            Some(JsonValue::Object(ms))
        },
        None => None,
    }
}

/// The document for the expired-secret purge: the number of rows removed,
/// cut to 32 bits.
pub fn finish_expired_count(count: i64) -> (v: JsonValue)
    ensures
        doc_view(v) == JsonView::PosInt((count as u32) as u64),
{
    JsonValue::PosInt((count as u32) as u64)
}

/// The document for a single-value query (a MAC, a sent message's payload,
/// a secret): the bytes as an array of numbers, or none when there is no
/// row.
pub fn finish_bytes(row: Option<Vec<u8>>) -> (r: Option<JsonValue>)
    ensures
        match row {
            Some(b) => r matches Some(v) && doc_view(v) == bytes_view(b@),
            None => r is None,
        },
{
    match row {
        Some(b) => Some(byte_array(&b)),
        None => None,
    }
}

} // verus!
