//! The JSON documents that callers hand to the store, as plain values,
//! and the ways the store reads them.
//!
//! Numbers are kept the way a JSON reader classifies them: integers that
//! are not negative, integers that are negative, and numbers with a
//! fraction or an exponent, whose value the store never reads.

use vstd::prelude::*;

verus! {

/// A JSON value.
#[derive(Debug, PartialEq)]
pub enum JsonValue {
    Null,
    Bool(bool),
    /// An integer that is zero or more.
    PosInt(u64),
    /// An integer below zero.
    NegInt(i64),
    /// A number that is not an integer.
    Float,
    Str(String),
    Array(Vec<JsonValue>),
    /// The members of an object, each key at most once.
    Object(Vec<(String, JsonValue)>),
}

/// The value stored under `key` among `members`, if any (the first one).
pub open spec fn find_member(members: Seq<(String, JsonValue)>, key: Seq<char>) -> Option<JsonValue>
    decreases members.len(),
{
    if members.len() == 0 {
        None
    } else if members[0].0@ == key {
        Some(members[0].1)
    } else {
        find_member(members.drop_first(), key)
    }
}

/// A looked-up value, where nothing found reads as `null`.
pub open spec fn or_null(v: Option<JsonValue>) -> JsonValue {
    match v {
        Some(v) => v,
        None => JsonValue::Null,
    }
}

/// A looked-up reference, where nothing found reads as `null`.
pub open spec fn found_or_null(v: Option<&JsonValue>) -> JsonValue {
    match v {
        Some(v) => *v,
        None => JsonValue::Null,
    }
}

/// Whether a value reads as a byte: an integer from 0 to 255.
pub open spec fn is_byte(v: JsonValue) -> bool {
    v matches JsonValue::PosInt(n) && n <= 255
}

/// The byte a value stands for (meaningful where `is_byte` holds).
pub open spec fn byte_of(v: JsonValue) -> u8 {
    match v {
        JsonValue::PosInt(n) => n as u8,
        _ => 0,
    }
}

/// Whether a value reads as a `(text, flag)` pair: an array of exactly a
/// string and a boolean.
pub open spec fn is_flag_pair(v: JsonValue) -> bool {
    &&& v is Array
    &&& v->Array_0@.len() == 2
    &&& v->Array_0@[0] is Str
    &&& v->Array_0@[1] is Bool
}

/// The `(text, flag)` pair a value stands for (where `is_flag_pair` holds).
pub open spec fn flag_pair_of(v: JsonValue) -> (Seq<char>, bool) {
    (v->Array_0@[0]->Str_0@, v->Array_0@[1]->Bool_0)
}

/// The views of a list of `(text, flag)` pairs.
pub open spec fn flag_pairs_view(v: Seq<(String, bool)>) -> Seq<(Seq<char>, bool)> {
    v.map_values(|p: (String, bool)| (p.0@, p.1))
}

/// The views of a list of byte strings.
pub open spec fn byte_lists_view(v: Seq<Vec<u8>>) -> Seq<Seq<u8>> {
    v.map_values(|b: Vec<u8>| b@)
}

/// A JSON document as a mathematical value.
pub enum JsonView {
    Null,
    Bool(bool),
    PosInt(u64),
    NegInt(i64),
    Float,
    Str(Seq<char>),
    Array(Seq<JsonView>),
    Object(Seq<(Seq<char>, JsonView)>),
}

/// The view of a document: its strings as character sequences.
pub open spec fn doc_view(v: JsonValue) -> JsonView
    decreases v,
{
    match v {
        JsonValue::Null => JsonView::Null,
        JsonValue::Bool(b) => JsonView::Bool(b),
        JsonValue::PosInt(n) => JsonView::PosInt(n),
        JsonValue::NegInt(n) => JsonView::NegInt(n),
        JsonValue::Float => JsonView::Float,
        JsonValue::Str(s) => JsonView::Str(s@),
        JsonValue::Array(items) => JsonView::Array(docs_view(items@)),
        JsonValue::Object(members) => JsonView::Object(members_view(members@)),
    }
}

/// The views of a list of documents.
pub open spec fn docs_view(items: Seq<JsonValue>) -> Seq<JsonView>
    decreases items,
{
    if items.len() == 0 {
        Seq::empty()
    } else {
        seq![doc_view(items[0])] + docs_view(items.subrange(1, items.len() as int))
    }
}

/// The views of the members of an object.
pub open spec fn members_view(members: Seq<(String, JsonValue)>) -> Seq<(Seq<char>, JsonView)>
    decreases members,
{
    if members.len() == 0 {
        Seq::empty()
    } else {
        seq![(members[0].0@, doc_view(members[0].1))] + members_view(members.subrange(1, members.len() as int))
    }
}

/// Whether a document holds no number with a fraction or an exponent.
pub open spec fn integral(d: JsonView) -> bool
    decreases d,
{
    match d {
        JsonView::Float => false,
        JsonView::Array(items) => forall|i: int| 0 <= i < items.len() ==> #[trigger] integral(items[i]),
        JsonView::Object(members) => forall|i: int| 0 <= i < members.len() ==> #[trigger] integral(members[i].1),
        _ => true,
    }
}

/// The view of a list of documents, item by item.
pub proof fn lemma_docs_view(items: Seq<JsonValue>)
    ensures
        docs_view(items).len() == items.len(),
        forall|i: int| 0 <= i < items.len() ==> #[trigger] docs_view(items)[i] == doc_view(items[i]),
    decreases items.len(),
{
    if items.len() > 0 {
        let rest = items.subrange(1, items.len() as int);
        lemma_docs_view(rest);
        assert forall|i: int| 0 <= i < items.len() implies #[trigger] docs_view(items)[i] == doc_view(items[i]) by {
            if i > 0 {
                assert(rest[i - 1] == items[i]);
            }
        }
    }
}

/// The view of the members of an object, member by member.
pub proof fn lemma_members_view(members: Seq<(String, JsonValue)>)
    ensures
        members_view(members).len() == members.len(),
        forall|i: int| 0 <= i < members.len() ==> #[trigger] members_view(members)[i] == (members[i].0@, doc_view(members[i].1)),
    decreases members.len(),
{
    if members.len() > 0 {
        let rest = members.subrange(1, members.len() as int);
        lemma_members_view(rest);
        assert forall|i: int| 0 <= i < members.len() implies #[trigger] members_view(members)[i] == (members[i].0@, doc_view(members[i].1)) by {
            if i > 0 {
                assert(rest[i - 1] == members[i]);
            }
        }
    }
}

impl JsonValue {
    /// `self[key]`: the member under `key` of an object, and `null` for a
    /// missing key or a value that is not an object.
    pub open spec fn field(self, key: Seq<char>) -> JsonValue {
        match self {
            JsonValue::Object(members) => or_null(find_member(members@, key)),
            _ => JsonValue::Null,
        }
    }

    /// The text of a string, and the empty text for anything else.
    pub open spec fn text_or_empty(self) -> Seq<char> {
        match self {
            JsonValue::Str(s) => s@,
            _ => Seq::empty(),
        }
    }

    /// The value of an integer that fits in an `i64`.
    pub open spec fn as_i64(self) -> Option<i64> {
        match self {
            JsonValue::PosInt(n) => if n <= i64::MAX { Some(n as i64) } else { None },
            JsonValue::NegInt(n) => Some(n),
            _ => None,
        }
    }

    /// The value of an integer that is zero or more.
    pub open spec fn as_u64(self) -> Option<u64> {
        match self {
            JsonValue::PosInt(n) => Some(n),
            _ => None,
        }
    }

    /// The bytes an array of integers from 0 to 255 stands for; nothing
    /// else reads as bytes.
    pub open spec fn bytes(self) -> Option<Seq<u8>> {
        match self {
            JsonValue::Array(items) => if forall|i: int| 0 <= i < items@.len() ==> #[trigger] is_byte(items@[i]) {
                Some(items@.map_values(|v: JsonValue| byte_of(v)))
            } else {
                None
            },
            _ => None,
        }
    }

    /// The pairs an array of `[text, flag]` arrays stands for.
    pub open spec fn flag_pairs(self) -> Option<Seq<(Seq<char>, bool)>> {
        match self {
            JsonValue::Array(items) => if forall|i: int| 0 <= i < items@.len() ==> #[trigger] is_flag_pair(items@[i]) {
                Some(items@.map_values(|v: JsonValue| flag_pair_of(v)))
            } else {
                None
            },
            _ => None,
        }
    }

    /// The byte strings an array of byte arrays stands for.
    pub open spec fn byte_lists(self) -> Option<Seq<Seq<u8>>> {
        match self {
            JsonValue::Array(items) => if forall|i: int| 0 <= i < items@.len() ==> (#[trigger] items@[i].bytes()) is Some {
                Some(items@.map_values(|v: JsonValue| v.bytes()->0))
            } else {
                None
            },
            _ => None,
        }
    }

    /// Looks `key` up in an object; `None` stands for a `null` result.
    pub fn get(&self, key: &str) -> (r: Option<&JsonValue>)
        ensures
            found_or_null(r) == self.field(key@),
    {
        match self {
            JsonValue::Object(members) => {
                let k = key.to_owned();
                let mut i: usize = 0;
                assert(members@.skip(0) =~= members@);
                while i < members.len()
                    invariant
                        0 <= i <= members@.len(),
                        k@ == key@,
                        self.field(key@) == or_null(find_member(members@, key@)),
                        find_member(members@, key@) == find_member(members@.skip(i as int), key@),
                    decreases members@.len() - i,
                {
                    assert(members@.skip(i as int).drop_first() =~= members@.skip(i + 1));
                    if members[i].0 == k {
                        assert(members@.skip(i as int)[0] == members@[i as int]);
                        return Some(&members[i].1);
                    }
                    i = i + 1;
                }
                None
            },
            _ => None,
        }
    }

    /// `self[key].as_str().unwrap_or("")`.
    pub fn text_field(&self, key: &str) -> (s: String)
        ensures
            s@ == self.field(key@).text_or_empty(),
    {
        match self.get(key) {
            Some(JsonValue::Str(s)) => s.clone(),
            _ => String::new(),
        }
    }

    /// `self[key].as_i64().unwrap_or(0)`.
    pub fn i64_field(&self, key: &str) -> (n: i64)
        ensures
            n == match self.field(key@).as_i64() {
                Some(n) => n,
                None => 0,
            },
    {
        match self.get(key) {
            Some(JsonValue::PosInt(n)) => if *n <= 9223372036854775807u64 { *n as i64 } else { 0 },
            Some(JsonValue::NegInt(n)) => *n,
            _ => 0,
        }
    }

    /// `self[key].as_u64().unwrap_or(default)`.
    pub fn u64_field_or(&self, key: &str, default: u64) -> (n: u64)
        ensures
            n == match self.field(key@).as_u64() {
                Some(n) => n,
                None => default,
            },
    {
        match self.get(key) {
            Some(JsonValue::PosInt(n)) => *n,
            _ => default,
        }
    }
}

/// Reads an optional value (absent reads as `null`) as bytes.
pub fn decode_bytes(v: Option<&JsonValue>) -> (r: Option<Vec<u8>>)
    ensures
        match r {
            Some(b) => found_or_null(v).bytes() == Some(b@),
            None => found_or_null(v).bytes() is None,
        },
{
    match v {
        Some(JsonValue::Array(items)) => {
            let mut out: Vec<u8> = Vec::new();
            let mut i: usize = 0;
            while i < items.len()
                invariant
                    0 <= i <= items@.len(),
                    out@.len() == i,
                    found_or_null(v) == JsonValue::Array(*items),
                    forall|j: int| 0 <= j < i ==> #[trigger] is_byte(items@[j]),
                    forall|j: int| 0 <= j < i ==> out@[j] == byte_of(#[trigger] items@[j]),
                decreases items@.len() - i,
            {
                match &items[i] {
                    JsonValue::PosInt(n) => {
                        if *n <= 255 {
                            out.push(*n as u8);
                        } else {
                            assert(!is_byte(items@[i as int]));
                            return None;
                        }
                    },
                    _ => {
                        assert(!is_byte(items@[i as int]));
                        return None;
                    },
                }
                i = i + 1;
            }
            assert(out@ =~= items@.map_values(|x: JsonValue| byte_of(x)));
            Some(out)
        },
        _ => None,
    }
}

/// Reads an optional value (absent reads as `null`) as a list of
/// `(text, flag)` pairs.
pub fn decode_flag_pairs(v: Option<&JsonValue>) -> (r: Option<Vec<(String, bool)>>)
    ensures
        match r {
            Some(p) => found_or_null(v).flag_pairs() == Some(flag_pairs_view(p@)),
            None => found_or_null(v).flag_pairs() is None,
        },
{
    match v {
        Some(JsonValue::Array(items)) => {
            let mut out: Vec<(String, bool)> = Vec::new();
            let mut i: usize = 0;
            while i < items.len()
                invariant
                    0 <= i <= items@.len(),
                    found_or_null(v) == JsonValue::Array(*items),
                    forall|j: int| 0 <= j < i ==> #[trigger] is_flag_pair(items@[j]),
                    flag_pairs_view(out@) =~= items@.take(i as int).map_values(|x: JsonValue| flag_pair_of(x)),
                decreases items@.len() - i,
            {
                let ghost before = out@;
                match &items[i] {
                    JsonValue::Array(pair) => {
                        if pair.len() != 2 {
                            assert(!is_flag_pair(items@[i as int]));
                            return None;
                        }
                        match (&pair[0], &pair[1]) {
                            (JsonValue::Str(t), JsonValue::Bool(b)) => {
                                out.push((t.clone(), *b));
                            },
                            _ => {
                                assert(!is_flag_pair(items@[i as int]));
                                return None;
                            },
                        }
                    },
                    _ => {
                        assert(!is_flag_pair(items@[i as int]));
                        return None;
                    },
                }
                assert(items@.take(i + 1) =~= items@.take(i as int).push(items@[i as int]));
                assert(flag_pairs_view(out@) =~= flag_pairs_view(before).push(flag_pair_of(items@[i as int])));
                i = i + 1;
            }
            assert(items@.take(items@.len() as int) =~= items@);
            Some(out)
        },
        _ => None,
    }
}

/// Reads an optional value (absent reads as `null`) as a list of byte
/// strings.
pub fn decode_byte_lists(v: Option<&JsonValue>) -> (r: Option<Vec<Vec<u8>>>)
    ensures
        match r {
            Some(l) => found_or_null(v).byte_lists() == Some(byte_lists_view(l@)),
            None => found_or_null(v).byte_lists() is None,
        },
{
    match v {
        Some(JsonValue::Array(items)) => {
            let mut out: Vec<Vec<u8>> = Vec::new();
            let mut i: usize = 0;
            while i < items.len()
                invariant
                    0 <= i <= items@.len(),
                    found_or_null(v) == JsonValue::Array(*items),
                    forall|j: int| 0 <= j < i ==> (#[trigger] items@[j].bytes()) is Some,
                    byte_lists_view(out@) =~= items@.take(i as int).map_values(|x: JsonValue| x.bytes()->0),
                decreases items@.len() - i,
            {
                let ghost before = out@;
                match decode_bytes(Some(&items[i])) {
                    Some(b) => {
                        out.push(b);
                    },
                    None => {
                        return None;
                    },
                }
                assert(items@.take(i + 1) =~= items@.take(i as int).push(items@[i as int]));
                assert(byte_lists_view(out@) =~= byte_lists_view(before).push(items@[i as int].bytes()->0));
                i = i + 1;
            }
            assert(items@.take(items@.len() as int) =~= items@);
            Some(out)
        },
        _ => None,
    }
}

} // verus!
