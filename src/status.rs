//! The status reply's JSON document, held as a tree of the library's own,
//! its structural decoding, and the flattening of a chat component to text.
use vstd::prelude::*;
use vstd::string::*;
use crate::varint::ProtocolError;

verus! {

/// A JSON value. Integers that fit in `i64` are kept; any other number is
/// `OtherNumber`. Object members keep their order; keys are unique.
#[derive(Debug)]
pub enum JsonValue {
    Null,
    Bool(bool),
    Int(i64),
    OtherNumber,
    Str(String),
    Array(Vec<JsonValue>),
    Object(Vec<(String, JsonValue)>),
}

/// Index of the first member of `ms`, from `i` on, whose key is `key`.
pub open spec fn find_key(ms: Seq<(String, JsonValue)>, key: Seq<char>, i: int) -> Option<int>
    decreases ms.len() - i,
{
    if i < 0 || i >= ms.len() {
        None
    } else if ms[i].0@ == key {
        Some(i)
    } else {
        find_key(ms, key, i + 1)
    }
}

/// The value of member `key` of `ms`, if any.
pub open spec fn member(ms: Seq<(String, JsonValue)>, key: Seq<char>) -> Option<JsonValue> {
    match find_key(ms, key, 0) {
        Some(i) => Some(ms[i].1),
        None => None,
    }
}

/// The plain text of a chat component: a string is itself; an object gives
/// its `text` string, then the text of each element of its `extra` array;
/// an array gives the text of each element; anything else gives nothing.
pub open spec fn flatten(v: JsonValue) -> Seq<char>
    decreases v, 0int,
{
    match v {
        JsonValue::Str(s) => s@,
        JsonValue::Array(items) => flatten_seq(items@),
        JsonValue::Object(ms) => object_text(ms@) + object_extra(ms@, 0),
        _ => Seq::empty(),
    }
}

/// The texts of `s`'s elements, in order, one after another.
pub open spec fn flatten_seq(s: Seq<JsonValue>) -> Seq<char>
    decreases s, 0int,
{
    if s.len() == 0 {
        Seq::empty()
    } else {
        flatten_seq(s.drop_last()) + flatten(s.last())
    }
}

/// An object's own `text`, when it is a string.
pub open spec fn object_text(ms: Seq<(String, JsonValue)>) -> Seq<char> {
    match member(ms, "text"@) {
        Some(JsonValue::Str(t)) => t@,
        _ => Seq::empty(),
    }
}

/// The text of an object's `extra` array, looking for the key from `i` on.
pub open spec fn object_extra(ms: Seq<(String, JsonValue)>, i: int) -> Seq<char>
    decreases ms, ms.len() - i,
{
    if i < 0 || i >= ms.len() {
        Seq::empty()
    } else if ms[i].0@ == "extra"@ {
        match ms[i].1 {
            JsonValue::Array(items) => flatten_seq(items@),
            _ => Seq::empty(),
        }
    } else {
        object_extra(ms, i + 1)
    }
}

/// Whether two strings hold the same characters.
pub fn same_text(a: &str, b: &str) -> (r: bool)
    ensures
        r == (a@ == b@),
{
    let n = a.unicode_len();
    if n != b.unicode_len() {
        return false;
    }
    let mut i: usize = 0;
    while i < n
        invariant
            n == a@.len(),
            n == b@.len(),
            i <= n,
            forall|k: int| 0 <= k < i ==> a@[k] == b@[k],
        decreases n - i,
    {
        if a.get_char(i) != b.get_char(i) {
            return false;
        }
        i = i + 1;
    }
    assert(a@ =~= b@);
    true
}

/// Position of the member whose key is `key`.
pub fn find_member(ms: &Vec<(String, JsonValue)>, key: &str) -> (r: Option<usize>)
    ensures
        r matches Some(i) ==> find_key(ms@, key@, 0) == Some(i as int),
        r is None ==> find_key(ms@, key@, 0) is None,
{
    let mut i: usize = 0;
    while i < ms.len()
        invariant
            i <= ms@.len(),
            find_key(ms@, key@, 0) == find_key(ms@, key@, i as int),
        decreases ms.len() - i,
    {
        if same_text(ms[i].0.as_str(), key) {
            return Some(i);
        }
        i = i + 1;
    }
    None
}

/// The plain text of a chat component (see `flatten`).
pub fn extract_text(v: &JsonValue) -> (r: String)
    ensures
        r@ == flatten(*v),
    decreases v,
{
    match v {
        JsonValue::Str(s) => s.clone(),
        JsonValue::Array(items) => concat_texts(items),
        JsonValue::Object(ms) => {
            let mut out = String::new();
            let text_key = "text";
            match find_member(ms, text_key) {
                Some(i) => {
                    proof {
                        lemma_find_key(ms@, text_key@, 0);
                    }
                    match &ms[i].1 {
                        JsonValue::Str(t) => {
                            out.append(t.as_str());
                        },
                        _ => {},
                    }
                },
                None => {},
            }
            assert(out@ == object_text(ms@));
            let extra_key = "extra";
            match find_member(ms, extra_key) {
                Some(i) => {
                    proof {
                        lemma_object_extra_at(ms@, 0, i as int);
                    }
                    match &ms[i].1 {
                        JsonValue::Array(items) => {
                            let t = concat_texts(items);
                            out.append(t.as_str());
                        },
                        _ => {},
                    }
                },
                None => {
                    proof {
                        lemma_object_extra_none(ms@, 0);
                    }
                },
            }
            out
        },
        _ => String::new(),
    }
}

/// A found member lies at or after the start of the search and has the key.
pub proof fn lemma_find_key(ms: Seq<(String, JsonValue)>, key: Seq<char>, i: int)
    ensures
        find_key(ms, key, i) matches Some(j) ==> i <= j < ms.len() && 0 <= j && ms[j].0@ == key,
    decreases ms.len() - i,
{
    if 0 <= i < ms.len() && ms[i].0@ != key {
        lemma_find_key(ms, key, i + 1);
    }
}

proof fn lemma_object_extra_at(ms: Seq<(String, JsonValue)>, i: int, j: int)
    requires
        0 <= i <= j,
        find_key(ms, "extra"@, i) == Some(j),
    ensures
        0 <= j < ms.len(),
        ms[j].0@ == "extra"@,
        object_extra(ms, i) == match ms[j].1 {
            JsonValue::Array(items) => flatten_seq(items@),
            _ => Seq::empty(),
        },
    decreases ms.len() - i,
{
    lemma_find_key(ms, "extra"@, i);
    if i != j {
        lemma_object_extra_at(ms, i + 1, j);
    }
}

proof fn lemma_object_extra_none(ms: Seq<(String, JsonValue)>, i: int)
    requires
        0 <= i,
        find_key(ms, "extra"@, i) is None,
    ensures
        object_extra(ms, i) == Seq::<char>::empty(),
    decreases ms.len() - i,
{
    if i < ms.len() {
        lemma_object_extra_none(ms, i + 1);
    }
}

/// The texts of `items`, one after another.
fn concat_texts(items: &Vec<JsonValue>) -> (r: String)
    ensures
        r@ == flatten_seq(items@),
    decreases items,
{
    let mut out = String::new();
    let mut i: usize = 0;
    while i < items.len()
        invariant
            i <= items@.len(),
            out@ == flatten_seq(items@.subrange(0, i as int)),
        decreases items.len() - i,
    {
        let t = extract_text(&items[i]);
        out.append(t.as_str());
        assert(items@.subrange(0, i + 1).drop_last() =~= items@.subrange(0, i as int));
        i = i + 1;
    }
    assert(items@.subrange(0, i as int) =~= items@);
    out
}

/// The plain text of a server's description: a string as it stands, a chat
/// component flattened.
pub fn description_to_text(desc: &JsonValue) -> (r: String)
    ensures
        r@ == flatten(*desc),
        desc matches JsonValue::Str(s) ==> r@ == s@,
{
    extract_text(desc)
}


/// The `version` part of a status reply.
#[derive(Debug)]
pub struct VersionInfo {
    pub name: String,
    pub protocol: i32,
}

/// The `players` part of a status reply.
#[derive(Debug)]
pub struct PlayersInfo {
    pub max: i32,
    pub online: i32,
}

/// A decoded status reply, its description flattened to plain text.
#[derive(Debug)]
pub struct StatusResponse {
    pub version: VersionInfo,
    pub players: PlayersInfo,
    pub motd: String,
}

/// A JSON integer that fits in `i32`.
pub open spec fn int32_of(v: JsonValue) -> Option<i32> {
    match v {
        JsonValue::Int(n) => if i32::MIN <= n <= i32::MAX {
            Some(n as i32)
        } else {
            None
        },
        _ => None,
    }
}

/// A JSON string's characters.
pub open spec fn str_of(v: JsonValue) -> Option<Seq<char>> {
    match v {
        JsonValue::Str(s) => Some(s@),
        _ => None,
    }
}

/// Whether the member `key` of `ms` is an integer that fits in `i32`.
pub open spec fn int_member(ms: Seq<(String, JsonValue)>, key: Seq<char>) -> Option<i32> {
    match member(ms, key) {
        Some(v) => int32_of(v),
        None => None,
    }
}

/// The string held by member `key` of `ms`.
pub open spec fn str_member(ms: Seq<(String, JsonValue)>, key: Seq<char>) -> Option<Seq<char>> {
    match member(ms, key) {
        Some(v) => str_of(v),
        None => None,
    }
}

/// One entry of the player sample: an object with string `name` and `id`.
pub open spec fn sample_entry_ok(v: JsonValue) -> bool {
    match v {
        JsonValue::Object(ms) => str_member(ms@, "name"@) is Some && str_member(ms@, "id"@) is Some,
        _ => false,
    }
}

/// Whether every element of `items` is a sample entry.
pub open spec fn sample_entries_ok(items: Seq<JsonValue>) -> bool {
    forall|k: int| 0 <= k < items.len() ==> sample_entry_ok(#[trigger] items[k])
}

/// The optional player sample: absent, null, or an array of entries.
pub open spec fn sample_ok(v: Option<JsonValue>) -> bool {
    match v {
        None => true,
        Some(JsonValue::Null) => true,
        Some(JsonValue::Array(items)) => sample_entries_ok(items@),
        _ => false,
    }
}

/// The members of an object value.
pub open spec fn object_members(v: Option<JsonValue>) -> Option<Seq<(String, JsonValue)>> {
    match v {
        Some(JsonValue::Object(ms)) => Some(ms@),
        _ => None,
    }
}

/// Whether `v` has the shape of a status reply: `version` with a string
/// `name` and an integer `protocol`; `players` with integers `max` and
/// `online` and a well-formed optional `sample`; and a `description`.
pub open spec fn status_valid(v: JsonValue) -> bool {
    match v {
        JsonValue::Object(ms) => {
            &&& object_members(member(ms@, "version"@)) matches Some(vm) && str_member(vm, "name"@) is Some
                && int_member(vm, "protocol"@) is Some
            &&& object_members(member(ms@, "players"@)) matches Some(pm) && int_member(pm, "max"@) is Some
                && int_member(pm, "online"@) is Some && sample_ok(member(pm, "sample"@))
            &&& member(ms@, "description"@) is Some
        },
        _ => false,
    }
}

/// Whether `r` holds what the status document `v` says.
pub open spec fn status_of(v: JsonValue, r: StatusResponse) -> bool {
    match v {
        JsonValue::Object(ms) => {
            &&& object_members(member(ms@, "version"@)) matches Some(vm) && str_member(vm, "name"@) == Some(
                r.version.name@,
            ) && int_member(vm, "protocol"@) == Some(r.version.protocol)
            &&& object_members(member(ms@, "players"@)) matches Some(pm) && int_member(pm, "max"@) == Some(
                r.players.max,
            ) && int_member(pm, "online"@) == Some(r.players.online)
            &&& member(ms@, "description"@) matches Some(d) && r.motd@ == flatten(d)
        },
        _ => false,
    }
}

/// The value of member `key`, if the object has one.
pub fn member_value<'a>(ms: &'a Vec<(String, JsonValue)>, key: &str) -> (r: Option<&'a JsonValue>)
    ensures
        r matches Some(x) ==> member(ms@, key@) == Some(*x),
        r is None ==> member(ms@, key@) is None,
{
    match find_member(ms, key) {
        Some(i) => {
            proof {
                lemma_find_key(ms@, key@, 0);
            }
            Some(&ms[i].1)
        },
        None => None,
    }
}

fn int_value(v: Option<&JsonValue>) -> (r: Option<i32>)
    ensures
        r == match v {
            Some(x) => int32_of(*x),
            None => None,
        },
{
    match v {
        Some(JsonValue::Int(n)) => {
            if i32::MIN as i64 <= *n && *n <= i32::MAX as i64 {
                Some(*n as i32)
            } else {
                None
            }
        },
        _ => None,
    }
}

fn str_value(v: Option<&JsonValue>) -> (r: Option<String>)
    ensures
        r matches Some(s) ==> v matches Some(x) && str_of(*x) == Some(s@),
        r is None ==> !(v matches Some(x) && str_of(*x) is Some),
{
    match v {
        Some(JsonValue::Str(s)) => Some(s.clone()),
        _ => None,
    }
}

fn sample_valid(v: &JsonValue) -> (r: bool)
    ensures
        r == sample_ok(Some(*v)),
{
    match v {
        JsonValue::Null => true,
        JsonValue::Array(items) => {
            let mut i: usize = 0;
            while i < items.len()
                invariant
                    *v == JsonValue::Array(*items),
                    i <= items@.len(),
                    forall|k: int| 0 <= k < i ==> sample_entry_ok(#[trigger] items@[k]),
                decreases items.len() - i,
            {
                let ok = match &items[i] {
                    JsonValue::Object(ms) => {
                        str_value(member_value(ms, "name")).is_some() && str_value(
                            member_value(ms, "id"),
                        ).is_some()
                    },
                    _ => false,
                };
                if !ok {
                    assert(!sample_entry_ok(items@[i as int]));
                    assert(!sample_entries_ok(items@));
                    return false;
                }
                i = i + 1;
            }
            true
        },
        _ => false,
    }
}

/// Decodes a status document; `BadJson` exactly when it lacks the shape
/// that `status_valid` describes.
pub fn status_from_json(v: &JsonValue) -> (r: Result<StatusResponse, ProtocolError>)
    ensures
        r is Ok <==> status_valid(*v),
        r matches Ok(s) ==> status_of(*v, s),
        r matches Err(e) ==> e == ProtocolError::BadJson,
{
    let ms = match v {
        JsonValue::Object(ms) => ms,
        _ => {
            return Err(ProtocolError::BadJson);
        },
    };
    let vm = match member_value(ms, "version") {
        Some(JsonValue::Object(vm)) => vm,
        _ => {
            return Err(ProtocolError::BadJson);
        },
    };
    let name = match str_value(member_value(vm, "name")) {
        Some(s) => s,
        None => {
            return Err(ProtocolError::BadJson);
        },
    };
    let protocol = match int_value(member_value(vm, "protocol")) {
        Some(n) => n,
        None => {
            return Err(ProtocolError::BadJson);
        },
    };
    let pm = match member_value(ms, "players") {
        Some(JsonValue::Object(pm)) => pm,
        _ => {
            return Err(ProtocolError::BadJson);
        },
    };
    let max = match int_value(member_value(pm, "max")) {
        Some(n) => n,
        None => {
            return Err(ProtocolError::BadJson);
        },
    };
    let online = match int_value(member_value(pm, "online")) {
        Some(n) => n,
        None => {
            return Err(ProtocolError::BadJson);
        },
    };
    match member_value(pm, "sample") {
        Some(x) => {
            if !sample_valid(x) {
                return Err(ProtocolError::BadJson);
            }
        },
        None => {},
    }
    let motd = match member_value(ms, "description") {
        Some(d) => description_to_text(d),
        None => {
            return Err(ProtocolError::BadJson);
        },
    };
    Ok(
        StatusResponse {
            version: VersionInfo { name, protocol },
            players: PlayersInfo { max, online },
            motd,
        },
    )
}

} // verus!
