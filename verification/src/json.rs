//! JSON values: the tree that the protocol code works on, and its text form.
//!
//! Reading and writing JSON text is `serde_json`'s work. Everything above the text (looking up
//! members, building objects) happens on [`Json`], whose model is [`JsonView`].

use vstd::prelude::*;

use crate::text;

pub mod laws;

verus! {

/// What a JSON number holds.
pub enum NumberView {
    /// An integer that is not negative.
    PosInt(u64),
    /// A negative integer.
    NegInt(i64),
    /// Any other number, by its text.
    Float(Seq<char>),
}

/// The model of a JSON value. An object is a map from keys to values.
pub enum JsonView {
    Null,
    Bool(bool),
    Number(NumberView),
    Str(Seq<char>),
    Arr(Seq<JsonView>),
    Obj(Map<Seq<char>, JsonView>),
}

impl JsonView {
    /// The member with this key, where the value is an object that has one.
    pub open spec fn get(self, key: Seq<char>) -> Option<JsonView> {
        match self {
            JsonView::Obj(m) => if m.contains_key(key) {
                Some(m[key])
            } else {
                None
            },
            _ => None,
        }
    }

    /// The characters of a string.
    pub open spec fn as_str(self) -> Option<Seq<char>> {
        match self {
            JsonView::Str(s) => Some(s),
            _ => None,
        }
    }

    /// The truth value.
    pub open spec fn as_bool(self) -> Option<bool> {
        match self {
            JsonView::Bool(b) => Some(b),
            _ => None,
        }
    }

    /// The integer, where it is one that is not negative.
    pub open spec fn as_u64(self) -> Option<u64> {
        match self {
            JsonView::Number(NumberView::PosInt(n)) => Some(n),
            _ => None,
        }
    }

    /// The integer, where it fits an `i64`.
    pub open spec fn as_i64(self) -> Option<i64> {
        match self {
            JsonView::Number(n) => number_as_i64_spec(n),
            _ => None,
        }
    }

    /// The value with one member set. Only an object has members.
    pub open spec fn with(self, key: Seq<char>, value: JsonView) -> JsonView {
        match self {
            JsonView::Obj(m) => JsonView::Obj(m.insert(key, value)),
            _ => self,
        }
    }

    /// The value without one member.
    pub open spec fn without(self, key: Seq<char>) -> JsonView {
        match self {
            JsonView::Obj(m) => JsonView::Obj(m.remove(key)),
            _ => self,
        }
    }
}

/// The object without members.
pub open spec fn empty_object() -> JsonView {
    JsonView::Obj(Map::empty())
}

/// A string as a JSON value.
pub open spec fn str_json(text: Seq<char>) -> JsonView {
    JsonView::Str(text)
}

/// An unsigned integer as a JSON value.
pub open spec fn uint_json(n: u64) -> JsonView {
    JsonView::Number(NumberView::PosInt(n))
}

/// An integer as a JSON value.
pub open spec fn integer_json(n: i64) -> JsonView {
    if n < 0 {
        JsonView::Number(NumberView::NegInt(n))
    } else {
        JsonView::Number(NumberView::PosInt(n as u64))
    }
}

/// The integer in a number, where it fits an `i64`.
pub open spec fn number_as_i64_spec(n: NumberView) -> Option<i64> {
    match n {
        NumberView::PosInt(u) => if u <= i64::MAX {
            Some(u as i64)
        } else {
            None
        },
        NumberView::NegInt(i) => Some(i),
        NumberView::Float(_) => None,
    }
}

/// The key under which `serde_json` reads a text in place of an object.
pub const RAW_VALUE_KEY: &'static str = "$serde_json::private::RawValue";

/// Whether a key comes before another, character by character.
pub open spec fn comes_before(key: Seq<char>, other: Seq<char>) -> bool {
    exists|n: int|
        0 <= n <= key.len() && n < other.len() && #[trigger] key.take(n) == other.take(n) && (n == key.len()
            || (key[n] as u32) < (other[n] as u32))
}

/// Whether the first key of an object, in their order, is the one that means something else to
/// `serde_json`.
pub open spec fn starts_raw(members: Map<Seq<char>, JsonView>) -> bool {
    &&& members.contains_key(RAW_VALUE_KEY@)
    &&& !exists|k: Seq<char>| #[trigger] members.contains_key(k) && comes_before(k, RAW_VALUE_KEY@)
}

/// Whether the text form of a value gives the value back: no part of it is a `Float`, the first key of
/// no object is the one that means something else to `serde_json`, and arrays and objects are nested at
/// most `levels` deep.
pub open spec fn plain(value: JsonView, levels: nat) -> bool
    decreases levels,
{
    match value {
        JsonView::Number(NumberView::Float(_)) => false,
        JsonView::Arr(items) => levels > 0 && forall|i: int|
            0 <= i < items.len() ==> plain(#[trigger] items[i], (levels - 1) as nat),
        JsonView::Obj(m) => levels > 0 && !starts_raw(m) && forall|k: Seq<char>| #[trigger]
            m.contains_key(k) ==> plain(m[k], (levels - 1) as nat),
        _ => true,
    }
}

/// How deep `serde_json` reads nested arrays and objects.
pub const MAX_LEVELS: usize = 127;

// ---------------------------------------------------------------------------
// serde_json
// ---------------------------------------------------------------------------

/// `serde_json::Number`, carried unchanged from the text that was read to the text that is
/// written.
#[verifier::external_type_specification]
#[verifier::external_body]
pub struct ExNumber(serde_json::Number);

/// `serde_json::Value`, the form in which `serde_json` hands JSON over.
#[verifier::external_type_specification]
#[verifier::external_body]
pub struct ExValue(serde_json::Value);

/// What a `serde_json::Number` holds.
pub uninterp spec fn number_of(number: serde_json::Number) -> NumberView;

/// What a `serde_json::Value` holds.
pub uninterp spec fn json_of(value: serde_json::Value) -> JsonView;

/// What `serde_json::from_str` makes of a text: the value, or the text of its error.
pub uninterp spec fn json_parsed(text: Seq<char>) -> Result<JsonView, Seq<char>>;

/// What `serde_json::from_str` makes of a text that should hold an array: its items, or the text of
/// its error.
pub uninterp spec fn json_array_parsed(text: Seq<char>) -> Result<Seq<JsonView>, Seq<char>>;

/// What `serde_json::from_slice` makes of bytes: the value, or `None` where it reports an error.
pub uninterp spec fn json_parsed_bytes(bytes: Seq<u8>) -> Option<JsonView>;

/// The text that `serde_json` writes for a value.
pub uninterp spec fn json_text(value: JsonView) -> Seq<char>;

/// Whether a text is that of this value and of no other.
#[verifier::opaque]
pub open spec fn only_text_of(text: Seq<char>, value: JsonView) -> bool {
    &&& text == json_text(value)
    &&& forall|other: JsonView| #[trigger] json_text(other) == text ==> other == value
}

/// A value with the sign taken from each zero in it. Values that differ in such signs only are equal
/// as identities of requests.
pub open spec fn unsigned(value: JsonView) -> JsonView
    decreases value,
{
    match value {
        JsonView::Number(_) => if json_text(value) == "-0.0"@ && json_parsed("0.0"@) is Ok {
            json_parsed("0.0"@)->Ok_0
        } else {
            value
        },
        JsonView::Arr(items) => JsonView::Arr(
            Seq::new(
                items.len(),
                |i: int|
                    if 0 <= i < items.len() {
                        unsigned(items[i])
                    } else {
                        JsonView::Null
                    },
            ),
        ),
        JsonView::Obj(m) => JsonView::Obj(
            Map::new(
                |k: Seq<char>| m.contains_key(k),
                |k: Seq<char>|
                    if m.contains_key(k) {
                        unsigned(m[k])
                    } else {
                        JsonView::Null
                    },
            ),
        ),
        _ => value,
    }
}

/// The text by which a request is found that has this identity.
pub open spec fn id_text(id: JsonView) -> Seq<char> {
    json_text(unsigned(id))
}

/// `serde_json::Number::from(u64)`: the number holds this integer.
#[verifier::external_body]
fn number_from_u64(n: u64) -> (r: serde_json::Number)
    ensures
        number_of(r) == NumberView::PosInt(n),
{
    serde_json::Number::from(n)
}

/// `serde_json::Number::from(i64)`: the number holds this integer.
#[verifier::external_body]
fn number_from_i64(n: i64) -> (r: serde_json::Number)
    ensures
        JsonView::Number(number_of(r)) == integer_json(n),
{
    serde_json::Number::from(n)
}

/// `serde_json::Number::as_u64`: the integer, where the number is one that is not negative.
#[verifier::external_body]
fn number_as_u64(n: &serde_json::Number) -> (r: Option<u64>)
    ensures
        r == JsonView::Number(number_of(*n)).as_u64(),
{
    n.as_u64()
}

/// `serde_json::Number::as_i64`: the integer, where the number is one that fits.
#[verifier::external_body]
fn number_as_i64(n: &serde_json::Number) -> (r: Option<i64>)
    ensures
        r == number_as_i64_spec(number_of(*n)),
{
    n.as_i64()
}

/// `serde_json::Number::clone`: the copy holds the same number.
#[verifier::external_body]
fn number_clone(n: &serde_json::Number) -> (r: serde_json::Number)
    ensures
        number_of(r) == number_of(*n),
{
    n.clone()
}

/// `serde_json::from_str`: reads a text that holds one JSON value.
#[verifier::external_body]
fn value_from_str(text: &str) -> (r: Result<serde_json::Value, String>)
    ensures
        match r {
            Ok(v) => json_parsed(text@) is Ok && json_parsed(text@)->Ok_0 == json_of(v),
            Err(e) => json_parsed(text@) is Err && json_parsed(text@)->Err_0 == e@,
        },
{
    serde_json::from_str::<serde_json::Value>(text).map_err(|e| e.to_string())
}

/// What a list of `serde_json` values holds.
pub open spec fn values_of(values: Seq<serde_json::Value>) -> Seq<JsonView> {
    values.map_values(|v: serde_json::Value| json_of(v))
}

/// `serde_json::from_str`, into a vector: reads a text that holds one JSON array.
#[verifier::external_body]
fn values_from_str(text: &str) -> (r: Result<Vec<serde_json::Value>, String>)
    ensures
        match r {
            Ok(v) => json_array_parsed(text@) is Ok && json_array_parsed(text@)->Ok_0 == values_of(v@),
            Err(e) => json_array_parsed(text@) is Err && json_array_parsed(text@)->Err_0 == e@,
        },
{
    serde_json::from_str::<Vec<serde_json::Value>>(text).map_err(|e| e.to_string())
}

/// `serde_json::from_slice`: reads bytes that hold the text of one JSON value.
#[verifier::external_body]
fn value_from_slice(bytes: &[u8]) -> (r: Option<serde_json::Value>)
    ensures
        match r {
            Some(v) => json_parsed_bytes(bytes@) == Some(json_of(v)),
            None => json_parsed_bytes(bytes@) is None,
        },
{
    serde_json::from_slice::<serde_json::Value>(bytes).ok()
}

/// `serde_json::Value::to_string`: writes the compact text of a value. Different values have different
/// texts: strings are quoted and escaped, the members of an object are sorted by key, and a number is
/// written so that its kind and its digits tell it from any other. An integer is written in decimal
/// notation, and the text of a plain value reads back as that value.
#[verifier::external_body]
fn value_to_string(value: &serde_json::Value) -> (r: String)
    ensures
        r@ == json_text(json_of(*value)),
        only_text_of(r@, json_of(*value)),
        forall|n: u64| json_of(*value) == uint_json(n) ==> r@ == #[trigger] text::decimal(n as nat),
        plain(json_of(*value), MAX_LEVELS as nat) ==> (json_parsed(r@) is Ok && json_parsed(r@)->Ok_0
            == json_of(*value)),
        (plain(json_of(*value), MAX_LEVELS as nat) && json_of(*value) is Arr) ==> (json_array_parsed(
            r@,
        ) is Ok && json_array_parsed(r@)->Ok_0 == json_of(*value)->Arr_0),
{
    value.to_string()
}

/// Moves a `serde_json::Value` into a [`Json`], variant by variant.
#[verifier::external_body]
fn json_from_value(value: serde_json::Value) -> (r: Json)
    ensures
        r@ == json_of(value),
{
    match value {
        serde_json::Value::Null => Json::Null,
        serde_json::Value::Bool(b) => Json::Bool(b),
        serde_json::Value::Number(n) => Json::Number(n),
        serde_json::Value::String(s) => Json::String(s),
        serde_json::Value::Array(a) => Json::Array(a.into_iter().map(json_from_value).collect()),
        serde_json::Value::Object(m) => {
            Json::Object(m.into_iter().map(|(k, v)| (k, json_from_value(v))).collect())
        },
    }
}

/// Copies a [`Json`] into a `serde_json::Value`, variant by variant. Of two members with one key,
/// `serde_json::Map` keeps the later.
#[verifier::external_body]
fn json_to_value(json: &Json) -> (r: serde_json::Value)
    ensures
        json_of(r) == json@,
{
    match json {
        Json::Null => serde_json::Value::Null,
        Json::Bool(b) => serde_json::Value::Bool(*b),
        Json::Number(n) => serde_json::Value::Number(n.clone()),
        Json::String(s) => serde_json::Value::String(s.clone()),
        Json::Array(a) => serde_json::Value::Array(a.iter().map(json_to_value).collect()),
        Json::Object(m) => {
            serde_json::Value::Object(m.iter().map(|(k, v)| (k.clone(), json_to_value(v))).collect())
        },
    }
}

// ---------------------------------------------------------------------------
// Json
// ---------------------------------------------------------------------------

/// A JSON value. The members of an object stand in the order in which they were set; where a key
/// occurs twice, the later member counts.
#[derive(Debug)]
pub enum Json {
    Null,
    Bool(bool),
    Number(serde_json::Number),
    String(String),
    Array(Vec<Json>),
    Object(Vec<(String, Json)>),
}

impl View for Json {
    type V = JsonView;

    open spec fn view(&self) -> JsonView {
        json_view(*self)
    }
}

/// The model of a JSON value.
pub open spec fn json_view(json: Json) -> JsonView
    decreases json,
{
    match json {
        Json::Null => JsonView::Null,
        Json::Bool(b) => JsonView::Bool(b),
        Json::Number(n) => JsonView::Number(number_of(n)),
        Json::String(s) => JsonView::Str(s@),
        Json::Array(items) => JsonView::Arr(items_view(items@)),
        Json::Object(members) => JsonView::Obj(members_view(members@)),
    }
}

/// The models of the items of an array.
pub open spec fn items_view(items: Seq<Json>) -> Seq<JsonView>
    decreases items,
{
    if items.len() == 0 {
        seq![]
    } else {
        items_view(items.drop_last()).push(json_view(items.last()))
    }
}

/// The map that a list of members stands for.
pub open spec fn members_view(members: Seq<(String, Json)>) -> Map<Seq<char>, JsonView>
    decreases members,
{
    if members.len() == 0 {
        Map::empty()
    } else {
        members_view(members.drop_last()).insert(members.last().0@, json_view(members.last().1))
    }
}

/// The text of the members of a record, in the order of its fields. Each field is given by its name and
/// by the text of its value.
pub open spec fn fields_text(fields: Seq<(Seq<char>, Seq<char>)>) -> Seq<char>
    decreases fields.len(),
{
    if fields.len() == 0 {
        seq![]
    } else {
        let rest = fields_text(fields.drop_last());
        let between = if fields.len() == 1 {
            rest
        } else {
            rest + ","@
        };
        between + "\""@ + fields.last().0 + "\":"@ + fields.last().1
    }
}

/// The compact text of a record, in the order of its fields.
pub open spec fn record_text(fields: Seq<(Seq<char>, Seq<char>)>) -> Seq<char> {
    "{"@ + fields_text(fields) + "}"@
}

/// The model of a list of fields.
pub open spec fn fields_view(fields: Seq<(&'static str, String)>) -> Seq<(Seq<char>, Seq<char>)> {
    fields.map_values(|f: (&'static str, String)| (f.0@, f.1@))
}

/// The compact text of a record, in the order of its fields. The names need no escaping.
pub fn write_record(fields: Vec<(&'static str, String)>) -> (r: String)
    ensures
        r@ == record_text(fields_view(fields@)),
{
    let ghost all = fields_view(fields@);
    let mut r = "{".to_owned();
    let mut i: usize = 0;
    assert(all.take(0).len() == 0);
    assert(r@ =~= "{"@ + fields_text(all.take(0)));
    while i < fields.len()
        invariant
            all == fields_view(fields@),
            i <= fields.len(),
            r@ == "{"@ + fields_text(all.take(i as int)),
        decreases fields.len() - i,
    {
        proof {
            assert(all.take(i + 1).drop_last() =~= all.take(i as int));
            assert(all.take(i + 1).last() == all[i as int]);
        }
        let ghost before = fields_text(all.take(i as int));
        if i != 0 {
            r.append(",");
        }
        r.append("\"");
        r.append(fields[i].0);
        r.append("\":");
        r.append(fields[i].1.as_str());
        assert(r@ =~= "{"@ + fields_text(all.take(i + 1)));
        i = i + 1;
    }
    assert(all.take(all.len() as int) =~= all);
    r.append("}");
    r
}

/// The model of an optional value.
pub open spec fn opt_json(value: Option<Json>) -> Option<JsonView> {
    match value {
        Some(j) => Some(j@),
        None => None,
    }
}

/// The model of an optional borrowed value.
pub open spec fn opt_json_ref(value: Option<&Json>) -> Option<JsonView> {
    match value {
        Some(j) => Some(j@),
        None => None,
    }
}

/// The characters of an optional string.
pub open spec fn opt_text(value: Option<String>) -> Option<Seq<char>> {
    match value {
        Some(s) => Some(s@),
        None => None,
    }
}

proof fn lemma_items(items: Seq<Json>)
    ensures
        items_view(items).len() == items.len(),
        forall|i: int| 0 <= i < items.len() ==> #[trigger] items_view(items)[i] == json_view(items[i]),
    decreases items.len(),
{
    if items.len() > 0 {
        lemma_items(items.drop_last());
        assert forall|i: int| 0 <= i < items.len() implies #[trigger] items_view(items)[i] == json_view(
            items[i],
        ) by {
            if i < items.len() - 1 {
                assert(items.drop_last()[i] == items[i]);
            }
        }
    }
}

/// Members with other keys do not matter to the lookup of `key`.
proof fn lemma_members_suffix(members: Seq<(String, Json)>, from: int, key: Seq<char>)
    requires
        0 <= from <= members.len(),
        forall|j: int| from <= j < members.len() ==> (#[trigger] members[j]).0@ != key,
    ensures
        members_view(members).contains_key(key) == members_view(members.take(from)).contains_key(key),
        members_view(members).contains_key(key) ==> members_view(members)[key] == members_view(
            members.take(from),
        )[key],
    decreases members.len() - from,
{
    if from == members.len() {
        assert(members.take(from) =~= members);
    } else {
        let shorter = members.drop_last();
        assert(members[members.len() - 1].0@ != key);
        assert forall|j: int| from <= j < shorter.len() implies (#[trigger] shorter[j]).0@ != key by {
            assert(shorter[j] == members[j]);
        }
        lemma_members_suffix(shorter, from, key);
        assert(shorter.take(from) =~= members.take(from));
    }
}

impl Clone for Json {
    fn clone(&self) -> (r: Self)
        ensures
            r@ == self@,
        decreases self,
    {
        match self {
            Json::Null => Json::Null,
            Json::Bool(b) => Json::Bool(*b),
            Json::Number(n) => Json::Number(number_clone(n)),
            Json::String(s) => Json::String(s.clone()),
            Json::Array(items) => {
                let mut copy: Vec<Json> = Vec::new();
                let mut i: usize = 0;
                while i < items.len()
                    invariant
                        i <= items.len(),
                        self matches Json::Array(v) && v == items,
                        items_view(copy@) == items_view(items@.take(i as int)),
                    decreases items.len() - i,
                {
                    proof {
                        assert(decreases_to!(*self => items@[i as int]));
                    }
                    let item = items[i].clone();
                    let ghost before = copy@;
                    copy.push(item);
                    proof {
                        assert(copy@.drop_last() =~= before);
                        assert(items@.take(i + 1).drop_last() =~= items@.take(i as int));
                    }
                    i = i + 1;
                }
                assert(items@.take(items@.len() as int) =~= items@);
                Json::Array(copy)
            },
            Json::Object(members) => {
                let mut copy: Vec<(String, Json)> = Vec::new();
                let mut i: usize = 0;
                while i < members.len()
                    invariant
                        i <= members.len(),
                        self matches Json::Object(v) && v == members,
                        members_view(copy@) == members_view(members@.take(i as int)),
                    decreases members.len() - i,
                {
                    proof {
                        assert(decreases_to!(*self => members@[i as int].1));
                    }
                    let value = members[i].1.clone();
                    let ghost before = copy@;
                    copy.push((members[i].0.clone(), value));
                    proof {
                        assert(copy@.drop_last() =~= before);
                        assert(members@.take(i + 1).drop_last() =~= members@.take(i as int));
                    }
                    i = i + 1;
                }
                assert(members@.take(members@.len() as int) =~= members@);
                Json::Object(copy)
            },
        }
    }
}

/// A copy of an optional value.
pub fn clone_opt(value: &Option<Json>) -> (r: Option<Json>)
    ensures
        opt_json(r) == opt_json(*value),
{
    match value {
        Some(j) => Some(j.clone()),
        None => None,
    }
}

impl Json {
    /// Reads a text that holds one JSON value.
    pub fn parse(text: &str) -> (r: Result<Json, String>)
        ensures
            match r {
                Ok(j) => json_parsed(text@) is Ok && json_parsed(text@)->Ok_0 == j@,
                Err(e) => json_parsed(text@) is Err && json_parsed(text@)->Err_0 == e@,
            },
    {
        match value_from_str(text) {
            Ok(v) => Ok(json_from_value(v)),
            Err(e) => Err(e),
        }
    }

    /// The value that `serde_json` has read.
    pub fn from_value(value: serde_json::Value) -> (r: Json)
        ensures
            r@ == json_of(value),
    {
        json_from_value(value)
    }

    /// Reads a text that holds one JSON array, into its items.
    pub fn parse_array(text: &str) -> (r: Result<Vec<Json>, String>)
        ensures
            match r {
                Ok(items) => json_array_parsed(text@) is Ok && json_array_parsed(text@)->Ok_0
                    == items_view(items@),
                Err(e) => json_array_parsed(text@) is Err && json_array_parsed(text@)->Err_0 == e@,
            },
    {
        match values_from_str(text) {
            Ok(values) => {
                let ghost all = values@;
                let mut rest = values;
                let mut items: Vec<Json> = Vec::new();
                while rest.len() > 0
                    invariant
                        items.len() + rest.len() == all.len(),
                        rest@ == all.skip(items.len() as int),
                        items_view(items@) == values_of(all).take(items.len() as int),
                    decreases rest.len(),
                {
                    let ghost done = items@;
                    let value = rest.remove(0);
                    let item = json_from_value(value);
                    items.push(item);
                    proof {
                        assert(value == all[done.len() as int]);
                        assert(items@.drop_last() =~= done);
                        assert(rest@ =~= all.skip(items.len() as int));
                        assert(items_view(items@) =~= values_of(all).take(items.len() as int));
                    }
                }
                assert(values_of(all).take(all.len() as int) =~= values_of(all));
                Ok(items)
            },
            Err(e) => Err(e),
        }
    }

    /// Reads bytes that hold the text of one JSON value.
    pub fn parse_bytes(bytes: &[u8]) -> (r: Option<Json>)
        ensures
            opt_json(r) == json_parsed_bytes(bytes@),
    {
        match value_from_slice(bytes) {
            Some(v) => Some(json_from_value(v)),
            None => None,
        }
    }

    /// The compact text of the value.
    pub fn to_text(&self) -> (r: String)
        ensures
            r@ == json_text(self@),
            only_text_of(r@, self@),
            forall|n: u64| self@ == uint_json(n) ==> r@ == #[trigger] text::decimal(n as nat),
            plain(self@, MAX_LEVELS as nat) ==> (json_parsed(r@) is Ok && json_parsed(r@)->Ok_0 == self@),
            (plain(self@, MAX_LEVELS as nat) && self@ is Arr) ==> (json_array_parsed(r@) is Ok
                && json_array_parsed(r@)->Ok_0 == self@->Arr_0),
    {
        value_to_string(&json_to_value(self))
    }

    /// The value with the sign taken from each zero in it.
    pub fn unsigned(&self) -> (r: Json)
        ensures
            r@ == unsigned(self@),
        decreases self,
    {
        match self {
            Json::Number(_) => {
                if text::same_text(self.to_text().as_str(), "-0.0") {
                    match Json::parse("0.0") {
                        Ok(zero) => zero,
                        Err(_) => self.clone(),
                    }
                } else {
                    self.clone()
                }
            },
            Json::Array(items) => {
                let mut copy: Vec<Json> = Vec::new();
                let mut i: usize = 0;
                while i < items.len()
                    invariant
                        i <= items.len(),
                        self matches Json::Array(v) && v == items,
                        copy@.len() == i,
                        forall|j: int| 0 <= j < i ==> (#[trigger] copy@[j])@ == unsigned(items@[j]@),
                    decreases items.len() - i,
                {
                    proof {
                        assert(decreases_to!(*self => items@[i as int]));
                    }
                    copy.push(items[i].unsigned());
                    i = i + 1;
                }
                proof {
                    lemma_items(items@);
                    lemma_items(copy@);
                    assert(Json::Array(copy)@->Arr_0 =~= unsigned(self@)->Arr_0);
                }
                Json::Array(copy)
            },
            Json::Object(members) => {
                let mut copy: Vec<(String, Json)> = Vec::new();
                let mut i: usize = 0;
                assert(members_view(copy@) =~= unsigned(JsonView::Obj(members_view(members@.take(0))))->Obj_0);
                while i < members.len()
                    invariant
                        i <= members.len(),
                        self matches Json::Object(v) && v == members,
                        members_view(copy@) == unsigned(
                            JsonView::Obj(members_view(members@.take(i as int))),
                        )->Obj_0,
                    decreases members.len() - i,
                {
                    proof {
                        assert(decreases_to!(*self => members@[i as int].1));
                    }
                    let value = members[i].1.unsigned();
                    let ghost before = copy@;
                    copy.push((members[i].0.clone(), value));
                    proof {
                        assert(copy@.drop_last() =~= before);
                        assert(members@.take(i + 1).drop_last() =~= members@.take(i as int));
                        assert(members_view(copy@) =~= unsigned(
                            JsonView::Obj(members_view(members@.take(i + 1))),
                        )->Obj_0);
                    }
                    i = i + 1;
                }
                assert(members@.take(members@.len() as int) =~= members@);
                Json::Object(copy)
            },
            _ => self.clone(),
        }
    }

    /// The text by which a request is found that has this identity.
    pub fn id_text(&self) -> (r: String)
        ensures
            r@ == id_text(self@),
            forall|n: u64| self@ == uint_json(n) ==> r@ == #[trigger] text::decimal(n as nat),
    {
        let written = self.to_text();
        let r = self.unsigned().to_text();
        proof {
            reveal_strlit("-0.0");
            assert forall|n: u64| self@ == uint_json(n) implies r@ == #[trigger] text::decimal(n as nat) by {
                text::lemma_decimal_has_no_sign(n as nat);
                assert("-0.0"@[0] == '-');
                assert(written@ != "-0.0"@);
            }
        }
        r
    }

    /// A string value.
    pub fn string(text: &str) -> (r: Json)
        ensures
            r@ == str_json(text@),
    {
        Json::String(text.to_owned())
    }

    /// An integer value that is not negative.
    pub fn uint(n: u64) -> (r: Json)
        ensures
            r@ == uint_json(n),
    {
        Json::Number(number_from_u64(n))
    }

    /// An integer value.
    pub fn integer(n: i64) -> (r: Json)
        ensures
            r@ == integer_json(n),
    {
        Json::Number(number_from_i64(n))
    }

    /// An object without members.
    pub fn object() -> (r: Json)
        ensures
            r@ == empty_object(),
    {
        Json::Object(Vec::new())
    }

    /// Whether the value is an object.
    pub fn is_object(&self) -> (r: bool)
        ensures
            r == (self@ is Obj),
    {
        match self {
            Json::Object(_) => true,
            _ => false,
        }
    }

    /// The member of an object with this key.
    pub fn get(&self, key: &str) -> (r: Option<&Json>)
        ensures
            opt_json_ref(r) == self@.get(key@),
    {
        match self {
            Json::Object(members) => {
                let mut i: usize = members.len();
                while i > 0
                    invariant
                        i <= members.len(),
                        self matches Json::Object(v) && v == members,
                        forall|j: int| i <= j < members.len() ==> (#[trigger] members@[j]).0@ != key@,
                    decreases i,
                {
                    if text::same_text(members[i - 1].0.as_str(), key) {
                        proof {
                            lemma_members_suffix(members@, i as int, key@);
                            let head = members@.take(i as int);
                            assert(head.last() == members@[i - 1]);
                            assert(members_view(head) == members_view(head.drop_last()).insert(
                                head.last().0@,
                                json_view(head.last().1),
                            ));
                        }
                        return Some(&members[i - 1].1);
                    }
                    i = i - 1;
                }
                proof {
                    lemma_members_suffix(members@, 0, key@);
                    assert(members@.take(0).len() == 0);
                }
                None
            },
            _ => None,
        }
    }

    /// Whether the value is an object with this key.
    pub fn has(&self, key: &str) -> (r: bool)
        ensures
            r == self@.get(key@) is Some,
    {
        self.get(key).is_some()
    }

    /// The characters of a string.
    pub fn as_str(&self) -> (r: Option<&str>)
        ensures
            match r {
                Some(s) => self@.as_str() == Some(s@),
                None => self@.as_str() is None,
            },
    {
        match self {
            Json::String(s) => Some(s.as_str()),
            _ => None,
        }
    }

    /// The truth value.
    pub fn as_bool(&self) -> (r: Option<bool>)
        ensures
            r == self@.as_bool(),
    {
        match self {
            Json::Bool(b) => Some(*b),
            _ => None,
        }
    }

    /// The integer, where it is one that is not negative.
    pub fn as_u64(&self) -> (r: Option<u64>)
        ensures
            r == self@.as_u64(),
    {
        match self {
            Json::Number(n) => number_as_u64(n),
            _ => None,
        }
    }

    /// The integer, where it fits an `i64`.
    pub fn as_i64(&self) -> (r: Option<i64>)
        ensures
            r == self@.as_i64(),
    {
        match self {
            Json::Number(n) => number_as_i64(n),
            _ => None,
        }
    }

    /// The item of an array at this place.
    pub fn item(&self, index: usize) -> (r: Option<&Json>)
        ensures
            match self@ {
                JsonView::Arr(items) => if index < items.len() {
                    opt_json_ref(r) == Some(items[index as int])
                } else {
                    r is None
                },
                _ => r is None,
            },
    {
        match self {
            Json::Array(items) => {
                proof {
                    lemma_items(items@);
                }
                if index < items.len() {
                    Some(&items[index])
                } else {
                    None
                }
            },
            _ => None,
        }
    }

    /// The number of items of an array, or `None` for another value.
    pub fn array_len(&self) -> (r: Option<usize>)
        ensures
            match self@ {
                JsonView::Arr(items) => r is Some && r->0 == items.len(),
                _ => r is None,
            },
    {
        match self {
            Json::Array(items) => {
                proof {
                    lemma_items(items@);
                }
                Some(items.len())
            },
            _ => None,
        }
    }

    /// The value without the member with this key.
    pub fn without(self, key: &str) -> (r: Json)
        ensures
            r@ == self@.without(key@),
    {
        match self {
            Json::Object(members) => {
                let ghost all = members@;
                let mut rest = members;
                let mut kept: Vec<(String, Json)> = Vec::new();
                let ghost mut done: int = 0;
                while rest.len() > 0
                    invariant
                        0 <= done <= all.len(),
                        rest@ == all.skip(done),
                        members_view(kept@) =~= members_view(all.take(done)).remove(key@),
                    decreases rest.len(),
                {
                    let member = rest.remove(0);
                    let ghost before = kept@;
                    proof {
                        assert(member == all[done]);
                        assert(all.take(done + 1).drop_last() =~= all.take(done));
                        assert(all.take(done + 1).last() == all[done]);
                    }
                    if !text::same_text(member.0.as_str(), key) {
                        kept.push(member);
                        assert(kept@.drop_last() =~= before);
                    }
                    proof {
                        assert(rest@ =~= all.skip(done + 1));
                        done = done + 1;
                    }
                }
                proof {
                    assert(done == all.len());
                    assert(all.take(done) =~= all);
                }
                Json::Object(kept)
            },
            other => other,
        }
    }

    /// The value with the member with this key set.
    pub fn with(self, key: &str, value: Json) -> (r: Json)
        ensures
            r@ == self@.with(key@, value@),
    {
        let ghost before = self@;
        match self.without(key) {
            Json::Object(members) => {
                let mut all = members;
                let ghost kept = all@;
                all.push((key.to_owned(), value));
                proof {
                    assert(all@.drop_last() =~= kept);
                    assert(before is Obj);
                    assert(before->Obj_0.remove(key@).insert(key@, value@) =~= before->Obj_0.insert(
                        key@,
                        value@,
                    ));
                }
                Json::Object(all)
            },
            other => other,
        }
    }

    /// Whether the value is the object without members.
    pub fn is_empty_object(&self) -> (r: bool)
        ensures
            r == (self@ == empty_object()),
    {
        match self {
            Json::Object(members) => {
                if members.len() == 0 {
                    true
                } else {
                    assert(self@->Obj_0.contains_key(members@.last().0@));
                    false
                }
            },
            _ => false,
        }
    }

    /// An array of these items.
    pub fn array(items: Vec<Json>) -> (r: Json)
        ensures
            r@ == JsonView::Arr(items_view(items@)),
    {
        Json::Array(items)
    }
}

/// The model of a list of JSON values, item by item.
pub proof fn lemma_items_view(items: Seq<Json>)
    ensures
        items_view(items) == items.map_values(|j: Json| j@),
{
    lemma_items(items);
    assert(items_view(items) =~= items.map_values(|j: Json| j@));
}

} // verus!
