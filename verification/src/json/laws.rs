//! How JSON values are read and changed.

use vstd::prelude::*;

use crate::json;
use crate::json::{JsonView, NumberView};

verus! {

/// A member is read from an object that has it. Other values have no members.
pub proof fn lemma_members_are_read(members: Map<Seq<char>, JsonView>, value: JsonView, key: Seq<char>)
    ensures
        members.contains_key(key) ==> JsonView::Obj(members).get(key) == Some(members[key]),
        !members.contains_key(key) ==> JsonView::Obj(members).get(key) is None,
        !(value is Obj) ==> value.get(key) is None,
{
}

/// A member that is set is read again, and the others are as they were. A member that is removed is
/// not there, and the others are. Values without members stay as they are.
pub proof fn lemma_members_are_changed(value: JsonView, key: Seq<char>, member: JsonView, other: Seq<char>)
    ensures
        value is Obj ==> value.with(key, member).get(key) == Some(member),
        value is Obj && other != key ==> value.with(key, member).get(other) == value.get(other),
        value.without(key).get(key) is None,
        other != key ==> value.without(key).get(other) == value.get(other),
        value is Obj ==> value.with(key, member) is Obj && value.without(key) is Obj,
        !(value is Obj) ==> value.with(key, member) == value && value.without(key) == value,
{
}

/// An object without members has none.
pub proof fn lemma_empty_object(key: Seq<char>)
    ensures
        json::empty_object() is Obj,
        json::empty_object().get(key) is None,
{
}

/// Each kind of value is read as what it is, and as nothing else. A number is read as an unsigned
/// integer if it is one, and as a signed one if it fits.
pub proof fn lemma_values_are_read(text: Seq<char>, flag: bool, n: u64, i: i64, number: Seq<char>)
    ensures
        JsonView::Str(text).as_str() == Some(text),
        JsonView::Str(text).as_bool() is None,
        JsonView::Str(text).as_u64() is None,
        JsonView::Str(text).as_i64() is None,
        JsonView::Bool(flag).as_bool() == Some(flag),
        JsonView::Bool(flag).as_str() is None,
        JsonView::Bool(flag).as_u64() is None,
        JsonView::Number(NumberView::PosInt(n)).as_u64() == Some(n),
        JsonView::Number(NumberView::PosInt(n)).as_str() is None,
        n <= i64::MAX ==> JsonView::Number(NumberView::PosInt(n)).as_i64() is Some && JsonView::Number(
            NumberView::PosInt(n),
        ).as_i64()->0 as int == n as int,
        n > i64::MAX ==> JsonView::Number(NumberView::PosInt(n)).as_i64() is None,
        JsonView::Number(NumberView::NegInt(i)).as_i64() == Some(i),
        JsonView::Number(NumberView::NegInt(i)).as_u64() is None,
        JsonView::Number(NumberView::Float(number)).as_u64() is None,
        JsonView::Number(NumberView::Float(number)).as_i64() is None,
        JsonView::Null.as_str() is None,
        JsonView::Null.as_bool() is None,
        JsonView::Null.as_u64() is None,
        JsonView::Null.as_i64() is None,
{
}

/// The value of an integer is read back as the integer.
pub proof fn lemma_integers_are_read(n: u64, i: i64)
    ensures
        json::uint_json(n).as_u64() == Some(n),
        json::integer_json(i).as_i64() == Some(i),
        i >= 0 ==> json::integer_json(i).as_u64() is Some && json::integer_json(i).as_u64()->0 as int
            == i as int,
        i < 0 ==> json::integer_json(i).as_u64() is None,
{
}

/// Two identities are told apart by their texts, except that the sign of a zero does not count:
/// values that hold no number are compared as they stand.
pub proof fn lemma_identity_of_plain_values(text: Seq<char>, flag: bool)
    ensures
        json::id_text(JsonView::Str(text)) == json::json_text(JsonView::Str(text)),
        json::id_text(JsonView::Bool(flag)) == json::json_text(JsonView::Bool(flag)),
        json::id_text(JsonView::Null) == json::json_text(JsonView::Null),
{
}

/// A number whose text is not that of the negative zero is compared as it stands.
pub proof fn lemma_identity_of_numbers(number: NumberView)
    ensures
        json::json_text(JsonView::Number(number)) != "-0.0"@ ==> json::id_text(JsonView::Number(number))
            == json::json_text(JsonView::Number(number)),
        json::json_text(JsonView::Number(number)) == "-0.0"@ && json::json_parsed("0.0"@) is Ok
            ==> json::id_text(JsonView::Number(number)) == json::json_text(json::json_parsed("0.0"@)->Ok_0),
{
}

/// Leaving signs of zeros out changes numbers only: lists keep their length, and objects keep the
/// names of their members.
pub proof fn lemma_unsigned_keeps_shape(items: Seq<JsonView>, members: Map<Seq<char>, JsonView>)
    ensures
        ({
            let list = json::unsigned(JsonView::Arr(items));
            &&& list is Arr
            &&& list->Arr_0.len() == items.len()
            &&& forall|i: int|
                0 <= i < items.len() ==> #[trigger] list->Arr_0[i] == json::unsigned(items[i])
        }),
        ({
            let object = json::unsigned(JsonView::Obj(members));
            &&& object is Obj
            &&& object->Obj_0.dom() == members.dom()
            &&& forall|key: Seq<char>|
                members.contains_key(key) ==> #[trigger] object->Obj_0[key] == json::unsigned(members[key])
        }),
{
    reveal_with_fuel(json::unsigned, 2);
    let object = json::unsigned(JsonView::Obj(members));
    assert(object->Obj_0.dom() =~= members.dom());
}

/// The text of a record: its fields in their order, each name in quotation marks before a colon and the
/// text of its value, with commas between them and braces around them.
pub proof fn lemma_record_text(
    fields: Seq<(Seq<char>, Seq<char>)>,
    first: (Seq<char>, Seq<char>),
    more: (Seq<char>, Seq<char>),
)
    ensures
        json::record_text(seq![]) == "{}"@,
        json::record_text(seq![first]) == "{\""@ + first.0 + "\":"@ + first.1 + "}"@,
        json::record_text(fields) == seq!['{'] + json::fields_text(fields) + seq!['}'],
        fields.len() > 0 ==> json::fields_text(fields.push(more)) == json::fields_text(fields) + ",\""@
            + more.0 + "\":"@ + more.1,
{
    reveal_strlit("{}");
    reveal_strlit("{");
    reveal_strlit("}");
    reveal_strlit("\"");
    reveal_strlit("\":");
    reveal_strlit(",");
    reveal_strlit("{\"");
    reveal_strlit(",\"");
    assert("{"@ =~= seq!['{']);
    assert("}"@ =~= seq!['}']);
    assert(json::fields_text(seq![]) =~= seq![]);
    assert(json::record_text(seq![]) =~= "{}"@);
    assert(seq![first].drop_last() =~= seq![]);
    assert(json::fields_text(seq![first]) =~= "\""@ + first.0 + "\":"@ + first.1);
    assert(json::record_text(seq![first]) =~= "{\""@ + first.0 + "\":"@ + first.1 + "}"@);
    if fields.len() > 0 {
        assert(fields.push(more).drop_last() =~= fields);
        assert(json::fields_text(fields.push(more)) =~= json::fields_text(fields) + ",\""@ + more.0 + "\":"@
            + more.1);
    }
}

/// A list of values is seen value by value, and the members of an object under their names, the last
/// one of a name counting.
pub proof fn lemma_views(items: Seq<json::Json>, item: json::Json, members: Seq<(String, json::Json)>, name: String)
    ensures
        json::items_view(items.push(item)) == json::items_view(items).push(json::json_view(item)),
        json::items_view(Seq::<json::Json>::empty()).len() == 0,
        json::members_view(members.push((name, item))) == json::members_view(members).insert(
            name@,
            json::json_view(item),
        ),
        json::members_view(Seq::<(String, json::Json)>::empty()) == Map::<Seq<char>, JsonView>::empty(),
{
    assert(items.push(item).drop_last() =~= items);
    assert(members.push((name, item)).drop_last() =~= members);
}

/// Texts, flags, null and whole numbers are given back from their text form. A number with a fraction may
/// not be. A list is where all its items are and it may be nested as deep, and so is an object whose first
/// key has no other meaning.
pub proof fn lemma_plain_values(
    text: Seq<char>,
    flag: bool,
    n: u64,
    items: Seq<JsonView>,
    members: Map<Seq<char>, JsonView>,
    levels: nat,
)
    ensures
        json::plain(JsonView::Null, levels),
        json::plain(JsonView::Bool(flag), levels),
        json::plain(JsonView::Str(text), levels),
        json::plain(JsonView::Number(NumberView::PosInt(n)), levels),
        !json::plain(JsonView::Number(NumberView::Float(text)), levels),
        !json::plain(JsonView::Arr(items), 0),
        !json::plain(JsonView::Obj(members), 0),
        json::plain(JsonView::Arr(items), levels + 1) <==> forall|i: int|
            0 <= i < items.len() ==> json::plain(#[trigger] items[i], levels),
        json::plain(JsonView::Obj(members), levels + 1) <==> {
            &&& !json::starts_raw(members)
            &&& forall|k: Seq<char>| #[trigger] members.contains_key(k) ==> json::plain(members[k], levels)
        },
        !members.contains_key("$serde_json::private::RawValue"@) ==> !json::starts_raw(members),
{
    let list = JsonView::Arr(items);
    let next = (levels + 1) as nat;
    assert((next - 1) as nat == levels);
    assert(list->Arr_0 == items);
    if json::plain(list, next) {
        assert(forall|i: int|
            0 <= i < list->Arr_0.len() ==> json::plain(#[trigger] list->Arr_0[i], (next - 1) as nat));
        assert forall|i: int| 0 <= i < items.len() implies json::plain(#[trigger] items[i], levels) by {
            assert(json::plain(list->Arr_0[i], (next - 1) as nat));
        }
    }
}

/// Of two keys the one that the other goes on from comes first, else the one whose first different
/// character is lower.
pub proof fn lemma_key_order(start: Seq<char>, a: char, b: char, rest: Seq<char>, other: Seq<char>)
    requires
        (a as u32) < (b as u32),
    ensures
        json::comes_before(start + seq![a] + rest, start + seq![b] + other),
        json::comes_before(start, start + seq![a] + rest),
        !json::comes_before(start, start),
{
    let first = start + seq![a] + rest;
    let second = start + seq![b] + other;
    let n = start.len() as int;
    assert(first[n] == a && second[n] == b);
    assert(first.take(n) =~= start && second.take(n) =~= start);
    assert(start.take(n) =~= start);
}

} // verus!
