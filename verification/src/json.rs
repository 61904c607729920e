//! JSON values as this library reads them, and the two calls into
//! `serde_json` that turn text into a value and an object of texts into text.

use vstd::prelude::*;

verus! {

/// A JSON value. A number keeps its value where it is an integer that fits
/// `i64`; of any other number only that it is one.
#[derive(Debug, PartialEq, Eq)]
pub enum Json {
    Null,
    Bool(bool),
    Number(Option<i64>),
    Text(String),
    List(Vec<Json>),
    /// The members in the order in which they are held; a key is looked up
    /// from the front.
    Object(Vec<(String, Json)>),
}

/// What a `Json` stands for.
pub enum JsonValue {
    Null,
    Bool(bool),
    Number(Option<int>),
    Text(Seq<char>),
    List(Seq<JsonValue>),
    Object(Seq<(Seq<char>, JsonValue)>),
}

/// What the first `n` items of a list stand for.
pub open spec fn items_upto(items: Vec<Json>, n: nat) -> Seq<JsonValue>
    decreases items, n,
{
    if 0 < n <= items.len() {
        items_upto(items, (n - 1) as nat).push(json_value(items[n - 1]))
    } else {
        Seq::empty()
    }
}

/// What the first `n` members of an object stand for.
pub open spec fn members_upto(members: Vec<(String, Json)>, n: nat) -> Seq<(Seq<char>, JsonValue)>
    decreases members, n,
{
    if 0 < n <= members.len() {
        members_upto(members, (n - 1) as nat).push(
            (members[n - 1].0@, json_value(members[n - 1].1)),
        )
    } else {
        Seq::empty()
    }
}

/// What a `Json` stands for.
pub open spec fn json_value(json: Json) -> JsonValue
    decreases json, 0nat,
{
    match json {
        Json::Null => JsonValue::Null,
        Json::Bool(b) => JsonValue::Bool(b),
        Json::Number(n) => JsonValue::Number(
            match n {
                Some(v) => Some(v as int),
                None => None,
            },
        ),
        Json::Text(text) => JsonValue::Text(text@),
        Json::List(items) => JsonValue::List(items_upto(items, items.len() as nat)),
        Json::Object(members) => JsonValue::Object(members_upto(members, members.len() as nat)),
    }
}

impl View for Json {
    type V = JsonValue;

    open spec fn view(&self) -> JsonValue {
        json_value(*self)
    }
}

/// The value of the first member called `key`.
pub open spec fn member(members: Seq<(Seq<char>, JsonValue)>, key: Seq<char>) -> Option<
    JsonValue,
>
    decreases members.len(),
{
    if members.len() == 0 {
        None
    } else if members[0].0 == key {
        Some(members[0].1)
    } else {
        member(members.drop_first(), key)
    }
}

/// What the members of an object stand for.
pub open spec fn member_values(members: Seq<(String, Json)>) -> Seq<(Seq<char>, JsonValue)> {
    Seq::new(members.len(), |i: int| (members[i].0@, members[i].1@))
}

/// What the items of a list stand for.
pub open spec fn item_values(items: Seq<Json>) -> Seq<JsonValue> {
    Seq::new(items.len(), |i: int| items[i]@)
}

/// The first `n` members stand for what each of them stands for.
proof fn lemma_members_upto(members: Vec<(String, Json)>, n: nat)
    requires
        n <= members.len(),
    ensures
        members_upto(members, n) == member_values(members@).take(n as int),
    decreases n,
{
    if n > 0 {
        lemma_members_upto(members, (n - 1) as nat);
        assert(member_values(members@).take(n as int) =~= member_values(members@).take(
            n - 1,
        ).push((members[n - 1].0@, members[n - 1].1@)));
    } else {
        assert(member_values(members@).take(0) =~= Seq::empty());
    }
}

/// The first `n` items stand for what each of them stands for.
proof fn lemma_items_upto(items: Vec<Json>, n: nat)
    requires
        n <= items.len(),
    ensures
        items_upto(items, n) == item_values(items@).take(n as int),
    decreases n,
{
    if n > 0 {
        lemma_items_upto(items, (n - 1) as nat);
        assert(item_values(items@).take(n as int) =~= item_values(items@).take(n - 1).push(
            items[n - 1]@,
        ));
    } else {
        assert(item_values(items@).take(0) =~= Seq::empty());
    }
}

/// An object stands for its members, each by what it stands for.
pub proof fn lemma_object_view(members: Vec<(String, Json)>)
    ensures
        Json::Object(members)@ == JsonValue::Object(member_values(members@)),
{
    lemma_members_upto(members, members.len() as nat);
    assert(member_values(members@).take(members.len() as int) =~= member_values(members@));
}

/// A list stands for its items, each by what it stands for.
pub proof fn lemma_list_view(items: Vec<Json>)
    ensures
        Json::List(items)@ == JsonValue::List(item_values(items@)),
{
    lemma_items_upto(items, items.len() as nat);
    assert(item_values(items@).take(items.len() as int) =~= item_values(items@));
}

/// The value of the first member called `key`.
pub fn find_member<'a>(members: &'a Vec<(String, Json)>, key: &str) -> (found: Option<&'a Json>)
    ensures
        match found {
            Some(value) => member(member_values(members@), key@) == Some(value@),
            None => member(member_values(members@), key@) is None,
        },
{
    let wanted = key.to_owned();
    let ghost all = member_values(members@);
    let mut i: usize = 0;
    proof {
        assert(all.skip(0) =~= all);
    }
    while i < members.len()
        invariant
            i <= members@.len(),
            all == member_values(members@),
            wanted@ == key@,
            member(all, key@) == member(all.skip(i as int), key@),
        decreases members@.len() - i,
    {
        proof {
            assert(all.skip(i as int)[0] == all[i as int]);
            assert(all[i as int] == (members@[i as int].0@, members@[i as int].1@));
            assert(all.skip(i as int).drop_first() =~= all.skip(i + 1));
        }
        if members[i].0 == wanted {
            return Some(&members[i].1);
        }
        i += 1;
    }
    None
}

#[verifier::external_type_specification]
#[verifier::external_body]
pub struct ExValue(serde_json::Value);

/// A value of `serde_json` as a `Json`, variant by variant; of a number what
/// `serde_json::Number::as_i64` gives, and of an object the members in the
/// order in which `serde_json::Map` hands them out.
#[verifier::external_body]
fn json_of_value(value: serde_json::Value) -> Json {
    match value {
        serde_json::Value::Null => Json::Null,
        serde_json::Value::Bool(b) => Json::Bool(b),
        serde_json::Value::Number(n) => Json::Number(n.as_i64()),
        serde_json::Value::String(text) => Json::Text(text),
        serde_json::Value::Array(items) => Json::List(
            items.into_iter().map(json_of_value).collect(),
        ),
        serde_json::Value::Object(members) => Json::Object(
            members.into_iter().map(|(key, value)| (key, json_of_value(value))).collect(),
        ),
    }
}

/// What a text holds when read as JSON by `serde_json::from_str`: the value,
/// or the words in which `serde_json` says why the text is no JSON value.
pub uninterp spec fn json_of_text(text: Seq<char>) -> Result<JsonValue, Seq<char>>;

/// `serde_json::from_str` at the type `serde_json::Value`: the value that
/// `text` holds, or the error as its own `to_string` words it. Either is a
/// function of `text` alone, which this library names without spelling it
/// out.
#[verifier::external_body]
pub(crate) fn read_json(text: &str) -> (read: Result<Json, String>)
    ensures
        match read {
            Ok(json) => json_of_text(text@) == Ok::<JsonValue, Seq<char>>(json@),
            Err(why) => json_of_text(text@) == Err::<JsonValue, Seq<char>>(why@),
        },
{
    match serde_json::from_str::<serde_json::Value>(text) {
        Ok(value) => Ok(json_of_value(value)),
        Err(error) => Err(error.to_string()),
    }
}

/// The text of the JSON object whose members are the given pairs of a key
/// and a text, as `serde_json` writes it.
pub uninterp spec fn object_text(members: Seq<(Seq<char>, Seq<char>)>) -> Seq<char>;

/// What a list of pairs of texts stands for.
pub open spec fn text_pairs(pairs: Seq<(String, String)>) -> Seq<(Seq<char>, Seq<char>)> {
    Seq::new(pairs.len(), |i: int| (pairs[i].0@, pairs[i].1@))
}

/// `serde_json::Map::insert` for each pair, in their order, and then the
/// `to_string` of the `serde_json::Value` that holds the map: the compact
/// text of the object. It is a function of the pairs alone, which this
/// library names without spelling it out.
#[verifier::external_body]
pub(crate) fn write_object(members: &Vec<(String, String)>) -> (text: String)
    ensures
        text@ == object_text(text_pairs(members@)),
{
    let mut map = serde_json::Map::new();
    for (key, value) in members.iter() {
        map.insert(key.clone(), serde_json::Value::String(value.clone()));
    }
    serde_json::Value::Object(map).to_string()
}

} // verus!
