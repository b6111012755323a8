//! JSON values as plain data, and the way from and to JSON text.

use crate::numbers::{digits_of, digits_text, signed_digits, signed_text};
use crate::text::same_text;
use vstd::prelude::*;
use vstd::string::*;

verus! {

/// What a number is: a non-negative integer, a negative integer, or anything
/// else, known by its text.
pub enum NumberData {
    Unsigned(u64),
    Negative(i64),
    Other(Seq<char>),
}

/// A JSON value. The members of an object keep their order.
pub enum JsonData {
    Null,
    Bool(bool),
    Number(NumberData),
    Text(Seq<char>),
    Array(Seq<JsonData>),
    Object(Seq<(Seq<char>, JsonData)>),
}

/// A number that is not a 64-bit integer is carried as `serde_json` holds it.
#[derive(Debug)]
pub enum JsonNumber {
    Unsigned(u64),
    Negative(i64),
    Other(serde_json::Number),
}

impl View for JsonNumber {
    type V = NumberData;

    open spec fn view(&self) -> NumberData {
        match *self {
            JsonNumber::Unsigned(n) => NumberData::Unsigned(n),
            JsonNumber::Negative(n) => NumberData::Negative(n),
            JsonNumber::Other(n) => number_data(n),
        }
    }
}

/// A JSON value.
#[derive(Debug)]
pub enum Json {
    Null,
    Bool(bool),
    Number(JsonNumber),
    Text(String),
    Array(Vec<Json>),
    Object(Vec<(String, Json)>),
}

impl View for Json {
    type V = JsonData;

    open spec fn view(&self) -> JsonData {
        json_data(*self)
    }
}

/// The plain data of a value.
pub open spec fn json_data(value: Json) -> JsonData
    decreases value,
{
    match value {
        Json::Null => JsonData::Null,
        Json::Bool(b) => JsonData::Bool(b),
        Json::Number(n) => JsonData::Number(n@),
        Json::Text(text) => JsonData::Text(text@),
        Json::Array(items) => JsonData::Array(
            Seq::new(
                items@.len(),
                |i: int|
                    if 0 <= i < items@.len() {
                        json_data(items@[i])
                    } else {
                        JsonData::Null
                    },
            ),
        ),
        Json::Object(members) => JsonData::Object(
            Seq::new(
                members@.len(),
                |i: int|
                    if 0 <= i < members@.len() {
                        (members@[i].0@, json_data(members@[i].1))
                    } else {
                        (Seq::empty(), JsonData::Null)
                    },
            ),
        ),
    }
}

/// The value of the first member named `key`, counted from `from`.
pub open spec fn member_from(
    members: Seq<(Seq<char>, JsonData)>,
    key: Seq<char>,
    from: int,
) -> Option<JsonData>
    decreases members.len() - from,
{
    if from < 0 || from >= members.len() {
        None
    } else if members[from].0 == key {
        Some(members[from].1)
    } else {
        member_from(members, key, from + 1)
    }
}

impl JsonData {
    /// The member `key` of an object.
    pub open spec fn member(self, key: Seq<char>) -> Option<JsonData> {
        match self {
            JsonData::Object(members) => member_from(members, key, 0),
            _ => None,
        }
    }

    /// The characters of a text.
    pub open spec fn as_text(self) -> Option<Seq<char>> {
        match self {
            JsonData::Text(text) => Some(text),
            _ => None,
        }
    }

    /// The value of a number that is a 64-bit signed integer.
    pub open spec fn as_integer(self) -> Option<int> {
        match self {
            JsonData::Number(NumberData::Unsigned(n)) => if n <= i64::MAX {
                Some(n as int)
            } else {
                None
            },
            JsonData::Number(NumberData::Negative(n)) => Some(n as int),
            _ => None,
        }
    }

    /// The items of an array.
    pub open spec fn as_items(self) -> Option<Seq<JsonData>> {
        match self {
            JsonData::Array(items) => Some(items),
            _ => None,
        }
    }

    /// The text of the member `key`, where it is one.
    pub open spec fn text_member(self, key: Seq<char>) -> Option<Seq<char>> {
        match self.member(key) {
            Some(value) => value.as_text(),
            None => None,
        }
    }

    /// The integer of the member `key`, where it is one.
    pub open spec fn integer_member(self, key: Seq<char>) -> Option<int> {
        match self.member(key) {
            Some(value) => value.as_integer(),
            None => None,
        }
    }

    /// The items of the member `key`, where it is an array.
    pub open spec fn items_member(self, key: Seq<char>) -> Option<Seq<JsonData>> {
        match self.member(key) {
            Some(value) => value.as_items(),
            None => None,
        }
    }

    /// Whether the member `key` is a text with at least one character.
    pub open spec fn has_name(self, key: Seq<char>) -> bool {
        self.text_member(key) matches Some(text) && text.len() > 0
    }
}

/// `members` with the value of `key` set: in place where there is such a
/// member, else at the end.
pub open spec fn with_member(
    members: Seq<(Seq<char>, JsonData)>,
    key: Seq<char>,
    value: JsonData,
) -> Seq<(Seq<char>, JsonData)>
    decreases members.len(),
{
    if members.len() == 0 {
        seq![(key, value)]
    } else if members[0].0 == key {
        seq![(key, value)] + members.drop_first()
    } else {
        seq![members[0]] + with_member(members.drop_first(), key, value)
    }
}

impl Json {
    /// The member `key` of an object.
    pub fn get(&self, key: &str) -> (r: Option<&Json>)
        ensures
            r is Some <==> self@.member(key@) is Some,
            r matches Some(value) ==> self@.member(key@) == Some(value@),
    {
        match self {
            Json::Object(members) => {
                let ghost data = self@->Object_0;
                let mut i: usize = 0;
                while i < members.len()
                    invariant
                        i <= members@.len(),
                        self@ == JsonData::Object(data),
                        data.len() == members@.len(),
                        forall|k: int|
                            0 <= k < data.len() ==> #[trigger] data[k] == (
                                members@[k].0@,
                                members@[k].1@,
                            ),
                        member_from(data, key@, 0) == member_from(data, key@, i as int),
                    decreases members@.len() - i,
                {
                    if same_text(members[i].0.as_str(), key) {
                        return Some(&members[i].1);
                    }
                    i = i + 1;
                }
                None
            },
            _ => None,
        }
    }

    /// The text of a text.
    pub fn as_str(&self) -> (r: Option<&String>)
        ensures
            r is Some <==> self@.as_text() is Some,
            r matches Some(text) ==> self@.as_text() == Some(text@),
    {
        match self {
            Json::Text(text) => Some(text),
            _ => None,
        }
    }

    /// The value of a number that is a 64-bit signed integer.
    pub fn as_i64(&self) -> (r: Option<i64>)
        ensures
            r is Some <==> self@.as_integer() is Some,
            r matches Some(n) ==> self@.as_integer() == Some(n as int),
    {
        match self {
            Json::Number(JsonNumber::Unsigned(n)) => if *n <= 0x7fff_ffff_ffff_ffff {
                Some(*n as i64)
            } else {
                None
            },
            Json::Number(JsonNumber::Negative(n)) => Some(*n),
            Json::Number(JsonNumber::Other(n)) => n.as_i64(),
            _ => None,
        }
    }

    /// The items of an array.
    pub fn as_array(&self) -> (r: Option<&Vec<Json>>)
        ensures
            r is Some <==> self@ is Array,
            r matches Some(items) ==> {
                &&& self@->Array_0.len() == items@.len()
                &&& forall|i: int|
                    0 <= i < items@.len() ==> #[trigger] self@->Array_0[i] == items@[i]@
            },
    {
        match self {
            Json::Array(items) => Some(items),
            _ => None,
        }
    }

    /// Whether this is an object.
    pub fn is_object(&self) -> (r: bool)
        ensures
            r == (self@ is Object),
    {
        match self {
            Json::Object(_) => true,
            _ => false,
        }
    }

    /// Whether this is an array.
    pub fn is_array(&self) -> (r: bool)
        ensures
            r == (self@ is Array),
    {
        match self {
            Json::Array(_) => true,
            _ => false,
        }
    }

    /// Whether this is null.
    pub fn is_null(&self) -> (r: bool)
        ensures
            r == (self@ is Null),
    {
        match self {
            Json::Null => true,
            _ => false,
        }
    }

    /// The text of the member `key`, where it is one.
    pub fn text_at(&self, key: &str) -> (r: Option<&String>)
        ensures
            r is Some <==> self@.text_member(key@) is Some,
            r matches Some(text) ==> self@.text_member(key@) == Some(text@),
    {
        match self.get(key) {
            Some(value) => value.as_str(),
            None => None,
        }
    }

    /// Whether the member `key` is the text `expected`.
    pub fn text_is(&self, key: &str, expected: &str) -> (r: bool)
        ensures
            r == (self@.text_member(key@) == Some(expected@)),
    {
        match self.text_at(key) {
            Some(text) => same_text(text.as_str(), expected),
            None => false,
        }
    }

    /// Whether the member `key` is a text with at least one character.
    pub fn named_at(&self, key: &str) -> (r: bool)
        ensures
            r == self@.has_name(key@),
    {
        match self.text_at(key) {
            Some(text) => !text.as_str().is_empty(),
            None => false,
        }
    }

    /// The integer of the member `key`, where it is one.
    pub fn integer_at(&self, key: &str) -> (r: Option<i64>)
        ensures
            r is Some <==> self@.integer_member(key@) is Some,
            r matches Some(n) ==> self@.integer_member(key@) == Some(n as int),
    {
        match self.get(key) {
            Some(value) => value.as_i64(),
            None => None,
        }
    }

    /// Sets the member `key` of an object: in place where there is one, else
    /// at the end. Any other value stays as it is.
    pub fn set(&mut self, key: &str, value: Json)
        ensures
            final(self)@ == (match old(self)@ {
                JsonData::Object(members) => JsonData::Object(with_member(members, key@, value@)),
                other => other,
            }),
    {
        match self {
            Json::Object(members) => {
                let ghost data = json_data(Json::Object(*members))->Object_0;
                let ghost before = members@;
                let mut i: usize = 0;
                while i < members.len() && !same_text(members[i].0.as_str(), key)
                    invariant
                        i <= members@.len(),
                        members@ == before,
                        data.len() == members@.len(),
                        forall|k: int|
                            0 <= k < data.len() ==> #[trigger] data[k] == (
                                before[k].0@,
                                before[k].1@,
                            ),
                        forall|k: int| 0 <= k < i ==> (#[trigger] data[k]).0 != key@,
                    decreases members@.len() - i,
                {
                    i = i + 1;
                }
                let ghost set_value = value@;
                proof {
                    lemma_with_member_at(data, key@, set_value, i as int);
                }
                if i < members.len() {
                    let name = key.to_owned();
                    members.set(i, (name, value));
                } else {
                    let name = key.to_owned();
                    members.push((name, value));
                }
                proof {
                    let after = json_data(Json::Object(*members))->Object_0;
                    assert(after =~= with_member(data, key@, set_value));
                }
            },
            _ => {},
        }
    }
}

/// Setting the member found at `i`, or appending where none was found.
pub proof fn lemma_with_member_at(
    members: Seq<(Seq<char>, JsonData)>,
    key: Seq<char>,
    value: JsonData,
    i: int,
)
    requires
        0 <= i <= members.len(),
        forall|k: int| 0 <= k < i ==> (#[trigger] members[k]).0 != key,
        i < members.len() ==> members[i].0 == key,
    ensures
        with_member(members, key, value) == if i < members.len() {
            members.update(i, (key, value))
        } else {
            members.push((key, value))
        },
    decreases members.len(),
{
    if members.len() == 0 {
        assert(members.push((key, value)) =~= seq![(key, value)]);
    } else if i == 0 {
        assert(members.update(0, (key, value)) =~= seq![(key, value)] + members.drop_first());
    } else {
        let rest = members.drop_first();
        assert forall|k: int| 0 <= k < i - 1 implies (#[trigger] rest[k]).0 != key by {
            assert(rest[k] == members[k + 1]);
        }
        lemma_with_member_at(rest, key, value, i - 1);
        if i < members.len() {
            assert(seq![members[0]] + rest.update(i - 1, (key, value)) =~= members.update(
                i,
                (key, value),
            ));
        } else {
            assert(seq![members[0]] + rest.push((key, value)) =~= members.push((key, value)));
        }
    }
}

/// Reading a member that was set gives what it was set to; the other members
/// keep their values.
pub proof fn law_member_set_then_read(
    members: Seq<(Seq<char>, JsonData)>,
    key: Seq<char>,
    value: JsonData,
    other: Seq<char>,
)
    ensures
        JsonData::Object(with_member(members, key, value)).member(key) == Some(value),
        other != key ==> JsonData::Object(with_member(members, key, value)).member(other)
            == JsonData::Object(members).member(other),
    decreases members.len(),
{
    let after = with_member(members, key, value);
    lemma_member_first(after, key);
    lemma_member_first(after, other);
    lemma_member_first(members, other);
    if members.len() == 0 {
        assert(after.drop_first() =~= members);
    } else if members[0].0 == key {
        assert(after.drop_first() =~= members.drop_first());
    } else {
        law_member_set_then_read(members.drop_first(), key, value, other);
        assert(after.drop_first() =~= with_member(members.drop_first(), key, value));
    }
}

/// A member is the first one or a member of the rest.
pub proof fn lemma_member_first(members: Seq<(Seq<char>, JsonData)>, key: Seq<char>)
    ensures
        member_from(members, key, 0) == if members.len() == 0 {
            None
        } else if members[0].0 == key {
            Some(members[0].1)
        } else {
            member_from(members.drop_first(), key, 0)
        },
{
    if members.len() > 0 {
        lemma_member_shift(members, key, 1);
    }
}

proof fn lemma_member_shift(members: Seq<(Seq<char>, JsonData)>, key: Seq<char>, from: int)
    requires
        members.len() > 0,
        from >= 1,
    ensures
        member_from(members, key, from) == member_from(members.drop_first(), key, from - 1),
    decreases members.len() - from,
{
    if from < members.len() {
        assert(members.drop_first()[from - 1] == members[from]);
        lemma_member_shift(members, key, from + 1);
    }
}

/// `serde_json::Value`, a parsed JSON text.
#[verifier::external_type_specification]
#[verifier::external_body]
pub struct ExValue(serde_json::Value);

/// `serde_json::Number`.
#[verifier::external_type_specification]
#[verifier::external_body]
pub struct ExNumber(serde_json::Number);

/// What a parsed value holds.
pub uninterp spec fn value_data(value: serde_json::Value) -> JsonData;

/// What a number holds.
pub uninterp spec fn number_data(number: serde_json::Number) -> NumberData;

/// What the JSON grammar makes of a text.
pub uninterp spec fn parsed_json(bytes: Seq<u8>) -> Option<JsonData>;

/// A value as compact JSON text.
pub uninterp spec fn json_text(data: JsonData) -> Seq<char>;

/// `serde_json::Number::as_u64`: the value of a non-negative integer.
pub assume_specification[ serde_json::Number::as_u64 ](number: &serde_json::Number) -> (r: Option<
    u64,
>)
    ensures
        r == (match number_data(*number) {
            NumberData::Unsigned(n) => Some(n),
            _ => None,
        }),
;

/// `serde_json::Number::as_i64`: the value of an integer that is a 64-bit
/// signed one; an integer held as negative is less than zero.
pub assume_specification[ serde_json::Number::as_i64 ](number: &serde_json::Number) -> (r: Option<
    i64,
>)
    ensures
        r == (match number_data(*number) {
            NumberData::Unsigned(n) => if n <= i64::MAX {
                Some(n as i64)
            } else {
                None
            },
            NumberData::Negative(n) => Some(n),
            NumberData::Other(_) => None,
        }),
        number_data(*number) is Negative && r is Some ==> r->0 < 0,
;

/// The text of a number.
pub open spec fn number_text(number: NumberData) -> Seq<char> {
    match number {
        NumberData::Unsigned(n) => digits_of(n as nat),
        NumberData::Negative(n) => signed_digits(n as int),
        NumberData::Other(text) => text,
    }
}

/// Calls `to_string` of a `serde_json::Number`: an integer in decimal, any
/// other number by the text it is known by.
#[verifier::external_body]
fn write_number(number: &serde_json::Number) -> (r: String)
    ensures
        r@ == number_text(number_data(*number)),
{
    number.to_string()
}

/// A parsed value with its parts laid open, one level deep.
enum Node {
    Null,
    Bool(bool),
    Number(serde_json::Number),
    Text(String),
    Array(Vec<serde_json::Value>),
    Object(Vec<(String, serde_json::Value)>),
}

/// What a value laid open holds.
spec fn node_data(node: Node) -> JsonData {
    match node {
        Node::Null => JsonData::Null,
        Node::Bool(b) => JsonData::Bool(b),
        Node::Number(n) => JsonData::Number(number_data(n)),
        Node::Text(text) => JsonData::Text(text@),
        Node::Array(items) => JsonData::Array(
            Seq::new(items@.len(), |i: int| value_data(items@[i])),
        ),
        Node::Object(members) => JsonData::Object(
            Seq::new(members@.len(), |i: int| (members@[i].0@, value_data(members@[i].1))),
        ),
    }
}

/// Tells the variants of a `serde_json::Value` apart and moves their contents;
/// an object's members have different names, and come in the order in which
/// its map walks them.
#[verifier::external_body]
fn open_value(value: serde_json::Value) -> (node: Node)
    ensures
        node_data(node) == value_data(value),
        node_data(node) is Object ==> distinct_names(node_data(node)->Object_0),
{
    match value {
        serde_json::Value::Null => Node::Null,
        serde_json::Value::Bool(b) => Node::Bool(b),
        serde_json::Value::Number(n) => Node::Number(n),
        serde_json::Value::String(text) => Node::Text(text),
        serde_json::Value::Array(items) => Node::Array(items),
        serde_json::Value::Object(members) => Node::Object(members.into_iter().collect()),
    }
}

/// Whether no two members of an object have the same name.
pub open spec fn distinct_names(members: Seq<(Seq<char>, JsonData)>) -> bool {
    forall|i: int, j: int|
        0 <= i < j < members.len() ==> (#[trigger] members[i]).0 != (#[trigger] members[j]).0
}

/// Builds a `serde_json::Value` from its parts; an object's members have
/// different names, and its map keeps their order.
#[verifier::external_body]
fn close_value(node: Node) -> (value: serde_json::Value)
    requires
        node_data(node) is Object ==> distinct_names(node_data(node)->Object_0),
    ensures
        value_data(value) == node_data(node),
{
    match node {
        Node::Null => serde_json::Value::Null,
        Node::Bool(b) => serde_json::Value::Bool(b),
        Node::Number(n) => serde_json::Value::Number(n),
        Node::Text(text) => serde_json::Value::String(text),
        Node::Array(items) => serde_json::Value::Array(items),
        Node::Object(members) => serde_json::Value::Object(members.into_iter().collect()),
    }
}

/// Calls `serde_json::from_slice` for a `serde_json::Value`. Whether the bytes
/// are JSON, and what value they spell, depends on them alone; no more is
/// claimed of it.
#[verifier::external_body]
fn parse_value(bytes: &[u8]) -> (r: Option<serde_json::Value>)
    ensures
        r is Some <==> parsed_json(bytes@) is Some,
        r matches Some(value) ==> parsed_json(bytes@) == Some(value_data(value)),
{
    serde_json::from_slice(bytes).ok()
}

/// Calls `serde_json::to_string` on a `serde_json::Value`, which does not fail:
/// the keys of its objects are strings, and its text is built in memory. The
/// text depends on what the value holds alone; no more is claimed of it.
#[verifier::external_body]
fn write_value(value: &serde_json::Value) -> (r: String)
    ensures
        r@ == json_text(value_data(*value)),
{
    serde_json::to_string(value).unwrap_or_default()
}

/// A number as plain data.
fn plain_number(number: serde_json::Number) -> (r: JsonNumber)
    ensures
        r@ == number_data(number),
        json_wf(JsonData::Number(r@)),
{
    match number.as_u64() {
        Some(n) => JsonNumber::Unsigned(n),
        None => match number.as_i64() {
            Some(n) => JsonNumber::Negative(n),
            None => JsonNumber::Other(number),
        },
    }
}

/// A parsed value as plain data.
fn plain_value(value: serde_json::Value) -> (r: Json)
    ensures
        r@ == value_data(value),
        json_wf(r@),
    decreases value_data(value),
{
    let ghost data = value_data(value);
    match open_value(value) {
        Node::Null => Json::Null,
        Node::Bool(b) => Json::Bool(b),
        Node::Number(n) => Json::Number(plain_number(n)),
        Node::Text(text) => Json::Text(text),
        Node::Array(items) => {
            let ghost given = items@;
            let mut out: Vec<Json> = Vec::new();
            for item in it: items
                invariant
                    it.seq() == given,
                    data == value_data(value),
                    data == JsonData::Array(Seq::new(given.len(), |i: int| value_data(given[i]))),
                    out@.len() == it.index(),
                    forall|k: int|
                        0 <= k < out@.len() ==> (#[trigger] out@[k])@ == value_data(given[k])
                            && json_wf(out@[k]@),
            {
                proof {
                    assert(data->Array_0[it.index() as int] == value_data(item));
                }
                out.push(plain_value(item));
            }
            let r = Json::Array(out);
            proof {
                assert(r@->Array_0 =~= data->Array_0);
                assert forall|i: int| 0 <= i < r@->Array_0.len() implies json_wf(
                    #[trigger] r@->Array_0[i],
                ) by {
                    assert(r@->Array_0[i] == r->Array_0@[i]@);
                }
            }
            r
        },
        Node::Object(members) => {
            let ghost given = members@;
            let mut out: Vec<(String, Json)> = Vec::new();
            for member in it: members
                invariant
                    it.seq() == given,
                    data == value_data(value),
                    data == JsonData::Object(
                        Seq::new(given.len(), |i: int| (given[i].0@, value_data(given[i].1))),
                    ),
                    out@.len() == it.index(),
                    forall|k: int|
                        0 <= k < out@.len() ==> (#[trigger] out@[k]).0@ == given[k].0@ && out@[k].1@
                            == value_data(given[k].1) && json_wf(out@[k].1@),
            {
                let (name, value) = member;
                proof {
                    assert(data->Object_0[it.index() as int].1 == value_data(value));
                }
                out.push((name, plain_value(value)));
            }
            let r = Json::Object(out);
            proof {
                assert(r@->Object_0 =~= data->Object_0);
                assert forall|i: int| 0 <= i < r@->Object_0.len() implies json_wf(
                    (#[trigger] r@->Object_0[i]).1,
                ) by {
                    assert(r@->Object_0[i].1 == r->Object_0@[i].1@);
                }
            }
            r
        },
    }
}

/// Whether every object in a value names its members apart, and every negative
/// integer is one.
pub open spec fn json_wf(data: JsonData) -> bool
    decreases data,
{
    match data {
        JsonData::Number(n) => n matches NumberData::Negative(v) ==> v < 0,
        JsonData::Array(items) => (forall|i: int|
            0 <= i < items.len() ==> json_wf(#[trigger] items[i])),
        JsonData::Object(members) => distinct_names(members) && forall|i: int|
            0 <= i < members.len() ==> json_wf((#[trigger] members[i]).1),
        _ => true,
    }
}

/// The items of an array in good form are in good form.
pub proof fn lemma_item_form(items: Seq<JsonData>, i: int)
    requires
        json_wf(JsonData::Array(items)),
        0 <= i < items.len(),
    ensures
        json_wf(items[i]),
{
    let data = JsonData::Array(items);
    assert(data->Array_0 == items);
    assert(forall|k: int| 0 <= k < items.len() ==> json_wf(#[trigger] items[k]));
}

/// The members of an object in good form are in good form.
pub proof fn lemma_member_form(members: Seq<(Seq<char>, JsonData)>, key: Seq<char>, from: int)
    requires
        json_wf(JsonData::Object(members)),
        0 <= from,
    ensures
        member_from(members, key, from) matches Some(value) ==> json_wf(value),
    decreases members.len() - from,
{
    if from < members.len() {
        assert(json_wf(members[from].1));
        lemma_member_form(members, key, from + 1);
    }
}

/// Setting a member keeps a value in good form.
pub proof fn lemma_set_keeps_form(
    members: Seq<(Seq<char>, JsonData)>,
    key: Seq<char>,
    value: JsonData,
)
    requires
        json_wf(JsonData::Object(members)),
        json_wf(value),
    ensures
        json_wf(JsonData::Object(with_member(members, key, value))),
{
    let i = lemma_first_member(members, key, 0);
    lemma_with_member_at(members, key, value, i);
    let after = with_member(members, key, value);
    assert forall|k: int| 0 <= k < after.len() implies json_wf((#[trigger] after[k]).1) by {
        if k < members.len() && k != i {
            assert(after[k] == members[k]);
        }
    }
    assert forall|a: int, b: int| 0 <= a < b < after.len() implies (#[trigger] after[a]).0 != (
    #[trigger] after[b]).0 by {
        if i < members.len() {
            assert(after[a].0 == members[a].0);
            assert(after[b].0 == members[b].0);
        } else if b < members.len() {
            assert(after[a] == members[a]);
            assert(after[b] == members[b]);
        } else {
            assert(after[a] == members[a]);
        }
    }
}

/// There is a first member of a name, or the end.
proof fn lemma_first_member(members: Seq<(Seq<char>, JsonData)>, key: Seq<char>, from: int) -> (i:
    int)
    requires
        0 <= from <= members.len(),
        forall|k: int| 0 <= k < from ==> (#[trigger] members[k]).0 != key,
    ensures
        0 <= i <= members.len(),
        forall|k: int| 0 <= k < i ==> (#[trigger] members[k]).0 != key,
        i < members.len() ==> members[i].0 == key,
    decreases members.len() - from,
{
    if from < members.len() && members[from].0 != key {
        lemma_first_member(members, key, from + 1)
    } else {
        from
    }
}

/// Calls `serde_json::Number::from` on an unsigned integer.
#[verifier::external_body]
fn number_from_unsigned(n: u64) -> (r: serde_json::Number)
    ensures
        number_data(r) == NumberData::Unsigned(n),
{
    serde_json::Number::from(n)
}

/// Calls `serde_json::Number::from` on a negative integer.
#[verifier::external_body]
fn number_from_negative(n: i64) -> (r: serde_json::Number)
    requires
        n < 0,
    ensures
        number_data(r) == NumberData::Negative(n),
{
    serde_json::Number::from(n)
}

/// Calls `clone` of a `serde_json::Number`.
#[verifier::external_body]
fn copy_number(n: &serde_json::Number) -> (r: serde_json::Number)
    ensures
        number_data(r) == number_data(*n),
{
    n.clone()
}

/// Plain data as `serde_json` holds it.
fn outside_value(json: &Json) -> (r: serde_json::Value)
    requires
        json_wf(json@),
    ensures
        value_data(r) == json@,
    decreases json,
{
    match json {
        Json::Null => close_value(Node::Null),
        Json::Bool(b) => close_value(Node::Bool(*b)),
        Json::Number(JsonNumber::Unsigned(n)) => close_value(
            Node::Number(number_from_unsigned(*n)),
        ),
        Json::Number(JsonNumber::Negative(n)) => close_value(
            Node::Number(number_from_negative(*n)),
        ),
        Json::Number(JsonNumber::Other(n)) => close_value(Node::Number(copy_number(n))),
        Json::Text(text) => close_value(Node::Text(text.clone())),
        Json::Array(items) => {
            let ghost data = json@->Array_0;
            let mut out: Vec<serde_json::Value> = Vec::new();
            for i in 0..items.len()
                invariant
                    *json == Json::Array(*items),
                    json_wf(json@),
                    json@ == JsonData::Array(data),
                    data.len() == items@.len(),
                    forall|k: int| 0 <= k < data.len() ==> #[trigger] data[k] == items@[k]@,
                    out@.len() == i,
                    forall|k: int| 0 <= k < i ==> value_data(#[trigger] out@[k]) == data[k],
            {
                proof {
                    lemma_item_form(data, i as int);
                }
                let item = outside_value(&items[i]);
                out.push(item);
            }
            let node = Node::Array(out);
            proof {
                assert(node_data(node)->Array_0 =~= data);
            }
            close_value(node)
        },
        Json::Object(members) => {
            let ghost data = json@->Object_0;
            let mut out: Vec<(String, serde_json::Value)> = Vec::new();
            for i in 0..members.len()
                invariant
                    *json == Json::Object(*members),
                    json_wf(json@),
                    json@ == JsonData::Object(data),
                    data.len() == members@.len(),
                    forall|k: int|
                        0 <= k < data.len() ==> #[trigger] data[k] == (
                            members@[k].0@,
                            members@[k].1@,
                        ),
                    out@.len() == i,
                    forall|k: int|
                        0 <= k < i ==> ((#[trigger] out@[k]).0@, value_data(out@[k].1)) == data[k],
            {
                proof {
                    assert(json_wf(JsonData::Object(data)));
                    assert(json_wf(data[i as int].1));
                    assert(decreases_to!(members@ => members@[i as int]));
                }
                let value = outside_value(&members[i].1);
                out.push((members[i].0.clone(), value));
            }
            let node = Node::Object(out);
            proof {
                assert(node_data(node)->Object_0 =~= data);
            }
            close_value(node)
        },
    }
}

/// Whether no two of the first members have the same name.
fn named_apart(members: &Vec<(String, Json)>) -> (r: bool)
    ensures
        r == distinct_names(json_data(Json::Object(*members))->Object_0),
{
    let ghost data = json_data(Json::Object(*members))->Object_0;
    for i in 0..members.len()
        invariant
            data == json_data(Json::Object(*members))->Object_0,
            forall|a: int, b: int|
                0 <= a < b < i ==> (#[trigger] data[a]).0 != (#[trigger] data[b]).0,
    {
        for j in 0..i
            invariant
                i < members@.len(),
                data == json_data(Json::Object(*members))->Object_0,
                forall|a: int| 0 <= a < j ==> (#[trigger] data[a]).0 != data[i as int].0,
        {
            if same_text(members[j].0.as_str(), members[i].0.as_str()) {
                proof {
                    assert(data[j as int].0 == data[i as int].0);
                }
                return false;
            }
        }
    }
    true
}

/// Whether every object in a value names its members apart, and every negative
/// integer is one: whether it can be written.
pub fn in_good_form(value: &Json) -> (r: bool)
    ensures
        r == json_wf(value@),
    decreases value,
{
    match value {
        Json::Number(JsonNumber::Negative(n)) => *n < 0,
        Json::Number(JsonNumber::Other(n)) => {
            // Where it is a negative integer, reading it says so.
            let _ = n.as_i64();
            true
        },
        Json::Array(items) => {
            let ghost data = value@->Array_0;
            for i in 0..items.len()
                invariant
                    *value == Json::Array(*items),
                    value@ == JsonData::Array(data),
                    data.len() == items@.len(),
                    forall|k: int| 0 <= k < data.len() ==> #[trigger] data[k] == items@[k]@,
                    forall|k: int| 0 <= k < i ==> json_wf(#[trigger] data[k]),
            {
                if !in_good_form(&items[i]) {
                    proof {
                        if json_wf(value@) {
                            lemma_item_form(data, i as int);
                        }
                    }
                    return false;
                }
            }
            true
        },
        Json::Object(members) => {
            let ghost data = value@->Object_0;
            if !named_apart(members) {
                return false;
            }
            for i in 0..members.len()
                invariant
                    *value == Json::Object(*members),
                    value@ == JsonData::Object(data),
                    data.len() == members@.len(),
                    distinct_names(data),
                    forall|k: int|
                        0 <= k < data.len() ==> #[trigger] data[k] == (
                            members@[k].0@,
                            members@[k].1@,
                        ),
                    forall|k: int| 0 <= k < i ==> json_wf((#[trigger] data[k]).1),
            {
                proof {
                    assert(decreases_to!(members@ => members@[i as int]));
                }
                if !in_good_form(&members[i].1) {
                    proof {
                        if json_wf(value@) {
                            assert(json_wf(data[i as int].1));
                        }
                    }
                    return false;
                }
            }
            true
        },
        _ => true,
    }
}

/// Writes a value as compact JSON text.
pub fn write_json(value: &Json) -> (r: String)
    requires
        json_wf(value@),
    ensures
        r@ == json_text(value@),
{
    write_value(&outside_value(value))
}

/// The text of a number: an integer in decimal, any other number by the text
/// it is known by.
pub fn number_string(number: &JsonNumber) -> (r: String)
    ensures
        r@ == number_text(number@),
{
    match number {
        JsonNumber::Unsigned(n) => digits_text(*n),
        JsonNumber::Negative(n) => signed_text(*n),
        JsonNumber::Other(n) => write_number(n),
    }
}

/// Reads JSON text.
pub fn parse_json(bytes: &[u8]) -> (r: Option<Json>)
    ensures
        r is Some <==> parsed_json(bytes@) is Some,
        r matches Some(value) ==> parsed_json(bytes@) == Some(value@) && json_wf(value@),
{
    match parse_value(bytes) {
        Some(value) => Some(plain_value(value)),
        None => None,
    }
}

/// An integer as JSON.
pub open spec fn json_integer(n: i64) -> JsonData {
    JsonData::Number(
        if n >= 0 {
            NumberData::Unsigned(n as u64)
        } else {
            NumberData::Negative(n)
        },
    )
}

/// Integers are read as what they are; texts, lists, objects, fractions and
/// integers past 64 bits are no integers.
pub proof fn law_integers_are_read(n: i64, value: JsonData)
    ensures
        json_integer(n).as_integer() == Some(n as int),
        !(value is Number) ==> value.as_integer() is None,
        value matches JsonData::Number(NumberData::Other(_)) ==> value.as_integer() is None,
        value matches JsonData::Number(NumberData::Unsigned(k)) && k > i64::MAX ==> value.as_integer()
            is None,
{
}

/// An object has the first of its members under a name, no member under a name
/// that none has, and nothing but an object has members.
pub proof fn law_objects_have_their_members(
    before: Seq<(Seq<char>, JsonData)>,
    key: Seq<char>,
    value: JsonData,
    after: Seq<(Seq<char>, JsonData)>,
    other: JsonData,
)
    requires
        forall|k: int| 0 <= k < before.len() ==> (#[trigger] before[k]).0 != key,
    ensures
        JsonData::Object(before + seq![(key, value)] + after).member(key) == Some(value),
        JsonData::Object(before).member(key) is None,
        !(other is Object) ==> other.member(key) is None,
    decreases before.len(),
{
    let all = before + seq![(key, value)] + after;
    lemma_member_first(all, key);
    lemma_member_first(before, key);
    if before.len() > 0 {
        let rest = before.drop_first();
        assert forall|k: int| 0 <= k < rest.len() implies (#[trigger] rest[k]).0 != key by {
            assert(rest[k] == before[k + 1]);
        }
        law_objects_have_their_members(rest, key, value, after, other);
        assert(all.drop_first() =~= rest + seq![(key, value)] + after);
        assert(all[0] == before[0]);
    } else {
        assert(all[0] == (key, value));
    }
}

/// Setting a member keeps the order of the others and leaves one member more
/// only where there was none of its name.
pub proof fn law_setting_keeps_the_order(
    before: Seq<(Seq<char>, JsonData)>,
    key: Seq<char>,
    was: JsonData,
    value: JsonData,
    after: Seq<(Seq<char>, JsonData)>,
)
    requires
        forall|k: int| 0 <= k < before.len() ==> (#[trigger] before[k]).0 != key,
    ensures
        with_member(before + seq![(key, was)] + after, key, value) == before + seq![(key, value)]
            + after,
        with_member(before, key, value) == before.push((key, value)),
{
    let all = before + seq![(key, was)] + after;
    assert forall|k: int| 0 <= k < before.len() implies (#[trigger] all[k]).0 != key by {
        assert(all[k] == before[k]);
    }
    assert(all[before.len() as int] == (key, was));
    lemma_with_member_at(all, key, value, before.len() as int);
    lemma_with_member_at(before, key, value, before.len() as int);
    assert(all.update(before.len() as int, (key, value)) =~= before + seq![(key, value)] + after);
}

} // verus!
