//! JSON values.
use vstd::prelude::*;

use crate::text;

verus! {

/// A number: its text, and its value where that is a natural number.
pub struct JsonNumber {
    pub unsigned: Option<u64>,
    pub text: String,
}

/// A JSON value.
pub enum Json {
    Null,
    Bool(bool),
    Number(JsonNumber),
    Text(String),
    List(Vec<Json>),
    Object(Vec<(String, Json)>),
}

/// What a JSON value holds.
#[verifier::ext_equal]
pub enum JsonModel {
    Null,
    Bool(bool),
    Number { unsigned: Option<u64>, text: Seq<char> },
    Text(Seq<char>),
    List(Seq<JsonModel>),
    Object(Seq<(Seq<char>, JsonModel)>),
}

impl Json {
    pub open spec fn model(self) -> JsonModel
        decreases self,
    {
        match self {
            Json::Null => JsonModel::Null,
            Json::Bool(b) => JsonModel::Bool(b),
            Json::Number(n) => JsonModel::Number { unsigned: n.unsigned, text: n.text@ },
            Json::Text(s) => JsonModel::Text(s@),
            Json::List(items) => JsonModel::List(
                Seq::new(
                    items@.len(),
                    |i: int|
                        if 0 <= i < items@.len() {
                            items@[i].model()
                        } else {
                            JsonModel::Null
                        },
                ),
            ),
            Json::Object(members) => JsonModel::Object(
                Seq::new(
                    members@.len(),
                    |i: int|
                        if 0 <= i < members@.len() {
                            (members@[i].0@, members@[i].1.model())
                        } else {
                            (seq![], JsonModel::Null)
                        },
                ),
            ),
        }
    }
}

impl View for Json {
    type V = JsonModel;

    open spec fn view(&self) -> JsonModel {
        self.model()
    }
}

impl Clone for Json {
    fn clone(&self) -> (r: Self)
        ensures
            r@ == self@,
        decreases self,
    {
        match self {
            Json::Null => Json::Null,
            Json::Bool(b) => Json::Bool(*b),
            Json::Number(n) => Json::Number(
                JsonNumber { unsigned: n.unsigned, text: n.text.clone() },
            ),
            Json::Text(s) => Json::Text(s.clone()),
            Json::List(items) => {
                let mut out: Vec<Json> = Vec::new();
                for i in 0..items.len()
                    invariant
                        *self == Json::List(*items),
                        out@.len() == i,
                        forall|k: int| 0 <= k < i ==> (#[trigger] out@[k])@ == items@[k]@,
                {
                    assert(decreases_to!(*self => self->List_0));
                    assert(decreases_to!(*items => items@));
                    assert(decreases_to!(items@ => items@[i as int]));
                    out.push(items[i].clone());
                }
                let r = Json::List(out);
                assert(r@->List_0 =~= self@->List_0);
                r
            },
            Json::Object(members) => {
                let mut out: Vec<(String, Json)> = Vec::new();
                for i in 0..members.len()
                    invariant
                        *self == Json::Object(*members),
                        out@.len() == i,
                        forall|k: int|
                            0 <= k < i ==> (#[trigger] out@[k]).0@ == members@[k].0@
                                && out@[k].1@ == members@[k].1@,
                {
                    assert(decreases_to!(*self => self->Object_0));
                    assert(decreases_to!(*members => members@));
                    assert(decreases_to!(members@ => members@[i as int]));
                    assert(decreases_to!(members@[i as int] => members@[i as int].1));
                    out.push((members[i].0.clone(), members[i].1.clone()));
                }
                let r = Json::Object(out);
                assert(r@->Object_0 =~= self@->Object_0);
                r
            },
        }
    }
}

// ---------------------------------------------------------------------------
// Reading
// ---------------------------------------------------------------------------

/// The JSON library's value type.
#[verifier::external_type_specification]
#[verifier::external_body]
pub struct ExValue(serde_json::Value);

/// The JSON library's error type.
#[verifier::external_type_specification]
#[verifier::external_body]
pub struct ExError(serde_json::Error);

/// `serde_json::Error::to_string`: the text of the error. Nothing is said of it.
#[verifier::external_body]
fn error_text(e: &serde_json::Error) -> (r: String) {
    e.to_string()
}

/// `message` is the text that the JSON library gives to its error `e`.
pub closed spec fn is_error_text(e: serde_json::Error, message: Seq<char>) -> bool {
    exists|t: String| #[trigger] call_ensures(error_text, (&e,), t) && t@ == message
}

/// The text of an error of the JSON library.
pub fn error_message(e: &serde_json::Error) -> (r: String)
    ensures
        is_error_text(*e, r@),
{
    error_text(e)
}

/// What a value of the JSON library holds.
pub uninterp spec fn contents(v: serde_json::Value) -> JsonModel;

/// What a JSON text stands for, or nothing where it is no JSON text.
pub uninterp spec fn parsed(s: Seq<char>) -> Option<JsonModel>;

/// `serde_json::from_str` to a value: the text alone decides whether it is JSON and
/// what it stands for. Nothing is said of which texts are JSON.
#[verifier::external_body]
fn parse_value(s: &str) -> (r: Result<serde_json::Value, serde_json::Error>)
    ensures
        r is Ok <==> parsed(s@) is Some,
        r matches Ok(v) ==> parsed(s@) == Some(contents(v)),
{
    serde_json::from_str::<serde_json::Value>(s)
}

/// `e` is the error with which the JSON library refuses the text `s`.
pub closed spec fn is_refusal(s: &str, e: serde_json::Error) -> bool {
    call_ensures(parse_value, (s,), Err::<serde_json::Value, serde_json::Error>(e))
}

/// `message` says why the JSON library refuses the text `s`.
pub open spec fn is_parse_message(s: &str, message: Seq<char>) -> bool {
    exists|e: serde_json::Error| #[trigger] is_refusal(s, e) && is_error_text(e, message)
}

/// A value with its outermost layer taken off.
enum Layer {
    Null,
    Bool(bool),
    Number(Option<u64>, String),
    Text(String),
    List(Vec<serde_json::Value>),
    Object(Vec<(String, serde_json::Value)>),
}

/// Takes the outermost layer off a `serde_json::Value`: each of its variants becomes
/// the variant of the same meaning. Of a number it keeps `Number::as_u64` and its
/// text.
#[verifier::external_body]
fn open_value(v: serde_json::Value) -> (r: Layer)
    ensures
        match r {
            Layer::Null => contents(v) == JsonModel::Null,
            Layer::Bool(b) => contents(v) == JsonModel::Bool(b),
            Layer::Number(unsigned, t) => contents(v) == (JsonModel::Number {
                unsigned,
                text: t@,
            }),
            Layer::Text(t) => contents(v) == JsonModel::Text(t@),
            Layer::List(items) => contents(v) == JsonModel::List(
                items@.map_values(|x: serde_json::Value| contents(x)),
            ),
            Layer::Object(members) => contents(v) == JsonModel::Object(
                members@.map_values(|m: (String, serde_json::Value)| (m.0@, contents(m.1))),
            ),
        },
{
    match v {
        serde_json::Value::Null => Layer::Null,
        serde_json::Value::Bool(b) => Layer::Bool(b),
        serde_json::Value::Number(n) => Layer::Number(n.as_u64(), n.to_string()),
        serde_json::Value::String(s) => Layer::Text(s),
        serde_json::Value::Array(items) => Layer::List(items),
        serde_json::Value::Object(members) => Layer::Object(members.into_iter().collect()),
    }
}

fn from_value(v: serde_json::Value) -> (r: Json)
    ensures
        r@ == contents(v),
    decreases contents(v),
{
    let ghost m = contents(v);
    match open_value(v) {
        Layer::Null => Json::Null,
        Layer::Bool(b) => Json::Bool(b),
        Layer::Number(unsigned, text) => Json::Number(JsonNumber { unsigned, text }),
        Layer::Text(t) => Json::Text(t),
        Layer::List(items) => {
            let ghost all = items@;
            let mut rest = items;
            let mut out: Vec<Json> = Vec::new();
            let n: usize = rest.len();
            for i in 0..n
                invariant
                    m == contents(v),
                    m == JsonModel::List(all.map_values(|x: serde_json::Value| contents(x))),
                    n == all.len(),
                    rest@ == all.skip(i as int),
                    out@.len() == i,
                    forall|k: int| 0 <= k < i ==> (#[trigger] out@[k])@ == contents(all[k]),
            {
                let item = rest.remove(0);
                assert(item == all[i as int]);
                assert(m->List_0[i as int] == contents(item));
                assert(decreases_to!(m => m->List_0));
                assert(decreases_to!(m->List_0 => m->List_0[i as int]));
                out.push(from_value(item));
                assert(rest@ =~= all.skip(i + 1));
            }
            let r = Json::List(out);
            assert(r@->List_0 =~= m->List_0);
            r
        },
        Layer::Object(members) => {
            let ghost all = members@;
            let mut rest = members;
            let mut out: Vec<(String, Json)> = Vec::new();
            let n: usize = rest.len();
            for i in 0..n
                invariant
                    m == contents(v),
                    m == JsonModel::Object(
                        all.map_values(|m: (String, serde_json::Value)| (m.0@, contents(m.1))),
                    ),
                    n == all.len(),
                    rest@ == all.skip(i as int),
                    out@.len() == i,
                    forall|k: int|
                        0 <= k < i ==> (#[trigger] out@[k]).0@ == all[k].0@ && out@[k].1@
                            == contents(all[k].1),
            {
                let (key, value) = rest.remove(0);
                assert((key, value) == all[i as int]);
                assert(m->Object_0[i as int] == (key@, contents(value)));
                assert(decreases_to!(m => m->Object_0));
                assert(decreases_to!(m->Object_0 => m->Object_0[i as int]));
                assert(decreases_to!(m->Object_0[i as int] => m->Object_0[i as int].1));
                out.push((key, from_value(value)));
                assert(rest@ =~= all.skip(i + 1));
            }
            let r = Json::Object(out);
            assert(r@->Object_0 =~= m->Object_0);
            r
        },
    }
}

/// The JSON value that a text stands for.
pub fn parse(s: &str) -> (r: Result<Json, serde_json::Error>)
    ensures
        r is Ok <==> parsed(s@) is Some,
        r matches Ok(j) ==> parsed(s@) == Some(j@),
        r matches Err(e) ==> is_refusal(s, e),
{
    match parse_value(s) {
        Ok(v) => Ok(from_value(v)),
        Err(e) => Err(e),
    }
}

/// How a JSON value is written without spaces.
pub uninterp spec fn written(m: JsonModel) -> Seq<char>;

/// `serde_json::Value::to_string`: the value written without spaces, which depends on what it
/// holds alone. Nothing is said of how texts are escaped.
#[verifier::external_body]
fn write_value(v: &serde_json::Value) -> (r: String)
    ensures
        r@ == written(contents(*v)),
{
    v.to_string()
}

/// What the members of an object of the JSON library hold.
spec fn outside_members(s: Seq<(String, serde_json::Value)>) -> Seq<(Seq<char>, JsonModel)> {
    s.map_values(|m: (String, serde_json::Value)| (m.0@, contents(m.1)))
}

/// Takes the first member called `key` out of the members of an object.
fn take_member(members: Vec<(String, serde_json::Value)>, key: &str) -> (r: Option<
    serde_json::Value,
>)
    ensures
        r is Some <==> find_member(outside_members(members@), key@) is Some,
        r matches Some(v) ==> find_member(outside_members(members@), key@) == Some(contents(v)),
{
    let mut rest = members;
    let ghost all = outside_members(members@);
    assert(all.skip(0) =~= all);
    let n: usize = rest.len();
    for i in 0..n
        invariant
            n == members@.len(),
            all == outside_members(members@),
            rest@ == members@.skip(i as int),
            find_member(all, key@) == find_member(all.skip(i as int), key@),
    {
        let (k, v) = rest.remove(0);
        assert((k, v) == members@[i as int]);
        assert(all.skip(i as int)[0] == (k@, contents(v)));
        assert(all.skip(i as int).drop_first() =~= all.skip(i + 1));
        assert(rest@ =~= members@.skip(i + 1));
        if text::str_eq(k.as_str(), key) {
            return Some(v);
        }
    }
    None
}

/// The member `key` of an object, written without spaces.
pub open spec fn written_member(m: JsonModel, key: Seq<char>) -> Option<Seq<char>> {
    match member(m, key) {
        Some(v) => Some(written(v)),
        None => None,
    }
}

/// The member `key` of each item of a list, written without spaces.
pub open spec fn written_members(items: Seq<JsonModel>, key: Seq<char>) -> Seq<
    Option<Seq<char>>,
> {
    items.map_values(|m: JsonModel| written_member(m, key))
}

fn write_member(v: serde_json::Value, key: &str) -> (r: Option<String>)
    ensures
        text::opt_text(r) == written_member(contents(v), key@),
{
    match open_value(v) {
        Layer::Object(members) => {
            assert(outside_members(members@) == contents(v)->Object_0);
            match take_member(members, key) {
                Some(part) => Some(write_value(&part)),
                None => None,
            }
        },
        _ => None,
    }
}

/// What the members `key` of the items of the list `list` in a JSON text are, written without
/// spaces. Where the text is no JSON, or the list is none, there are no items.
pub fn write_members(s: &str, list: &str, key: &str) -> (r: Vec<Option<String>>)
    ensures
        text::opt_texts(r@) == written_members(
            match parsed(s@) {
                Some(m) => items(member_or_null(m, list@)),
                None => seq![],
            },
            key@,
        ),
{
    let mut out: Vec<Option<String>> = Vec::new();
    assert(text::opt_texts(out@) =~= written_members(seq![], key@));
    let document = match parse_value(s) {
        Ok(v) => v,
        Err(_) => return out,
    };
    let members = match open_value(document) {
        Layer::Object(members) => members,
        _ => return out,
    };
    assert(outside_members(members@) == contents(document)->Object_0);
    let part = match take_member(members, list) {
        Some(v) => v,
        None => return out,
    };
    if let Layer::List(found) = open_value(part) {
        let ghost all = contents(part)->List_0;
        let ghost given = found@;
        let mut rest = found;
        let n: usize = rest.len();
        for i in 0..n
            invariant
                n == given.len() == all.len(),
                all == given.map_values(|x: serde_json::Value| contents(x)),
                rest@ == given.skip(i as int),
                text::opt_texts(out@) == written_members(all.take(i as int), key@),
        {
            let ghost before = text::opt_texts(out@);
            let item = rest.remove(0);
            assert(item == given[i as int]);
            assert(rest@ =~= given.skip(i + 1));
            let text = write_member(item, key);
            let ghost one = text::opt_text(text);
            out.push(text);
            assert(text::opt_texts(out@) =~= before.push(one));
            assert(written_members(all.take(i + 1), key@) =~= before.push(one));
        }
        assert(all.take(n as int) =~= all);
    }
    out
}

/// The object without members.
pub open spec fn empty_object() -> JsonModel {
    JsonModel::Object(seq![])
}

/// What a JSON text stands for, or the empty object where it is no JSON text.
pub open spec fn parsed_or_empty(s: Seq<char>) -> JsonModel {
    match parsed(s) {
        Some(m) => m,
        None => empty_object(),
    }
}

/// The compact form of a JSON text, or that of the empty object where it is no JSON
/// text.
pub open spec fn compact_or_empty(s: Seq<char>) -> Seq<char> {
    match parsed(s) {
        Some(m) => written(m),
        None => "{}"@,
    }
}

/// The JSON value that a text stands for, or the empty object where the text is no JSON.
pub fn parse_lenient(s: &str) -> (r: Json)
    ensures
        r@ == parsed_or_empty(s@),
{
    match parse(s) {
        Ok(v) => v,
        Err(_) => {
            assert(member_views(Seq::<(String, Json)>::empty()) =~= seq![]);
            object(Vec::new())
        },
    }
}

/// The JSON value that a text stands for together with its compact form; the empty
/// object where the text is no JSON.
pub fn parse_or_empty(s: &str) -> (r: (Json, String))
    ensures
        r.0@ == parsed_or_empty(s@),
        r.1@ == compact_or_empty(s@),
{
    match parse_value(s) {
        Ok(v) => {
            let text = write_value(&v);
            (from_value(v), text)
        },
        Err(_) => {
            assert(member_views(Seq::<(String, Json)>::empty()) =~= seq![]);
            (object(Vec::new()), "{}".to_string())
        },
    }
}

// ---------------------------------------------------------------------------
// Construction
// ---------------------------------------------------------------------------

/// What the members of an object hold.
pub open spec fn member_views(s: Seq<(String, Json)>) -> Seq<(Seq<char>, JsonModel)> {
    s.map_values(|m: (String, Json)| (m.0@, m.1@))
}

/// What the items of a list hold.
pub open spec fn item_views(s: Seq<Json>) -> Seq<JsonModel> {
    s.map_values(|x: Json| x@)
}

pub fn object(members: Vec<(String, Json)>) -> (r: Json)
    ensures
        r@ == JsonModel::Object(member_views(members@)),
{
    let r = Json::Object(members);
    assert(r@->Object_0 =~= member_views(members@));
    r
}

pub fn list(items: Vec<Json>) -> (r: Json)
    ensures
        r@ == JsonModel::List(item_views(items@)),
{
    let r = Json::List(items);
    assert(r@->List_0 =~= item_views(items@));
    r
}

pub fn text_value(s: &str) -> (r: Json)
    ensures
        r@ == JsonModel::Text(s@),
{
    Json::Text(s.to_string())
}

/// What the number `n` is as a JSON value.
pub open spec fn number_model(n: nat) -> JsonModel {
    JsonModel::Number { unsigned: Some(n as u64), text: text::decimal(n) }
}

pub fn number(n: u64) -> (r: Json)
    ensures
        r@ == number_model(n as nat),
{
    Json::Number(JsonNumber { unsigned: Some(n), text: text::to_decimal(n) })
}

/// Adds a member to those of an object.
pub fn add_member(members: &mut Vec<(String, Json)>, key: &str, value: Json)
    ensures
        member_views(final(members)@) == member_views(old(members)@).push((key@, value@)),
{
    let ghost before = member_views(members@);
    members.push((key.to_string(), value));
    assert(member_views(members@) =~= before.push((key@, value@)));
}

/// Adds an item to those of a list.
pub fn add_item(items: &mut Vec<Json>, value: Json)
    ensures
        item_views(final(items)@) == item_views(old(items)@).push(value@),
{
    let ghost before = item_views(items@);
    items.push(value);
    assert(item_views(items@) =~= before.push(value@));
}

/// The object of one member.
pub fn object1(k: &str, v: Json) -> (r: Json)
    ensures
        r@ == JsonModel::Object(seq![(k@, v@)]),
{
    let mut members: Vec<(String, Json)> = Vec::new();
    add_member(&mut members, k, v);
    assert(member_views(members@) =~= seq![(k@, v@)]);
    object(members)
}

/// The object of two members.
pub fn object2(k1: &str, v1: Json, k2: &str, v2: Json) -> (r: Json)
    ensures
        r@ == JsonModel::Object(seq![(k1@, v1@), (k2@, v2@)]),
{
    let mut members: Vec<(String, Json)> = Vec::new();
    add_member(&mut members, k1, v1);
    add_member(&mut members, k2, v2);
    assert(member_views(members@) =~= seq![(k1@, v1@), (k2@, v2@)]);
    object(members)
}

/// The object of three members.
pub fn object3(k1: &str, v1: Json, k2: &str, v2: Json, k3: &str, v3: Json) -> (r: Json)
    ensures
        r@ == JsonModel::Object(seq![(k1@, v1@), (k2@, v2@), (k3@, v3@)]),
{
    let mut members: Vec<(String, Json)> = Vec::new();
    add_member(&mut members, k1, v1);
    add_member(&mut members, k2, v2);
    add_member(&mut members, k3, v3);
    assert(member_views(members@) =~= seq![(k1@, v1@), (k2@, v2@), (k3@, v3@)]);
    object(members)
}

/// The object of four members.
pub fn object4(
    k1: &str,
    v1: Json,
    k2: &str,
    v2: Json,
    k3: &str,
    v3: Json,
    k4: &str,
    v4: Json,
) -> (r: Json)
    ensures
        r@ == JsonModel::Object(seq![(k1@, v1@), (k2@, v2@), (k3@, v3@), (k4@, v4@)]),
{
    let mut members: Vec<(String, Json)> = Vec::new();
    add_member(&mut members, k1, v1);
    add_member(&mut members, k2, v2);
    add_member(&mut members, k3, v3);
    add_member(&mut members, k4, v4);
    assert(member_views(members@) =~= seq![(k1@, v1@), (k2@, v2@), (k3@, v3@), (k4@, v4@)]);
    object(members)
}

// ---------------------------------------------------------------------------
// Access
// ---------------------------------------------------------------------------

/// The value of the first member called `key`.
pub open spec fn find_member(members: Seq<(Seq<char>, JsonModel)>, key: Seq<char>) -> Option<
    JsonModel,
>
    decreases members.len(),
{
    if members.len() == 0 {
        None
    } else if members[0].0 == key {
        Some(members[0].1)
    } else {
        find_member(members.drop_first(), key)
    }
}

/// The member `key` of an object.
pub open spec fn member(m: JsonModel, key: Seq<char>) -> Option<JsonModel> {
    match m {
        JsonModel::Object(members) => find_member(members, key),
        _ => None,
    }
}

/// The text that a value is.
pub open spec fn as_text(m: JsonModel) -> Option<Seq<char>> {
    match m {
        JsonModel::Text(s) => Some(s),
        _ => None,
    }
}

/// The text that the member `key` of an object is.
pub open spec fn text_member(m: JsonModel, key: Seq<char>) -> Option<Seq<char>> {
    match member(m, key) {
        Some(v) => as_text(v),
        None => None,
    }
}

/// The member `key` of an object, or null where there is none.
pub open spec fn member_or_null(m: JsonModel, key: Seq<char>) -> JsonModel {
    match member(m, key) {
        Some(v) => v,
        None => JsonModel::Null,
    }
}

/// The text that the member `key` of an object is, or the empty text.
pub open spec fn text_or_empty(m: JsonModel, key: Seq<char>) -> Seq<char> {
    match text_member(m, key) {
        Some(s) => s,
        None => seq![],
    }
}

/// The truth value that the member `key` of an object is.
pub open spec fn bool_member(m: JsonModel, key: Seq<char>) -> Option<bool> {
    match member(m, key) {
        Some(JsonModel::Bool(b)) => Some(b),
        _ => None,
    }
}

/// The natural number that a value is.
pub open spec fn as_number(m: JsonModel) -> Option<u64> {
    match m {
        JsonModel::Number { unsigned, .. } => unsigned,
        _ => None,
    }
}

/// The natural number that the member `key` of an object is, or zero.
pub open spec fn number_or_zero(m: JsonModel, key: Seq<char>) -> u64 {
    match as_number(member_or_null(m, key)) {
        Some(n) => n,
        None => 0,
    }
}

/// The items of a list, or none where the value is no list.
pub open spec fn items(m: JsonModel) -> Seq<JsonModel> {
    match m {
        JsonModel::List(items) => items,
        _ => seq![],
    }
}

impl Json {
    pub fn get(&self, key: &str) -> (r: Option<&Json>)
        ensures
            r is Some <==> member(self@, key@) is Some,
            r matches Some(v) ==> member(self@, key@) == Some(v@),
    {
        match self {
            Json::Object(members) => {
                let ghost all = self@->Object_0;
                assert(all.skip(0) =~= all);
                for i in 0..members.len()
                    invariant
                        self@ == JsonModel::Object(all),
                        all.len() == members@.len(),
                        *self == Json::Object(*members),
                        find_member(all, key@) == find_member(all.skip(i as int), key@),
                {
                    assert(all.skip(i as int)[0] == all[i as int]);
                    assert(all[i as int] == (members@[i as int].0@, members@[i as int].1@));
                    assert(all.skip(i as int).drop_first() =~= all.skip(i + 1));
                    if text::str_eq(members[i].0.as_str(), key) {
                        return Some(&members[i].1);
                    }
                }
                None
            },
            _ => None,
        }
    }

    pub fn as_str(&self) -> (r: Option<&str>)
        ensures
            r is Some <==> as_text(self@) is Some,
            r matches Some(s) ==> as_text(self@) == Some(s@),
    {
        match self {
            Json::Text(s) => Some(s.as_str()),
            _ => None,
        }
    }

    /// The text that the member `key` is.
    pub fn get_str(&self, key: &str) -> (r: Option<&str>)
        ensures
            r is Some <==> text_member(self@, key@) is Some,
            r matches Some(s) ==> text_member(self@, key@) == Some(s@),
    {
        match self.get(key) {
            Some(v) => v.as_str(),
            None => None,
        }
    }

    /// The truth value that the member `key` is.
    pub fn get_bool(&self, key: &str) -> (r: Option<bool>)
        ensures
            r == bool_member(self@, key@),
    {
        match self.get(key) {
            Some(v) => match v {
                Json::Bool(b) => Some(*b),
                _ => None,
            },
            None => None,
        }
    }

    /// The text that the member `key` is, or the empty text.
    pub fn get_text(&self, key: &str) -> (r: String)
        ensures
            r@ == text_or_empty(self@, key@),
    {
        match self.get_str(key) {
            Some(s) => s.to_string(),
            None => String::new(),
        }
    }

    /// The natural number that the member `key` is, or zero.
    pub fn get_number(&self, key: &str) -> (r: u64)
        ensures
            r == number_or_zero(self@, key@),
    {
        match self.get(key) {
            Some(v) => match v.as_u64() {
                Some(n) => n,
                None => 0,
            },
            None => 0,
        }
    }

    pub fn as_u64(&self) -> (r: Option<u64>)
        ensures
            r == as_number(self@),
    {
        match self {
            Json::Number(n) => n.unsigned,
            _ => None,
        }
    }

    pub fn is_object(&self) -> (r: bool)
        ensures
            r == (self@ is Object),
    {
        match self {
            Json::Object(_) => true,
            _ => false,
        }
    }

    /// The number of items, where the value is a list.
    pub fn item_count(&self) -> (r: usize)
        ensures
            r == items(self@).len(),
    {
        match self {
            Json::List(v) => v.len(),
            _ => 0,
        }
    }

    pub fn item(&self, i: usize) -> (r: &Json)
        requires
            i < items(self@).len(),
        ensures
            r@ == items(self@)[i as int],
    {
        match self {
            Json::List(v) => &v[i],
            _ => self,
        }
    }
}

/// A member is found where it stands, unless one of the same name stands before it.
pub proof fn lemma_find_at(members: Seq<(Seq<char>, JsonModel)>, i: int)
    requires
        0 <= i < members.len(),
        forall|j: int| 0 <= j < i ==> (#[trigger] members[j]).0 != members[i].0,
    ensures
        find_member(members, members[i].0) == Some(members[i].1),
    decreases members.len(),
{
    if i > 0 {
        let t = members.drop_first();
        assert(members[0].0 != members[i].0);
        assert forall|j: int| 0 <= j < i - 1 implies (#[trigger] t[j]).0 != t[i - 1].0 by {
            assert(t[j] == members[j + 1]);
        }
        lemma_find_at(t, i - 1);
    }
}

/// A member that is not there is not found.
pub proof fn lemma_find_none(members: Seq<(Seq<char>, JsonModel)>, key: Seq<char>)
    requires
        forall|j: int| 0 <= j < members.len() ==> (#[trigger] members[j]).0 != key,
    ensures
        find_member(members, key) is None,
    decreases members.len(),
{
    if members.len() > 0 {
        let t = members.drop_first();
        assert forall|j: int| 0 <= j < t.len() implies (#[trigger] t[j]).0 != key by {
            assert(t[j] == members[j + 1]);
        }
        assert(members[0].0 != key);
        lemma_find_none(t, key);
    }
}

/// What is looked for in an object is the value of the first member of that name: it is found
/// exactly where there is one, and none before it has the name.
pub proof fn law_the_first_member_is_found(members: Seq<(Seq<char>, JsonModel)>, key: Seq<char>)
    ensures
        match member(JsonModel::Object(members), key) {
            Some(v) => exists|i: int|
                0 <= i < members.len() && #[trigger] members[i] == (key, v) && forall|j: int|
                    0 <= j < i ==> (#[trigger] members[j]).0 != key,
            None => forall|i: int| 0 <= i < members.len() ==> (#[trigger] members[i]).0 != key,
        },
    decreases members.len(),
{
    if members.len() > 0 && members[0].0 != key {
        let t = members.drop_first();
        law_the_first_member_is_found(t, key);
        match member(JsonModel::Object(members), key) {
            Some(v) => {
                let i = choose|i: int|
                    0 <= i < t.len() && #[trigger] t[i] == (key, v) && forall|j: int|
                        0 <= j < i ==> (#[trigger] t[j]).0 != key;
                assert(members[i + 1] == t[i]);
                assert forall|j: int| 0 <= j < i + 1 implies (#[trigger] members[j]).0 != key by {
                    if j > 0 {
                        assert(t[j - 1] == members[j]);
                    }
                }
            },
            None => {
                assert forall|i: int| 0 <= i < members.len() implies (#[trigger] members[i]).0
                    != key by {
                    if i > 0 {
                        assert(t[i - 1] == members[i]);
                    }
                }
            },
        }
    } else if members.len() > 0 {
        assert(members[0] == (key, members[0].1));
    }
}

/// A number that is written is read as it is, and what is no number, no text or no list is
/// read as none.
pub proof fn law_values_are_read_as_what_they_are(n: u64, s: Seq<char>, m: JsonModel, b: bool)
    ensures
        as_number(number_model(n as nat)) == Some(n),
        as_text(JsonModel::Text(s)) == Some(s),
        !(m is Text) ==> as_text(m) is None,
        !(m is Number) ==> as_number(m) is None,
        !(m is List) ==> items(m).len() == 0,
        !(m is Object) ==> member(m, s) is None,
        member(JsonModel::Object(seq![(s, m)]), s) == Some(m),
        bool_member(JsonModel::Object(seq![(s, JsonModel::Bool(b))]), s) == Some(b),
{
    lemma_find_at(seq![(s, m)], 0);
    lemma_find_at(seq![(s, JsonModel::Bool(b))], 0);
}

/// A text that is JSON is taken for what it stands for; any other for the object without
/// members.
pub proof fn law_what_cannot_be_read_is_empty(s: Seq<char>, key: Seq<char>)
    ensures
        parsed(s) is None ==> parsed_or_empty(s) is Object && member(parsed_or_empty(s), key) is None
            && compact_or_empty(s) == seq!['{', '}'],
        parsed(s) matches Some(m) ==> parsed_or_empty(s) == m && compact_or_empty(s) == written(m),
{
    reveal_strlit("{}");
    assert("{}"@ =~= seq!['{', '}']);
}

} // verus!
