//! JSON values as the gateway reads and builds them.

use crate::text::{comes_before, join, joined, joining_adds_at_the_end, texts};
use vstd::prelude::*;

verus! {

/// `serde_json::Value`, carried as an opaque value.
#[verifier::external_type_specification]
#[verifier::external_body]
pub struct ExValue(serde_json::Value);

/// `serde_json::Number`, carried as an opaque value.
#[verifier::external_type_specification]
#[verifier::external_body]
pub struct ExNumber(serde_json::Number);

/// What a JSON value is: an object is the map of its members, in no order.
pub enum JsonView {
    Null,
    Bool(bool),
    Int(int),
    Fraction(serde_json::Number),
    Text(Seq<char>),
    Array(Seq<JsonView>),
    Object(Map<Seq<char>, JsonView>),
}

/// A JSON value.
#[derive(Debug, PartialEq)]
pub enum Json {
    Null,
    Bool(bool),
    Number(serde_json::Number),
    Text(String),
    Array(Vec<Json>),
    Object(JsonObject),
}

/// A JSON object: its members in order; of members with one key, the last counts.
#[derive(Debug, PartialEq)]
pub struct JsonObject {
    pub members: Vec<(String, Json)>,
}

/// The values of an array, each taken by its view.
pub open spec fn array_view(items: Seq<Json>) -> Seq<JsonView>
    decreases items,
{
    if items.len() == 0 {
        Seq::empty()
    } else {
        array_view(items.drop_last()).push(items.last().view())
    }
}

/// The members of an object as a map.
pub open spec fn members_view(members: Seq<(String, Json)>) -> Map<Seq<char>, JsonView>
    decreases members,
{
    if members.len() == 0 {
        Map::empty()
    } else {
        members_view(members.drop_last()).insert(members.last().0@, members.last().1.view())
    }
}

impl Json {
    pub open spec fn view(&self) -> JsonView
        decreases self,
    {
        match *self {
            Json::Null => JsonView::Null,
            Json::Bool(b) => JsonView::Bool(b),
            Json::Number(n) => number_view(n),
            Json::Text(s) => JsonView::Text(s@),
            Json::Array(items) => JsonView::Array(array_view(items@)),
            Json::Object(o) => JsonView::Object(members_view(o.members@)),
        }
    }
}

/// The integer that a `serde_json::Number` holds, where it holds one.
pub uninterp spec fn number_integer(n: serde_json::Number) -> Option<int>;

/// What a `serde_json::Value` holds.
pub uninterp spec fn value_contents(v: serde_json::Value) -> JsonView;

/// What `serde_json::from_str` reads from a text, where the text is JSON.
pub uninterp spec fn json_parse(text: Seq<char>) -> Option<JsonView>;

/// The compact text that `serde_json::to_string` writes for a value.
pub uninterp spec fn json_text(value: JsonView) -> Seq<char>;

/// A number: the integer it holds, or the number itself where it holds none.
pub open spec fn number_view(n: serde_json::Number) -> JsonView {
    match number_integer(n) {
        Some(i) => JsonView::Int(i),
        None => JsonView::Fraction(n),
    }
}

/// A list of texts in square brackets.
pub open spec fn list_text(items: Seq<Seq<char>>) -> Seq<char> {
    "["@ + joined(items, ","@) + "]"@
}

/// A key with the text of its value.
pub open spec fn member_text(member: (Seq<char>, Seq<char>)) -> Seq<char> {
    json_text(JsonView::Text(member.0)) + ":"@ + member.1
}

/// Keys with the texts of their values, in curly brackets and in the order given.
pub open spec fn object_text(members: Seq<(Seq<char>, Seq<char>)>) -> Seq<char> {
    "{"@ + joined(members.map_values(|m: (Seq<char>, Seq<char>)| member_text(m)), ","@) + "}"@
}

/// The values of an array, each as its text with members in their order.
pub open spec fn items_written(items: Seq<Json>) -> Seq<Seq<char>>
    decreases items,
{
    if items.len() == 0 {
        Seq::empty()
    } else {
        items_written(items.drop_last()).push(items.last().written())
    }
}

/// The members of an object, each value as its text with members in their order.
pub open spec fn members_written(members: Seq<(String, Json)>) -> Seq<(Seq<char>, Seq<char>)>
    decreases members,
{
    if members.len() == 0 {
        Seq::empty()
    } else {
        members_written(members.drop_last()).push(
            (members.last().0@, members.last().1.written()),
        )
    }
}

impl Json {
    /// The compact text of a value with the members of each object in their order.
    pub open spec fn written(&self) -> Seq<char>
        decreases self,
    {
        match *self {
            Json::Array(items) => list_text(items_written(items@)),
            Json::Object(o) => object_text(members_written(o.members@)),
            _ => json_text(self@),
        }
    }
}

/// One level of a `serde_json::Value`: the variant, with what is inside still unopened.
pub enum Node {
    Null,
    Bool(bool),
    Number(serde_json::Number),
    Text(String),
    Array(Vec<serde_json::Value>),
    Object(Vec<(String, serde_json::Value)>),
}

/// The contents of the members of an unopened object, as a map.
pub open spec fn contents_map(members: Seq<(String, serde_json::Value)>) -> Map<
    Seq<char>,
    JsonView,
>
    decreases members.len(),
{
    if members.len() == 0 {
        Map::empty()
    } else {
        contents_map(members.drop_last()).insert(
            members.last().0@,
            value_contents(members.last().1),
        )
    }
}

/// No two members have the same key.
pub open spec fn distinct_keys<V>(members: Seq<(String, V)>) -> bool {
    forall|i: int, j: int|
        0 <= i < j < members.len() ==> #[trigger] members[i].0@ != #[trigger] members[j].0@
}

impl Node {
    /// What the value that this node is the outside of holds.
    pub open spec fn contents(self) -> JsonView {
        match self {
            Node::Null => JsonView::Null,
            Node::Bool(b) => JsonView::Bool(b),
            Node::Number(n) => number_view(n),
            Node::Text(s) => JsonView::Text(s@),
            Node::Array(items) => JsonView::Array(
                Seq::new(items@.len(), |i: int| value_contents(items@[i])),
            ),
            Node::Object(members) => JsonView::Object(contents_map(members@)),
        }
    }
}

/// Opens a `serde_json::Value` by one level. Its variant tells what it holds; the keys of an
/// object, which `serde_json::Map` hands out one entry for each, are distinct.
#[verifier::external_body]
fn open_value(v: serde_json::Value) -> (r: Node)
    ensures
        r.contents() == value_contents(v),
        r matches Node::Object(members) ==> distinct_keys(members@),
{
    match v {
        serde_json::Value::Null => Node::Null,
        serde_json::Value::Bool(b) => Node::Bool(b),
        serde_json::Value::Number(n) => Node::Number(n),
        serde_json::Value::String(s) => Node::Text(s),
        serde_json::Value::Array(items) => Node::Array(items),
        serde_json::Value::Object(map) => Node::Object(map.into_iter().collect()),
    }
}

/// Builds the `serde_json::Value` whose outermost level is the given node.
#[verifier::external_body]
fn close_value(n: Node) -> (r: serde_json::Value)
    requires
        n matches Node::Object(members) ==> distinct_keys(members@),
    ensures
        value_contents(r) == n.contents(),
{
    match n {
        Node::Null => serde_json::Value::Null,
        Node::Bool(b) => serde_json::Value::Bool(b),
        Node::Number(n) => serde_json::Value::Number(n),
        Node::Text(s) => serde_json::Value::String(s),
        Node::Array(items) => serde_json::Value::Array(items),
        Node::Object(members) => serde_json::Value::Object(members.into_iter().collect()),
    }
}

/// `serde_json::from_str` reads a text as JSON or refuses it; which, and what it reads, depends on
/// the text alone.
#[verifier::external_body]
fn value_from_text(text: &str) -> (r: Option<serde_json::Value>)
    ensures
        r is Some ==> json_parse(text@) == Some(value_contents(r->0)),
        r is None ==> json_parse(text@) is None,
{
    serde_json::from_str::<serde_json::Value>(text).ok()
}

/// A value without fractions, in which arrays and objects are nested `depth` deep at most and no
/// object begins with the key that `serde_json` keeps for itself.
pub open spec fn plain(value: JsonView, depth: nat) -> bool
    decreases depth, 0nat,
{
    match value {
        JsonView::Fraction(_) => false,
        JsonView::Array(items) => depth > 0 && plain_items(items, (depth - 1) as nat),
        JsonView::Object(members) => depth > 0 && plain_members(members, (depth - 1) as nat),
        _ => true,
    }
}

/// Each value of an array is plain.
pub open spec fn plain_items(items: Seq<JsonView>, depth: nat) -> bool
    decreases depth, 1nat,
{
    forall|i: int| 0 <= i < items.len() ==> plain(#[trigger] items[i], depth)
}

/// Each value of an object is plain, and where one key is the one that `serde_json` keeps for itself,
/// another comes before it.
pub open spec fn plain_members(members: Map<Seq<char>, JsonView>, depth: nat) -> bool
    decreases depth, 1nat,
{
    forall|key: Seq<char>| #[trigger]
        members.dom().contains(key) ==> plain(members[key], depth) && (key
            == "$serde_json::private::RawValue"@ ==> has_key_before(members, key))
}

/// A key comes before another in an object.
pub open spec fn has_key_before(members: Map<Seq<char>, JsonView>, key: Seq<char>) -> bool {
    exists|other: Seq<char>| #[trigger] members.dom().contains(other) && comes_before(other, key)
}

/// `serde_json::to_string` writes any `Value` as compact text, which is not empty and depends on
/// what the value holds alone. An object without members is written `{}`. What it wrote is read back
/// as the same value by `serde_json::from_str`, which follows arrays and objects 127 deep. That is
/// not said of a value with a fraction, which may lose its last digit, nor of one with an object
/// whose first key, in the order in which `to_string` writes them, is
/// `$serde_json::private::RawValue`: the string under it is read as JSON and takes the place of the
/// object.
#[verifier::external_body]
fn value_text(v: &serde_json::Value) -> (r: Option<String>)
    ensures
        r is Some && r->0@ == json_text(value_contents(*v)),
        r->0@.len() > 0,
        value_contents(*v) == JsonView::Object(Map::empty()) ==> r->0@ == seq!['{', '}'],
        plain(value_contents(*v), 127) ==> json_parse(r->0@) == Some(value_contents(*v)),
{
    serde_json::to_string(v).ok()
}

/// `serde_json::Number::from_i128` makes a number of any integer from `i64::MIN` to `u64::MAX`,
/// and of no other.
#[verifier::external_body]
fn number_of(n: i128) -> (r: Option<serde_json::Number>)
    ensures
        i64::MIN <= n <= u64::MAX <==> r is Some,
        r matches Some(m) ==> number_integer(m) == Some(n as int),
{
    serde_json::Number::from_i128(n)
}

proof fn lemma_array_view(items: Seq<Json>)
    ensures
        array_view(items).len() == items.len(),
        forall|i: int| 0 <= i < items.len() ==> #[trigger] array_view(items)[i] == items[i]@,
    decreases items.len(),
{
    if items.len() > 0 {
        lemma_array_view(items.drop_last());
    }
}

proof fn lemma_items_written(items: Seq<Json>)
    ensures
        items_written(items).len() == items.len(),
        forall|i: int|
            0 <= i < items.len() ==> #[trigger] items_written(items)[i] == items[i].written(),
    decreases items.len(),
{
    if items.len() > 0 {
        lemma_items_written(items.drop_last());
    }
}

proof fn lemma_contents_map(members: Seq<(String, serde_json::Value)>, i: int)
    requires
        distinct_keys(members),
        0 <= i < members.len(),
    ensures
        contents_map(members).dom().contains(members[i].0@),
        contents_map(members)[members[i].0@] == value_contents(members[i].1),
    decreases members.len(),
{
    if i < members.len() - 1 {
        lemma_contents_map(members.drop_last(), i);
    }
}

proof fn lemma_contents_map_finite(members: Seq<(String, serde_json::Value)>)
    ensures
        contents_map(members).dom().finite(),
    decreases members.len(),
{
    if members.len() > 0 {
        lemma_contents_map_finite(members.drop_last());
        assert(contents_map(members).dom() == contents_map(members.drop_last()).dom().insert(
            members.last().0@,
        ));
    }
}

impl Json {
    /// The JSON value that a `serde_json::Value` holds.
    pub fn from_value(v: serde_json::Value) -> (r: Json)
        ensures
            r@ == value_contents(v),
        decreases value_contents(v),
    {
        let ghost whole = value_contents(v);
        match open_value(v) {
            Node::Null => Json::Null,
            Node::Bool(b) => Json::Bool(b),
            Node::Number(n) => Json::Number(n),
            Node::Text(s) => Json::Text(s),
            Node::Array(items) => {
                let ghost parts = whole->Array_0;
                let mut out: Vec<Json> = Vec::new();
                for item in it: items
                    invariant
                        it.seq() == items@,
                        whole == JsonView::Array(parts),
                        parts == Seq::new(items@.len(), |i: int| value_contents(items@[i])),
                        array_view(out@) == parts.take(it.index()),
                        value_contents(v) == whole,
                {
                    assert(parts[it.index()] == value_contents(item));
                    assert(decreases_to!(whole => whole->Array_0));
                    assert(decreases_to!(parts => parts[it.index()]));
                    let ghost before = out@;
                    out.push(Json::from_value(item));
                    assert(out@.drop_last() =~= before);
                }
                assert(parts.take(parts.len() as int) =~= parts);
                Json::Array(out)
            },
            Node::Object(members) => {
                let ghost parts = whole->Object_0;
                let mut out: Vec<(String, Json)> = Vec::new();
                for member in it: members
                    invariant
                        it.seq() == members@,
                        distinct_keys(members@),
                        whole == JsonView::Object(parts),
                        parts == contents_map(members@),
                        members_view(out@) == contents_map(members@.take(it.index())),
                        value_contents(v) == whole,
                {
                    proof {
                        lemma_contents_map(members@, it.index());
                        lemma_contents_map_finite(members@);
                        let key = members@[it.index()].0@;
                        assert(decreases_to!(whole => whole->Object_0));
                        assert(decreases_to!(parts => parts[key]));
                        assert(members@.take(it.index() + 1).drop_last() =~= members@.take(
                            it.index(),
                        ));
                    }
                    let ghost before = out@;
                    let (key, value) = member;
                    out.push((key, Json::from_value(value)));
                    assert(out@.drop_last() =~= before);
                }
                assert(members@.take(members@.len() as int) =~= members@);
                Json::Object(JsonObject { members: out })
            },
        }
    }
}

/// Taking out one of several members with distinct keys takes its key out of the map.
proof fn lemma_contents_map_remove(members: Seq<(String, serde_json::Value)>, at: int)
    requires
        distinct_keys(members),
        0 <= at < members.len(),
    ensures
        contents_map(members.remove(at)) == contents_map(members).remove(members[at].0@),
        distinct_keys(members.remove(at)),
    decreases members.len(),
{
    let rest = members.drop_last();
    lemma_contents_map_keys(rest);
    if at == members.len() - 1 {
        assert(members.remove(at) =~= rest);
        assert(!contents_map(rest).dom().contains(members.last().0@));
        assert(contents_map(members).remove(members[at].0@) =~= contents_map(rest));
    } else {
        lemma_contents_map_remove(rest, at);
        assert(members.remove(at).drop_last() =~= rest.remove(at));
        assert(members.remove(at).last() == members.last());
        assert(contents_map(members.remove(at)) =~= contents_map(members).remove(members[at].0@));
    }
}

proof fn lemma_contents_map_keys(members: Seq<(String, serde_json::Value)>)
    ensures
        forall|k: Seq<char>| #[trigger]
            contents_map(members).dom().contains(k) ==> exists|i: int|
                0 <= i < members.len() && #[trigger] members[i].0@ == k,
    decreases members.len(),
{
    if members.len() > 0 {
        lemma_contents_map_keys(members.drop_last());
        assert forall|k: Seq<char>| #[trigger]
            contents_map(members).dom().contains(k) implies exists|i: int|
            0 <= i < members.len() && #[trigger] members[i].0@ == k by {
            if k == members.last().0@ {
                assert(members[members.len() - 1].0@ == k);
            } else {
                assert(contents_map(members.drop_last()).dom().contains(k));
                let i = choose|i: int|
                    0 <= i < members.drop_last().len() && #[trigger] members.drop_last()[i].0@ == k;
                assert(members[i].0@ == k);
            }
        }
    }
}

/// Adds a member to unopened ones, in place of the one with its key where there is one.
fn put_member(members: &mut Vec<(String, serde_json::Value)>, key: String, value: serde_json::Value)
    requires
        distinct_keys(old(members)@),
    ensures
        distinct_keys(final(members)@),
        contents_map(final(members)@) == contents_map(old(members)@).insert(
            key@,
            value_contents(value),
        ),
{
    let mut i: usize = 0;
    while i < members.len() && members[i].0 != key
        invariant
            i <= members@.len(),
            forall|j: int| 0 <= j < i ==> #[trigger] members@[j].0@ != key@,
        decreases members@.len() - i,
    {
        i += 1;
    }
    let ghost before = members@;
    if i < members.len() {
        proof {
            lemma_contents_map_remove(before, i as int);
        }
        members.remove(i);
    }
    let ghost cleared = members@;
    members.push((key, value));
    assert(members@.drop_last() =~= cleared);
    assert(contents_map(members@) =~= contents_map(before).insert(key@, value_contents(value)));
}

impl Json {
    /// The `serde_json::Value` that holds this JSON value.
    pub fn into_value(self) -> (r: serde_json::Value)
        ensures
            value_contents(r) == self@,
        decreases self,
    {
        match self {
            Json::Null => close_value(Node::Null),
            Json::Bool(b) => close_value(Node::Bool(b)),
            Json::Number(n) => close_value(Node::Number(n)),
            Json::Text(s) => close_value(Node::Text(s)),
            Json::Array(items) => {
                let mut out: Vec<serde_json::Value> = Vec::new();
                for item in it: items
                    invariant
                        it.seq() == items@,
                        self == Json::Array(items),
                        out@.len() == it.index(),
                        forall|i: int|
                            0 <= i < out@.len() ==> #[trigger] value_contents(out@[i]) == items@[i]@,
                {
                    assert(decreases_to!(self => self->Array_0));
                    assert(decreases_to!(items => items@));
                    assert(decreases_to!(items@ => items@[it.index()]));
                    out.push(item.into_value());
                }
                proof {
                    lemma_array_view(items@);
                    assert(Node::Array(out).contents()->Array_0 =~= array_view(items@));
                }
                close_value(Node::Array(out))
            },
            Json::Object(object) => {
                let members = object.members;
                let mut out: Vec<(String, serde_json::Value)> = Vec::new();
                for member in it: members
                    invariant
                        it.seq() == members@,
                        self == Json::Object(object),
                        members == object.members,
                        distinct_keys(out@),
                        contents_map(out@) == members_view(members@.take(it.index())),
                {
                    assert(members@.take(it.index() + 1).drop_last() =~= members@.take(it.index()));
                    assert(decreases_to!(self => self->Object_0));
                    assert(decreases_to!(object => object.members));
                    assert(decreases_to!(members => members@));
                    assert(decreases_to!(members@ => members@[it.index()]));
                    assert(decreases_to!(member => member.1));
                    let (key, value) = member;
                    put_member(&mut out, key, value.into_value());
                }
                assert(members@.take(members@.len() as int) =~= members@);
                close_value(Node::Object(out))
            },
        }
    }
}

impl Json {
    /// Reads a text as JSON; `None` where it is none.
    pub fn parse(text: &str) -> (r: Option<Json>)
        ensures
            r matches Some(j) ==> json_parse(text@) == Some(j@),
            r is None ==> json_parse(text@) is None,
    {
        match value_from_text(text) {
            Some(v) => Some(Json::from_value(v)),
            None => None,
        }
    }

    /// The compact text of a JSON value.
    pub fn into_text(self) -> (r: String)
        ensures
            r@ == json_text(self@),
            r@.len() > 0,
            self@ == JsonView::Object(Map::empty()) ==> r@ == seq!['{', '}'],
            plain(self@, 127) ==> json_parse(r@) == Some(self@),
    {
        match value_text(&self.into_value()) {
            Some(text) => text,
            None => "{}".to_owned(),
        }
    }

    /// The compact text of a JSON value with the members of each object in their order. `serde_json`
    /// writes all that is no array or object.
    pub fn into_written(self) -> (r: String)
        ensures
            r@ == self.written(),
        decreases self,
    {
        match self {
            Json::Array(items) => {
                let mut parts: Vec<String> = Vec::new();
                assert(texts(parts@) =~= items_written(items@.take(0)));
                for item in it: items
                    invariant
                        it.seq() == items@,
                        self == Json::Array(items),
                        texts(parts@) == items_written(items@.take(it.index())),
                {
                    assert(items@.take(it.index() + 1).drop_last() =~= items@.take(it.index()));
                    assert(decreases_to!(self => self->Array_0));
                    assert(decreases_to!(items => items@));
                    assert(decreases_to!(items@ => items@[it.index()]));
                    let ghost before = texts(parts@);
                    let ghost text = item.written();
                    parts.push(item.into_written());
                    assert(texts(parts@) =~= before.push(text));
                }
                assert(items@.take(items@.len() as int) =~= items@);
                "[".to_owned().concat(join(&parts, ",").as_str()).concat("]")
            },
            Json::Object(object) => {
                let members = object.members;
                let ghost as_text = |m: (Seq<char>, Seq<char>)| member_text(m);
                let mut parts: Vec<String> = Vec::new();
                assert(texts(parts@) =~= members_written(members@.take(0)).map_values(as_text));
                for member in it: members
                    invariant
                        it.seq() == members@,
                        self == Json::Object(object),
                        members == object.members,
                        as_text == (|m: (Seq<char>, Seq<char>)| member_text(m)),
                        texts(parts@) == members_written(
                            members@.take(it.index()),
                        ).map_values(as_text),
                {
                    assert(members@.take(it.index() + 1).drop_last() =~= members@.take(it.index()));
                    assert(decreases_to!(self => self->Object_0));
                    assert(decreases_to!(object => object.members));
                    assert(decreases_to!(members => members@));
                    assert(decreases_to!(members@ => members@[it.index()]));
                    assert(decreases_to!(member => member.1));
                    let ghost before = texts(parts@);
                    let ghost pair = (member.0@, member.1.written());
                    let (key, value) = member;
                    let part = Json::Text(key).into_text().concat(":").concat(
                        value.into_written().as_str(),
                    );
                    parts.push(part);
                    assert(texts(parts@) =~= before.push(as_text(pair)));
                    assert(texts(parts@) =~= members_written(
                        members@.take(it.index() + 1),
                    ).map_values(as_text));
                }
                assert(members@.take(members@.len() as int) =~= members@);
                "{".to_owned().concat(join(&parts, ",").as_str()).concat("}")
            },
            other => other.into_text(),
        }
    }

    /// A JSON integer.
    pub fn signed(n: i64) -> (r: Json)
        ensures
            r@ == JsonView::Int(n as int),
            r.written() == json_text(r@),
    {
        match number_of(n as i128) {
            Some(m) => Json::Number(m),
            None => Json::Null,
        }
    }

    /// A JSON integer that is not negative.
    pub fn unsigned(n: u64) -> (r: Json)
        ensures
            r@ == JsonView::Int(n as int),
            r.written() == json_text(r@),
    {
        match number_of(n as i128) {
            Some(m) => Json::Number(m),
            None => Json::Null,
        }
    }

    /// A JSON string.
    pub fn text(s: &str) -> (r: Json)
        ensures
            r@ == JsonView::Text(s@),
            r.written() == json_text(r@),
    {
        Json::Text(s.to_owned())
    }

    /// A JSON array of one value.
    pub fn array_of(item: Json) -> (r: Json)
        ensures
            r@ == JsonView::Array(seq![item@]),
            r.written() == list_text(seq![item.written()]),
    {
        let mut items: Vec<Json> = Vec::new();
        items.push(item);
        proof {
            lemma_array_view(items@);
            lemma_items_written(items@);
            assert(array_view(items@) =~= seq![item@]);
            assert(items_written(items@) =~= seq![item.written()]);
        }
        Json::Array(items)
    }

    /// The text of a JSON string; `None` for any other value.
    pub fn as_str(&self) -> (r: Option<&str>)
        ensures
            r matches Some(s) ==> self@ == JsonView::Text(s@),
            r is None ==> !(self@ is Text),
    {
        match self {
            Json::Text(s) => Some(s.as_str()),
            _ => None,
        }
    }

    /// The member of an object under a key; `None` where there is none or this is no object.
    pub fn get(&self, key: &str) -> (r: Option<&Json>)
        ensures
            r matches Some(v) ==> member(self@, key@) == Some(v@),
            r is None ==> member(self@, key@) is None,
    {
        match self {
            Json::Object(object) => object.get(key),
            _ => None,
        }
    }
}

/// The member of a value under a key, where the value is an object that has one.
pub open spec fn member(value: JsonView, key: Seq<char>) -> Option<JsonView> {
    match value {
        JsonView::Object(members) => if members.dom().contains(key) {
            Some(members[key])
        } else {
            None
        },
        _ => None,
    }
}

impl JsonObject {
    /// The members as a map.
    pub open spec fn view(&self) -> Map<Seq<char>, JsonView> {
        members_view(self.members@)
    }

    /// The members in their order, each value as its text.
    pub open spec fn parts(&self) -> Seq<(Seq<char>, Seq<char>)> {
        members_written(self.members@)
    }

    /// The object without members.
    pub fn new() -> (r: JsonObject)
        ensures
            r@ == Map::<Seq<char>, JsonView>::empty(),
            r.parts() == Seq::<(Seq<char>, Seq<char>)>::empty(),
    {
        JsonObject { members: Vec::new() }
    }

    /// This object with a member more, in place of the one with its key where there is one.
    pub fn with(self, key: &str, value: Json) -> (r: JsonObject)
        ensures
            r@ == self@.insert(key@, value@),
            r.parts() == self.parts().push((key@, value.written())),
    {
        let mut members = self.members;
        members.push((key.to_owned(), value));
        assert(members@.drop_last() =~= self.members@);
        JsonObject { members }
    }

    /// The value under a key.
    pub fn get(&self, key: &str) -> (r: Option<&Json>)
        ensures
            r matches Some(v) ==> self@.dom().contains(key@) && self@[key@] == v@,
            r is None ==> !self@.dom().contains(key@),
    {
        let wanted = key.to_owned();
        let mut i: usize = self.members.len();
        assert(self.members@.take(i as int) =~= self.members@);
        while i > 0
            invariant
                i <= self.members@.len(),
                wanted@ == key@,
                self@.dom().contains(key@) == members_view(self.members@.take(i as int)).dom().contains(
                    key@,
                ),
                self@.dom().contains(key@) ==> self@[key@] == members_view(
                    self.members@.take(i as int),
                )[key@],
            decreases i,
        {
            assert(self.members@.take(i as int).drop_last() =~= self.members@.take(i - 1));
            i -= 1;
            if self.members[i].0 == wanted {
                return Some(&self.members[i].1);
            }
        }
        None
    }

    /// Whether the object has no members.
    pub fn is_empty(&self) -> (r: bool)
        ensures
            r == (self@ == Map::<Seq<char>, JsonView>::empty()),
    {
        if self.members.len() > 0 {
            assert(self@.dom().contains(self.members@.last().0@));
        }
        self.members.len() == 0
    }
}

/// JSON values, each as its text with members in their order.
pub open spec fn json_texts(items: Seq<Json>) -> Seq<Seq<char>> {
    items.map_values(|j: Json| j.written())
}

/// JSON values, each taken by its view.
pub open spec fn json_views(items: Seq<Json>) -> Seq<JsonView> {
    items.map_values(|j: Json| j@)
}

impl Json {
    /// A JSON object.
    pub fn object(object: JsonObject) -> (r: Json)
        ensures
            r@ == JsonView::Object(object@),
            r.written() == object_text(object.parts()),
    {
        Json::Object(object)
    }

    /// A JSON array.
    pub fn array(items: Vec<Json>) -> (r: Json)
        ensures
            r@ == JsonView::Array(json_views(items@)),
            r.written() == list_text(json_texts(items@)),
    {
        proof {
            lemma_array_view(items@);
            lemma_items_written(items@);
            assert(items_written(items@) =~= json_texts(items@));
            assert(array_view(items@) =~= json_views(items@));
        }
        Json::Array(items)
    }
}

// ---------------------------------------------------------------------------
// Reading values
// ---------------------------------------------------------------------------

/// A value is an object that has `expected` under a key.
pub open spec fn says(value: JsonView, key: Seq<char>, expected: JsonView) -> bool {
    value is Object && value->Object_0.dom().contains(key) && value->Object_0[key] == expected
}

/// A value is an object that has a text under a key.
pub open spec fn says_text(value: JsonView, key: Seq<char>, text: Seq<char>) -> bool {
    says(value, key, JsonView::Text(text))
}

/// A value is no object, or has nothing under a key.
pub open spec fn is_silent_on(value: JsonView, key: Seq<char>) -> bool {
    value is Object ==> !value->Object_0.dom().contains(key)
}

/// A value is an object with these keys and no others.
pub open spec fn has_just(value: JsonView, keys: Set<Seq<char>>) -> bool {
    value is Object && value->Object_0.dom() =~= keys
}

/// A member is found under its key, and under no other.
pub proof fn members_are_found_under_their_keys(value: JsonView, key: Seq<char>)
    ensures
        member(value, key) is None <==> !(value is Object) || is_silent_on(value, key),
        forall|v: JsonView| says(value, key, v) <==> member(value, key) == Some(v),
{
}

/// One member more goes out at the end of an object: key, colon, value, behind a comma where it is
/// not the first.
pub proof fn members_go_out_one_after_the_other(
    members: Seq<(Seq<char>, Seq<char>)>,
    key: Seq<char>,
    text: Seq<char>,
)
    ensures
        ({
            let part = json_text(JsonView::Text(key)) + seq![':'] + text;
            let before = object_text(members);
            let after = object_text(members.push((key, text)));
            &&& object_text(Seq::empty()) == seq!['{', '}']
            &&& before.len() >= 2 && before.last() == '}'
            &&& members.len() == 0 ==> after == seq!['{'] + part + seq!['}']
            &&& members.len() > 0 ==> after == before.drop_last() + seq![','] + part + seq!['}']
        }),
{
    reveal_strlit("{");
    reveal_strlit("}");
    reveal_strlit(",");
    reveal_strlit(":");
    let as_text = |m: (Seq<char>, Seq<char>)| member_text(m);
    let none = Seq::<(Seq<char>, Seq<char>)>::empty();
    assert(none.map_values(as_text) =~= Seq::empty());
    assert(object_text(none) =~= seq!['{', '}']);
    let part = json_text(JsonView::Text(key)) + seq![':'] + text;
    assert("{"@ =~= seq!['{'] && "}"@ =~= seq!['}'] && ","@ =~= seq![','] && ":"@ =~= seq![':']);
    assert(members.push((key, text)).map_values(as_text) =~= members.map_values(as_text).push(part));
    joining_adds_at_the_end(members.map_values(as_text), part, ","@);
    let before = object_text(members);
    if members.len() > 0 {
        assert(object_text(members.push((key, text))) =~= before.drop_last() + seq![','] + part
            + seq!['}']);
    }
}

/// One value more goes out at the end of a list, behind a comma where it is not the first.
pub proof fn items_go_out_one_after_the_other(items: Seq<Seq<char>>, text: Seq<char>)
    ensures
        ({
            let before = list_text(items);
            let after = list_text(items.push(text));
            &&& list_text(Seq::empty()) == seq!['[', ']']
            &&& before.len() >= 2 && before.last() == ']'
            &&& items.len() == 0 ==> after == seq!['['] + text + seq![']']
            &&& items.len() > 0 ==> after == before.drop_last() + seq![','] + text + seq![']']
        }),
{
    reveal_strlit("[");
    reveal_strlit("]");
    reveal_strlit(",");
    assert("["@ =~= seq!['['] && "]"@ =~= seq![']'] && ","@ =~= seq![',']);
    assert(list_text(Seq::empty()) =~= seq!['[', ']']);
    joining_adds_at_the_end(items, text, ","@);
    let before = list_text(items);
    if items.len() > 0 {
        assert(list_text(items.push(text)) =~= before.drop_last() + seq![','] + text + seq![']']);
    }
}

/// The view of a value tells its kind and all that is in it: the values of an array one by one, and
/// under each key of an object the last value with that key.
pub proof fn views_of_values_hold_everything(
    b: bool,
    s: String,
    items: Vec<Json>,
    i: int,
    object: JsonObject,
)
    requires
        0 <= i < items@.len(),
    ensures
        Json::Null@ == JsonView::Null,
        Json::Bool(b)@ == JsonView::Bool(b),
        Json::Text(s)@ == JsonView::Text(s@),
        Json::Array(items)@ is Array,
        Json::Array(items)@->Array_0.len() == items@.len(),
        Json::Array(items)@->Array_0[i] == items@[i]@,
        Json::Object(object)@ == JsonView::Object(object@),
        object.members@.len() == 0 ==> object@ == Map::<Seq<char>, JsonView>::empty(),
        object.members@.len() > 0 ==> says(
            Json::Object(object)@,
            object.members@.last().0@,
            object.members@.last().1@,
        ),
{
    lemma_array_view(items@);
}

} // verus!
