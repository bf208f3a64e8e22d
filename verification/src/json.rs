//! JSON documents as the hooks read and write them.
//!
//! `serde_json` does the reading and the writing of text. In between a document is a
//! [`Json`] tree, which the rules of this crate inspect and extend.
use vstd::prelude::*;

use crate::entries::find_last;

verus! {

/// `serde_json::Number`: a number in the hands of `serde_json`.
#[verifier::external_type_specification]
#[verifier::external_body]
pub struct ExNumber(serde_json::Number);

/// `serde_json::Value`: a document in the hands of `serde_json`.
#[verifier::external_type_specification]
#[verifier::external_body]
pub struct ExValue(serde_json::Value);

/// `serde_json::Map`: the members of an object in the hands of `serde_json`.
#[verifier::external_type_specification]
#[verifier::external_body]
#[verifier::reject_recursive_types(K)]
#[verifier::reject_recursive_types(V)]
pub struct ExMap<K, V>(serde_json::Map<K, V>);

/// A number of a JSON document that is no whole number of 64 bits. It is carried along and
/// never read; only reading a document makes one.
#[derive(Debug, PartialEq, Eq)]
pub struct Fraction {
    number: serde_json::Number,
}

/// A JSON document.
///
/// An object lists its members. Where a key stands twice, the later member counts.
#[derive(Debug, PartialEq, Eq)]
pub enum Json {
    Null,
    Bool(bool),
    Unsigned(u64),
    Signed(i64),
    Fraction(Fraction),
    Text(String),
    Array(Vec<Json>),
    Object(Vec<(String, Json)>),
}

/// What a JSON document says, apart from how it is stored.
#[verifier::ext_equal]
pub enum JsonVal {
    Null,
    Bool(bool),
    Whole(int),
    Fraction(Fraction),
    Text(Seq<char>),
    Array(Seq<JsonVal>),
    Object(Map<Seq<char>, JsonVal>),
}

impl JsonVal {
    /// The member of an object under a key. Nothing but an object has members.
    pub open spec fn member(self, key: Seq<char>) -> Option<JsonVal> {
        match self {
            JsonVal::Object(members) => if members.contains_key(key) {
                Some(members[key])
            } else {
                None
            },
            _ => None,
        }
    }

    /// The text, if the document is one.
    pub open spec fn as_text(self) -> Option<Seq<char>> {
        match self {
            JsonVal::Text(s) => Some(s),
            _ => None,
        }
    }

    /// The text under a key of an object.
    pub open spec fn member_text(self, key: Seq<char>) -> Option<Seq<char>> {
        match self.member(key) {
            Some(v) => v.as_text(),
            None => None,
        }
    }

    /// The document with one member of an object set; anything but an object is left alone.
    pub open spec fn with_member(self, key: Seq<char>, value: JsonVal) -> JsonVal {
        match self {
            JsonVal::Object(members) => JsonVal::Object(members.insert(key, value)),
            _ => self,
        }
    }

    /// The object without members.
    pub open spec fn empty_object() -> JsonVal {
        JsonVal::Object(Map::empty())
    }

    /// Whether the document nests at most `depth` deep, and holds fractions only if they are
    /// let in.
    pub open spec fn within(self, depth: nat, fractions: bool) -> bool
        decreases depth,
    {
        match self {
            JsonVal::Fraction(_) => fractions,
            JsonVal::Array(items) => depth > 0 && forall|i: int|
                0 <= i < items.len() ==> (#[trigger] items[i]).within(
                    (depth - 1) as nat,
                    fractions,
                ),
            JsonVal::Object(members) => depth > 0 && forall|key: Seq<char>| #[trigger]
                members.contains_key(key) ==> members[key].within((depth - 1) as nat, fractions),
            _ => true,
        }
    }

    /// Whether two documents that nest at most `depth` deep are the same, except that where one
    /// has a fraction the other may have another fraction.
    pub open spec fn alike(self, other: JsonVal, depth: nat) -> bool
        decreases depth,
    {
        match (self, other) {
            (JsonVal::Fraction(_), JsonVal::Fraction(_)) => true,
            (JsonVal::Array(a), JsonVal::Array(b)) => {
                &&& depth > 0
                &&& a.len() == b.len()
                &&& forall|i: int|
                    0 <= i < a.len() ==> (#[trigger] a[i]).alike(b[i], (depth - 1) as nat)
            },
            (JsonVal::Object(a), JsonVal::Object(b)) => {
                &&& depth > 0
                &&& a.dom() == b.dom()
                &&& forall|key: Seq<char>| #[trigger]
                    a.contains_key(key) ==> a[key].alike(b[key], (depth - 1) as nat)
            },
            _ => self == other,
        }
    }
}

/// How deep a document may nest for `serde_json` to read it.
pub open spec fn nesting_limit() -> nat {
    127
}

/// What a list of documents says.
pub open spec fn array_model(items: Seq<Json>) -> Seq<JsonVal>
    decreases items,
{
    if items.len() == 0 {
        Seq::empty()
    } else {
        array_model(items.drop_last()).push(items.last().model())
    }
}

/// What a list of members says.
pub open spec fn object_model(members: Seq<(String, Json)>) -> Map<Seq<char>, JsonVal>
    decreases members,
{
    if members.len() == 0 {
        Map::empty()
    } else {
        object_model(members.drop_last()).insert(members.last().0@, members.last().1.model())
    }
}

impl Json {
    /// What the document says.
    pub open spec fn model(self) -> JsonVal
        decreases self,
    {
        match self {
            Json::Null => JsonVal::Null,
            Json::Bool(b) => JsonVal::Bool(b),
            Json::Unsigned(n) => JsonVal::Whole(n as int),
            Json::Signed(n) => JsonVal::Whole(n as int),
            Json::Fraction(number) => JsonVal::Fraction(number),
            Json::Text(s) => JsonVal::Text(s@),
            Json::Array(items) => JsonVal::Array(array_model(items@)),
            Json::Object(members) => JsonVal::Object(object_model(members@)),
        }
    }
}

impl View for Json {
    type V = JsonVal;

    open spec fn view(&self) -> JsonVal {
        self.model()
    }
}

/// What a `serde_json::Value` holds.
pub uninterp spec fn value_contents(value: serde_json::Value) -> JsonVal;

/// What a `serde_json::Map` holds.
pub uninterp spec fn map_contents(map: serde_json::Map<String, serde_json::Value>) -> Map<
    Seq<char>,
    JsonVal,
>;

/// The document that `serde_json` reads out of a text, or else its complaint.
pub uninterp spec fn json_parse(text: Seq<char>) -> Result<JsonVal, Seq<char>>;

/// The compact text that `serde_json` writes for a document.
pub uninterp spec fn json_text(document: JsonVal) -> Seq<char>;

/// Whether `serde_json` reads `document` out of a text.
pub open spec fn reads_as(text: Seq<char>, document: JsonVal) -> bool {
    json_parse(text) == Ok::<JsonVal, Seq<char>>(document)
}

/// Whether `serde_json` reads out of a text what `document` says, apart from the values of
/// fractions.
pub open spec fn reads_like(text: Seq<char>, document: JsonVal) -> bool {
    json_parse(text) matches Ok(read) && read.alike(document, nesting_limit())
}

/// The document that `serde_json` reads out of a text, if it does.
pub open spec fn json_read(text: Seq<char>) -> Option<JsonVal> {
    match json_parse(text) {
        Ok(document) => Some(document),
        Err(_) => None,
    }
}

/// Whether `serde_json` refuses a text with this complaint.
pub open spec fn unreadable(text: Seq<char>, complaint: Seq<char>) -> bool {
    json_parse(text) == Err::<JsonVal, Seq<char>>(complaint)
}

/// `serde_json::from_str` reads a text; what it finds, or its error message, is `json_parse`.
#[verifier::external_body]
fn read_value(text: &str) -> (res: Result<serde_json::Value, String>)
    ensures
        match res {
            Ok(value) => json_parse(text@) == Ok::<JsonVal, Seq<char>>(value_contents(value)),
            Err(complaint) => json_parse(text@) == Err::<JsonVal, Seq<char>>(complaint@),
        },
{
    serde_json::from_str::<serde_json::Value>(text).map_err(|e| e.to_string())
}

/// `serde_json::Map::new` makes a map without members.
#[verifier::external_body]
fn new_map() -> (res: serde_json::Map<String, serde_json::Value>)
    ensures
        JsonVal::Object(map_contents(res)) == JsonVal::empty_object(),
{
    serde_json::Map::new()
}

/// `serde_json::Map::insert` adds a member, or updates the one that is there under the key.
#[verifier::external_body]
fn insert_member(
    map: &mut serde_json::Map<String, serde_json::Value>,
    key: String,
    value: serde_json::Value,
)
    ensures
        map_contents(*final(map)) == map_contents(*old(map)).insert(key@, value_contents(value)),
{
    map.insert(key, value);
}

/// The top of a document, over parts that `serde_json` holds already.
enum Layer {
    Null,
    Bool(bool),
    Unsigned(u64),
    Signed(i64),
    Fraction(Fraction),
    Text(String),
    Array(Vec<serde_json::Value>),
    Object(serde_json::Map<String, serde_json::Value>),
}

/// What some values hold.
spec fn values_contents(values: Seq<serde_json::Value>) -> Seq<JsonVal> {
    values.map_values(|value: serde_json::Value| value_contents(value))
}

/// What a layer holds.
spec fn layer_contents(layer: Layer) -> JsonVal {
    match layer {
        Layer::Null => JsonVal::Null,
        Layer::Bool(b) => JsonVal::Bool(b),
        Layer::Unsigned(n) => JsonVal::Whole(n as int),
        Layer::Signed(n) => JsonVal::Whole(n as int),
        Layer::Fraction(fraction) => JsonVal::Fraction(fraction),
        Layer::Text(s) => JsonVal::Text(s@),
        Layer::Array(values) => JsonVal::Array(values_contents(values@)),
        Layer::Object(map) => JsonVal::Object(map_contents(map)),
    }
}

/// The variants of `serde_json::Value` one for one, whole numbers by `Value::from`: the value
/// holds what the layer does.
#[verifier::external_body]
fn make_value(layer: Layer) -> (res: serde_json::Value)
    ensures
        value_contents(res) == layer_contents(layer),
{
    match layer {
        Layer::Null => serde_json::Value::Null,
        Layer::Bool(b) => serde_json::Value::Bool(b),
        Layer::Unsigned(n) => serde_json::Value::from(n),
        Layer::Signed(n) => serde_json::Value::from(n),
        Layer::Fraction(fraction) => serde_json::Value::Number(fraction.number),
        Layer::Text(s) => serde_json::Value::String(s),
        Layer::Array(values) => serde_json::Value::Array(values),
        Layer::Object(map) => serde_json::Value::Object(map),
    }
}

/// The variants of `serde_json::Value`, and those that `Number::as_u64` and `Number::as_i64`
/// tell apart, one for one: the layer holds what the value does.
#[verifier::external_body]
fn open_value(value: serde_json::Value) -> (res: Layer)
    ensures
        layer_contents(res) == value_contents(value),
{
    match value {
        serde_json::Value::Null => Layer::Null,
        serde_json::Value::Bool(b) => Layer::Bool(b),
        serde_json::Value::Number(number) => match (number.as_u64(), number.as_i64()) {
            (Some(n), _) => Layer::Unsigned(n),
            (None, Some(n)) => Layer::Signed(n),
            (None, None) => Layer::Fraction(Fraction { number }),
        },
        serde_json::Value::String(s) => Layer::Text(s),
        serde_json::Value::Array(values) => Layer::Array(values),
        serde_json::Value::Object(map) => Layer::Object(map),
    }
}

/// What some members hold.
spec fn members_contents(members: Seq<(String, serde_json::Value)>) -> Map<Seq<char>, JsonVal>
    decreases members.len(),
{
    if members.len() == 0 {
        Map::empty()
    } else {
        members_contents(members.drop_last()).insert(
            members.last().0@,
            value_contents(members.last().1),
        )
    }
}

/// Whether no two members have the same key.
spec fn distinct_keys(members: Seq<(String, serde_json::Value)>) -> bool {
    forall|i: int, j: int| 0 <= i < j < members.len() ==> members[i].0@ != members[j].0@
}

/// `serde_json::Map::into_iter` gives out the members of a map, each of them once.
#[verifier::external_body]
fn map_members(map: serde_json::Map<String, serde_json::Value>) -> (res: Vec<
    (String, serde_json::Value),
>)
    ensures
        members_contents(res@) == map_contents(map),
        distinct_keys(res@),
{
    map.into_iter().collect()
}

/// With distinct keys, every member counts.
proof fn lemma_members_contents(members: Seq<(String, serde_json::Value)>, i: int)
    requires
        distinct_keys(members),
        0 <= i < members.len(),
    ensures
        members_contents(members).dom().finite(),
        members_contents(members).contains_key(members[i].0@),
        members_contents(members)[members[i].0@] == value_contents(members[i].1),
    decreases members.len(),
{
    let rest = members.drop_last();
    assert(members.last() == members[members.len() - 1]);
    if rest.len() > 0 {
        lemma_members_contents(rest, if i < rest.len() { i } else { 0 });
    }
    if i < rest.len() {
        assert(rest[i] == members[i]);
    }
}

/// Takes a document out of the hands of `serde_json`.
fn from_value(value: serde_json::Value) -> (res: Json)
    ensures
        res@ == value_contents(value),
    decreases value_contents(value),
{
    let ghost contents = value_contents(value);
    let layer = open_value(value);
    proof {
        lemma_a_layer_says_what_it_holds(layer);
    }
    match layer {
        Layer::Null => Json::Null,
        Layer::Bool(b) => Json::Bool(b),
        Layer::Unsigned(n) => Json::Unsigned(n),
        Layer::Signed(n) => Json::Signed(n),
        Layer::Fraction(fraction) => Json::Fraction(fraction),
        Layer::Text(s) => Json::Text(s),
        Layer::Array(values) => {
            let ghost held = values_contents(values@);
            let mut items: Vec<Json> = Vec::new();
            assert(held.take(0) =~= array_model(items@));
            for child in it: values
                invariant
                    it.seq() == values@,
                    contents == value_contents(value),
                    contents == JsonVal::Array(held),
                    held == values_contents(values@),
                    array_model(items@) == held.take(it.index() as int),
            {
                let ghost before = items@;
                proof {
                    assert(held[it.index() as int] == value_contents(child));
                    assert(decreases_to!(contents => contents->Array_0));
                    assert(decreases_to!(held => held[it.index() as int]));
                }
                let item = from_value(child);
                items.push(item);
                proof {
                    assert(items@.drop_last() =~= before);
                    assert(held.take(it.index() + 1) =~= held.take(it.index() as int).push(
                        item@,
                    ));
                }
            }
            assert(held.take(held.len() as int) =~= held);
            Json::Array(items)
        },
        Layer::Object(map) => {
            let ghost held = map_contents(map);
            let pairs = map_members(map);
            let mut members: Vec<(String, Json)> = Vec::new();
            assert(pairs@.take(0) =~= seq![]);
            for pair in it: pairs
                invariant
                    it.seq() == pairs@,
                    contents == value_contents(value),
                    contents == JsonVal::Object(held),
                    held == members_contents(pairs@),
                    distinct_keys(pairs@),
                    object_model(members@) == members_contents(pairs@.take(it.index() as int)),
            {
                let ghost before = members@;
                let (key, child) = pair;
                proof {
                    assert(pairs@[it.index() as int] == (key, child));
                    lemma_members_contents(pairs@, it.index() as int);
                    assert(decreases_to!(contents => contents->Object_0));
                    assert(decreases_to!(held => held[key@]));
                }
                let member = from_value(child);
                members.push((key, member));
                proof {
                    assert(members@.drop_last() =~= before);
                    assert(pairs@.take(it.index() + 1).drop_last() =~= pairs@.take(
                        it.index() as int,
                    ));
                }
            }
            assert(pairs@.take(pairs@.len() as int) =~= pairs@);
            Json::Object(members)
        },
    }
}

/// Hands a document to `serde_json`, its members one by one in their order.
fn to_value(document: &Json) -> (res: serde_json::Value)
    ensures
        value_contents(res) == document@,
    decreases document,
{
    match document {
        Json::Null => make_value(Layer::Null),
        Json::Bool(b) => make_value(Layer::Bool(*b)),
        Json::Unsigned(n) => make_value(Layer::Unsigned(*n)),
        Json::Signed(n) => make_value(Layer::Signed(*n)),
        Json::Fraction(fraction) => make_value(
            Layer::Fraction(Fraction { number: fraction.number.clone() }),
        ),
        Json::Text(s) => make_value(Layer::Text(s.clone())),
        Json::Array(items) => {
            let mut values: Vec<serde_json::Value> = Vec::new();
            let mut i: usize = 0;
            assert(values_contents(values@) =~= array_model(items@.take(0)));
            while i < items.len()
                invariant
                    i <= items.len(),
                    decreases_to!(document => items@),
                    values_contents(values@) == array_model(items@.take(i as int)),
                decreases items.len() - i,
            {
                let value = to_value(&items[i]);
                let ghost before = values_contents(values@);
                values.push(value);
                proof {
                    assert(values_contents(values@) =~= before.push(value_contents(value)));
                    assert(items@.take(i + 1).drop_last() =~= items@.take(i as int));
                }
                i += 1;
            }
            assert(items@.take(i as int) =~= items@);
            make_value(Layer::Array(values))
        },
        Json::Object(members) => {
            let mut map = new_map();
            let mut i: usize = 0;
            while i < members.len()
                invariant
                    i <= members.len(),
                    decreases_to!(document => members@),
                    map_contents(map) == object_model(members@.take(i as int)),
                decreases members.len() - i,
            {
                let value = to_value(&members[i].1);
                insert_member(&mut map, members[i].0.clone(), value);
                proof {
                    assert(members@.take(i + 1).drop_last() =~= members@.take(i as int));
                }
                i += 1;
            }
            assert(members@.take(i as int) =~= members@);
            make_value(Layer::Object(map))
        },
    }
}

/// `Value::to_string` writes a value as compact text, `json_text`. The text holds no newline:
/// the compact form has none, and those in strings are escaped. `serde_json` reads the text back
/// as the same document, if it nests no deeper than the parser follows; a fraction is written
/// with a point or an exponent, so it comes back as a fraction, but maybe as another: the parser
/// may round it. How it rounds is left unsaid.
#[verifier::external_body]
fn write_value(value: &serde_json::Value) -> (res: String)
    ensures
        res@ == json_text(value_contents(*value)),
        !res@.contains('\n'),
        value_contents(*value).within(nesting_limit(), true) ==> reads_like(
            res@,
            value_contents(*value),
        ),
{
    value.to_string()
}

/// Cloning a `serde_json::Number` gives the same number.
pub assume_specification[ <serde_json::Number as Clone>::clone ](
    n: &serde_json::Number,
) -> (res: serde_json::Number)
    ensures
        res == *n,
;

/// Reads a document out of a text.
pub fn parse_json(text: &str) -> (res: Result<Json, String>)
    ensures
        match res {
            Ok(document) => reads_as(text@, document@),
            Err(complaint) => unreadable(text@, complaint@),
        },
{
    match read_value(text) {
        Ok(value) => Ok(from_value(value)),
        Err(complaint) => Err(complaint),
    }
}

/// Documents without fractions that are alike are the same.
pub proof fn law_alike_without_fractions(v: JsonVal, document: JsonVal, depth: nat)
    requires
        v.alike(document, depth),
        document.within(depth, false),
    ensures
        v == document,
    decreases depth,
{
    match (v, document) {
        (JsonVal::Array(a), JsonVal::Array(b)) => {
            assert forall|i: int| 0 <= i < a.len() implies a[i] == b[i] by {
                law_alike_without_fractions(a[i], b[i], (depth - 1) as nat);
            }
            assert(a =~= b);
        },
        (JsonVal::Object(a), JsonVal::Object(b)) => {
            assert forall|key: Seq<char>| #[trigger] a.contains_key(key) implies a[key]
                == b[key] by {
                assert(b.contains_key(key));
                law_alike_without_fractions(a[key], b[key], (depth - 1) as nat);
            }
            assert(a =~= b);
        },
        _ => {},
    }
}

/// Documents that are alike have the same text under a key.
pub proof fn law_alike_members(v: JsonVal, document: JsonVal, key: Seq<char>, depth: nat)
    requires
        v.alike(document, depth),
    ensures
        v.member_text(key) == document.member_text(key),
        match (v.member(key), document.member(key)) {
            (Some(a), Some(b)) => depth > 0 && a.alike(b, (depth - 1) as nat),
            (None, None) => true,
            _ => false,
        },
{
    reveal_with_fuel(JsonVal::alike, 2);
    if let (JsonVal::Object(a), JsonVal::Object(b)) = (v, document) {
        assert(a.contains_key(key) == b.contains_key(key));
    }
}

/// Writes a document as one compact line. What is read back from it is the document itself, or
/// one that differs from it in fractions only.
pub fn render_json(document: &Json) -> (res: String)
    ensures
        res@ == json_text(document@),
        !res@.contains('\n'),
        document@.within(nesting_limit(), true) ==> reads_like(res@, document@),
        document@.within(nesting_limit(), false) ==> reads_as(res@, document@),
{
    let res = write_value(&to_value(document));
    proof {
        if document@.within(nesting_limit(), false) {
            lemma_within_with_fractions(document@, nesting_limit());
            law_alike_without_fractions(json_parse(res@)->Ok_0, document@, nesting_limit());
        }
    }
    res
}

/// A document without fractions may be taken for one that may hold some.
proof fn lemma_within_with_fractions(v: JsonVal, depth: nat)
    requires
        v.within(depth, false),
    ensures
        v.within(depth, true),
    decreases depth,
{
    match v {
        JsonVal::Array(items) => {
            assert forall|i: int| 0 <= i < items.len() implies (#[trigger] items[i]).within(
                (depth - 1) as nat,
                true,
            ) by {
                lemma_within_with_fractions(items[i], (depth - 1) as nat);
            }
        },
        JsonVal::Object(members) => {
            assert forall|key: Seq<char>| #[trigger]
                members.contains_key(key) implies members[key].within((depth - 1) as nat, true) by {
                lemma_within_with_fractions(members[key], (depth - 1) as nat);
            }
        },
        _ => {},
    }
}

/// Members from `i` on that have another key do not bear on what stands under `key`.
proof fn lemma_later_members(members: Seq<(String, Json)>, i: int, key: Seq<char>)
    requires
        0 <= i <= members.len(),
        forall|j: int| i <= j < members.len() ==> (#[trigger] members[j]).0@ != key,
    ensures
        object_model(members).contains_key(key) == object_model(members.take(i)).contains_key(key),
        object_model(members).contains_key(key) ==> object_model(members)[key] == object_model(
            members.take(i),
        )[key],
    decreases members.len(),
{
    if i < members.len() {
        assert(members.last() == members[members.len() - 1]);
        lemma_later_members(members.drop_last(), i, key);
        assert(members.drop_last().take(i) =~= members.take(i));
    } else {
        assert(members.take(i) =~= members);
    }
}

/// Replacing the last member under a key sets that key.
proof fn lemma_replace_member(members: Seq<(String, Json)>, i: int, member: (String, Json))
    requires
        0 <= i < members.len(),
        members[i].0@ == member.0@,
        forall|j: int| i < j < members.len() ==> (#[trigger] members[j]).0@ != member.0@,
    ensures
        object_model(members.update(i, member)) == object_model(members).insert(
            member.0@,
            member.1@,
        ),
    decreases members.len(),
{
    let changed = members.update(i, member);
    if i == members.len() - 1 {
        assert(changed.drop_last() =~= members.drop_last());
        assert(object_model(changed) =~= object_model(members).insert(member.0@, member.1@));
    } else {
        assert(members.last() == members[members.len() - 1]);
        lemma_replace_member(members.drop_last(), i, member);
        assert(changed.drop_last() =~= members.drop_last().update(i, member));
        assert(object_model(changed) =~= object_model(members).insert(member.0@, member.1@));
    }
}

/// Only an object has members: under each of its keys the value that stands there.
pub proof fn law_members_of_objects(v: JsonVal, key: Seq<char>)
    ensures
        match v {
            JsonVal::Object(members) => {
                &&& members.contains_key(key) ==> v.member(key) == Some(members[key])
                &&& !members.contains_key(key) ==> v.member(key) is None
            },
            _ => v.member(key) is None,
        },
        v.member_text(key) == match v.member(key) {
            Some(JsonVal::Text(s)) => Some(s),
            _ => None,
        },
        v.as_text() == match v {
            JsonVal::Text(s) => Some(s),
            _ => None,
        },
{
}

/// Setting a member of an object changes what stands under its key, and nothing else; what is no
/// object has no members to set.
pub proof fn law_setting_changes_one_member(
    v: JsonVal,
    key: Seq<char>,
    value: JsonVal,
    other: Seq<char>,
)
    ensures
        v is Object ==> v.with_member(key, value) is Object && v.with_member(key, value).member(key)
            == Some(value),
        other != key ==> v.with_member(key, value).member(other) == v.member(other),
        !(v is Object) ==> v.with_member(key, value) == v,
        JsonVal::empty_object() is Object && JsonVal::empty_object().member(key) is None,
{
}

/// A list says what its documents say, one by one.
proof fn lemma_array_model(items: Seq<Json>)
    ensures
        array_model(items).len() == items.len(),
        forall|i: int| 0 <= i < items.len() ==> #[trigger] array_model(items)[i] == items[i]@,
    decreases items.len(),
{
    if items.len() > 0 {
        lemma_array_model(items.drop_last());
        assert forall|i: int| 0 <= i < items.len() implies #[trigger] array_model(items)[i]
            == items[i]@ by {
            if i < items.len() - 1 {
                assert(items.drop_last()[i] == items[i]);
                assert(array_model(items)[i] == array_model(items.drop_last())[i]);
            }
        }
    }
}

/// A document says what it holds: a list one item after the other, an object under each key the
/// last member that has the key.
pub proof fn law_a_document_says_what_it_holds(v: Json, key: Seq<char>)
    ensures
        match v {
            Json::Null => v@ == JsonVal::Null,
            Json::Bool(b) => v@ == JsonVal::Bool(b),
            Json::Unsigned(n) => v@ == JsonVal::Whole(n as int),
            Json::Signed(n) => v@ == JsonVal::Whole(n as int),
            Json::Fraction(fraction) => v@ == JsonVal::Fraction(fraction),
            Json::Text(s) => v@ == JsonVal::Text(s@),
            Json::Array(items) => {
                &&& v@ matches JsonVal::Array(said)
                &&& said.len() == items@.len()
                &&& forall|i: int| 0 <= i < items@.len() ==> #[trigger] said[i] == items@[i]@
            },
            Json::Object(members) => {
                &&& v@ is Object
                &&& (forall|j: int|
                    0 <= j < members@.len() ==> (#[trigger] members@[j]).0@ != key) ==> v@.member(
                    key,
                ) is None
                &&& forall|i: int|
                    #![trigger members@[i]]
                    0 <= i < members@.len() && members@[i].0@ == key && (forall|j: int|
                        i < j < members@.len() ==> (#[trigger] members@[j]).0@ != key)
                        ==> v@.member(key) == Some(members@[i].1@)
            },
        },
{
    match v {
        Json::Array(items) => lemma_array_model(items@),
        Json::Object(members) => {
            let list = members@;
            if forall|j: int| 0 <= j < list.len() ==> (#[trigger] list[j]).0@ != key {
                lemma_later_members(list, 0, key);
                assert(list.take(0) =~= seq![]);
            }
            assert forall|i: int|
                #![trigger list[i]]
                0 <= i < list.len() && list[i].0@ == key && (forall|j: int|
                    i < j < list.len() ==> (#[trigger] list[j]).0@ != key) implies v@.member(key)
                == Some(list[i].1@) by {
                lemma_later_members(list, i + 1, key);
                assert(list.take(i + 1).last() == list[i]);
            }
        },
        _ => {},
    }
}

/// A layer says what it holds, an array its values one by one.
proof fn lemma_a_layer_says_what_it_holds(layer: Layer)
    ensures
        match layer {
            Layer::Null => layer_contents(layer) == JsonVal::Null,
            Layer::Bool(b) => layer_contents(layer) == JsonVal::Bool(b),
            Layer::Unsigned(n) => layer_contents(layer) == JsonVal::Whole(n as int),
            Layer::Signed(n) => layer_contents(layer) == JsonVal::Whole(n as int),
            Layer::Fraction(fraction) => layer_contents(layer) == JsonVal::Fraction(fraction),
            Layer::Text(s) => layer_contents(layer) == JsonVal::Text(s@),
            Layer::Array(values) => {
                &&& layer_contents(layer) matches JsonVal::Array(held)
                &&& held.len() == values@.len()
                &&& forall|i: int|
                    0 <= i < values@.len() ==> #[trigger] held[i] == value_contents(values@[i])
            },
            Layer::Object(map) => layer_contents(layer) == JsonVal::Object(map_contents(map)),
        },
{
}

/// What a text is read as goes by what `serde_json` finds in it.
pub proof fn law_reading_goes_by_the_parser(text: Seq<char>, document: JsonVal, complaint: Seq<char>)
    ensures
        reads_as(text, document) <==> json_parse(text) == Ok::<JsonVal, Seq<char>>(document),
        unreadable(text, complaint) <==> json_parse(text) == Err::<JsonVal, Seq<char>>(complaint),
        match json_parse(text) {
            Ok(found) => json_read(text) == Some(found),
            Err(_) => json_read(text) is None,
        },
{
}

/// Numbers apart, a document is like itself only: what is like it has the same kind, the same
/// text, as many items and the same keys.
pub proof fn law_alike_documents_agree(v: JsonVal, document: JsonVal, depth: nat)
    requires
        v.alike(document, depth),
    ensures
        match document {
            JsonVal::Fraction(_) => v is Fraction,
            JsonVal::Array(items) => v is Array && v->Array_0.len() == items.len(),
            JsonVal::Object(members) => v is Object && v->Object_0.dom() == members.dom(),
            _ => v == document,
        },
{
}

impl Json {
    /// A text.
    pub fn text(s: &str) -> (res: Json)
        ensures
            res@ == JsonVal::Text(s@),
    {
        Json::Text(s.to_owned())
    }

    /// The object without members.
    pub fn empty_object() -> (res: Json)
        ensures
            res@ == JsonVal::empty_object(),
    {
        Json::Object(Vec::new())
    }

    /// The member of an object under `key`.
    pub fn get(&self, key: &str) -> (res: Option<&Json>)
        ensures
            match res {
                Some(found) => self@.member(key@) == Some(found@),
                None => self@.member(key@) is None,
            },
    {
        match self {
            Json::Object(members) => match find_last(members, key) {
                Some(i) => {
                    proof {
                        lemma_later_members(members@, i + 1, key@);
                        assert(members@.take(i + 1).last() == members@[i as int]);
                    }
                    Some(&members[i].1)
                },
                None => {
                    proof {
                        lemma_later_members(members@, 0, key@);
                        assert(members@.take(0) =~= seq![]);
                    }
                    None
                },
            },
            _ => None,
        }
    }

    /// The text, if the document is one.
    pub fn as_str(&self) -> (res: Option<&str>)
        ensures
            match res {
                Some(s) => self@.as_text() == Some(s@),
                None => self@.as_text() is None,
            },
    {
        match self {
            Json::Text(s) => Some(s.as_str()),
            _ => None,
        }
    }

    /// The text under `key` of an object.
    pub fn get_str(&self, key: &str) -> (res: Option<&str>)
        ensures
            match res {
                Some(s) => self@.member_text(key@) == Some(s@),
                None => self@.member_text(key@) is None,
            },
    {
        match self.get(key) {
            Some(found) => found.as_str(),
            None => None,
        }
    }

    /// Sets a member of an object; anything but an object is left alone.
    pub fn set(&mut self, key: &str, value: Json)
        ensures
            final(self)@ == old(self)@.with_member(key@, value@),
    {
        match self {
            Json::Object(members) => {
                let ghost before = members@;
                let place = find_last(members, key);
                let member = (key.to_owned(), value);
                match place {
                    Some(i) => {
                        proof {
                            lemma_replace_member(before, i as int, member);
                        }
                        members.set(i, member);
                    },
                    None => {
                        members.push(member);
                        proof {
                            assert(members@.drop_last() =~= before);
                        }
                    },
                }
            },
            _ => {},
        }
    }
}

impl Clone for Json {
    fn clone(&self) -> (res: Self)
        ensures
            res@ == self@,
        decreases self,
    {
        match self {
            Json::Null => Json::Null,
            Json::Bool(b) => Json::Bool(*b),
            Json::Unsigned(n) => Json::Unsigned(*n),
            Json::Signed(n) => Json::Signed(*n),
            Json::Fraction(fraction) => Json::Fraction(
                Fraction { number: fraction.number.clone() },
            ),
            Json::Text(s) => Json::Text(s.clone()),
            Json::Array(items) => {
                let mut copies: Vec<Json> = Vec::new();
                let mut i: usize = 0;
                while i < items.len()
                    invariant
                        i <= items.len(),
                        decreases_to!(self => items@),
                        array_model(copies@) == array_model(items@.take(i as int)),
                    decreases items.len() - i,
                {
                    let copy = items[i].clone();
                    let ghost before = copies@;
                    copies.push(copy);
                    proof {
                        assert(copies@.drop_last() =~= before);
                        assert(items@.take(i + 1).drop_last() =~= items@.take(i as int));
                    }
                    i += 1;
                }
                assert(items@.take(i as int) =~= items@);
                Json::Array(copies)
            },
            Json::Object(members) => {
                let mut copies: Vec<(String, Json)> = Vec::new();
                let mut i: usize = 0;
                while i < members.len()
                    invariant
                        i <= members.len(),
                        decreases_to!(self => members@),
                        object_model(copies@) == object_model(members@.take(i as int)),
                    decreases members.len() - i,
                {
                    let copy = (members[i].0.clone(), members[i].1.clone());
                    let ghost before = copies@;
                    copies.push(copy);
                    proof {
                        assert(copies@.drop_last() =~= before);
                        assert(members@.take(i + 1).drop_last() =~= members@.take(i as int));
                    }
                    i += 1;
                }
                assert(members@.take(i as int) =~= members@);
                Json::Object(copies)
            },
        }
    }
}

} // verus!
