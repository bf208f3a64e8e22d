//! The part of a `pyproject.toml` that names Poe tasks.
//!
//! `toml` does the reading of text; what it reads is a [`Toml`] tree here.
use vstd::prelude::*;

use crate::entries::find_last;

verus! {

/// `toml::Value`: a document in the hands of `toml`.
#[verifier::external_type_specification]
#[verifier::external_body]
pub struct ExTomlValue(toml::Value);

/// `toml::map::Map`: the entries of a table in the hands of `toml`.
#[verifier::external_type_specification]
#[verifier::external_body]
#[verifier::reject_recursive_types(K)]
#[verifier::reject_recursive_types(V)]
pub struct ExTomlMap<K, V>(toml::map::Map<K, V>);

/// A TOML document.
///
/// Numbers, truth values and dates name no task, so they are carried along as they are. A table
/// lists its entries; where a key stands twice, the later entry counts.
#[derive(Debug, PartialEq)]
pub enum Toml {
    Text(String),
    List(Vec<Toml>),
    Table(Vec<(String, Toml)>),
    Scalar(toml::Value),
}

/// What a TOML document says, apart from how it is stored.
#[verifier::ext_equal]
pub enum TomlVal {
    Text(Seq<char>),
    List(Seq<TomlVal>),
    Table(Map<Seq<char>, TomlVal>),
    Scalar(toml::Value),
}

impl TomlVal {
    /// The entry of a table under a key. Nothing but a table has entries.
    pub open spec fn entry(self, key: Seq<char>) -> Option<TomlVal> {
        match self {
            TomlVal::Table(entries) => if entries.contains_key(key) {
                Some(entries[key])
            } else {
                None
            },
            _ => None,
        }
    }

    /// The text, if the document is one.
    pub open spec fn as_text(self) -> Option<Seq<char>> {
        match self {
            TomlVal::Text(s) => Some(s),
            _ => None,
        }
    }

    /// The items, if the document is a list.
    pub open spec fn as_list(self) -> Option<Seq<TomlVal>> {
        match self {
            TomlVal::List(items) => Some(items),
            _ => None,
        }
    }
}

/// What a list of documents says.
pub open spec fn list_model(items: Seq<Toml>) -> Seq<TomlVal>
    decreases items,
{
    if items.len() == 0 {
        Seq::empty()
    } else {
        list_model(items.drop_last()).push(items.last().model())
    }
}

/// What a list of entries says.
pub open spec fn table_model(entries: Seq<(String, Toml)>) -> Map<Seq<char>, TomlVal>
    decreases entries,
{
    if entries.len() == 0 {
        Map::empty()
    } else {
        table_model(entries.drop_last()).insert(entries.last().0@, entries.last().1.model())
    }
}

impl Toml {
    /// What the document says.
    pub open spec fn model(self) -> TomlVal
        decreases self,
    {
        match self {
            Toml::Text(s) => TomlVal::Text(s@),
            Toml::List(items) => TomlVal::List(list_model(items@)),
            Toml::Table(entries) => TomlVal::Table(table_model(entries@)),
            Toml::Scalar(value) => TomlVal::Scalar(value),
        }
    }
}

impl View for Toml {
    type V = TomlVal;

    open spec fn view(&self) -> TomlVal {
        self.model()
    }
}

/// What a `toml::Value` holds.
pub uninterp spec fn toml_contents(value: toml::Value) -> TomlVal;

/// What a `toml::map::Map` holds.
pub uninterp spec fn table_contents(table: toml::map::Map<String, toml::Value>) -> Map<
    Seq<char>,
    TomlVal,
>;

/// The document that `toml` reads out of a text, or else its complaint.
pub uninterp spec fn toml_parse(text: Seq<char>) -> Result<TomlVal, Seq<char>>;

/// `str::parse::<toml::Value>` reads a document; what it finds, or its error message, is
/// `toml_parse`.
#[verifier::external_body]
fn read_toml(text: &str) -> (res: Result<toml::Value, String>)
    ensures
        match res {
            Ok(value) => toml_parse(text@) == Ok::<TomlVal, Seq<char>>(toml_contents(value)),
            Err(complaint) => toml_parse(text@) == Err::<TomlVal, Seq<char>>(complaint@),
        },
{
    text.parse::<toml::Value>().map_err(|e| e.to_string())
}

/// The top of a document, over parts that `toml` holds.
enum TomlLayer {
    Text(String),
    List(Vec<toml::Value>),
    Table(toml::map::Map<String, toml::Value>),
    Scalar(toml::Value),
}

/// What some values hold.
spec fn items_contents(values: Seq<toml::Value>) -> Seq<TomlVal> {
    values.map_values(|value: toml::Value| toml_contents(value))
}

/// What a layer holds.
spec fn toml_layer_contents(layer: TomlLayer) -> TomlVal {
    match layer {
        TomlLayer::Text(s) => TomlVal::Text(s@),
        TomlLayer::List(values) => TomlVal::List(items_contents(values@)),
        TomlLayer::Table(table) => TomlVal::Table(table_contents(table)),
        TomlLayer::Scalar(value) => TomlVal::Scalar(value),
    }
}

/// The variants of `toml::Value` one for one: the layer holds what the value does.
#[verifier::external_body]
fn open_toml(value: toml::Value) -> (res: TomlLayer)
    ensures
        toml_layer_contents(res) == toml_contents(value),
{
    match value {
        toml::Value::String(s) => TomlLayer::Text(s),
        toml::Value::Array(values) => TomlLayer::List(values),
        toml::Value::Table(table) => TomlLayer::Table(table),
        scalar => TomlLayer::Scalar(scalar),
    }
}

/// What some entries hold.
spec fn entries_contents(entries: Seq<(String, toml::Value)>) -> Map<Seq<char>, TomlVal>
    decreases entries.len(),
{
    if entries.len() == 0 {
        Map::empty()
    } else {
        entries_contents(entries.drop_last()).insert(
            entries.last().0@,
            toml_contents(entries.last().1),
        )
    }
}

/// Whether no two entries have the same key.
spec fn distinct_entries(entries: Seq<(String, toml::Value)>) -> bool {
    forall|i: int, j: int| 0 <= i < j < entries.len() ==> entries[i].0@ != entries[j].0@
}

/// `toml::map::Map::into_iter` gives out the entries of a table, each of them once.
#[verifier::external_body]
fn table_entries(table: toml::map::Map<String, toml::Value>) -> (res: Vec<(String, toml::Value)>)
    ensures
        entries_contents(res@) == table_contents(table),
        distinct_entries(res@),
{
    table.into_iter().collect()
}

/// With distinct keys, every entry counts.
proof fn lemma_entries_contents(entries: Seq<(String, toml::Value)>, i: int)
    requires
        distinct_entries(entries),
        0 <= i < entries.len(),
    ensures
        entries_contents(entries).dom().finite(),
        entries_contents(entries).contains_key(entries[i].0@),
        entries_contents(entries)[entries[i].0@] == toml_contents(entries[i].1),
    decreases entries.len(),
{
    let rest = entries.drop_last();
    assert(entries.last() == entries[entries.len() - 1]);
    if rest.len() > 0 {
        lemma_entries_contents(rest, if i < rest.len() { i } else { 0 });
    }
    if i < rest.len() {
        assert(rest[i] == entries[i]);
    }
}

/// Takes a document out of the hands of `toml`.
fn from_toml(value: toml::Value) -> (res: Toml)
    ensures
        res@ == toml_contents(value),
    decreases toml_contents(value),
{
    let ghost contents = toml_contents(value);
    let layer = open_toml(value);
    proof {
        lemma_a_layer_says_what_it_holds(layer);
    }
    match layer {
        TomlLayer::Text(s) => Toml::Text(s),
        TomlLayer::List(values) => {
            let ghost held = items_contents(values@);
            let mut items: Vec<Toml> = Vec::new();
            assert(held.take(0) =~= list_model(items@));
            for child in it: values
                invariant
                    it.seq() == values@,
                    contents == toml_contents(value),
                    contents == TomlVal::List(held),
                    held == items_contents(values@),
                    list_model(items@) == held.take(it.index() as int),
            {
                let ghost before = items@;
                proof {
                    assert(held[it.index() as int] == toml_contents(child));
                    assert(decreases_to!(contents => contents->List_0));
                    assert(decreases_to!(held => held[it.index() as int]));
                }
                let item = from_toml(child);
                items.push(item);
                proof {
                    assert(items@.drop_last() =~= before);
                    assert(held.take(it.index() + 1) =~= held.take(it.index() as int).push(
                        item@,
                    ));
                }
            }
            assert(held.take(held.len() as int) =~= held);
            Toml::List(items)
        },
        TomlLayer::Table(table) => {
            let ghost held = table_contents(table);
            let pairs = table_entries(table);
            let mut entries: Vec<(String, Toml)> = Vec::new();
            assert(pairs@.take(0) =~= seq![]);
            for pair in it: pairs
                invariant
                    it.seq() == pairs@,
                    contents == toml_contents(value),
                    contents == TomlVal::Table(held),
                    held == entries_contents(pairs@),
                    distinct_entries(pairs@),
                    table_model(entries@) == entries_contents(pairs@.take(it.index() as int)),
            {
                let ghost before = entries@;
                let (key, child) = pair;
                proof {
                    assert(pairs@[it.index() as int] == (key, child));
                    lemma_entries_contents(pairs@, it.index() as int);
                    assert(decreases_to!(contents => contents->Table_0));
                    assert(decreases_to!(held => held[key@]));
                }
                let entry = from_toml(child);
                entries.push((key, entry));
                proof {
                    assert(entries@.drop_last() =~= before);
                    assert(pairs@.take(it.index() + 1).drop_last() =~= pairs@.take(
                        it.index() as int,
                    ));
                }
            }
            assert(pairs@.take(pairs@.len() as int) =~= pairs@);
            Toml::Table(entries)
        },
        TomlLayer::Scalar(value) => Toml::Scalar(value),
    }
}

/// Reads a document out of a text.
pub fn parse_toml(text: &str) -> (res: Result<Toml, String>)
    ensures
        match res {
            Ok(document) => toml_parse(text@) == Ok::<TomlVal, Seq<char>>(document@),
            Err(complaint) => toml_parse(text@) == Err::<TomlVal, Seq<char>>(complaint@),
        },
{
    match read_toml(text) {
        Ok(value) => Ok(from_toml(value)),
        Err(complaint) => Err(complaint),
    }
}

/// Entries from `i` on that have another key do not bear on what stands under `key`.
proof fn lemma_later_entries(entries: Seq<(String, Toml)>, i: int, key: Seq<char>)
    requires
        0 <= i <= entries.len(),
        forall|j: int| i <= j < entries.len() ==> (#[trigger] entries[j]).0@ != key,
    ensures
        table_model(entries).contains_key(key) == table_model(entries.take(i)).contains_key(key),
        table_model(entries).contains_key(key) ==> table_model(entries)[key] == table_model(
            entries.take(i),
        )[key],
    decreases entries.len(),
{
    if i < entries.len() {
        assert(entries.last() == entries[entries.len() - 1]);
        lemma_later_entries(entries.drop_last(), i, key);
        assert(entries.drop_last().take(i) =~= entries.take(i));
    } else {
        assert(entries.take(i) =~= entries);
    }
}

/// A list has one item for each document in it.
pub proof fn lemma_list_model(items: Seq<Toml>)
    ensures
        list_model(items).len() == items.len(),
        forall|i: int| 0 <= i < items.len() ==> #[trigger] list_model(items)[i] == items[i]@,
    decreases items.len(),
{
    if items.len() > 0 {
        lemma_list_model(items.drop_last());
        assert forall|i: int| 0 <= i < items.len() implies #[trigger] list_model(items)[i]
            == items[i]@ by {
            if i < items.len() - 1 {
                assert(items.drop_last()[i] == items[i]);
                assert(list_model(items)[i] == list_model(items.drop_last())[i]);
            }
        }
    }
}

/// Only a table has entries: under each of its keys the value that stands there. Only a text is
/// a text, and only a list has items.
pub proof fn law_entries_of_tables(v: TomlVal, key: Seq<char>)
    ensures
        match v {
            TomlVal::Table(entries) => {
                &&& entries.contains_key(key) ==> v.entry(key) == Some(entries[key])
                &&& !entries.contains_key(key) ==> v.entry(key) is None
            },
            _ => v.entry(key) is None,
        },
        v.as_text() == match v {
            TomlVal::Text(s) => Some(s),
            _ => None,
        },
        v.as_list() == match v {
            TomlVal::List(items) => Some(items),
            _ => None,
        },
{
}

/// A document says what it holds: a list one item after the other, a table under each key the
/// last entry that has the key.
pub proof fn law_a_document_says_what_it_holds(v: Toml, key: Seq<char>)
    ensures
        match v {
            Toml::Text(s) => v@ == TomlVal::Text(s@),
            Toml::Scalar(value) => v@ == TomlVal::Scalar(value),
            Toml::List(items) => {
                &&& v@ matches TomlVal::List(said)
                &&& said.len() == items@.len()
                &&& forall|i: int| 0 <= i < items@.len() ==> #[trigger] said[i] == items@[i]@
            },
            Toml::Table(entries) => {
                &&& v@ is Table
                &&& (forall|j: int|
                    0 <= j < entries@.len() ==> (#[trigger] entries@[j]).0@ != key) ==> v@.entry(
                    key,
                ) is None
                &&& forall|i: int|
                    #![trigger entries@[i]]
                    0 <= i < entries@.len() && entries@[i].0@ == key && (forall|j: int|
                        i < j < entries@.len() ==> (#[trigger] entries@[j]).0@ != key)
                        ==> v@.entry(key) == Some(entries@[i].1@)
            },
        },
{
    match v {
        Toml::List(items) => lemma_list_model(items@),
        Toml::Table(entries) => {
            let list = entries@;
            if forall|j: int| 0 <= j < list.len() ==> (#[trigger] list[j]).0@ != key {
                lemma_later_entries(list, 0, key);
                assert(list.take(0) =~= seq![]);
            }
            assert forall|i: int|
                #![trigger list[i]]
                0 <= i < list.len() && list[i].0@ == key && (forall|j: int|
                    i < j < list.len() ==> (#[trigger] list[j]).0@ != key) implies v@.entry(key)
                == Some(list[i].1@) by {
                lemma_later_entries(list, i + 1, key);
                assert(list.take(i + 1).last() == list[i]);
            }
        },
        _ => {},
    }
}

/// A layer says what it holds, a list its values one by one.
proof fn lemma_a_layer_says_what_it_holds(layer: TomlLayer)
    ensures
        match layer {
            TomlLayer::Text(s) => toml_layer_contents(layer) == TomlVal::Text(s@),
            TomlLayer::List(values) => {
                &&& toml_layer_contents(layer) matches TomlVal::List(held)
                &&& held.len() == values@.len()
                &&& forall|i: int|
                    0 <= i < values@.len() ==> #[trigger] held[i] == toml_contents(values@[i])
            },
            TomlLayer::Table(table) => toml_layer_contents(layer) == TomlVal::Table(
                table_contents(table),
            ),
            TomlLayer::Scalar(value) => toml_layer_contents(layer) == TomlVal::Scalar(value),
        },
{
}

impl Toml {
    /// The entry of a table under `key`.
    pub fn get(&self, key: &str) -> (res: Option<&Toml>)
        ensures
            match res {
                Some(found) => self@.entry(key@) == Some(found@),
                None => self@.entry(key@) is None,
            },
    {
        match self {
            Toml::Table(entries) => match find_last(entries, key) {
                Some(i) => {
                    proof {
                        lemma_later_entries(entries@, i + 1, key@);
                        assert(entries@.take(i + 1).last() == entries@[i as int]);
                    }
                    Some(&entries[i].1)
                },
                None => {
                    proof {
                        lemma_later_entries(entries@, 0, key@);
                        assert(entries@.take(0) =~= seq![]);
                    }
                    None
                },
            },
            _ => None,
        }
    }

    /// The text, if the document is one.
    pub fn as_str(&self) -> (res: Option<&str>)
        ensures
            match res {
                Some(s) => self@.as_text() == Some(s@),
                None => self@.as_text() is None,
            },
    {
        match self {
            Toml::Text(s) => Some(s.as_str()),
            _ => None,
        }
    }
}

} // verus!
