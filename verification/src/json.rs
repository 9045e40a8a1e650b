//! JSON values, as the `serde_json` crate reads and writes them.

use crate::text::same_text;
use vstd::prelude::*;
use vstd::string::*;

verus! {

/// What a JSON value says. Of a number it says which machine integers can hold it; a number that
/// is no whole number fits neither.
#[verifier::ext_equal]
pub enum JsonView {
    Null,
    Bool(bool),
    Number { signed: Option<i64>, unsigned: Option<u64> },
    Text(Seq<char>),
    Array(Seq<JsonView>),
    Object(Map<Seq<char>, JsonView>),
}

/// A JSON value. Where an object has several entries of one name, the last one counts.
#[derive(Debug)]
pub enum Json {
    Null,
    Bool(bool),
    Number { signed: Option<i64>, unsigned: Option<u64> },
    Text(String),
    Array(Vec<Json>),
    Object(Vec<(String, Json)>),
}

/// The map that entries make, one after another.
pub open spec fn object_of(entries: Seq<(Seq<char>, JsonView)>) -> Map<Seq<char>, JsonView>
    decreases entries.len(),
{
    if entries.len() == 0 {
        Map::empty()
    } else {
        object_of(entries.drop_last()).insert(entries.last().0, entries.last().1)
    }
}

/// What the items of an array say, in order.
pub open spec fn elements(items: Vec<Json>) -> Seq<JsonView>
    decreases items,
{
    Seq::new(
        items@.len(),
        |i: int|
            if 0 <= i < items@.len() {
                items@[i].view()
            } else {
                JsonView::Null
            },
    )
}

/// What the entries of an object say, in order.
pub open spec fn members(entries: Vec<(String, Json)>) -> Seq<(Seq<char>, JsonView)>
    decreases entries,
{
    Seq::new(
        entries@.len(),
        |i: int|
            if 0 <= i < entries@.len() {
                (entries@[i].0@, entries@[i].1.view())
            } else {
                (Seq::empty(), JsonView::Null)
            },
    )
}

impl View for Json {
    type V = JsonView;

    open spec fn view(&self) -> JsonView
        decreases self,
    {
        match self {
            Json::Null => JsonView::Null,
            Json::Bool(b) => JsonView::Bool(*b),
            Json::Number { signed, unsigned } => JsonView::Number { signed: *signed, unsigned: *unsigned },
            Json::Text(s) => JsonView::Text(s@),
            Json::Array(items) => JsonView::Array(elements(*items)),
            Json::Object(entries) => JsonView::Object(object_of(members(*entries))),
        }
    }
}

/// `serde_json::Value`, held as an opaque tree.
#[verifier::external_type_specification]
#[verifier::external_body]
pub struct ExValue(serde_json::Value);

/// What a `serde_json::Value` holds.
pub uninterp spec fn value_view(value: serde_json::Value) -> JsonView;

/// What `serde_json::from_str` reads in a text, where it is JSON.
pub uninterp spec fn json_value(text: Seq<char>) -> Option<JsonView>;

/// What `serde_json` writes for a value.
pub uninterp spec fn json_text(value: JsonView) -> Seq<char>;

/// The outermost layer of a `serde_json::Value`.
enum Node<'a> {
    Null,
    Bool(bool),
    Number(Option<i64>, Option<u64>),
    Text(&'a String),
    Array(&'a Vec<serde_json::Value>),
    Object(Vec<(&'a String, &'a serde_json::Value)>),
}

/// What entries say.
spec fn entries_view(entries: Seq<(&String, &serde_json::Value)>) -> Seq<(Seq<char>, JsonView)> {
    entries.map_values(|entry: (&String, &serde_json::Value)| (entry.0@, value_view(*entry.1)))
}

/// What the whole value says of which this is the outermost layer.
spec fn node_view(node: Node) -> JsonView {
    match node {
        Node::Null => JsonView::Null,
        Node::Bool(b) => JsonView::Bool(b),
        Node::Number(signed, unsigned) => JsonView::Number { signed, unsigned },
        Node::Text(s) => JsonView::Text(s@),
        Node::Array(items) => JsonView::Array(items@.map_values(|item: serde_json::Value| value_view(item))),
        Node::Object(entries) => JsonView::Object(object_of(entries_view(entries@))),
    }
}

/// `serde_json::from_str`, read as a `Value`: the value that the text writes, or nothing where
/// the text is no JSON.
#[verifier::external_body]
fn read_value(text: &str) -> (r: Option<serde_json::Value>)
    ensures
        json_value(text@) == (match r {
            Some(value) => Some(value_view(value)),
            None => None,
        }),
{
    serde_json::from_str(text).ok()
}

/// The variant of a `serde_json::Value` with its contents. A number tells its `as_i64` and
/// `as_u64`, an array its items in order, an object its entries, each under a name of its own.
#[verifier::external_body]
fn open_value<'a>(value: &'a serde_json::Value) -> (r: Node<'a>)
    ensures
        node_view(r) == value_view(*value),
        r matches Node::Object(entries) ==> forall|i: int, j: int|
            0 <= i < j < entries@.len() ==> (#[trigger] entries@[i]).0@ != (#[trigger] entries@[j]).0@,
{
    match value {
        serde_json::Value::Null => Node::Null,
        serde_json::Value::Bool(b) => Node::Bool(*b),
        serde_json::Value::Number(n) => Node::Number(n.as_i64(), n.as_u64()),
        serde_json::Value::String(s) => Node::Text(s),
        serde_json::Value::Array(items) => Node::Array(items),
        serde_json::Value::Object(entries) => Node::Object(entries.iter().collect()),
    }
}

proof fn lemma_object_of(entries: Seq<(Seq<char>, JsonView)>)
    ensures
        object_of(entries).dom().finite(),
        forall|name: Seq<char>|
            #[trigger] object_of(entries).dom().contains(name) <==> exists|i: int|
                0 <= i < entries.len() && (#[trigger] entries[i]).0 == name,
        forall|i: int|
            0 <= i < entries.len() && (forall|j: int| i < j < entries.len() ==> entries[i].0 != (#[trigger] entries[j]).0)
                ==> object_of(entries)[(#[trigger] entries[i]).0] == entries[i].1,
    decreases entries.len(),
{
    if entries.len() > 0 {
        let front = entries.drop_last();
        let end = entries.len() - 1;
        lemma_object_of(front);
        assert forall|name: Seq<char>| #[trigger] object_of(entries).dom().contains(name) <==> exists|i: int|
            0 <= i < entries.len() && (#[trigger] entries[i]).0 == name by {
            if object_of(entries).dom().contains(name) {
                if entries[end].0 != name {
                    assert(object_of(front).dom().contains(name));
                    let k = choose|k: int| 0 <= k < front.len() && (#[trigger] front[k]).0 == name;
                    assert(entries[k].0 == name);
                }
            }
            if exists|i: int| 0 <= i < entries.len() && (#[trigger] entries[i]).0 == name {
                let k = choose|k: int| 0 <= k < entries.len() && (#[trigger] entries[k]).0 == name;
                if k < end {
                    assert(front[k].0 == name);
                    assert(object_of(front).dom().contains(name));
                }
            }
        }
        assert forall|i: int|
            0 <= i < entries.len() && (forall|j: int|
                i < j < entries.len() ==> entries[i].0 != (#[trigger] entries[j]).0) implies object_of(
            entries,
        )[(#[trigger] entries[i]).0] == entries[i].1 by {
            if i < end {
                assert(entries[i].0 != entries[end].0);
                assert forall|j: int| i < j < front.len() implies front[i].0 != (#[trigger] front[j]).0 by {
                    assert(entries[j] == front[j]);
                }
                assert(front[i] == entries[i]);
            }
        }
    }
}

/// The value that a `serde_json::Value` holds.
fn json_of(value: &serde_json::Value) -> (r: Json)
    ensures
        r@ == value_view(*value),
    decreases value_view(*value),
{
    match open_value(value) {
        Node::Null => Json::Null,
        Node::Bool(b) => Json::Bool(b),
        Node::Number(signed, unsigned) => Json::Number { signed, unsigned },
        Node::Text(s) => Json::Text(s.clone()),
        Node::Array(items) => {
            let ghost views = items@.map_values(|item: serde_json::Value| value_view(item));
            let mut all: Vec<Json> = Vec::new();
            let mut i: usize = 0;
            while i < items.len()
                invariant
                    i <= items@.len(),
                    all@.len() == i,
                    views == items@.map_values(|item: serde_json::Value| value_view(item)),
                    value_view(*value) == JsonView::Array(views),
                    forall|k: int| 0 <= k < i ==> (#[trigger] all@[k])@ == views[k],
                decreases items.len() - i,
            {
                assert(views[i as int] == value_view(items@[i as int]));
                proof {
                    let whole = value_view(*value);
                    assert(decreases_to!(whole => whole->Array_0));
                    assert(decreases_to!(whole->Array_0 => whole->Array_0[i as int]));
                }
                all.push(json_of(&items[i]));
                i = i + 1;
            }
            assert(elements(all) =~= views);
            Json::Array(all)
        },
        Node::Object(entries) => {
            let ghost views = entries_view(entries@);
            proof {
                lemma_object_of(views);
            }
            let mut all: Vec<(String, Json)> = Vec::new();
            let mut i: usize = 0;
            while i < entries.len()
                invariant
                    i <= entries@.len(),
                    all@.len() == i,
                    views == entries_view(entries@),
                    value_view(*value) == JsonView::Object(object_of(views)),
                    object_of(views).dom().finite(),
                    forall|k: int| 0 <= k < views.len() ==> object_of(views).dom().contains((#[trigger] views[k]).0),
                    forall|k: int| 0 <= k < views.len() ==> object_of(views)[(#[trigger] views[k]).0] == views[k].1,
                    forall|k: int| 0 <= k < i ==> ((#[trigger] all@[k]).0@, all@[k].1@) == views[k],
                decreases entries.len() - i,
            {
                assert(views[i as int] == (entries@[i as int].0@, value_view(*entries@[i as int].1)));
                let (name, item): (&String, &serde_json::Value) = entries[i];
                proof {
                    let whole = value_view(*value);
                    let key = views[i as int].0;
                    assert(decreases_to!(whole => whole->Object_0));
                    assert(decreases_to!(whole->Object_0 => whole->Object_0[key]));
                }
                all.push((name.clone(), json_of(item)));
                i = i + 1;
            }
            assert(members(all) =~= views);
            Json::Object(all)
        },
    }
}

/// The value that `text` writes, where it is JSON.
pub fn parse_json(text: &str) -> (r: Option<Json>)
    ensures
        json_value(text@) == (match r {
            Some(json) => Some(json@),
            None => None,
        }),
{
    match read_value(text) {
        Some(value) => Some(json_of(&value)),
        None => None,
    }
}

/// Whether a value is built of whole numbers, truth values and texts, at most `depth` layers deep.
pub open spec fn plain(value: JsonView, depth: nat) -> bool
    decreases depth,
{
    match value {
        JsonView::Null => true,
        JsonView::Bool(_) => true,
        JsonView::Number { signed, unsigned } => signed is Some || unsigned is Some,
        JsonView::Text(_) => true,
        JsonView::Array(items) => depth > 0 && forall|i: int|
            0 <= i < items.len() ==> plain(#[trigger] items[i], (depth - 1) as nat),
        JsonView::Object(entries) => depth > 0 && forall|name: Seq<char>|
            entries.dom().contains(name) ==> plain(#[trigger] entries[name], (depth - 1) as nat),
    }
}

/// `From<&str>` of `serde_json::Value`: the text as a value.
#[verifier::external_body]
pub(crate) fn text_value(text: &str) -> (r: serde_json::Value)
    ensures
        value_view(r) == JsonView::Text(text@),
{
    serde_json::Value::from(text)
}

/// The number `n` as a JSON value.
pub open spec fn number_view(n: u64) -> JsonView {
    JsonView::Number {
        signed: if n <= i64::MAX {
            Some(n as i64)
        } else {
            None
        },
        unsigned: Some(n),
    }
}

/// `From<u64>` of `serde_json::Value`: the number as a value.
#[verifier::external_body]
pub(crate) fn number_value(n: u64) -> (r: serde_json::Value)
    ensures
        value_view(r) == number_view(n),
{
    serde_json::Value::from(n)
}

/// `From<Vec<Value>>` of `serde_json::Value`: the items as an array.
#[verifier::external_body]
pub(crate) fn array_value(items: Vec<serde_json::Value>) -> (r: serde_json::Value)
    ensures
        value_view(r) == JsonView::Array(items@.map_values(|item: serde_json::Value| value_view(item))),
{
    serde_json::Value::from(items)
}

/// `FromIterator<(String, Value)>` of `serde_json::Value`: the entries, each under a name of its
/// own, as an object.
#[verifier::external_body]
pub(crate) fn object_value(entries: Vec<(String, serde_json::Value)>) -> (r: serde_json::Value)
    requires
        forall|i: int, j: int|
            0 <= i < j < entries@.len() ==> (#[trigger] entries@[i]).0@ != (#[trigger] entries@[j]).0@,
    ensures
        value_view(r) == JsonView::Object(
            object_of(entries@.map_values(|entry: (String, serde_json::Value)| (entry.0@, value_view(entry.1)))),
        ),
{
    entries.into_iter().collect()
}

/// `Display` of `serde_json::Value`: the value written as JSON, without spaces. Read again, the
/// text gives the value back; claimed of values without fractions that stay clear of the depth
/// at which reading stops.
#[verifier::external_body]
pub(crate) fn value_text(value: &serde_json::Value) -> (r: String)
    requires
        plain(value_view(*value), 100),
    ensures
        r@ == json_text(value_view(*value)),
        json_value(r@) == Some(value_view(*value)),
{
    value.to_string()
}

/// The entry of an object called `name`; nothing where there is none or the value is no object.
pub open spec fn member(value: JsonView, name: Seq<char>) -> JsonView {
    match value {
        JsonView::Object(entries) => if entries.dom().contains(name) {
            entries[name]
        } else {
            JsonView::Null
        },
        _ => JsonView::Null,
    }
}

pub open spec fn text_of(value: JsonView) -> Option<Seq<char>> {
    match value {
        JsonView::Text(s) => Some(s),
        _ => None,
    }
}

pub open spec fn signed_of(value: JsonView) -> Option<i64> {
    match value {
        JsonView::Number { signed, .. } => signed,
        _ => None,
    }
}

pub open spec fn unsigned_of(value: JsonView) -> Option<u64> {
    match value {
        JsonView::Number { unsigned, .. } => unsigned,
        _ => None,
    }
}

pub open spec fn truth_of(value: JsonView) -> Option<bool> {
    match value {
        JsonView::Bool(b) => Some(b),
        _ => None,
    }
}

pub open spec fn items_of(value: JsonView) -> Option<Seq<JsonView>> {
    match value {
        JsonView::Array(items) => Some(items),
        _ => None,
    }
}

impl Json {
    /// The entry called `name`; nothing where there is none, it is null or this is no object.
    pub fn get(&self, name: &str) -> (r: &Json)
        ensures
            r@ == member(self@, name@),
    {
        if let Json::Object(entries) = self {
            let mut k: usize = entries.len();
            proof {
                lemma_object_of(members(*entries));
            }
            while k > 0
                invariant
                    k <= entries@.len(),
                    *self == Json::Object(*entries),
                    forall|i: int| k <= i < entries@.len() ==> (#[trigger] members(*entries)[i]).0 != name@,
                    forall|i: int|
                        0 <= i < members(*entries).len() && (forall|j: int|
                            i < j < members(*entries).len() ==> members(*entries)[i].0 != (#[trigger] members(*entries)[j]).0)
                            ==> object_of(members(*entries))[(#[trigger] members(*entries)[i]).0] == members(*entries)[i].1,
                    forall|wanted: Seq<char>|
                        #[trigger] object_of(members(*entries)).dom().contains(wanted) <==> exists|i: int|
                            0 <= i < members(*entries).len() && (#[trigger] members(*entries)[i]).0 == wanted,
                decreases k,
            {
                k = k - 1;
                assert(members(*entries)[k as int] == (entries@[k as int].0@, entries@[k as int].1@));
                if same_text(entries[k].0.as_str(), name) {
                    return &entries[k].1;
                }
            }
        }
        &Json::Null
    }

    pub fn as_str(&self) -> (r: Option<&str>)
        ensures
            (match r {
                Some(s) => Some(s@),
                None => None,
            }) == text_of(self@),
    {
        match self {
            Json::Text(s) => Some(s.as_str()),
            _ => None,
        }
    }

    pub fn as_i64(&self) -> (r: Option<i64>)
        ensures
            r == signed_of(self@),
    {
        match self {
            Json::Number { signed, .. } => *signed,
            _ => None,
        }
    }

    pub fn as_u64(&self) -> (r: Option<u64>)
        ensures
            r == unsigned_of(self@),
    {
        match self {
            Json::Number { unsigned, .. } => *unsigned,
            _ => None,
        }
    }

    pub fn as_bool(&self) -> (r: Option<bool>)
        ensures
            r == truth_of(self@),
    {
        match self {
            Json::Bool(b) => Some(*b),
            _ => None,
        }
    }

    pub fn as_array(&self) -> (r: Option<&Vec<Json>>)
        ensures
            r is Some <==> items_of(self@) is Some,
            r matches Some(items) ==> {
                &&& items@.len() == items_of(self@)->0.len()
                &&& forall|i: int| 0 <= i < items@.len() ==> (#[trigger] items@[i])@ == items_of(self@)->0[i]
            },
    {
        match self {
            Json::Array(items) => {
                assert(elements(*items) =~= Seq::new(items@.len(), |i: int| items@[i]@));
                Some(items)
            },
            _ => None,
        }
    }
}

} // verus!
