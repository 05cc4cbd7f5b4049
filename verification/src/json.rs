//! JSON values: request bodies are built from them and replies are read as them.

use crate::records::tells;
use crate::text::{owned, same};
use vstd::prelude::*;

verus! {

/// A JSON value.
///
/// Whole numbers are held as such; a number with a fraction, an exponent or too
/// many digits is held as its text. An object holds its entries in order.
#[derive(Debug, PartialEq)]
pub enum Json {
    Null,
    Bool(bool),
    UInt(u64),
    NegInt(i64),
    Decimal(String),
    Str(String),
    Array(Vec<Json>),
    Object(Vec<(String, Json)>),
}

/// The mathematical model of [`Json`].
pub enum JsonView {
    Null,
    Bool(bool),
    UInt(u64),
    NegInt(i64),
    Decimal(Seq<char>),
    Str(Seq<char>),
    Array(Seq<JsonView>),
    Object(Seq<(Seq<char>, JsonView)>),
}

/// The model of `j`.
pub open spec fn json_view(j: Json) -> JsonView
    decreases j,
{
    match j {
        Json::Null => JsonView::Null,
        Json::Bool(b) => JsonView::Bool(b),
        Json::UInt(n) => JsonView::UInt(n),
        Json::NegInt(n) => JsonView::NegInt(n),
        Json::Decimal(t) => JsonView::Decimal(t@),
        Json::Str(t) => JsonView::Str(t@),
        Json::Array(items) => JsonView::Array(
            Seq::new(
                items@.len(),
                |i: int|
                    if 0 <= i < items@.len() {
                        json_view(items@[i])
                    } else {
                        JsonView::Null
                    },
            ),
        ),
        Json::Object(entries) => JsonView::Object(
            Seq::new(
                entries@.len(),
                |i: int|
                    if 0 <= i < entries@.len() {
                        (entries@[i].0@, json_view(entries@[i].1))
                    } else {
                        (seq![], JsonView::Null)
                    },
            ),
        ),
    }
}

impl View for Json {
    type V = JsonView;

    open spec fn view(&self) -> JsonView {
        json_view(*self)
    }
}

/// The models of the items of a list.
pub open spec fn json_views(items: Seq<Json>) -> Seq<JsonView> {
    items.map_values(|j: Json| j@)
}

/// The models of the entries of an object.
pub open spec fn entry_views(entries: Seq<(String, Json)>) -> Seq<(Seq<char>, JsonView)> {
    entries.map_values(|e: (String, Json)| (e.0@, e.1@))
}

/// An array's model holds the models of its items.
pub broadcast proof fn lemma_array_view(items: Vec<Json>)
    ensures
        #[trigger] json_view(Json::Array(items)) == JsonView::Array(json_views(items@)),
{
    assert(json_view(Json::Array(items))->Array_0 =~= json_views(items@));
}

/// An object's model holds the models of its entries.
pub broadcast proof fn lemma_object_view(entries: Vec<(String, Json)>)
    ensures
        #[trigger] json_view(Json::Object(entries)) == JsonView::Object(entry_views(entries@)),
{
    assert(json_view(Json::Object(entries))->Object_0 =~= entry_views(entries@));
}

/// The place of the first entry with the key `key`, from `from` on.
pub open spec fn entry_from(entries: Seq<(Seq<char>, JsonView)>, key: Seq<char>, from: int) -> Option<
    int,
>
    decreases entries.len() - from,
{
    if from < 0 || from >= entries.len() {
        None
    } else if entries[from].0 == key {
        Some(from)
    } else {
        entry_from(entries, key, from + 1)
    }
}

/// What the object `v` holds under `key`; nothing if `v` is no object.
pub open spec fn field(v: JsonView, key: Seq<char>) -> Option<JsonView> {
    match v {
        JsonView::Object(entries) => match entry_from(entries, key, 0) {
            Some(i) => Some(entries[i].1),
            None => None,
        },
        _ => None,
    }
}

/// What a record holds in the place `at` of its fields, the one named `key`. A
/// record is an object, or a list of its fields in their order.
pub open spec fn slot(v: JsonView, at: int, key: Seq<char>) -> Option<JsonView> {
    match v {
        JsonView::Array(items) => if 0 <= at < items.len() {
            Some(items[at])
        } else {
            None
        },
        _ => field(v, key),
    }
}

/// Whether `v` has the form of a record of `n` fields.
pub open spec fn is_record(v: JsonView, n: int) -> bool {
    v is Object || (v matches JsonView::Array(items) && items.len() <= n)
}

/// The object `v` with `value` under `key`: in the place of the first entry
/// with that key, or as a new last entry. `Null` counts as an empty object.
pub open spec fn with_field(v: JsonView, key: Seq<char>, value: JsonView) -> JsonView {
    match v {
        JsonView::Object(entries) => match entry_from(entries, key, 0) {
            Some(i) => JsonView::Object(entries.update(i, (key, value))),
            None => JsonView::Object(entries.push((key, value))),
        },
        _ => JsonView::Object(seq![(key, value)]),
    }
}

/// The text of a string value.
pub open spec fn string_in(v: Option<JsonView>) -> Option<Seq<char>> {
    match v {
        Some(JsonView::Str(t)) => Some(t),
        _ => None,
    }
}

/// The number of a whole, not negative number value.
pub open spec fn number_in(v: Option<JsonView>) -> Option<u64> {
    match v {
        Some(JsonView::UInt(n)) => Some(n),
        _ => None,
    }
}

/// The items of an array value.
pub open spec fn items_in(v: Option<JsonView>) -> Option<Seq<JsonView>> {
    match v {
        Some(JsonView::Array(items)) => Some(items),
        _ => None,
    }
}

/// What a search for a key finds.
pub proof fn lemma_entry_from(entries: Seq<(Seq<char>, JsonView)>, key: Seq<char>, from: int)
    requires
        0 <= from,
    ensures
        entry_from(entries, key, from) matches Some(i) ==> from <= i < entries.len()
            && entries[i].0 == key && (forall|j: int| from <= j < i ==> entries[j].0 != key),
        entry_from(entries, key, from) is None ==> (forall|j: int|
            from <= j < entries.len() ==> entries[j].0 != key),
    decreases entries.len() - from,
{
    if from < entries.len() && entries[from].0 != key {
        lemma_entry_from(entries, key, from + 1);
    }
}

/// A search that passes no entry with the key finds what is at `i` first.
pub proof fn lemma_entry_found(entries: Seq<(Seq<char>, JsonView)>, key: Seq<char>, from: int, i: int)
    requires
        0 <= from <= i < entries.len(),
        entries[i].0 == key,
        forall|j: int| from <= j < i ==> entries[j].0 != key,
    ensures
        entry_from(entries, key, from) == Some(i),
    decreases i - from,
{
    if from < i {
        lemma_entry_found(entries, key, from + 1, i);
    }
}

/// An object has something under a key exactly where one of its entries has that
/// key.
pub proof fn lemma_field_present(entries: Seq<(Seq<char>, JsonView)>, key: Seq<char>)
    ensures
        field(JsonView::Object(entries), key) is Some <==> (exists|i: int|
            0 <= i < entries.len() && (#[trigger] entries[i]).0 == key),
{
    lemma_entry_from(entries, key, 0);
}

/// Reading a key gives back what was last written under it, and writing a key
/// changes what no other key reads.
pub proof fn law_field_after_write(
    v: JsonView,
    key: Seq<char>,
    value: JsonView,
    other: Seq<char>,
)
    requires
        v is Object || v is Null,
    ensures
        field(with_field(v, key, value), key) == Some(value),
        other != key ==> field(with_field(v, key, value), other) == field(v, other),
{
    let entries = match v {
        JsonView::Object(e) => e,
        _ => seq![],
    };
    let after = with_field(v, key, value)->Object_0;
    lemma_entry_from(entries, key, 0);
    let at = match entry_from(entries, key, 0) {
        Some(i) => i,
        None => entries.len() as int,
    };
    lemma_entry_found(after, key, 0, at);
    if other != key {
        lemma_entry_from(entries, other, 0);
        lemma_entry_from(after, other, 0);
        match entry_from(entries, other, 0) {
            Some(i) => {
                lemma_entry_found(after, other, 0, i);
            },
            None => {
                match entry_from(after, other, 0) {
                    Some(i) => {
                        assert(after[i].0 == other);
                        assert(false);
                    },
                    None => {},
                }
            },
        }
    }
}

impl Json {
    /// A string value.
    pub fn text(s: &str) -> (r: Json)
        ensures
            r@ == JsonView::Str(s@),
    {
        Json::Str(owned(s))
    }

    /// What this object holds under `key`; nothing if this is no object.
    pub fn get(&self, key: &str) -> (r: Option<&Json>)
        ensures
            (match r {
                Some(j) => field(self@, key@) == Some(j@),
                None => field(self@, key@) is None,
            }),
    {
        match self {
            Json::Object(entries) => {
                proof {
                    lemma_object_view(*entries);
                }
                let mut i: usize = 0;
                while i < entries.len()
                    invariant
                        i <= entries@.len(),
                        self@ == JsonView::Object(entry_views(entries@)),
                        entry_from(entry_views(entries@), key@, 0) == entry_from(
                            entry_views(entries@),
                            key@,
                            i as int,
                        ),
                    decreases entries@.len() - i,
                {
                    if same(entries[i].0.as_str(), key) {
                        return Some(&entries[i].1);
                    }
                    i = i + 1;
                }
                None
            },
            _ => None,
        }
    }

    /// The text of a string value.
    pub fn as_str(&self) -> (r: Option<&str>)
        ensures
            (match r {
                Some(t) => string_in(Some(self@)) == Some(t@),
                None => string_in(Some(self@)) is None,
            }),
    {
        match self {
            Json::Str(t) => Some(t.as_str()),
            _ => None,
        }
    }

    /// The number of a whole, not negative number value.
    pub fn as_u64(&self) -> (r: Option<u64>)
        ensures
            r == number_in(Some(self@)),
    {
        match self {
            Json::UInt(n) => Some(*n),
            _ => None,
        }
    }

    /// The items of an array value.
    pub fn as_array(&self) -> (r: Option<&Vec<Json>>)
        ensures
            (match r {
                Some(items) => items_in(Some(self@)) == Some(json_views(items@)),
                None => items_in(Some(self@)) is None,
            }),
    {
        match self {
            Json::Array(items) => {
                proof {
                    lemma_array_view(*items);
                }
                Some(items)
            },
            _ => None,
        }
    }

    /// Whether this is an object.
    pub fn is_object(&self) -> (r: bool)
        ensures
            r == (self@ is Object),
    {
        match self {
            Json::Object(_) => true,
            _ => false,
        }
    }

    /// What a record holds in the place `at` of its fields, the one named `key`.
    pub fn slot(&self, at: usize, key: &str) -> (r: Option<&Json>)
        ensures
            (match r {
                Some(j) => slot(self@, at as int, key@) == Some(j@),
                None => slot(self@, at as int, key@) is None,
            }),
    {
        match self {
            Json::Array(items) => {
                proof {
                    lemma_array_view(*items);
                }
                if at < items.len() {
                    Some(&items[at])
                } else {
                    None
                }
            },
            _ => self.get(key),
        }
    }

    /// This value as JSON text.
    pub fn to_body(&self) -> (r: String)
        ensures
            r@ == json_text(self@),
    {
        to_text(self)
    }

    /// Whether this has the form of a record of `n` fields.
    pub fn is_record(&self, n: usize) -> (r: bool)
        ensures
            r == is_record(self@, n as int),
    {
        match self {
            Json::Object(_) => true,
            Json::Array(items) => {
                proof {
                    lemma_array_view(*items);
                }
                items.len() <= n
            },
            _ => false,
        }
    }

    /// Puts `value` under `key`.
    pub fn set(&mut self, key: &str, value: Json)
        requires
            old(self)@ is Object || old(self)@ is Null,
        ensures
            final(self)@ == with_field(old(self)@, key@, value@),
    {
        let ghost before = *self;
        let mut taken: Json = Json::Null;
        std::mem::swap(self, &mut taken);
        let mut entries: Vec<(String, Json)> = match taken {
            Json::Object(entries) => entries,
            _ => Vec::new(),
        };
        let ghost views = entry_views(entries@);
        proof {
            match before {
                Json::Object(e) => {
                    lemma_object_view(e);
                },
                _ => {
                    assert(views =~= seq![]);
                },
            }
        }
        let mut i: usize = 0;
        while i < entries.len()
            invariant_except_break
                entry_from(views, key@, 0) == entry_from(views, key@, i as int),
            invariant
                i <= entries@.len(),
                views == entry_views(entries@),
            ensures
                (match entry_from(views, key@, 0) {
                    Some(k) => k == i && i < entries@.len(),
                    None => i == entries@.len(),
                }),
            decreases entries@.len() - i,
        {
            if same(entries[i].0.as_str(), key) {
                break;
            }
            i = i + 1;
        }
        let entry = (owned(key), value);
        let ghost old_entries = entries@;
        if i < entries.len() {
            entries.set(i, entry);
            assert(entry_views(entries@) =~= views.update(i as int, (key@, value@)));
        } else {
            entries.push(entry);
            assert(entry_views(entries@) =~= views.push((key@, value@)));
            assert(before is Null ==> views.push((key@, value@)) =~= seq![(key@, value@)]);
        }
        proof {
            lemma_object_view(entries);
        }
        *self = Json::Object(entries);
    }

    /// A value of its own with the same model.
    pub fn copy(&self) -> (r: Json)
        ensures
            r@ == self@,
        decreases self,
    {
        match self {
            Json::Null => Json::Null,
            Json::Bool(b) => Json::Bool(*b),
            Json::UInt(n) => Json::UInt(*n),
            Json::NegInt(n) => Json::NegInt(*n),
            Json::Decimal(t) => Json::Decimal(t.clone()),
            Json::Str(t) => Json::Str(t.clone()),
            Json::Array(items) => {
                let mut out: Vec<Json> = Vec::new();
                let mut i: usize = 0;
                while i < items.len()
                    invariant
                        i <= items@.len(),
                        *self == Json::Array(*items),
                        out@.len() == i,
                        forall|k: int| 0 <= k < i ==> (#[trigger] out@[k])@ == items@[k]@,
                    decreases items@.len() - i,
                {
                    proof {
                        assert(decreases_to!(*self => self->Array_0));
                        assert(decreases_to!(*items => items@));
                        assert(decreases_to!(items@ => items@[i as int]));
                    }
                    let item = items[i].copy();
                    out.push(item);
                    i = i + 1;
                }
                proof {
                    lemma_array_view(*items);
                    lemma_array_view(out);
                    assert(json_views(out@) =~= json_views(items@));
                }
                Json::Array(out)
            },
            Json::Object(entries) => {
                let mut out: Vec<(String, Json)> = Vec::new();
                let mut i: usize = 0;
                while i < entries.len()
                    invariant
                        i <= entries@.len(),
                        *self == Json::Object(*entries),
                        out@.len() == i,
                        forall|k: int|
                            0 <= k < i ==> (#[trigger] out@[k]).0@ == entries@[k].0@ && out@[k].1@
                                == entries@[k].1@,
                    decreases entries@.len() - i,
                {
                    proof {
                        assert(decreases_to!(*self => self->Object_0));
                        assert(decreases_to!(*entries => entries@));
                        assert(decreases_to!(entries@ => entries@[i as int]));
                        assert(decreases_to!(entries@[i as int] => entries@[i as int].1));
                    }
                    let key = entries[i].0.clone();
                    let value = entries[i].1.copy();
                    out.push((key, value));
                    i = i + 1;
                }
                proof {
                    lemma_object_view(*entries);
                    lemma_object_view(out);
                    assert(entry_views(out@) =~= entry_views(entries@));
                }
                Json::Object(out)
            },
        }
    }
}

/// Copies a list of values.
pub fn copy_all(items: &Vec<Json>) -> (r: Vec<Json>)
    ensures
        json_views(r@) == json_views(items@),
{
    let mut out: Vec<Json> = Vec::new();
    let mut i: usize = 0;
    while i < items.len()
        invariant
            i <= items@.len(),
            out@.len() == i,
            forall|k: int| 0 <= k < i ==> (#[trigger] out@[k])@ == items@[k]@,
        decreases items@.len() - i,
    {
        out.push(items[i].copy());
        i = i + 1;
    }
    assert(json_views(out@) =~= json_views(items@));
    out
}

/// One entry of an object.
pub fn entry(key: &str, value: Json) -> (r: (String, Json))
    ensures
        r.0@ == key@,
        r.1 == value,
{
    (owned(key), value)
}

/// An object with one entry.
pub fn object1(k: &str, v: Json) -> (r: Json)
    ensures
        r@ == JsonView::Object(seq![(k@, v@)]),
{
    let mut entries: Vec<(String, Json)> = Vec::new();
    entries.push(entry(k, v));
    proof {
        lemma_object_view(entries);
        assert(entry_views(entries@) =~= seq![(k@, v@)]);
    }
    Json::Object(entries)
}

/// An object with two entries.
pub fn object2(k1: &str, v1: Json, k2: &str, v2: Json) -> (r: Json)
    ensures
        r@ == JsonView::Object(seq![(k1@, v1@), (k2@, v2@)]),
{
    let mut entries: Vec<(String, Json)> = Vec::new();
    entries.push(entry(k1, v1));
    entries.push(entry(k2, v2));
    proof {
        lemma_object_view(entries);
        assert(entry_views(entries@) =~= seq![(k1@, v1@), (k2@, v2@)]);
    }
    Json::Object(entries)
}

/// An object with three entries.
pub fn object3(k1: &str, v1: Json, k2: &str, v2: Json, k3: &str, v3: Json) -> (r: Json)
    ensures
        r@ == JsonView::Object(seq![(k1@, v1@), (k2@, v2@), (k3@, v3@)]),
{
    let mut entries: Vec<(String, Json)> = Vec::new();
    entries.push(entry(k1, v1));
    entries.push(entry(k2, v2));
    entries.push(entry(k3, v3));
    proof {
        lemma_object_view(entries);
        assert(entry_views(entries@) =~= seq![(k1@, v1@), (k2@, v2@), (k3@, v3@)]);
    }
    Json::Object(entries)
}

/// An array of the given values.
pub fn array(items: Vec<Json>) -> (r: Json)
    ensures
        r@ == JsonView::Array(json_views(items@)),
{
    proof {
        lemma_array_view(items);
    }
    Json::Array(items)
}

/// Adds `value` to a list of values.
pub fn append(items: &mut Vec<Json>, value: Json)
    ensures
        json_views(final(items)@) == json_views(old(items)@).push(value@),
{
    let ghost before = items@;
    items.push(value);
    assert(json_views(items@) =~= json_views(before).push(value@));
}

/// Adds an entry to the entries of an object.
pub fn put(entries: &mut Vec<(String, Json)>, key: &str, value: Json)
    ensures
        entry_views(final(entries)@) == entry_views(old(entries)@).push((key@, value@)),
{
    let ghost before = entries@;
    let ghost seen = value@;
    entries.push((owned(key), value));
    assert(entry_views(entries@) =~= entry_views(before).push((key@, seen)));
}

/// No entries.
pub fn no_entries() -> (r: Vec<(String, Json)>)
    ensures
        entry_views(r@) == Seq::<(Seq<char>, JsonView)>::empty(),
{
    let r: Vec<(String, Json)> = Vec::new();
    assert(entry_views(r@) =~= Seq::empty());
    r
}

/// The object with these entries.
pub fn object(entries: Vec<(String, Json)>) -> (r: Json)
    ensures
        r@ == JsonView::Object(entry_views(entries@)),
{
    proof {
        lemma_object_view(entries);
    }
    Json::Object(entries)
}

/// A value of the `serde_json` crate.
#[verifier::external_type_specification]
#[verifier::external_body]
pub struct ExValue(serde_json::Value);

/// The value that `serde_json::from_str` reads from a text, if it reads one.
pub uninterp spec fn parsed_json(text: Seq<char>) -> Option<JsonView>;

/// The text that `serde_json` writes for a value.
pub uninterp spec fn json_text(value: JsonView) -> Seq<char>;

/// Turns a `serde_json::Value` into a [`Json`], kind by kind.
#[verifier::external_body]
fn from_value(value: serde_json::Value) -> (r: Json) {
    match value {
        serde_json::Value::Null => Json::Null,
        serde_json::Value::Bool(b) => Json::Bool(b),
        serde_json::Value::Number(n) => match (n.as_u64(), n.as_i64()) {
            (Some(whole), _) => Json::UInt(whole),
            (None, Some(negative)) => Json::NegInt(negative),
            (None, None) => Json::Decimal(n.to_string()),
        },
        serde_json::Value::String(t) => Json::Str(t),
        serde_json::Value::Array(items) => Json::Array(items.into_iter().map(from_value).collect()),
        serde_json::Value::Object(map) =>
            Json::Object(map.into_iter().map(|(k, v)| (k, from_value(v))).collect()),
    }
}

/// Turns a [`Json`] into a `serde_json::Value`, kind by kind.
#[verifier::external_body]
fn to_value(value: &Json) -> (r: serde_json::Value) {
    match value {
        Json::Null => serde_json::Value::Null,
        Json::Bool(b) => (*b).into(),
        Json::UInt(n) => (*n).into(),
        Json::NegInt(n) => (*n).into(),
        Json::Decimal(t) => serde_json::from_str(t).unwrap_or_default(),
        Json::Str(t) => t.as_str().into(),
        Json::Array(items) => items.iter().map(to_value).collect(),
        Json::Object(entries) => entries.iter().map(|e| (e.0.clone(), to_value(&e.1))).collect(),
    }
}

/// Reads a JSON text (`serde_json::from_str`). The contract names the value and
/// does not say which texts are JSON.
#[verifier::external_body]
pub(crate) fn parse(text: &str) -> (r: Option<Json>)
    ensures
        (match r {
            Some(j) => parsed_json(text@) == Some(j@),
            None => parsed_json(text@) is None,
        }),
{
    serde_json::from_str::<serde_json::Value>(text).ok().map(from_value)
}

/// Whether no two entries have the same key.
pub open spec fn distinct_keys(entries: Seq<(Seq<char>, JsonView)>) -> bool {
    forall|i: int, j: int|
        0 <= i < j < entries.len() ==> (#[trigger] entries[i]).0 != (#[trigger] entries[j]).0
}

/// Whether a value is free of what its text does not tell: numbers that are no
/// integers, an integer under the wrong kind, and a key that stands twice in an
/// object. Arrays and objects are nested at most `depth` times.
pub open spec fn plain(v: JsonView, depth: nat) -> bool
    decreases depth,
{
    match v {
        JsonView::Decimal(_) => false,
        JsonView::NegInt(n) => n < 0,
        JsonView::Array(items) => depth > 0 && (forall|i: int|
            0 <= i < items.len() ==> plain(#[trigger] items[i], (depth - 1) as nat)),
        JsonView::Object(entries) => depth > 0 && distinct_keys(entries) && (forall|i: int|
            0 <= i < entries.len() ==> plain((#[trigger] entries[i]).1, (depth - 1) as nat)),
        _ => true,
    }
}

/// Whether two values are the same but for the order of the entries in their
/// objects. Arrays and objects are nested at most `depth` times.
pub open spec fn alike(a: JsonView, b: JsonView, depth: nat) -> bool
    decreases depth,
{
    match (a, b) {
        (JsonView::Array(x), JsonView::Array(y)) => depth > 0 && x.len() == y.len() && (forall|
            i: int,
        |
            0 <= i < x.len() ==> alike(#[trigger] x[i], y[i], (depth - 1) as nat)),
        (JsonView::Object(x), JsonView::Object(y)) => depth > 0 && distinct_keys(x)
            && distinct_keys(y) && (forall|k: Seq<char>|
            match (#[trigger] field(a, k), field(b, k)) {
                (Some(v), Some(w)) => alike(v, w, (depth - 1) as nat),
                (None, None) => true,
                _ => false,
            }),
        _ => a == b,
    }
}

/// How deep a value may be nested to be read back from its text. The parser takes
/// a little more.
pub open spec fn readable_depth() -> nat {
    100
}

/// Writes a value as JSON text (the `Display` of `serde_json::Value`). The
/// contract names the text, does not spell it out, and says of a plain value that
/// the text tells it: reading the text gives the value back, and so does reading
/// it entry by entry and item by item, with the entries of objects in some order.
#[verifier::external_body]
pub(crate) fn to_text(value: &Json) -> (r: String)
    ensures
        r@ == json_text(value@),
        plain(value@, readable_depth()) ==> tells(r@, value@, readable_depth()),
{
    to_value(value).to_string()
}

/// Whether a value is an object with at most one entry, a string.
pub open spec fn text_record(value: JsonView) -> bool {
    value matches JsonView::Object(entries) && entries.len() <= 1 && (forall|i: int|
        0 <= i < entries.len() ==> (#[trigger] entries[i]).1 is Str)
}

/// The text that `serde_json` writes for a value over several lines.
pub uninterp spec fn pretty_json_text(value: JsonView) -> Seq<char>;

/// Writes a value as JSON text over several lines (the alternate `Display` of
/// `serde_json::Value`). The contract names the text, and says of an object with
/// at most one entry, a string, that the text tells it.
#[verifier::external_body]
pub(crate) fn to_pretty_text(value: &Json) -> (r: String)
    ensures
        r@ == pretty_json_text(value@),
        text_record(value@) ==> tells(r@, value@, 1),
{
    format!("{:#}", to_value(value))
}

} // verus!
