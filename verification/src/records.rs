//! Reading JSON texts as records: objects with named fields.
//!
//! A record is stricter than a JSON value in what it knows and laxer in what it
//! does not. A field that is known may stand only once. What stands in another
//! field is passed over, whatever it is. A record may also come as the list of its
//! fields, in their order.

use crate::json::{
    alike, array, distinct_keys, entry_from, entry_views, field, json_views, lemma_entry_from,
    object, parse, parsed_json, Json, JsonView,
};
use crate::text::{chars_of, owned, same};
use vstd::prelude::*;

verus! {

/// What a text is read as.
pub enum Shape {
    /// A JSON value.
    Value,
    /// A record with these fields.
    Record(Vec<(String, Shape)>),
    /// A list of such items.
    List(Box<Shape>),
    /// An object with any keys, each as often as it likes, and such values.
    Entries(Box<Shape>),
}

/// The model of [`Shape`].
pub enum ShapeView {
    Value,
    Record(Seq<(Seq<char>, ShapeView)>),
    List(Box<ShapeView>),
    Entries(Box<ShapeView>),
}

/// The model of a shape.
pub open spec fn shape_view(s: Shape) -> ShapeView
    decreases s,
{
    match s {
        Shape::Value => ShapeView::Value,
        Shape::Record(fields) => ShapeView::Record(
            Seq::new(
                fields@.len(),
                |i: int|
                    if 0 <= i < fields@.len() {
                        (fields@[i].0@, shape_view(fields@[i].1))
                    } else {
                        (seq![], ShapeView::Value)
                    },
            ),
        ),
        Shape::List(item) => ShapeView::List(Box::new(shape_view(*item))),
        Shape::Entries(item) => ShapeView::Entries(Box::new(shape_view(*item))),
    }
}

impl View for Shape {
    type V = ShapeView;

    open spec fn view(&self) -> ShapeView {
        shape_view(*self)
    }
}

/// The models of the fields of a record.
pub open spec fn field_views(fields: Seq<(String, Shape)>) -> Seq<(Seq<char>, ShapeView)> {
    fields.map_values(|f: (String, Shape)| (f.0@, f.1@))
}

proof fn lemma_record_view(fields: Vec<(String, Shape)>)
    ensures
        shape_view(Shape::Record(fields)) == ShapeView::Record(field_views(fields@)),
{
    assert(shape_view(Shape::Record(fields))->Record_0 =~= field_views(fields@));
}

/// No fields.
pub fn no_fields() -> (r: Vec<(String, Shape)>)
    ensures
        field_views(r@) == Seq::<(Seq<char>, ShapeView)>::empty(),
{
    let r: Vec<(String, Shape)> = Vec::new();
    assert(field_views(r@) =~= Seq::empty());
    r
}

/// Adds a field to the fields of a record.
pub fn put_field(fields: &mut Vec<(String, Shape)>, name: &str, shape: Shape)
    ensures
        field_views(final(fields)@) == field_views(old(fields)@).push((name@, shape@)),
{
    let ghost before = fields@;
    let ghost seen = shape@;
    fields.push((owned(name), shape));
    assert(field_views(fields@) =~= field_views(before).push((name@, seen)));
}

/// The record with these fields.
pub fn record(fields: Vec<(String, Shape)>) -> (r: Shape)
    ensures
        r@ == ShapeView::Record(field_views(fields@)),
{
    proof {
        lemma_record_view(fields);
    }
    Shape::Record(fields)
}

/// How long the value at the start of a text is, with the white space before it:
/// what the stream reader of `serde_json` takes for a value that is passed over.
pub uninterp spec fn value_length(text: Seq<char>) -> Option<nat>;

/// Cuts the first JSON value off a text, with the white space before it
/// (`serde_json::StreamDeserializer` over `serde::de::IgnoredAny`). The contract
/// names the length of the value, which is not zero, and says that the two parts
/// make up the text. It does not say which texts begin with a value.
#[verifier::external_body]
fn split_value<'a>(text: &'a str) -> (r: Option<(&'a str, &'a str)>)
    ensures
        (match r {
            Some((value, rest)) => value_length(text@) == Some(value@.len()) && value@.len() > 0
                && text@ == value@ + rest@,
            None => value_length(text@) is None,
        }),
{
    let mut values =
        serde_json::Deserializer::from_str(text).into_iter::<serde::de::IgnoredAny>();
    match values.next() {
        Some(Ok(_)) => Some(text.split_at(values.byte_offset())),
        _ => None,
    }
}

/// Whether JSON has `c` as white space.
pub open spec fn json_space(c: char) -> bool {
    c == ' ' || c == '\n' || c == '\t' || c == '\r'
}

/// What follows the white space at the start of `s`.
pub open spec fn after_space(s: Seq<char>) -> Seq<char>
    decreases s.len(),
{
    if s.len() > 0 && json_space(s[0]) {
        after_space(s.skip(1))
    } else {
        s
    }
}

/// Whether `s` begins with `c`.
pub open spec fn first_is(s: Seq<char>, c: char) -> bool {
    s.len() > 0 && s[0] == c
}

/// Whether a text begins with `c`, after white space.
pub open spec fn opens(text: Seq<char>, c: char) -> bool {
    first_is(after_space(text), c)
}

/// The value at the start of a text, with the white space before it, and what
/// follows it.
pub open spec fn cut(s: Seq<char>) -> Option<(Seq<char>, Seq<char>)> {
    match value_length(s) {
        Some(n) => if 0 < n <= s.len() {
            Some((s.take(n as int), s.skip(n as int)))
        } else {
            None
        },
        None => None,
    }
}

/// The key and the value of the entry at the start of `s`, and what follows it
/// after white space.
pub open spec fn entry_at(s: Seq<char>) -> Option<((Seq<char>, Seq<char>), Seq<char>)> {
    if !opens(s, '"') {
        None
    } else {
        match cut(after_space(s)) {
            Some((name, rest)) => match (parsed_json(name), opens(rest, ':')) {
                (Some(JsonView::Str(key)), true) => match cut(after_space(rest).skip(1)) {
                    Some((value, more)) => Some(((key, value), after_space(more))),
                    None => None,
                },
                _ => None,
            },
            None => None,
        }
    }
}

/// The item at the start of `s`, and what follows it after white space.
pub open spec fn item_at(s: Seq<char>) -> Option<(Seq<char>, Seq<char>)> {
    match cut(s) {
        Some((value, more)) => Some((value, after_space(more))),
        None => None,
    }
}

pub proof fn lemma_space_shrinks(s: Seq<char>)
    ensures
        after_space(s).len() <= s.len(),
    decreases s.len(),
{
    if s.len() > 0 && json_space(s[0]) {
        lemma_space_shrinks(s.skip(1));
    }
}

pub proof fn lemma_entry_shrinks(s: Seq<char>)
    ensures
        entry_at(s) matches Some((entry, rest)) ==> rest.len() < s.len(),
{
    lemma_space_shrinks(s);
    match cut(after_space(s)) {
        Some((name, rest)) => {
            lemma_space_shrinks(rest);
            match cut(after_space(rest).skip(1)) {
                Some((value, more)) => {
                    lemma_space_shrinks(more);
                },
                None => {},
            }
        },
        None => {},
    }
}

pub proof fn lemma_item_shrinks(s: Seq<char>)
    ensures
        item_at(s) matches Some((item, rest)) ==> rest.len() < s.len(),
{
    match cut(s) {
        Some((value, more)) => {
            lemma_space_shrinks(more);
        },
        None => {},
    }
}

/// The entries from `s` to the brace that ends the object, after which nothing may
/// follow but white space.
pub open spec fn entries_to_end(s: Seq<char>) -> Option<Seq<(Seq<char>, Seq<char>)>>
    decreases s.len(),
{
    match entry_at(s) {
        Some((entry, rest)) => {
            proof {
                lemma_entry_shrinks(s);
            }
            if first_is(rest, ',') {
                match entries_to_end(rest.skip(1)) {
                    Some(more) => Some(seq![entry] + more),
                    None => None,
                }
            } else if first_is(rest, '}') && after_space(rest.skip(1)).len() == 0 {
                Some(seq![entry])
            } else {
                None
            }
        },
        None => None,
    }
}

/// The entries of the object that a text is: their keys, and the texts of their
/// values. `None`: the text is no object.
pub open spec fn object_parts(text: Seq<char>) -> Option<Seq<(Seq<char>, Seq<char>)>> {
    let body = after_space(text).skip(1);
    if !opens(text, '{') {
        None
    } else if !opens(body, '}') {
        entries_to_end(body)
    } else if after_space(after_space(body).skip(1)).len() == 0 {
        Some(seq![])
    } else {
        None
    }
}

/// The items from `s` to the bracket that ends the list, after which nothing may
/// follow but white space.
pub open spec fn items_to_end(s: Seq<char>) -> Option<Seq<Seq<char>>>
    decreases s.len(),
{
    match item_at(s) {
        Some((item, rest)) => {
            proof {
                lemma_item_shrinks(s);
            }
            if first_is(rest, ',') {
                match items_to_end(rest.skip(1)) {
                    Some(more) => Some(seq![item] + more),
                    None => None,
                }
            } else if first_is(rest, ']') && after_space(rest.skip(1)).len() == 0 {
                Some(seq![item])
            } else {
                None
            }
        },
        None => None,
    }
}

/// The texts of the items of the list that a text is. `None`: the text is no list.
pub open spec fn list_parts(text: Seq<char>) -> Option<Seq<Seq<char>>> {
    let body = after_space(text).skip(1);
    if !opens(text, '[') {
        None
    } else if !opens(body, ']') {
        items_to_end(body)
    } else if after_space(after_space(body).skip(1)).len() == 0 {
        Some(seq![])
    } else {
        None
    }
}

/// The place of the field `name`, from `from` on.
pub open spec fn place_from(
    fields: Seq<(Seq<char>, ShapeView)>,
    name: Seq<char>,
    from: int,
) -> Option<int>
    decreases fields.len() - from,
{
    if from < 0 || from >= fields.len() {
        None
    } else if fields[from].0 == name {
        Some(from)
    } else {
        place_from(fields, name, from + 1)
    }
}

/// What a text holds, read as `shape` says. `None`: the text is malformed.
pub open spec fn typed(text: Seq<char>, shape: ShapeView) -> Option<JsonView>
    decreases shape, 0int,
{
    match shape {
        ShapeView::Value => parsed_json(text),
        ShapeView::Record(fields) => if opens(text, '{') {
            match object_parts(text) {
                Some(parts) => match typed_fields(parts, fields, parts.len() as int) {
                    Some(entries) => Some(JsonView::Object(entries)),
                    None => None,
                },
                None => None,
            }
        } else if opens(text, '[') {
            match list_parts(text) {
                Some(parts) => if parts.len() > fields.len() {
                    None
                } else {
                    match typed_places(parts, fields, parts.len() as int) {
                        Some(items) => Some(JsonView::Array(items)),
                        None => None,
                    }
                },
                None => None,
            }
        } else {
            parsed_json(text)
        },
        ShapeView::List(item) => if opens(text, '[') {
            match list_parts(text) {
                Some(parts) => match typed_items(parts, *item, parts.len() as int) {
                    Some(items) => Some(JsonView::Array(items)),
                    None => None,
                },
                None => None,
            }
        } else {
            parsed_json(text)
        },
        ShapeView::Entries(item) => if opens(text, '{') {
            match object_parts(text) {
                Some(parts) => match typed_entries(parts, *item, parts.len() as int) {
                    Some(entries) => Some(JsonView::Object(entries)),
                    None => None,
                },
                None => None,
            }
        } else {
            parsed_json(text)
        },
    }
}

/// The known fields among the first `n` entries of a record. A field may stand
/// only once; what is not known is passed over.
pub open spec fn typed_fields(
    parts: Seq<(Seq<char>, Seq<char>)>,
    fields: Seq<(Seq<char>, ShapeView)>,
    n: int,
) -> Option<Seq<(Seq<char>, JsonView)>>
    decreases fields, n,
{
    if n <= 0 {
        Some(seq![])
    } else {
        let (name, text) = parts[n - 1];
        match (typed_fields(parts, fields, n - 1), place_from(fields, name, 0)) {
            (None, _) => None,
            (Some(before), None) => Some(before),
            (Some(before), Some(at)) => if 0 <= at < fields.len() && entry_from(before, name, 0)
                is None {
                match typed(text, fields[at].1) {
                    Some(value) => Some(before.push((name, value))),
                    None => None,
                }
            } else {
                None
            },
        }
    }
}

/// The first `n` items of a record that comes as a list.
pub open spec fn typed_places(
    parts: Seq<Seq<char>>,
    fields: Seq<(Seq<char>, ShapeView)>,
    n: int,
) -> Option<Seq<JsonView>>
    decreases fields, n,
{
    if n <= 0 {
        Some(seq![])
    } else if n > fields.len() {
        None
    } else {
        match (typed_places(parts, fields, n - 1), typed(parts[n - 1], fields[n - 1].1)) {
            (Some(before), Some(value)) => Some(before.push(value)),
            _ => None,
        }
    }
}

/// The first `n` items of a list.
pub open spec fn typed_items(parts: Seq<Seq<char>>, item: ShapeView, n: int) -> Option<
    Seq<JsonView>,
>
    decreases item, n,
{
    if n <= 0 {
        Some(seq![])
    } else {
        match (typed_items(parts, item, n - 1), typed(parts[n - 1], item)) {
            (Some(before), Some(value)) => Some(before.push(value)),
            _ => None,
        }
    }
}

/// The first `n` entries of an object with any keys.
pub open spec fn typed_entries(
    parts: Seq<(Seq<char>, Seq<char>)>,
    item: ShapeView,
    n: int,
) -> Option<Seq<(Seq<char>, JsonView)>>
    decreases item, n,
{
    if n <= 0 {
        Some(seq![])
    } else {
        match (typed_entries(parts, item, n - 1), typed(parts[n - 1].1, item)) {
            (Some(before), Some(value)) => Some(before.push((parts[n - 1].0, value))),
            _ => None,
        }
    }
}

/// What follows the white space at the start of `s`.
fn skip_space<'a>(s: &'a str) -> (r: &'a str)
    ensures
        r@ == after_space(s@),
{
    let cs = chars_of(s);
    let mut from: usize = 0;
    assert(s@.skip(0) =~= s@);
    while from < cs.len() && (cs[from] == ' ' || cs[from] == '\n' || cs[from] == '\t' || cs[from]
        == '\r')
        invariant
            cs@ == s@,
            from <= cs@.len(),
            after_space(s@) == after_space(s@.skip(from as int)),
        decreases cs@.len() - from,
    {
        assert(s@.skip(from as int).skip(1) =~= s@.skip(from + 1));
        from = from + 1;
    }
    let r = s.substring_char(from, cs.len());
    assert(r@ =~= s@.skip(from as int));
    r
}

/// Whether `s` begins with `c`.
fn begins_with(s: &str, c: char) -> (r: bool)
    ensures
        r == first_is(s@, c),
{
    s.unicode_len() > 0 && s.get_char(0) == c
}

/// What follows the first character of `s`.
fn after_first<'a>(s: &'a str) -> (r: &'a str)
    requires
        s@.len() > 0,
    ensures
        r@ == s@.skip(1),
{
    let n: usize = s.unicode_len();
    let r = s.substring_char(1, n);
    assert(r@ =~= s@.skip(1));
    r
}

/// The value at the start of a text, and what follows it.
fn cut_off<'a>(s: &'a str) -> (r: Option<(&'a str, &'a str)>)
    ensures
        (match r {
            Some((value, rest)) => cut(s@) == Some((value@, rest@)),
            None => cut(s@) is None,
        }),
{
    let r = split_value(s);
    proof {
        match r {
            Some((value, rest)) => {
                assert(s@.take(value@.len() as int) =~= value@);
                assert(s@.skip(value@.len() as int) =~= rest@);
            },
            None => {},
        }
    }
    r
}

/// The key and the value of the entry at the start of `s`, and what follows it.
fn read_entry<'a>(s: &'a str) -> (r: Option<((String, &'a str), &'a str)>)
    ensures
        (match r {
            Some(((key, value), rest)) => entry_at(s@) == Some(((key@, value@), rest@)),
            None => entry_at(s@) is None,
        }),
{
    let name_on = skip_space(s);
    if !begins_with(name_on, '"') {
        return None;
    }
    match cut_off(name_on) {
        Some((name, rest)) => {
            let colon_on = skip_space(rest);
            match parse(name) {
                Some(Json::Str(key)) => {
                    if !begins_with(colon_on, ':') {
                        return None;
                    }
                    match cut_off(after_first(colon_on)) {
                        Some((value, more)) => Some(((key, value), skip_space(more))),
                        None => None,
                    }
                },
                _ => None,
            }
        },
        None => None,
    }
}

/// The models of the parts of an object.
pub open spec fn part_views(parts: Seq<(String, &str)>) -> Seq<(Seq<char>, Seq<char>)> {
    parts.map_values(|p: (String, &str)| (p.0@, p.1@))
}

/// The models of the parts of a list.
pub open spec fn str_views(parts: Seq<&str>) -> Seq<Seq<char>> {
    parts.map_values(|p: &str| p@)
}

/// The entries of the object that a text is.
fn read_object<'a>(text: &'a str) -> (r: Option<Vec<(String, &'a str)>>)
    ensures
        (match r {
            Some(parts) => object_parts(text@) == Some(part_views(parts@)),
            None => object_parts(text@) is None,
        }),
{
    let open = skip_space(text);
    if !begins_with(open, '{') {
        return None;
    }
    let body = after_first(open);
    let mut parts: Vec<(String, &'a str)> = Vec::new();
    assert(part_views(parts@) =~= seq![]);
    let start = skip_space(body);
    if begins_with(start, '}') {
        if skip_space(after_first(start)).unicode_len() == 0 {
            return Some(parts);
        }
        return None;
    }
    let mut s: &'a str = body;
    let ghost all = entries_to_end(body@);
    proof {
        match all {
            Some(more) => {
                assert(seq![] + more =~= more);
            },
            None => {},
        }
    }
    loop
        invariant
            object_parts(text@) == all,
            all == (match entries_to_end(s@) {
                Some(more) => Some(part_views(parts@) + more),
                None => None,
            }),
        decreases s@.len(),
    {
        let ghost before = part_views(parts@);
        let ghost at = s@;
        match read_entry(s) {
            Some(((key, value), rest)) => {
                proof {
                    lemma_entry_shrinks(at);
                }
                let ghost entry = (key@, value@);
                parts.push((key, value));
                assert(part_views(parts@) =~= before + seq![entry]);
                if begins_with(rest, ',') {
                    s = after_first(rest);
                    proof {
                        match entries_to_end(s@) {
                            Some(more) => {
                                assert(before + (seq![entry] + more) =~= part_views(parts@)
                                    + more);
                            },
                            None => {},
                        }
                    }
                } else if begins_with(rest, '}') {
                    if skip_space(after_first(rest)).unicode_len() == 0 {
                        return Some(parts);
                    }
                    return None;
                } else {
                    return None;
                }
            },
            None => {
                return None;
            },
        }
    }
}

/// The items of the list that a text is.
fn read_list<'a>(text: &'a str) -> (r: Option<Vec<&'a str>>)
    ensures
        (match r {
            Some(parts) => list_parts(text@) == Some(str_views(parts@)),
            None => list_parts(text@) is None,
        }),
{
    let open = skip_space(text);
    if !begins_with(open, '[') {
        return None;
    }
    let body = after_first(open);
    let mut parts: Vec<&'a str> = Vec::new();
    assert(str_views(parts@) =~= seq![]);
    let start = skip_space(body);
    if begins_with(start, ']') {
        if skip_space(after_first(start)).unicode_len() == 0 {
            return Some(parts);
        }
        return None;
    }
    let mut s: &'a str = body;
    let ghost all = items_to_end(body@);
    proof {
        match all {
            Some(more) => {
                assert(seq![] + more =~= more);
            },
            None => {},
        }
    }
    loop
        invariant
            list_parts(text@) == all,
            all == (match items_to_end(s@) {
                Some(more) => Some(str_views(parts@) + more),
                None => None,
            }),
        decreases s@.len(),
    {
        let ghost before = str_views(parts@);
        let ghost at = s@;
        match cut_off(s) {
            Some((value, more_text)) => {
                let rest = skip_space(more_text);
                proof {
                    lemma_item_shrinks(at);
                }
                parts.push(value);
                assert(str_views(parts@) =~= before + seq![value@]);
                if begins_with(rest, ',') {
                    s = after_first(rest);
                    proof {
                        match items_to_end(s@) {
                            Some(more) => {
                                assert(before + (seq![value@] + more) =~= str_views(parts@)
                                    + more);
                            },
                            None => {},
                        }
                    }
                } else if begins_with(rest, ']') {
                    if skip_space(after_first(rest)).unicode_len() == 0 {
                        return Some(parts);
                    }
                    return None;
                } else {
                    return None;
                }
            },
            None => {
                return None;
            },
        }
    }
}

/// The place of the field `name`.
fn find_field(fields: &Vec<(String, Shape)>, name: &str) -> (r: Option<usize>)
    ensures
        (match r {
            Some(i) => i < fields@.len() && place_from(field_views(fields@), name@, 0) == Some(
                i as int,
            ),
            None => place_from(field_views(fields@), name@, 0) is None,
        }),
{
    let mut i: usize = 0;
    while i < fields.len()
        invariant
            i <= fields@.len(),
            place_from(field_views(fields@), name@, 0) == place_from(
                field_views(fields@),
                name@,
                i as int,
            ),
        decreases fields@.len() - i,
    {
        if same(fields[i].0.as_str(), name) {
            return Some(i);
        }
        i = i + 1;
    }
    None
}

/// Whether one of the entries has the key `key`.
fn has_entry(entries: &Vec<(String, Json)>, key: &str) -> (r: bool)
    ensures
        r == (entry_from(entry_views(entries@), key@, 0) is Some),
{
    let mut i: usize = 0;
    while i < entries.len()
        invariant
            i <= entries@.len(),
            entry_from(entry_views(entries@), key@, 0) == entry_from(
                entry_views(entries@),
                key@,
                i as int,
            ),
        decreases entries@.len() - i,
    {
        if same(entries[i].0.as_str(), key) {
            return true;
        }
        i = i + 1;
    }
    false
}

proof fn lemma_fields_none(
    parts: Seq<(Seq<char>, Seq<char>)>,
    fields: Seq<(Seq<char>, ShapeView)>,
    i: int,
    n: int,
)
    requires
        0 < i <= n,
        typed_fields(parts, fields, i) is None,
    ensures
        typed_fields(parts, fields, n) is None,
    decreases n,
{
    if i < n {
        lemma_fields_none(parts, fields, i, n - 1);
    }
}

proof fn lemma_places_none(
    parts: Seq<Seq<char>>,
    fields: Seq<(Seq<char>, ShapeView)>,
    i: int,
    n: int,
)
    requires
        0 < i <= n,
        typed_places(parts, fields, i) is None,
    ensures
        typed_places(parts, fields, n) is None,
    decreases n,
{
    if i < n {
        lemma_places_none(parts, fields, i, n - 1);
    }
}

proof fn lemma_items_none(parts: Seq<Seq<char>>, item: ShapeView, i: int, n: int)
    requires
        0 < i <= n,
        typed_items(parts, item, i) is None,
    ensures
        typed_items(parts, item, n) is None,
    decreases n,
{
    if i < n {
        lemma_items_none(parts, item, i, n - 1);
    }
}

proof fn lemma_entries_none(
    parts: Seq<(Seq<char>, Seq<char>)>,
    item: ShapeView,
    i: int,
    n: int,
)
    requires
        0 < i <= n,
        typed_entries(parts, item, i) is None,
    ensures
        typed_entries(parts, item, n) is None,
    decreases n,
{
    if i < n {
        lemma_entries_none(parts, item, i, n - 1);
    }
}

/// The known fields of a record.
fn read_fields(parts: &Vec<(String, &str)>, fields: &Vec<(String, Shape)>) -> (r: Option<
    Vec<(String, Json)>,
>)
    ensures
        (match r {
            Some(entries) => typed_fields(
                part_views(parts@),
                field_views(fields@),
                parts@.len() as int,
            ) == Some(entry_views(entries@)),
            None => typed_fields(part_views(parts@), field_views(fields@), parts@.len() as int)
                is None,
        }),
    decreases fields, 1int,
{
    let ghost texts = part_views(parts@);
    let ghost shapes = field_views(fields@);
    let mut entries: Vec<(String, Json)> = Vec::new();
    assert(entry_views(entries@) =~= seq![]);
    let mut i: usize = 0;
    while i < parts.len()
        invariant
            i <= parts@.len(),
            texts == part_views(parts@),
            shapes == field_views(fields@),
            typed_fields(texts, shapes, i as int) == Some(entry_views(entries@)),
        decreases parts@.len() - i,
    {
        let ghost before = entry_views(entries@);
        assert(texts[i as int] == (parts@[i as int].0@, parts@[i as int].1@));
        match find_field(fields, parts[i].0.as_str()) {
            Some(at) => {
                assert(shapes[at as int].1 == fields@[at as int].1@);
                let value = if has_entry(&entries, parts[i].0.as_str()) {
                    None
                } else {
                    read_typed(parts[i].1, &fields[at].1)
                };
                match value {
                    Some(value) => {
                        let ghost seen = value@;
                        entries.push((parts[i].0.clone(), value));
                        assert(entry_views(entries@) =~= before.push(
                            (parts@[i as int].0@, seen),
                        ));
                    },
                    None => {
                        proof {
                            lemma_fields_none(texts, shapes, i + 1, texts.len() as int);
                        }
                        return None;
                    },
                }
            },
            None => {},
        }
        i = i + 1;
    }
    Some(entries)
}

/// The items of a record that comes as a list.
fn read_places(parts: &Vec<&str>, fields: &Vec<(String, Shape)>) -> (r: Option<Vec<Json>>)
    requires
        parts@.len() <= fields@.len(),
    ensures
        (match r {
            Some(items) => typed_places(
                str_views(parts@),
                field_views(fields@),
                parts@.len() as int,
            ) == Some(json_views(items@)),
            None => typed_places(str_views(parts@), field_views(fields@), parts@.len() as int)
                is None,
        }),
    decreases fields, 1int,
{
    let ghost texts = str_views(parts@);
    let ghost shapes = field_views(fields@);
    let mut items: Vec<Json> = Vec::new();
    assert(json_views(items@) =~= seq![]);
    let mut i: usize = 0;
    while i < parts.len()
        invariant
            i <= parts@.len() <= fields@.len(),
            texts == str_views(parts@),
            shapes == field_views(fields@),
            typed_places(texts, shapes, i as int) == Some(json_views(items@)),
        decreases parts@.len() - i,
    {
        let ghost before = json_views(items@);
        assert(texts[i as int] == parts@[i as int]@);
        assert(shapes[i as int].1 == fields@[i as int].1@);
        match read_typed(parts[i], &fields[i].1) {
            Some(value) => {
                let ghost seen = value@;
                items.push(value);
                assert(json_views(items@) =~= before.push(seen));
            },
            None => {
                proof {
                    lemma_places_none(texts, shapes, i + 1, texts.len() as int);
                }
                return None;
            },
        }
        i = i + 1;
    }
    Some(items)
}

/// The items of a list.
fn read_items(parts: &Vec<&str>, item: &Shape) -> (r: Option<Vec<Json>>)
    ensures
        (match r {
            Some(items) => typed_items(str_views(parts@), item@, parts@.len() as int) == Some(
                json_views(items@),
            ),
            None => typed_items(str_views(parts@), item@, parts@.len() as int) is None,
        }),
    decreases item, 1int,
{
    let ghost texts = str_views(parts@);
    let mut items: Vec<Json> = Vec::new();
    assert(json_views(items@) =~= seq![]);
    let mut i: usize = 0;
    while i < parts.len()
        invariant
            i <= parts@.len(),
            texts == str_views(parts@),
            typed_items(texts, item@, i as int) == Some(json_views(items@)),
        decreases parts@.len() - i,
    {
        let ghost before = json_views(items@);
        assert(texts[i as int] == parts@[i as int]@);
        match read_typed(parts[i], item) {
            Some(value) => {
                let ghost seen = value@;
                items.push(value);
                assert(json_views(items@) =~= before.push(seen));
            },
            None => {
                proof {
                    lemma_items_none(texts, item@, i + 1, texts.len() as int);
                }
                return None;
            },
        }
        i = i + 1;
    }
    Some(items)
}

/// The entries of an object with any keys.
fn read_entries(parts: &Vec<(String, &str)>, item: &Shape) -> (r: Option<Vec<(String, Json)>>)
    ensures
        (match r {
            Some(entries) => typed_entries(part_views(parts@), item@, parts@.len() as int) == Some(
                entry_views(entries@),
            ),
            None => typed_entries(part_views(parts@), item@, parts@.len() as int) is None,
        }),
    decreases item, 1int,
{
    let ghost texts = part_views(parts@);
    let mut entries: Vec<(String, Json)> = Vec::new();
    assert(entry_views(entries@) =~= seq![]);
    let mut i: usize = 0;
    while i < parts.len()
        invariant
            i <= parts@.len(),
            texts == part_views(parts@),
            typed_entries(texts, item@, i as int) == Some(entry_views(entries@)),
        decreases parts@.len() - i,
    {
        let ghost before = entry_views(entries@);
        assert(texts[i as int] == (parts@[i as int].0@, parts@[i as int].1@));
        match read_typed(parts[i].1, item) {
            Some(value) => {
                let ghost seen = value@;
                entries.push((parts[i].0.clone(), value));
                assert(entry_views(entries@) =~= before.push((parts@[i as int].0@, seen)));
            },
            None => {
                proof {
                    lemma_entries_none(texts, item@, i + 1, texts.len() as int);
                }
                return None;
            },
        }
        i = i + 1;
    }
    Some(entries)
}

/// What a text holds, read as `shape` says; nothing where the text is malformed.
pub fn read_typed(text: &str, shape: &Shape) -> (r: Option<Json>)
    ensures
        (match r {
            Some(value) => typed(text@, shape@) == Some(value@),
            None => typed(text@, shape@) is None,
        }),
    decreases shape, 0int,
{
    let start = skip_space(text);
    let is_object = begins_with(start, '{');
    let is_list = begins_with(start, '[');
    match shape {
        Shape::Value => parse(text),
        Shape::Record(fields) => {
            proof {
                lemma_record_view(*fields);
            }
            if is_object {
                match read_object(text) {
                    Some(parts) => match read_fields(&parts, fields) {
                        Some(entries) => Some(object(entries)),
                        None => None,
                    },
                    None => None,
                }
            } else if is_list {
                match read_list(text) {
                    Some(parts) => {
                        if parts.len() > fields.len() {
                            None
                        } else {
                            match read_places(&parts, fields) {
                                Some(items) => Some(array(items)),
                                None => None,
                            }
                        }
                    },
                    None => None,
                }
            } else {
                parse(text)
            }
        },
        Shape::List(item) => {
            if is_list {
                match read_list(text) {
                    Some(parts) => match read_items(&parts, item) {
                        Some(items) => Some(array(items)),
                        None => None,
                    },
                    None => None,
                }
            } else {
                parse(text)
            }
        },
        Shape::Entries(item) => {
            if is_object {
                match read_object(text) {
                    Some(parts) => match read_entries(&parts, item) {
                        Some(entries) => Some(object(entries)),
                        None => None,
                    },
                    None => None,
                }
            } else {
                parse(text)
            }
        },
    }
}

/// Whether a text tells `value` part by part: an object by its entries, in some
/// order, a list by its items. Arrays and objects are nested at most `depth` times.
pub open spec fn tells(text: Seq<char>, value: JsonView, depth: nat) -> bool
    decreases depth,
{
    &&& match parsed_json(text) {
        Some(back) => alike(value, back, depth),
        None => false,
    }
    &&& match value {
        JsonView::Array(items) => depth > 0 && (match list_parts(text) {
            Some(parts) => parts.len() == items.len() && (forall|i: int|
                0 <= i < items.len() ==> tells(
                    parts[i],
                    #[trigger] items[i],
                    (depth - 1) as nat,
                )),
            None => false,
        }),
        JsonView::Object(entries) => depth > 0 && (match object_parts(text) {
            Some(parts) => parts.len() == entries.len() && (forall|i: int|
                0 <= i < parts.len() ==> told((#[trigger] parts[i]).0, entries)) && (forall|
                j: int,
            |
                0 <= j < entries.len() ==> listed((#[trigger] entries[j]).0, parts)) && (forall|
                i: int,
                j: int,
            |
                0 <= i < parts.len() && 0 <= j < entries.len() && (#[trigger] parts[i]).0 == (
                #[trigger] entries[j]).0 ==> tells(
                    parts[i].1,
                    entries[j].1,
                    (depth - 1) as nat,
                )) && keys_differ(parts),
            None => false,
        }),
        _ => !opens(text, '{') && !opens(text, '['),
    }
}

/// Whether one of the entries has the key `key`.
pub open spec fn told(key: Seq<char>, entries: Seq<(Seq<char>, JsonView)>) -> bool {
    exists|j: int| 0 <= j < entries.len() && (#[trigger] entries[j]).0 == key
}

/// Whether one of the parts has the key `key`.
pub open spec fn listed(key: Seq<char>, parts: Seq<(Seq<char>, Seq<char>)>) -> bool {
    exists|i: int| 0 <= i < parts.len() && (#[trigger] parts[i]).0 == key
}

/// Whether no two parts have the same key.
pub open spec fn keys_differ(parts: Seq<(Seq<char>, Seq<char>)>) -> bool {
    forall|i: int, j: int|
        0 <= i < j < parts.len() ==> (#[trigger] parts[i]).0 != (#[trigger] parts[j]).0
}

/// Whether every part of `value` has its place in `shape`.
pub open spec fn fits(value: JsonView, shape: ShapeView) -> bool
    decreases shape,
{
    match (shape, value) {
        (ShapeView::Record(fields), JsonView::Object(entries)) => forall|j: int|
            0 <= j < entries.len() ==> (match place_from(fields, (#[trigger] entries[j]).0, 0) {
                Some(at) => 0 <= at < fields.len() && fits(entries[j].1, fields[at].1),
                None => false,
            }),
        (ShapeView::Record(_), JsonView::Array(_)) => false,
        (ShapeView::List(item), JsonView::Array(items)) => forall|i: int|
            0 <= i < items.len() ==> fits(#[trigger] items[i], *item),
        (ShapeView::Entries(item), JsonView::Object(entries)) => forall|j: int|
            0 <= j < entries.len() ==> fits((#[trigger] entries[j]).1, *item),
        _ => true,
    }
}

/// Whether values were read from parts: each under its key, and alike what the
/// entries hold.
spec fn read_back(
    done: Seq<(Seq<char>, JsonView)>,
    parts: Seq<(Seq<char>, Seq<char>)>,
    entries: Seq<(Seq<char>, JsonView)>,
    n: int,
    depth: nat,
) -> bool {
    &&& done.len() == n
    &&& forall|i: int| 0 <= i < n ==> (#[trigger] done[i]).0 == parts[i].0
    &&& forall|i: int, j: int|
        0 <= i < n && 0 <= j < entries.len() && (#[trigger] done[i]).0 == (
        #[trigger] entries[j]).0 ==> alike(entries[j].1, done[i].1, depth)
}

proof fn lemma_objects_alike(
    entries: Seq<(Seq<char>, JsonView)>,
    parts: Seq<(Seq<char>, Seq<char>)>,
    done: Seq<(Seq<char>, JsonView)>,
    depth: nat,
)
    requires
        depth > 0,
        distinct_keys(entries),
        keys_differ(parts),
        read_back(done, parts, entries, parts.len() as int, (depth - 1) as nat),
        forall|i: int| 0 <= i < parts.len() ==> told((#[trigger] parts[i]).0, entries),
        forall|j: int| 0 <= j < entries.len() ==> listed((#[trigger] entries[j]).0, parts),
    ensures
        alike(JsonView::Object(entries), JsonView::Object(done), depth),
{
    let (a, b) = (JsonView::Object(entries), JsonView::Object(done));
    assert(distinct_keys(done)) by {
        assert forall|i: int, j: int| 0 <= i < j < done.len() implies (#[trigger] done[i]).0 != (
        #[trigger] done[j]).0 by {
            assert(parts[i].0 != parts[j].0);
        }
    }
    assert forall|k: Seq<char>|
        match (#[trigger] field(a, k), field(b, k)) {
            (Some(v), Some(w)) => alike(v, w, (depth - 1) as nat),
            (None, None) => true,
            _ => false,
        } by {
        lemma_entry_from(entries, k, 0);
        lemma_entry_from(done, k, 0);
        match entry_from(entries, k, 0) {
            Some(j) => {
                assert(listed(entries[j].0, parts));
                let i = choose|i: int|
                    0 <= i < parts.len() && (#[trigger] parts[i]).0 == entries[j].0;
                assert(done[i].0 == parts[i].0);
                match entry_from(done, k, 0) {
                    Some(m) => {
                        assert(done[m].0 == entries[j].0);
                    },
                    None => {},
                }
            },
            None => {
                match entry_from(done, k, 0) {
                    Some(m) => {
                        assert(told(parts[m].0, entries));
                        let j = choose|j: int|
                            0 <= j < entries.len() && (#[trigger] entries[j]).0 == parts[m].0;
                        assert(entries[j].0 == k);
                    },
                    None => {},
                }
            },
        }
    }
}

/// A text that tells a value reads as that value, with the entries of objects in
/// some order, where every part of the value has its place in the shape.
pub proof fn lemma_told_is_read(text: Seq<char>, value: JsonView, shape: ShapeView, depth: nat)
    requires
        tells(text, value, depth),
        fits(value, shape),
    ensures
        typed(text, shape) matches Some(back) && alike(value, back, depth),
    decreases depth, 2int, 0int,
{
    match (shape, value) {
        (ShapeView::Record(fields), JsonView::Object(entries)) => {
            let parts = object_parts(text)->0;
            lemma_fields_read(parts, entries, fields, parts.len() as int, depth);
            lemma_objects_alike(
                entries,
                parts,
                typed_fields(parts, fields, parts.len() as int)->0,
                depth,
            );
        },
        (ShapeView::List(item), JsonView::Array(items)) => {
            let parts = list_parts(text)->0;
            lemma_items_read(parts, items, *item, items.len() as int, depth);
            let done = typed_items(parts, *item, items.len() as int)->0;
            assert(alike(value, JsonView::Array(done), depth));
        },
        (ShapeView::Entries(item), JsonView::Object(entries)) => {
            let parts = object_parts(text)->0;
            lemma_entries_read(parts, entries, *item, parts.len() as int, depth);
            lemma_objects_alike(
                entries,
                parts,
                typed_entries(parts, *item, parts.len() as int)->0,
                depth,
            );
        },
        _ => {},
    }
}

proof fn lemma_fields_read(
    parts: Seq<(Seq<char>, Seq<char>)>,
    entries: Seq<(Seq<char>, JsonView)>,
    fields: Seq<(Seq<char>, ShapeView)>,
    n: int,
    depth: nat,
)
    requires
        depth > 0,
        0 <= n <= parts.len(),
        keys_differ(parts),
        distinct_keys(entries),
        forall|i: int| 0 <= i < parts.len() ==> told((#[trigger] parts[i]).0, entries),
        forall|i: int, j: int|
            0 <= i < parts.len() && 0 <= j < entries.len() && (#[trigger] parts[i]).0 == (
            #[trigger] entries[j]).0 ==> tells(parts[i].1, entries[j].1, (depth - 1) as nat),
        fits(JsonView::Object(entries), ShapeView::Record(fields)),
    ensures
        typed_fields(parts, fields, n) matches Some(done) && read_back(
            done,
            parts,
            entries,
            n,
            (depth - 1) as nat,
        ),
    decreases depth, 1int, n,
{
    if n > 0 {
        lemma_fields_read(parts, entries, fields, n - 1, depth);
        let before = typed_fields(parts, fields, n - 1)->0;
        let (name, text) = parts[n - 1];
        assert(told(parts[n - 1].0, entries));
        let j = choose|j: int| 0 <= j < entries.len() && (#[trigger] entries[j]).0 == name;
        let at = place_from(fields, entries[j].0, 0)->0;
        lemma_entry_from(before, name, 0);
        match entry_from(before, name, 0) {
            Some(m) => {
                assert(before[m].0 == parts[m].0);
                assert(parts[m].0 != parts[n - 1].0);
            },
            None => {},
        }
        assert(tells(parts[n - 1].1, entries[j].1, (depth - 1) as nat));
        lemma_told_is_read(text, entries[j].1, fields[at].1, (depth - 1) as nat);
        let done = typed_fields(parts, fields, n)->0;
        assert forall|i: int, k: int|
            0 <= i < n && 0 <= k < entries.len() && (#[trigger] done[i]).0 == (
            #[trigger] entries[k]).0 implies alike(
            entries[k].1,
            done[i].1,
            (depth - 1) as nat,
        ) by {
            if i < n - 1 {
                assert(done[i] == before[i]);
            } else {
                assert(entries[k].0 == entries[j].0);
                assert(k == j);
            }
        }
    }
}

proof fn lemma_entries_read(
    parts: Seq<(Seq<char>, Seq<char>)>,
    entries: Seq<(Seq<char>, JsonView)>,
    item: ShapeView,
    n: int,
    depth: nat,
)
    requires
        depth > 0,
        0 <= n <= parts.len(),
        distinct_keys(entries),
        forall|i: int| 0 <= i < parts.len() ==> told((#[trigger] parts[i]).0, entries),
        forall|i: int, j: int|
            0 <= i < parts.len() && 0 <= j < entries.len() && (#[trigger] parts[i]).0 == (
            #[trigger] entries[j]).0 ==> tells(parts[i].1, entries[j].1, (depth - 1) as nat),
        forall|j: int| 0 <= j < entries.len() ==> fits((#[trigger] entries[j]).1, item),
    ensures
        typed_entries(parts, item, n) matches Some(done) && read_back(
            done,
            parts,
            entries,
            n,
            (depth - 1) as nat,
        ),
    decreases depth, 1int, n,
{
    if n > 0 {
        lemma_entries_read(parts, entries, item, n - 1, depth);
        let before = typed_entries(parts, item, n - 1)->0;
        let (name, text) = parts[n - 1];
        assert(told(parts[n - 1].0, entries));
        let j = choose|j: int| 0 <= j < entries.len() && (#[trigger] entries[j]).0 == name;
        assert(tells(parts[n - 1].1, entries[j].1, (depth - 1) as nat));
        lemma_told_is_read(text, entries[j].1, item, (depth - 1) as nat);
        let done = typed_entries(parts, item, n)->0;
        assert forall|i: int, k: int|
            0 <= i < n && 0 <= k < entries.len() && (#[trigger] done[i]).0 == (
            #[trigger] entries[k]).0 implies alike(
            entries[k].1,
            done[i].1,
            (depth - 1) as nat,
        ) by {
            if i < n - 1 {
                assert(done[i] == before[i]);
            } else {
                assert(entries[k].0 == entries[j].0);
                assert(k == j);
            }
        }
    }
}

proof fn lemma_items_read(
    parts: Seq<Seq<char>>,
    items: Seq<JsonView>,
    item: ShapeView,
    n: int,
    depth: nat,
)
    requires
        depth > 0,
        0 <= n <= items.len(),
        parts.len() == items.len(),
        forall|i: int|
            0 <= i < items.len() ==> tells(parts[i], #[trigger] items[i], (depth - 1) as nat),
        forall|i: int| 0 <= i < items.len() ==> fits(#[trigger] items[i], item),
    ensures
        typed_items(parts, item, n) matches Some(done) && done.len() == n && (forall|i: int|
            0 <= i < n ==> alike(#[trigger] items[i], done[i], (depth - 1) as nat)),
    decreases depth, 1int, n,
{
    if n > 0 {
        lemma_items_read(parts, items, item, n - 1, depth);
        let before = typed_items(parts, item, n - 1)->0;
        assert(tells(parts[n - 1], items[n - 1], (depth - 1) as nat));
        lemma_told_is_read(parts[n - 1], items[n - 1], item, (depth - 1) as nat);
        let done = typed_items(parts, item, n)->0;
        assert forall|i: int| 0 <= i < n implies alike(
            #[trigger] items[i],
            done[i],
            (depth - 1) as nat,
        ) by {
            if i < n - 1 {
                assert(done[i] == before[i]);
            }
        }
    }
}

} // verus!
