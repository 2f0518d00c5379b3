//! JSON values, as the readable forms are built of them.

use vstd::prelude::*;

verus! {

/// A JSON value. An object holds its fields in their order; a key counts
/// where it first stands.
#[derive(Debug)]
pub enum Json {
    Null,
    Bool(bool),
    /// A whole number that is not negative.
    Unsigned(u64),
    /// A whole number that is negative.
    Signed(i64),
    /// Any other number, as its numeral.
    Float(String),
    Text(String),
    Array(Vec<Json>),
    Object(Vec<(String, Json)>),
    /// A value that is given as JSON text already.
    Encoded(String),
}

/// A JSON value as a mathematical value.
pub enum JsonView {
    Null,
    Bool(bool),
    Unsigned(u64),
    Signed(i64),
    Float(Seq<char>),
    Text(Seq<char>),
    Array(Seq<JsonView>),
    Object(Seq<(Seq<char>, JsonView)>),
    Encoded(Seq<char>),
}

impl View for Json {
    type V = JsonView;

    open spec fn view(&self) -> JsonView
        decreases self,
    {
        match self {
            Json::Null => JsonView::Null,
            Json::Bool(value) => JsonView::Bool(*value),
            Json::Unsigned(value) => JsonView::Unsigned(*value),
            Json::Signed(value) => JsonView::Signed(*value),
            Json::Float(numeral) => JsonView::Float(numeral@),
            Json::Text(text) => JsonView::Text(text@),
            Json::Array(items) => JsonView::Array(
                Seq::new(
                    items@.len(),
                    |i: int|
                        if 0 <= i < items@.len() {
                            items@[i].view()
                        } else {
                            JsonView::Null
                        },
                ),
            ),
            Json::Object(fields) => JsonView::Object(
                Seq::new(
                    fields@.len(),
                    |i: int|
                        if 0 <= i < fields@.len() {
                            (fields@[i].0@, fields@[i].1.view())
                        } else {
                            (Seq::empty(), JsonView::Null)
                        },
                ),
            ),
            Json::Encoded(text) => JsonView::Encoded(text@),
        }
    }
}

impl DeepView for Json {
    type V = JsonView;

    open spec fn deep_view(&self) -> JsonView {
        self@
    }
}

/// The views of the fields of an object.
pub open spec fn fields_view(fields: Seq<(String, Json)>) -> Seq<(Seq<char>, JsonView)> {
    Seq::new(fields.len(), |i: int| (fields[i].0@, fields[i].1@))
}

/// The view of an array is made of the views of its items, and the view of
/// an object of the views of its fields.
pub proof fn lemma_json_view(value: Json)
    ensures
        value matches Json::Array(items) ==> value@ == JsonView::Array(items.deep_view()),
        value matches Json::Object(fields) ==> value@ == JsonView::Object(fields_view(fields@)),
{
    reveal_with_fuel(<Json as View>::view, 2);
    match value {
        Json::Array(items) => {
            assert(value@->Array_0 =~= items.deep_view());
        },
        Json::Object(fields) => {
            assert(value@->Object_0 =~= fields_view(fields@));
        },
        _ => {},
    }
}

/// Whether a field with this key is among `fields`.
pub open spec fn has_field(fields: Seq<(Seq<char>, JsonView)>, key: Seq<char>) -> bool {
    exists|i: int| 0 <= i < fields.len() && (#[trigger] fields[i]).0 == key
}

/// Whether the first field with this key stands at `index`.
pub open spec fn is_first_field(
    fields: Seq<(Seq<char>, JsonView)>,
    key: Seq<char>,
    index: int,
) -> bool {
    &&& 0 <= index < fields.len()
    &&& fields[index].0 == key
    &&& forall|j: int| 0 <= j < index ==> (#[trigger] fields[j]).0 != key
}

/// Where the first field with this key stands; meaningful where there is
/// one.
pub open spec fn field_position(fields: Seq<(Seq<char>, JsonView)>, key: Seq<char>) -> int {
    choose|index: int| is_first_field(fields, key, index)
}

/// The first field with a key stands in one place only.
pub proof fn lemma_field_position(fields: Seq<(Seq<char>, JsonView)>, key: Seq<char>, index: int)
    requires
        is_first_field(fields, key, index),
    ensures
        field_position(fields, key) == index,
        has_field(fields, key),
{
    let chosen = field_position(fields, key);
    assert(is_first_field(fields, key, chosen));
    if chosen < index {
        assert(fields[chosen].0 != key);
    }
    if index < chosen {
        assert(fields[index].0 != key);
    }
}

/// The value of the first field with this key; `None` where there is no
/// such field.
pub open spec fn field_value(fields: Seq<(Seq<char>, JsonView)>, key: Seq<char>) -> Option<
    JsonView,
> {
    if has_field(fields, key) {
        Some(fields[field_position(fields, key)].1)
    } else {
        None
    }
}

/// The fields with the value of the first field of this key replaced.
pub open spec fn with_field(
    fields: Seq<(Seq<char>, JsonView)>,
    key: Seq<char>,
    value: JsonView,
) -> Seq<(Seq<char>, JsonView)> {
    fields.update(field_position(fields, key), (key, value))
}

/// The fields without the first field of this key.
pub open spec fn without_field(fields: Seq<(Seq<char>, JsonView)>, key: Seq<char>) -> Seq<
    (Seq<char>, JsonView),
> {
    if has_field(fields, key) {
        fields.remove(field_position(fields, key))
    } else {
        fields
    }
}

/// Finds the first field with a key.
pub fn find_field(fields: &Vec<(String, Json)>, key: &str) -> (found: Option<usize>)
    ensures
        match found {
            Some(index) => is_first_field(fields_view(fields@), key@, index as int),
            None => !has_field(fields_view(fields@), key@),
        },
{
    let wanted = String::from_str(key);
    let mut index: usize = 0;
    while index < fields.len()
        invariant
            index <= fields.len(),
            wanted@ == key@,
            forall|j: int| 0 <= j < index ==> (#[trigger] fields_view(fields@)[j]).0 != key@,
        decreases fields.len() - index,
    {
        if fields[index].0 == wanted {
            return Some(index);
        }
        index = index + 1;
    }
    None
}

/// Puts `value` in place of the value of the field at `index`.
pub(crate) fn set_field_at(fields: &mut Vec<(String, Json)>, index: usize, value: Json)
    requires
        index < old(fields).len(),
    ensures
        fields_view(final(fields)@) == fields_view(old(fields)@).update(
            index as int,
            (old(fields)@[index as int].0@, value@),
        ),
{
    let ghost before = fields_view(fields@);
    let (key, _) = fields.remove(index);
    fields.insert(index, (key, value));
    assert(fields_view(fields@) =~= before.update(index as int, (key@, value@)));
}

/// Takes the field at `index` out.
pub(crate) fn remove_field_at(fields: &mut Vec<(String, Json)>, index: usize)
    requires
        index < old(fields).len(),
    ensures
        fields_view(final(fields)@) == fields_view(old(fields)@).remove(index as int),
{
    let ghost before = fields_view(fields@);
    let _ = fields.remove(index);
    assert(fields_view(fields@) =~= before.remove(index as int));
}

/// Takes the field at `index` out and hands it over.
pub(crate) fn take_field_at(fields: &mut Vec<(String, Json)>, index: usize) -> (taken: (String, Json))
    requires
        index < old(fields).len(),
    ensures
        (taken.0@, taken.1@) == fields_view(old(fields)@)[index as int],
        fields_view(final(fields)@) == fields_view(old(fields)@).remove(index as int),
{
    let ghost before = fields_view(fields@);
    let taken = fields.remove(index);
    assert(fields_view(fields@) =~= before.remove(index as int));
    taken
}

/// Puts a field in at `index`, before the field that stands there.
pub(crate) fn put_field_at(fields: &mut Vec<(String, Json)>, index: usize, key: String, value: Json)
    requires
        index <= old(fields).len(),
    ensures
        fields_view(final(fields)@) == fields_view(old(fields)@).insert(
            index as int,
            (key@, value@),
        ),
{
    let ghost before = fields_view(fields@);
    fields.insert(index, (key, value));
    assert(fields_view(fields@) =~= before.insert(index as int, (key@, value@)));
}

/// Taking a field out and putting another in its place changes that field
/// and no other.
pub proof fn lemma_take_and_put(
    fields: Seq<(Seq<char>, JsonView)>,
    index: int,
    field: (Seq<char>, JsonView),
)
    requires
        0 <= index < fields.len(),
    ensures
        fields.remove(index).insert(index, field) == fields.update(index, field),
{
    assert(fields.remove(index).insert(index, field) =~= fields.update(index, field));
}

} // verus!
