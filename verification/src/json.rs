//! JSON objects, read and written with `serde_json`.

use crate::text::{opt_text, same_text};
use serde_json::Value;
use vstd::prelude::*;

verus! {

/// What a member of a JSON object holds. The text of a string is kept; of the
/// other kinds of value, the kind.
pub enum JsonField {
    Null,
    Bool,
    Number,
    Text(String),
    Array,
    Object,
}

/// What a member of a JSON object holds, with a string as its characters.
pub enum FieldView {
    Null,
    Bool,
    Number,
    Text(Seq<char>),
    Array,
    Object,
}

impl View for JsonField {
    type V = FieldView;

    open spec fn view(&self) -> FieldView {
        match self {
            JsonField::Null => FieldView::Null,
            JsonField::Bool => FieldView::Bool,
            JsonField::Number => FieldView::Number,
            JsonField::Text(s) => FieldView::Text(s@),
            JsonField::Array => FieldView::Array,
            JsonField::Object => FieldView::Object,
        }
    }
}

/// The members of an object, listed by name; of two with one name the later
/// stands.
pub open spec fn listed_members(list: Seq<(String, JsonField)>) -> Map<Seq<char>, FieldView>
    decreases list.len(),
{
    if list.len() == 0 {
        Map::empty()
    } else {
        listed_members(list.drop_last()).insert(list.last().0@, list.last().1@)
    }
}

/// The members of an optional list.
pub open spec fn opt_members(list: Option<Vec<(String, JsonField)>>) -> Option<
    Map<Seq<char>, FieldView>,
> {
    match list {
        Some(v) => Some(listed_members(v@)),
        None => None,
    }
}

/// The members of the JSON object that `body` is, or `None` where `body` is no
/// JSON text or some other kind of value.
pub uninterp spec fn json_members(body: Seq<u8>) -> Option<Map<Seq<char>, FieldView>>;

/// Reads a JSON object.
///
/// Calls `serde_json::from_slice` for a `serde_json::Value` and lists the
/// members of the `serde_json::Map` that it holds. The contract claims that the
/// members depend on the bytes alone; what JSON text is, is left to the name
/// `json_members`.
#[verifier::external_body]
pub(crate) fn read_object(body: &[u8]) -> (members: Option<Vec<(String, JsonField)>>)
    ensures
        opt_members(members) == json_members(body@),
{
    match serde_json::from_slice::<Value>(body) {
        Ok(Value::Object(map)) => Some(map.into_iter().map(|(name, value)| match value {
            Value::Null => (name, JsonField::Null),
            Value::Bool(_) => (name, JsonField::Bool),
            Value::Number(_) => (name, JsonField::Number),
            Value::String(s) => (name, JsonField::Text(s)),
            Value::Array(_) => (name, JsonField::Array),
            Value::Object(_) => (name, JsonField::Object),
        }).collect()),
        Ok(Value::Null | Value::Bool(_) | Value::Number(_) | Value::String(_) | Value::Array(_)) => None,
        Err(_) => None,
    }
}

/// The text of the member `name`, where there is one and it is a string.
pub open spec fn text_member(members: Option<Map<Seq<char>, FieldView>>, name: Seq<char>) -> Option<
    Seq<char>,
> {
    match members {
        Some(m) => if m.contains_key(name) {
            match m[name] {
                FieldView::Text(s) => Some(s),
                _ => None,
            }
        } else {
            None
        },
        None => None,
    }
}

/// Finds the text of the member `name`.
pub fn find_text(members: &Option<Vec<(String, JsonField)>>, name: &str) -> (text: Option<String>)
    ensures
        opt_text(text) == text_member(opt_members(*members), name@),
{
    match members {
        Some(list) => {
            let mut end: usize = list.len();
            assert(list@.take(end as int) =~= list@);
            while end > 0
                invariant
                    end <= list.len(),
                    *members == Some(*list),
                    text_member(Some(listed_members(list@.take(end as int))), name@)
                        == text_member(Some(listed_members(list@)), name@),
                decreases end,
            {
                assert(list@.take(end as int).drop_last() =~= list@.take(end - 1));
                end = end - 1;
                if same_text(list[end].0.as_str(), name) {
                    return match &list[end].1 {
                        JsonField::Text(s) => Some(s.clone()),
                        _ => None,
                    };
                }
            }
            None
        },
        None => None,
    }
}

/// The fields of an object to write: names, each with a text or null.
pub open spec fn fields_view(fields: Seq<(String, Option<String>)>) -> Seq<
    (Seq<char>, Option<Seq<char>>),
> {
    Seq::new(fields.len(), |i: int| (fields[i].0@, opt_text(fields[i].1)))
}

/// Whether no name occurs twice.
pub open spec fn distinct_names(fields: Seq<(Seq<char>, Option<Seq<char>>)>) -> bool {
    forall|i: int, j: int|
        0 <= i < j < fields.len() ==> (#[trigger] fields[i]).0 != (#[trigger] fields[j]).0
}

/// What a member holds that is written from an optional text.
pub open spec fn written_field(text: Option<Seq<char>>) -> FieldView {
    match text {
        Some(s) => FieldView::Text(s),
        None => FieldView::Null,
    }
}

/// The members that an object written from `fields`, no name of which occurs twice, has.
pub open spec fn written_members(fields: Seq<(Seq<char>, Option<Seq<char>>)>) -> Map<
    Seq<char>,
    FieldView,
>
    decreases fields.len(),
{
    if fields.len() == 0 {
        Map::empty()
    } else {
        written_members(fields.drop_last()).insert(fields.last().0, written_field(fields.last().1))
    }
}

/// The bytes of the JSON object written from `fields`.
pub uninterp spec fn json_bytes(fields: Seq<(Seq<char>, Option<Seq<char>>)>) -> Seq<u8>;

/// Writes a JSON object from fields with distinct names.
///
/// Calls `serde_json::Value::from` on each optional text, collects a
/// `serde_json::Map` and calls `to_string` on its `Value`. The contract claims
/// that the bytes depend on the fields alone, and that they read back as an
/// object with these fields as its members; spacing, order and escapes are left
/// to the name `json_bytes`.
#[verifier::external_body]
pub(crate) fn write_object(fields: Vec<(String, Option<String>)>) -> (body: Vec<u8>)
    requires
        distinct_names(fields_view(fields@)),
    ensures
        body@ == json_bytes(fields_view(fields@)),
        json_members(body@) == Some(written_members(fields_view(fields@))),
{
    let map = fields.into_iter().map(|(name, text)| (name, Value::from(text))).collect();
    Value::Object(map).to_string().into_bytes()
}

/// Where no name occurs twice, an object has exactly the fields that it was written
/// from as its members.
pub proof fn law_written_fields_are_members(fields: Seq<(Seq<char>, Option<Seq<char>>)>)
    requires
        distinct_names(fields),
    ensures
        forall|i: int|
            0 <= i < fields.len() ==> written_members(fields).contains_pair(
                (#[trigger] fields[i]).0,
                written_field(fields[i].1),
            ),
        forall|name: Seq<char>| #[trigger]
            written_members(fields).contains_key(name) ==> exists|i: int|
                0 <= i < fields.len() && (#[trigger] fields[i]).0 == name,
    decreases fields.len(),
{
    if fields.len() > 0 {
        let rest = fields.drop_last();
        law_written_fields_are_members(rest);
        assert forall|i: int| 0 <= i < fields.len() implies written_members(fields).contains_pair(
            (#[trigger] fields[i]).0,
            written_field(fields[i].1),
        ) by {
            if i < rest.len() {
                assert(rest[i] == fields[i]);
            }
        }
        assert forall|name: Seq<char>| #[trigger] written_members(fields).contains_key(
            name,
        ) implies exists|i: int| 0 <= i < fields.len() && (#[trigger] fields[i]).0 == name by {
            if written_members(rest).contains_key(name) {
                let i = choose|i: int| 0 <= i < rest.len() && (#[trigger] rest[i]).0 == name;
                assert(fields[i].0 == name);
            } else {
                assert(fields[fields.len() - 1].0 == name);
            }
        }
    }
}

/// A member has the kind of its value and, where it is a string, all of its text.
pub proof fn law_members_keep_their_text(text: String)
    ensures
        JsonField::Text(text)@ == FieldView::Text(text@),
        JsonField::Null@ is Null,
        JsonField::Bool@ is Bool,
        JsonField::Number@ is Number,
        JsonField::Array@ is Array,
        JsonField::Object@ is Object,
{
}

/// A list gives its members one by one, the later of two with one name standing.
pub proof fn law_listed_members_add_up(
    list: Seq<(String, JsonField)>,
    name: String,
    field: JsonField,
)
    ensures
        listed_members(Seq::empty()) == Map::<Seq<char>, FieldView>::empty(),
        listed_members(list.push((name, field))) == listed_members(list).insert(name@, field@),
{
    assert(list.push((name, field)).drop_last() =~= list);
}

/// The members of an optional list are those of the list.
pub proof fn law_optional_list_is_whole(list: Vec<(String, JsonField)>)
    ensures
        opt_members(Some(list)) == Some(listed_members(list@)),
        opt_members(None) is None,
{
}

/// A text is found under a name exactly where there are members, one of them has the name
/// and holds that text.
pub proof fn law_text_is_found_under_its_name(
    members: Option<Map<Seq<char>, FieldView>>,
    name: Seq<char>,
    text: Seq<char>,
)
    ensures
        text_member(members, name) == Some(text) <==> members is Some && members->0.contains_key(
            name,
        ) && members->0[name] == FieldView::Text(text),
{
}

/// Fields are written one by one, each under its name: a text as it is, and no text as
/// null.
pub proof fn law_written_members_add_up(
    fields: Seq<(Seq<char>, Option<Seq<char>>)>,
    name: Seq<char>,
    text: Seq<char>,
)
    ensures
        written_members(Seq::empty()) == Map::<Seq<char>, FieldView>::empty(),
        written_members(fields.push((name, Some(text)))) == written_members(fields).insert(
            name,
            FieldView::Text(text),
        ),
        written_members(fields.push((name, None))) == written_members(fields).insert(
            name,
            FieldView::Null,
        ),
{
    assert(fields.push((name, Some(text))).drop_last() =~= fields);
    assert(fields.push((name, None)).drop_last() =~= fields);
}

/// Fields are handed on in order, names and texts whole.
pub proof fn law_fields_are_whole(fields: Seq<(String, Option<String>)>, i: int)
    requires
        0 <= i < fields.len(),
    ensures
        fields_view(fields).len() == fields.len(),
        fields_view(fields)[i].0 == fields[i].0@,
        fields[i].1 is Some ==> fields_view(fields)[i].1 == Some(fields[i].1->0@),
        fields[i].1 is None ==> fields_view(fields)[i].1 is None,
{
}

} // verus!
