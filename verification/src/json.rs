//! JSON documents, read with `serde_json`.
use vstd::prelude::*;

use crate::origin::quoted;
use crate::text::{decimal, decimal_text, text_or_none};

verus! {

/// What a JSON number holds.
pub enum NumberView {
    /// An integer from zero to `u64::MAX`.
    Natural(u64),
    /// An integer below zero.
    Negative(i64),
    /// Any other number, as it is written in an error message.
    Float(Seq<char>),
}

/// What a JSON value holds.
pub enum JsonView {
    Null,
    Bool(bool),
    Number(NumberView),
    Text(Seq<char>),
    Array(Seq<JsonView>),
    Object(Map<Seq<char>, JsonView>),
}

/// A JSON value of `serde_json`.
#[verifier::external_type_specification]
#[verifier::external_body]
pub struct ExJsonValue(serde_json::Value);

/// What a value of `serde_json` holds.
pub uninterp spec fn json_tree(value: serde_json::Value) -> JsonView;

/// What `serde_json` reads from a text: the value it holds, or the message of
/// the error where it is no JSON document.
pub uninterp spec fn json_document(text: Seq<char>) -> Result<JsonView, Seq<char>>;

/// `serde_json::from_str` into a `serde_json::Value`: the document of the text,
/// or the error's message. Which texts are JSON is named, not spelled out.
#[verifier::external_body]
pub(crate) fn parse_json(text: &str) -> (r: Result<serde_json::Value, String>)
    ensures
        match r {
            Ok(value) => json_document(text@) == Ok::<JsonView, Seq<char>>(json_tree(value)),
            Err(message) => json_document(text@) == Err::<JsonView, Seq<char>>(message@),
        },
{
    match serde_json::from_str(text) {
        Ok(value) => Ok(value),
        Err(error) => Err(error.to_string()),
    }
}

/// How deep the documents are nested that `serde_json` reads.
pub const READABLE_DEPTH: usize = 127;

/// Whether arrays and objects are nested at most so deep in a value.
pub open spec fn nested_within(value: JsonView, depth: nat) -> bool
    decreases depth,
{
    match value {
        JsonView::Array(items) => depth > 0 && forall|i: int|
            0 <= i < items.len() ==> nested_within(#[trigger] items[i], (depth - 1) as nat),
        JsonView::Object(members) => depth > 0 && forall|name: Seq<char>|
            members.contains_key(name) ==> nested_within(
                #[trigger] members[name],
                (depth - 1) as nat,
            ),
        _ => true,
    }
}

/// Whether two values are the same but for their numbers that are no integers,
/// where arrays and objects are nested at most so deep.
pub open spec fn same_but_floats(a: JsonView, b: JsonView, depth: nat) -> bool
    decreases depth,
{
    match (a, b) {
        (
            JsonView::Number(NumberView::Float(_)),
            JsonView::Number(NumberView::Float(_)),
        ) => true,
        (JsonView::Array(x), JsonView::Array(y)) => depth > 0 && x.len() == y.len() && forall|
            i: int,
        |
            0 <= i < x.len() ==> same_but_floats(#[trigger] x[i], y[i], (depth - 1) as nat),
        (JsonView::Object(x), JsonView::Object(y)) => depth > 0 && x.dom() == y.dom() && forall|
            name: Seq<char>,
        |
            x.contains_key(name) ==> same_but_floats(
                #[trigger] x[name],
                y[name],
                (depth - 1) as nat,
            ),
        _ => a == b,
    }
}

/// What `serde_json` writes for a value.
pub uninterp spec fn json_text(value: serde_json::Value) -> Seq<char>;

/// `serde_json::to_string` of a `serde_json::Value`: a text, since every value
/// can be written down. How it is laid out is named, not spelled out. Of a value
/// that is not nested too deep to be read, `serde_json` reads that value from the
/// text, but for the last digits of numbers that are no integers.
#[verifier::external_body]
pub(crate) fn write_json(value: &serde_json::Value) -> (r: Result<String, String>)
    ensures
        match r {
            Ok(text) => text@ == json_text(*value) && (nested_within(
                json_tree(*value),
                READABLE_DEPTH as nat,
            ) ==> (json_document(text@) matches Ok(read) && same_but_floats(
                read,
                json_tree(*value),
                READABLE_DEPTH as nat,
            ))),
            Err(_) => false,
        },
{
    match serde_json::to_string(value) {
        Ok(text) => Ok(text),
        Err(error) => Err(error.to_string()),
    }
}

/// The member of an object under a name; none where the value is no object or
/// has no such member.
pub open spec fn member_of(value: JsonView, name: Seq<char>) -> Option<JsonView> {
    match value {
        JsonView::Object(members) => if members.contains_key(name) {
            Some(members[name])
        } else {
            None
        },
        _ => None,
    }
}

/// `serde_json::Value::get` with a text: the member of an object under that
/// name, and nothing for any other value.
#[verifier::external_body]
pub(crate) fn member<'a>(value: &'a serde_json::Value, name: &str) -> (r: Option<
    &'a serde_json::Value,
>)
    ensures
        match member_of(json_tree(*value), name@) {
            Some(held) => r matches Some(found) && json_tree(*found) == held,
            None => r is None,
        },
{
    value.get(name)
}

/// `serde_json::Value::as_str`: the text of a JSON string, and nothing for any
/// other value.
pub assume_specification[ serde_json::Value::as_str ](value: &serde_json::Value) -> (r: Option<
    &str,
>)
    ensures
        match json_tree(*value) {
            JsonView::Text(text) => r matches Some(found) && found@ == text,
            _ => r is None,
        },
;

/// `serde_json::Value::as_u64`: the value of a JSON number that is an integer
/// from zero to `u64::MAX`, and nothing for any other value.
pub assume_specification[ serde_json::Value::as_u64 ](value: &serde_json::Value) -> (r: Option<u64>)
    ensures
        match json_tree(*value) {
            JsonView::Number(NumberView::Natural(number)) => r == Some(number),
            _ => r is None,
        },
;

/// `serde_json::Value::as_array`: the items of a JSON array in order, and
/// nothing for any other value.
pub assume_specification[ serde_json::Value::as_array ](value: &serde_json::Value) -> (r: Option<
    &Vec<serde_json::Value>,
>)
    ensures
        match json_tree(*value) {
            JsonView::Array(items) => r matches Some(found) && json_trees(found@) == items,
            _ => r is None,
        },
;

/// `serde_json::Value::is_null`: whether the value is JSON's `null`.
pub assume_specification[ serde_json::Value::is_null ](value: &serde_json::Value) -> (r: bool)
    ensures
        r == (json_tree(*value) is Null),
;

/// `serde_json::Value::is_i64`: whether the value is an integer from `i64::MIN` to
/// `i64::MAX`.
pub assume_specification[ serde_json::Value::is_i64 ](value: &serde_json::Value) -> (r: bool)
    ensures
        r == match json_tree(*value) {
            JsonView::Number(NumberView::Natural(number)) => number <= i64::MAX,
            JsonView::Number(NumberView::Negative(_)) => true,
            _ => false,
        },
;

/// `serde_json::Value::is_object`: whether the value is a JSON object.
pub assume_specification[ serde_json::Value::is_object ](value: &serde_json::Value) -> (r: bool)
    ensures
        r == (json_tree(*value) is Object),
;

/// What each of a row of values holds.
pub open spec fn json_trees(values: Seq<serde_json::Value>) -> Seq<JsonView> {
    values.map_values(|value: serde_json::Value| json_tree(value))
}

// ---------------------------------------------------------------------------
// Faults
//
// What the decoder says of a value that it did not expect.

/// How a value is named in an error message.
pub open spec fn shown(value: JsonView) -> Seq<char> {
    match value {
        JsonView::Null => "null"@,
        JsonView::Bool(true) => "boolean `true`"@,
        JsonView::Bool(false) => "boolean `false`"@,
        JsonView::Number(NumberView::Natural(n)) => "integer `"@ + decimal(n as nat) + "`"@,
        JsonView::Number(NumberView::Negative(n)) => "integer `-"@ + decimal((-n) as nat) + "`"@,
        JsonView::Number(NumberView::Float(text)) => "floating point `"@ + text + "`"@,
        JsonView::Text(text) => "string "@ + quoted(text),
        JsonView::Array(_) => "sequence"@,
        JsonView::Object(_) => "map"@,
    }
}

/// The fault of a value that is not of the expected type.
pub open spec fn wrong_type(value: JsonView, expected: Seq<char>) -> Seq<char> {
    "invalid type: "@ + shown(value) + ", expected "@ + expected
}

/// The fault of an integer that is out of the expected range.
pub open spec fn out_of_range(value: JsonView, expected: Seq<char>) -> Seq<char> {
    "invalid value: "@ + shown(value) + ", expected "@ + expected
}

/// The fault of an array that stands for a record and has too many items.
pub open spec fn too_long(len: nat) -> Seq<char> {
    "invalid length "@ + decimal(len) + ", expected fewer elements in array"@
}

/// `serde_json::from_value` into the unit: nothing is wrong with `null`; any other
/// value is named in the error's message as what the unit was not expected to
/// be.
#[verifier::external_body]
fn refusal_as_unit(value: &serde_json::Value) -> (r: Option<String>)
    ensures
        match json_tree(*value) {
            JsonView::Null => r is None,
            tree => r matches Some(message) && message@ == wrong_type(tree, "unit"@),
        },
{
    match serde_json::from_value::<()>(value.clone()) {
        Ok(()) => None,
        Err(error) => Some(error.to_string()),
    }
}

/// How a value is named in an error message.
fn show(value: &serde_json::Value) -> (r: String)
    ensures
        r@ == shown(json_tree(*value)),
{
    match refusal_as_unit(value) {
        None => "null".to_owned(),
        Some(message) => {
            proof {
                reveal_strlit("invalid type: ");
                reveal_strlit(", expected ");
                reveal_strlit("unit");
            }
            let end: usize = message.as_str().unicode_len() - 15;
            let name = message.as_str().substring_char(14, end);
            assert(name@ == shown(json_tree(*value)));
            name.to_owned()
        },
    }
}

/// The fault of a value that is not of the expected type.
fn wrong_type_text(value: &serde_json::Value, expected: &str) -> (r: String)
    ensures
        r@ == wrong_type(json_tree(*value), expected@),
{
    let mut r = "invalid type: ".to_owned();
    r.append(show(value).as_str());
    r.append(", expected ");
    r.append(expected);
    r
}

/// The fault of an integer that is out of the expected range.
fn out_of_range_text(value: &serde_json::Value, expected: &str) -> (r: String)
    ensures
        r@ == out_of_range(json_tree(*value), expected@),
{
    let mut r = "invalid value: ".to_owned();
    r.append(show(value).as_str());
    r.append(", expected ");
    r.append(expected);
    r
}

/// What is wrong with what was read, if anything is.
pub open spec fn fault_of<T>(read: Result<T, Seq<char>>) -> Option<Seq<char>> {
    match read {
        Ok(_) => None,
        Err(fault) => Some(fault),
    }
}

/// The first of two faults.
pub open spec fn earlier(a: Option<Seq<char>>, b: Option<Seq<char>>) -> Option<Seq<char>> {
    if a is Some {
        a
    } else {
        b
    }
}

/// What is wrong with what was read, as a text.
pub fn fault<T>(read: &Result<T, String>) -> (r: Option<String>)
    ensures
        match read {
            Ok(_) => r is None,
            Err(message) => r matches Some(found) && found@ == message@,
        },
{
    match read {
        Ok(_) => None,
        Err(message) => Some(message.clone()),
    }
}

/// The first of two faults.
pub fn first_of(a: Option<String>, b: Option<String>) -> (r: Option<String>)
    ensures
        text_or_none(r) == earlier(text_or_none(a), text_or_none(b)),
{
    match a {
        Some(message) => Some(message),
        None => b,
    }
}

// ---------------------------------------------------------------------------
// Records
//
// A record is written as an object, whose members are the fields by name, or
// as an array, whose items are the fields in order. Members that are no field
// are ignored; an array has no more items than there are fields. An object is
// read member by member in the order of their names, an array item by item, and
// the first fault counts.

/// What is wrong with a value as a record of so many fields, given the first
/// fault of its fields by name and by place.
pub open spec fn record_fault(
    value: JsonView,
    fields: nat,
    expected: Seq<char>,
    by_name: Option<Seq<char>>,
    by_place: Option<Seq<char>>,
) -> Option<Seq<char>> {
    match value {
        JsonView::Object(_) => by_name,
        JsonView::Array(items) => if by_place is None && items.len() > fields {
            Some(too_long(items.len()))
        } else {
            by_place
        },
        _ => Some(wrong_type(value, expected)),
    }
}

/// The field of a record, by name or by position.
pub open spec fn field_of(value: JsonView, name: Seq<char>, position: int) -> Option<JsonView> {
    match value {
        JsonView::Array(items) => if position < items.len() {
            Some(items[position])
        } else {
            None
        },
        _ => member_of(value, name),
    }
}

/// A text field: empty where it is absent, and a fault where it is no text.
pub open spec fn text_field(field: Option<JsonView>) -> Result<Seq<char>, Seq<char>> {
    match field {
        None => Ok(Seq::empty()),
        Some(JsonView::Text(text)) => Ok(text),
        Some(value) => Err(wrong_type(value, "a string"@)),
    }
}

/// An optional text field: `null` and absence are both no text.
pub open spec fn optional_text_field(field: Option<JsonView>) -> Result<
    Option<Seq<char>>,
    Seq<char>,
> {
    match field {
        None => Ok(None),
        Some(JsonView::Null) => Ok(None),
        Some(JsonView::Text(text)) => Ok(Some(text)),
        Some(value) => Err(wrong_type(value, "a string"@)),
    }
}

/// A 32-bit number field: zero where it is absent.
pub open spec fn number_field(field: Option<JsonView>) -> Result<u32, Seq<char>> {
    match field {
        None => Ok(0),
        Some(value) => match value {
            JsonView::Number(NumberView::Natural(number)) => if number <= u32::MAX {
                Ok(number as u32)
            } else {
                Err(out_of_range(value, "u32"@))
            },
            JsonView::Number(NumberView::Negative(_)) => Err(out_of_range(value, "u32"@)),
            _ => Err(wrong_type(value, "u32"@)),
        },
    }
}

/// A list field: empty where it is absent, and a fault where it is no array.
pub open spec fn list_field(field: Option<JsonView>) -> Result<Seq<JsonView>, Seq<char>> {
    match field {
        None => Ok(Seq::empty()),
        Some(JsonView::Array(items)) => Ok(items),
        Some(value) => Err(wrong_type(value, "a sequence"@)),
    }
}

/// What a row of values says, each read in turn; the first fault counts.
pub open spec fn decoded_list<T>(
    values: Seq<JsonView>,
    decode: spec_fn(JsonView) -> Result<T, Seq<char>>,
) -> Result<Seq<T>, Seq<char>>
    decreases values.len(),
{
    if values.len() == 0 {
        Ok(Seq::empty())
    } else {
        match decoded_list(values.drop_last(), decode) {
            Err(fault) => Err(fault),
            Ok(entries) => match decode(values.last()) {
                Err(fault) => Err(fault),
                Ok(entry) => Ok(entries.push(entry)),
            },
        }
    }
}

/// A fault in a part of a row is the fault of the row.
pub proof fn lemma_fault_in_list<T>(
    values: Seq<JsonView>,
    decode: spec_fn(JsonView) -> Result<T, Seq<char>>,
    n: int,
)
    requires
        0 <= n <= values.len(),
        decoded_list(values.take(n), decode) is Err,
    ensures
        decoded_list(values, decode) == decoded_list(values.take(n), decode),
    decreases values.len(),
{
    if n == values.len() {
        assert(values.take(n) == values);
    } else {
        assert(values.drop_last().take(n) == values.take(n));
        lemma_fault_in_list(values.drop_last(), decode, n);
    }
}

/// Whether two readings are the same, or both at fault.
pub open spec fn agree<T>(a: Result<T, Seq<char>>, b: Result<T, Seq<char>>) -> bool {
    match (a, b) {
        (Ok(x), Ok(y)) => x == y,
        (Err(_), Err(_)) => true,
        _ => false,
    }
}

/// Whether two fields are both absent, or the same but for floats.
pub open spec fn same_field(a: Option<JsonView>, b: Option<JsonView>, depth: nat) -> bool {
    match (a, b) {
        (None, None) => true,
        (Some(x), Some(y)) => same_but_floats(x, y, depth),
        _ => false,
    }
}

/// The fields of records that are the same but for floats are so too.
pub proof fn lemma_same_fields(a: JsonView, b: JsonView, depth: nat)
    requires
        same_but_floats(a, b, depth),
    ensures
        forall|name: Seq<char>, position: int|
            position >= 0 ==> same_field(
                #[trigger] field_of(a, name, position),
                field_of(b, name, position),
                (depth - 1) as nat,
            ),
{
    assert forall|name: Seq<char>, position: int| position >= 0 implies same_field(
        #[trigger] field_of(a, name, position),
        field_of(b, name, position),
        (depth - 1) as nat,
    ) by {
        match (a, b) {
            (JsonView::Object(x), JsonView::Object(y)) => {
                assert(x.contains_key(name) == y.contains_key(name)) by {
                    assert(x.dom().contains(name) == y.dom().contains(name));
                }
                if x.contains_key(name) {
                    assert(same_but_floats(x[name], y[name], (depth - 1) as nat));
                }
            },
            (JsonView::Array(x), JsonView::Array(y)) => {
                if position < x.len() {
                    assert(same_but_floats(x[position], y[position], (depth - 1) as nat));
                }
            },
            _ => {},
        }
    }
}

/// No field is read from a float: fields that are the same but for floats are
/// read alike.
pub proof fn lemma_same_readings(a: Option<JsonView>, b: Option<JsonView>, depth: nat)
    requires
        same_field(a, b, depth),
    ensures
        agree(text_field(a), text_field(b)),
        agree(optional_text_field(a), optional_text_field(b)),
        agree(number_field(a), number_field(b)),
{
}

/// Rows whose values are read alike are read alike.
pub proof fn lemma_same_lists<T>(
    a: Seq<JsonView>,
    b: Seq<JsonView>,
    decode: spec_fn(JsonView) -> Result<T, Seq<char>>,
)
    requires
        a.len() == b.len(),
        forall|i: int| 0 <= i < a.len() ==> agree(#[trigger] decode(a[i]), decode(b[i])),
    ensures
        agree(decoded_list(a, decode), decoded_list(b, decode)),
    decreases a.len(),
{
    if a.len() > 0 {
        let x = a.drop_last();
        let y = b.drop_last();
        assert forall|i: int| 0 <= i < x.len() implies agree(
            #[trigger] decode(x[i]),
            decode(y[i]),
        ) by {
            assert(agree(decode(a[i]), decode(b[i])));
        }
        lemma_same_lists(x, y, decode);
        assert(agree(decode(a[a.len() - 1]), decode(b[b.len() - 1])));
    }
}

/// What was read, as text.
pub open spec fn text_read(read: Result<String, String>) -> Result<Seq<char>, Seq<char>> {
    match read {
        Ok(text) => Ok(text@),
        Err(fault) => Err(fault@),
    }
}

/// What was read of an optional text, as text.
pub open spec fn optional_read(read: Result<Option<String>, String>) -> Result<
    Option<Seq<char>>,
    Seq<char>,
> {
    match read {
        Ok(text) => Ok(text_or_none(text)),
        Err(fault) => Err(fault@),
    }
}

/// What was read of a number, as text.
pub open spec fn number_read(read: Result<u32, String>) -> Result<u32, Seq<char>> {
    match read {
        Ok(number) => Ok(number),
        Err(fault) => Err(fault@),
    }
}

/// Looks for what is wrong with `value` as a record.
pub fn check_record(
    value: &serde_json::Value,
    fields: usize,
    expected: &str,
    by_name: Option<String>,
    by_place: Option<String>,
) -> (r: Option<String>)
    ensures
        text_or_none(r) == record_fault(
            json_tree(*value),
            fields as nat,
            expected@,
            text_or_none(by_name),
            text_or_none(by_place),
        ),
{
    match value.as_array() {
        Some(items) => {
            assert(json_trees(items@).len() == items@.len());
            if by_place.is_none() && items.len() > fields {
                let mut r = "invalid length ".to_owned();
                r.append(decimal_text(items.len() as u64).as_str());
                r.append(", expected fewer elements in array");
                Some(r)
            } else {
                by_place
            }
        },
        None => if value.is_object() {
            by_name
        } else {
            Some(wrong_type_text(value, expected))
        },
    }
}

/// Reads a field of a record.
pub fn read_field<'a>(value: &'a serde_json::Value, name: &str, position: usize) -> (r: Option<
    &'a serde_json::Value,
>)
    ensures
        match field_of(json_tree(*value), name@, position as int) {
            Some(held) => r matches Some(found) && json_tree(*found) == held,
            None => r is None,
        },
{
    match value.as_array() {
        Some(items) => {
            assert(json_trees(items@).len() == items@.len());
            if position < items.len() {
                assert(json_trees(items@)[position as int] == json_tree(items@[position as int]));
                Some(&items[position])
            } else {
                None
            }
        },
        None => member(value, name),
    }
}

/// Reads a text field.
pub fn read_text(value: &serde_json::Value, name: &str, position: usize) -> (r: Result<
    String,
    String,
>)
    ensures
        text_read(r) == text_field(field_of(json_tree(*value), name@, position as int)),
{
    match read_field(value, name, position) {
        None => Ok(String::new()),
        Some(found) => match found.as_str() {
            Some(text) => Ok(text.to_owned()),
            None => Err(wrong_type_text(found, "a string")),
        },
    }
}

/// Reads an optional text field.
pub fn read_optional_text(value: &serde_json::Value, name: &str, position: usize) -> (r: Result<
    Option<String>,
    String,
>)
    ensures
        optional_read(r) == optional_text_field(
            field_of(json_tree(*value), name@, position as int),
        ),
{
    match read_field(value, name, position) {
        None => Ok(None),
        Some(found) => if found.is_null() {
            Ok(None)
        } else {
            match found.as_str() {
                Some(text) => Ok(Some(text.to_owned())),
                None => Err(wrong_type_text(found, "a string")),
            }
        },
    }
}

/// Reads a list field; none where it is absent.
pub fn read_list<'a>(value: &'a serde_json::Value, name: &str, position: usize) -> (r: Option<
    Result<&'a Vec<serde_json::Value>, String>,
>)
    ensures
        match r {
            None => field_of(json_tree(*value), name@, position as int) is None,
            Some(Ok(items)) => list_field(field_of(json_tree(*value), name@, position as int))
                == Ok::<Seq<JsonView>, Seq<char>>(json_trees(items@)),
            Some(Err(fault)) => list_field(field_of(json_tree(*value), name@, position as int))
                == Err::<Seq<JsonView>, Seq<char>>(fault@),
        },
{
    match read_field(value, name, position) {
        None => None,
        Some(found) => match found.as_array() {
            Some(items) => Some(Ok(items)),
            None => Some(Err(wrong_type_text(found, "a sequence"))),
        },
    }
}

/// Reads a 32-bit number field.
pub fn read_number(value: &serde_json::Value, name: &str, position: usize) -> (r: Result<
    u32,
    String,
>)
    ensures
        number_read(r) == number_field(field_of(json_tree(*value), name@, position as int)),
{
    match read_field(value, name, position) {
        None => Ok(0),
        Some(found) => match found.as_u64() {
            Some(number) => if number <= u32::MAX as u64 {
                Ok(number as u32)
            } else {
                Err(out_of_range_text(found, "u32"))
            },
            None => if found.is_i64() {
                Err(out_of_range_text(found, "u32"))
            } else {
                Err(wrong_type_text(found, "u32"))
            },
        },
    }
}

// ---------------------------------------------------------------------------
// What reading promises

/// A field of an object is its member of that name, a field of an array its item at
/// that place, and nothing else has fields.
pub proof fn law_where_fields_are_found(
    members: Map<Seq<char>, JsonView>,
    items: Seq<JsonView>,
    other: JsonView,
    name: Seq<char>,
    position: int,
)
    requires
        position >= 0,
    ensures
        members.contains_key(name) ==> field_of(JsonView::Object(members), name, position) == Some(
            members[name],
        ),
        !members.contains_key(name) ==> field_of(JsonView::Object(members), name, position)
            is None,
        position < items.len() ==> field_of(JsonView::Array(items), name, position) == Some(
            items[position],
        ),
        position >= items.len() ==> field_of(JsonView::Array(items), name, position) is None,
        !(other is Object) && !(other is Array) ==> field_of(other, name, position) is None,
        member_of(JsonView::Object(members), name) == field_of(
            JsonView::Object(members),
            name,
            position,
        ),
        !(other is Object) ==> member_of(other, name) is None,
{
}

/// A field is read as it stands, has a default where it is absent, and is a fault
/// where it is of another type. Only an optional text may be `null`; a number fits 32
/// bits.
pub proof fn law_fields_are_read_as_they_stand(value: JsonView, text: Seq<char>)
    ensures
        text_field(None) matches Ok(read) && read.len() == 0,
        text_field(Some(value)) is Ok <==> value is Text,
        text_field(Some(JsonView::Text(text))) == Ok::<Seq<char>, Seq<char>>(text),
        optional_text_field(None) == Ok::<Option<Seq<char>>, Seq<char>>(None),
        optional_text_field(Some(JsonView::Null)) == Ok::<Option<Seq<char>>, Seq<char>>(None),
        optional_text_field(Some(value)) is Ok <==> value is Text || value is Null,
        optional_text_field(Some(JsonView::Text(text))) == Ok::<Option<Seq<char>>, Seq<char>>(
            Some(text),
        ),
        number_field(None) == Ok::<u32, Seq<char>>(0),
        number_field(Some(value)) matches Ok(read) ==> (value matches JsonView::Number(
            NumberView::Natural(number),
        ) && read == number),
        value matches JsonView::Number(NumberView::Natural(number)) ==> (number <= u32::MAX
            <==> number_field(Some(value)) is Ok),
        list_field(None) matches Ok(read) && read.len() == 0,
        list_field(Some(value)) is Ok <==> value is Array,
        value matches JsonView::Array(items) ==> list_field(Some(value)) == Ok::<
            Seq<JsonView>,
            Seq<char>,
        >(items),
{
}

/// A list is read item by item: each in its place where all can be read, else the
/// fault of the first that cannot.
pub proof fn law_lists_are_read_in_order<T>(
    values: Seq<JsonView>,
    decode: spec_fn(JsonView) -> Result<T, Seq<char>>,
)
    ensures
        match decoded_list(values, decode) {
            Ok(entries) => entries.len() == values.len() && forall|i: int|
                0 <= i < values.len() ==> #[trigger] decode(values[i]) == Ok::<T, Seq<char>>(
                    entries[i],
                ),
            Err(fault) => exists|i: int|
                0 <= i < values.len() && #[trigger] decode(values[i]) == Err::<T, Seq<char>>(fault)
                    && forall|j: int| 0 <= j < i ==> #[trigger] decode(values[j]) is Ok,
        },
    decreases values.len(),
{
    if values.len() > 0 {
        let rest = values.drop_last();
        law_lists_are_read_in_order(rest, decode);
        let n = values.len() - 1;
        match decoded_list(rest, decode) {
            Err(fault) => {
                let i = choose|i: int|
                    0 <= i < rest.len() && #[trigger] decode(rest[i]) == Err::<T, Seq<char>>(fault)
                        && forall|j: int| 0 <= j < i ==> #[trigger] decode(rest[j]) is Ok;
                assert(decode(values[i]) == Err::<T, Seq<char>>(fault));
                assert forall|j: int| 0 <= j < i implies #[trigger] decode(values[j]) is Ok by {
                    assert(decode(rest[j]) is Ok);
                }
            },
            Ok(entries) => {
                assert forall|i: int| 0 <= i < rest.len() implies #[trigger] decode(values[i])
                    == Ok::<T, Seq<char>>(entries[i]) by {
                    assert(decode(rest[i]) == Ok::<T, Seq<char>>(entries[i]));
                }
                assert(values[n] == values.last());
                assert(decode(values[n]) == decode(values.last()));
            },
        }
    }
}

/// A record is an object or an array of no more items than it has fields; anything
/// else is a fault that names what was expected, and a fault of a field goes before the
/// length.
pub proof fn law_what_a_record_is(
    value: JsonView,
    fields: nat,
    expected: Seq<char>,
    by_name: Option<Seq<char>>,
    by_place: Option<Seq<char>>,
)
    ensures
        value is Object ==> record_fault(value, fields, expected, by_name, by_place) == by_name,
        value matches JsonView::Array(items) ==> {
            let fault = record_fault(value, fields, expected, by_name, by_place);
            &&& by_place is Some ==> fault == by_place
            &&& by_place is None && items.len() <= fields ==> fault is None
            &&& by_place is None && items.len() > fields ==> fault == Some(
                "invalid length "@ + decimal(items.len())
                    + ", expected fewer elements in array"@,
            )
        },
        !(value is Object) && !(value is Array) ==> record_fault(
            value,
            fields,
            expected,
            by_name,
            by_place,
        ) == Some("invalid type: "@ + shown(value) + ", expected "@ + expected),
        out_of_range(value, expected) == "invalid value: "@ + shown(value) + ", expected "@
            + expected,
{
}

/// Of two faults the first counts, where there is one, else the second.
pub proof fn law_the_first_of_two_faults_counts(a: Seq<char>, b: Option<Seq<char>>)
    ensures
        earlier(Some(a), b) == Some(a),
        earlier(None, b) == b,
        fault_of(Err::<JsonView, Seq<char>>(a)) == Some(a),
{
}

/// Whether a field that may be absent says a text: to the letter where it is there, and
/// nothing where it is not.
pub open spec fn says(field: Option<JsonView>, text: Seq<char>) -> bool {
    match field {
        Some(value) => value == JsonView::Text(text),
        None => text.len() == 0,
    }
}

/// Whether a field that may be absent or `null` says an optional text.
pub open spec fn may_say(field: Option<JsonView>, text: Option<Seq<char>>) -> bool {
    match text {
        Some(text) => field == Some(JsonView::Text(text)),
        None => field is None || field == Some(JsonView::Null),
    }
}

/// Whether a value can be a record of at most so many fields.
pub open spec fn is_record(value: JsonView, fields: nat) -> bool {
    match value {
        JsonView::Object(_) => true,
        JsonView::Array(items) => items.len() <= fields,
        _ => false,
    }
}

/// What is told of a field of another type: what it is, and what was expected.
pub proof fn law_faults_tell_what_was_expected(value: JsonView, expected: Seq<char>)
    ensures
        wrong_type(value, expected) == "invalid type: "@ + shown(value) + ", expected "@
            + expected,
        text_field(Some(value)) matches Err(told) ==> told == wrong_type(value, "a string"@),
        optional_text_field(Some(value)) matches Err(told) ==> told == wrong_type(
            value,
            "a string"@,
        ),
        list_field(Some(value)) matches Err(told) ==> told == wrong_type(value, "a sequence"@),
        number_field(Some(value)) matches Err(told) ==> told == match value {
            JsonView::Number(NumberView::Natural(_)) => out_of_range(value, "u32"@),
            JsonView::Number(NumberView::Negative(_)) => out_of_range(value, "u32"@),
            _ => wrong_type(value, "u32"@),
        },
{
}

} // verus!
