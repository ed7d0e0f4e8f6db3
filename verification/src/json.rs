//! JSON values as the validators read them.

use serde_json::Value;
use vstd::prelude::*;

use crate::text;

verus! {

/// A JSON number. A number that is no 64-bit integer is held as the bits of its
/// IEEE 754 double.
#[derive(Clone, Copy, Debug, PartialEq, Eq, Structural)]
pub enum JsonNumber {
    Unsigned(u64),
    Negative(i64),
    Double(u64),
}

/// A JSON value. The fields of an object stand in order, each with its name.
#[derive(Debug)]
pub enum Json {
    Null,
    Bool(bool),
    Number(JsonNumber),
    Text(String),
    Array(Vec<Json>),
    Object(Vec<(String, Json)>),
}

/// What a JSON value says.
pub enum JsonView {
    Null,
    Bool(bool),
    Number(JsonNumber),
    Text(Seq<char>),
    Array(Seq<JsonView>),
    Object(Seq<(Seq<char>, JsonView)>),
}

/// What a value says, read recursively.
pub open spec fn json_view(json: Json) -> JsonView
    decreases json,
{
    match json {
        Json::Null => JsonView::Null,
        Json::Bool(value) => JsonView::Bool(value),
        Json::Number(value) => JsonView::Number(value),
        Json::Text(value) => JsonView::Text(value@),
        Json::Array(items) => JsonView::Array(
            Seq::new(
                items@.len(),
                |i: int|
                    if 0 <= i < items@.len() {
                        json_view(items@[i])
                    } else {
                        JsonView::Null
                    },
            ),
        ),
        Json::Object(fields) => JsonView::Object(
            Seq::new(
                fields@.len(),
                |i: int|
                    if 0 <= i < fields@.len() {
                        (fields@[i].0@, json_view(fields@[i].1))
                    } else {
                        (seq![], JsonView::Null)
                    },
            ),
        ),
    }
}

impl View for Json {
    type V = JsonView;

    open spec fn view(&self) -> JsonView {
        json_view(*self)
    }
}

impl JsonView {
    /// The number of the first field with this name at or after `from`, or the
    /// number of fields when there is none.
    pub open spec fn field_position(
        fields: Seq<(Seq<char>, JsonView)>,
        name: Seq<char>,
        from: int,
    ) -> int
        decreases fields.len() - from,
    {
        if from < 0 || from >= fields.len() {
            fields.len() as int
        } else if fields[from].0 == name {
            from
        } else {
            Self::field_position(fields, name, from + 1)
        }
    }

    /// The value of a named field of an object; nothing for any other value.
    pub open spec fn field(self, name: Seq<char>) -> Option<JsonView> {
        match self {
            JsonView::Object(fields) => {
                let at = Self::field_position(fields, name, 0);
                if at < fields.len() {
                    Some(fields[at].1)
                } else {
                    None
                }
            },
            _ => None,
        }
    }

    /// The characters of a string value.
    pub open spec fn text(self) -> Option<Seq<char>> {
        match self {
            JsonView::Text(value) => Some(value),
            _ => None,
        }
    }

    /// The value of a number that is a 64-bit natural.
    pub open spec fn natural(self) -> Option<u64> {
        match self {
            JsonView::Number(JsonNumber::Unsigned(value)) => Some(value),
            _ => None,
        }
    }

    /// The value of a boolean.
    pub open spec fn boolean(self) -> Option<bool> {
        match self {
            JsonView::Bool(value) => Some(value),
            _ => None,
        }
    }

    /// The items of an array.
    pub open spec fn items(self) -> Option<Seq<JsonView>> {
        match self {
            JsonView::Array(items) => Some(items),
            _ => None,
        }
    }

    /// The characters of a named string field.
    pub open spec fn text_field(self, name: Seq<char>) -> Option<Seq<char>> {
        match self.field(name) {
            Some(value) => value.text(),
            None => None,
        }
    }

    /// The value of a named natural field.
    pub open spec fn natural_field(self, name: Seq<char>) -> Option<u64> {
        match self.field(name) {
            Some(value) => value.natural(),
            None => None,
        }
    }

    /// The value of a named boolean field.
    pub open spec fn boolean_field(self, name: Seq<char>) -> Option<bool> {
        match self.field(name) {
            Some(value) => value.boolean(),
            None => None,
        }
    }

    /// Whether the value is an object with as many fields as `names` and with a
    /// field for each of them.
    pub open spec fn has_exact_fields(self, names: Seq<Seq<char>>) -> bool {
        match self {
            JsonView::Object(fields) => {
                &&& fields.len() == names.len()
                &&& forall|i: int| 0 <= i < names.len() ==> self.field(#[trigger] names[i]) is Some
            },
            _ => false,
        }
    }

    /// Whether the value is a finite number. Every integer is; a double is when
    /// its exponent bits are not all ones.
    pub open spec fn finite_number(self) -> bool {
        match self {
            JsonView::Number(JsonNumber::Double(bits)) => finite_bits(bits),
            JsonView::Number(_) => true,
            _ => false,
        }
    }

    /// Whether the value is a finite number that is not below zero; negative
    /// zero is not below zero.
    pub open spec fn finite_non_negative_number(self) -> bool {
        match self {
            JsonView::Number(JsonNumber::Double(bits)) => finite_bits(bits) && (bits
                <= 0x8000_0000_0000_0000),
            JsonView::Number(JsonNumber::Unsigned(_)) => true,
            JsonView::Number(JsonNumber::Negative(value)) => value >= 0,
            _ => false,
        }
    }
}

/// Whether the bits of a double are those of a finite number: the eleven
/// exponent bits are not all ones.
pub open spec fn finite_bits(bits: u64) -> bool {
    (bits / 0x0010_0000_0000_0000) % 0x800 != 0x7ff
}

/// The views of a list of borrowed names.
pub open spec fn names_view(names: Seq<&str>) -> Seq<Seq<char>> {
    names.map_values(|name: &str| name@)
}

/// The view of an optional value.
pub open spec fn opt_json(value: Option<&Json>) -> Option<JsonView> {
    match value {
        Some(value) => Some(value@),
        None => None,
    }
}

impl Json {
    /// The value of a named field of an object.
    pub fn field(&self, name: &str) -> (value: Option<&Json>)
        ensures
            opt_json(value) == self@.field(name@),
    {
        match self {
            Json::Object(fields) => {
                let ghost view = self@->Object_0;
                let mut i: usize = 0;
                while i < fields.len()
                    invariant
                        self == Json::Object(*fields),
                        self@ == JsonView::Object(view),
                        view.len() == fields@.len(),
                        i <= fields@.len(),
                        JsonView::field_position(view, name@, 0) == JsonView::field_position(
                            view,
                            name@,
                            i as int,
                        ),
                    decreases fields@.len() - i,
                {
                    assert(view[i as int] == (fields@[i as int].0@, fields@[i as int].1@));
                    if text::same_text(fields[i].0.as_str(), name) {
                        return Some(&fields[i].1);
                    }
                    i += 1;
                }
                None
            },
            _ => None,
        }
    }

    /// The characters of a string value.
    pub fn as_text(&self) -> (value: Option<&str>)
        ensures
            text::opt_str(value) == self@.text(),
    {
        match self {
            Json::Text(value) => Some(value.as_str()),
            _ => None,
        }
    }

    /// The value of a number that is a 64-bit natural.
    pub fn as_natural(&self) -> (value: Option<u64>)
        ensures
            value == self@.natural(),
    {
        match self {
            Json::Number(JsonNumber::Unsigned(value)) => Some(*value),
            _ => None,
        }
    }

    /// The value of a boolean.
    pub fn as_boolean(&self) -> (value: Option<bool>)
        ensures
            value == self@.boolean(),
    {
        match self {
            Json::Bool(value) => Some(*value),
            _ => None,
        }
    }

    /// The items of an array.
    pub fn as_items(&self) -> (items: Option<&Vec<Json>>)
        ensures
            match items {
                Some(items) => {
                    &&& self@ is Array
                    &&& self@->Array_0.len() == items@.len()
                    &&& forall|i: int|
                        0 <= i < items@.len() ==> self@->Array_0[i] == (#[trigger] items@[i])@
                },
                None => !(self@ is Array),
            },
    {
        match self {
            Json::Array(items) => Some(items),
            _ => None,
        }
    }

    /// The characters of a named string field.
    pub fn text_field(&self, name: &str) -> (value: Option<&str>)
        ensures
            text::opt_str(value) == self@.text_field(name@),
    {
        match self.field(name) {
            Some(value) => value.as_text(),
            None => None,
        }
    }

    /// The value of a named natural field.
    pub fn natural_field(&self, name: &str) -> (value: Option<u64>)
        ensures
            value == self@.natural_field(name@),
    {
        match self.field(name) {
            Some(value) => value.as_natural(),
            None => None,
        }
    }

    /// The value of a named boolean field.
    pub fn boolean_field(&self, name: &str) -> (value: Option<bool>)
        ensures
            value == self@.boolean_field(name@),
    {
        match self.field(name) {
            Some(value) => value.as_boolean(),
            None => None,
        }
    }

    /// Whether a named field is a string with exactly these characters.
    pub fn text_field_is(&self, name: &str, expected: &str) -> (same: bool)
        ensures
            same == (self@.text_field(name@) == Some(expected@)),
    {
        text::is_text(self.text_field(name), expected)
    }

    /// Whether the value is a finite number.
    pub fn is_finite_number(&self) -> (yes: bool)
        ensures
            yes == self@.finite_number(),
    {
        match self {
            Json::Number(JsonNumber::Double(bits)) => (*bits / 0x0010_0000_0000_0000) % 0x800
                != 0x7ff,
            Json::Number(_) => true,
            _ => false,
        }
    }

    /// Whether the value is a finite number that is not below zero.
    pub fn is_finite_non_negative_number(&self) -> (yes: bool)
        ensures
            yes == self@.finite_non_negative_number(),
    {
        match self {
            Json::Number(JsonNumber::Double(bits)) => (*bits / 0x0010_0000_0000_0000) % 0x800
                != 0x7ff && *bits <= 0x8000_0000_0000_0000,
            Json::Number(JsonNumber::Unsigned(_)) => true,
            Json::Number(JsonNumber::Negative(value)) => *value >= 0,
            _ => false,
        }
    }
}

/// Whether a value is an object with exactly the named fields.
pub fn has_exact_json_fields(value: &Json, fields: &[&str]) -> (exact: bool)
    ensures
        exact == value@.has_exact_fields(names_view(fields@)),
{
    match value {
        Json::Object(object) => {
            assert(value@->Object_0.len() == object@.len());
            if object.len() != fields.len() {
                return false;
            }
            let ghost names = names_view(fields@);
            let mut i: usize = 0;
            while i < fields.len()
                invariant
                    names == names_view(fields@),
                    value@ is Object,
                    value@->Object_0.len() == fields@.len(),
                    i <= fields@.len(),
                    forall|k: int|
                        0 <= k < i ==> value@.field(#[trigger] names[k]) is Some,
                decreases fields@.len() - i,
            {
                assert(names[i as int] == fields@[i as int]@);
                if value.field(fields[i]).is_none() {
                    return false;
                }
                i += 1;
            }
            true
        },
        _ => false,
    }
}

proof fn lemma_field_position_named(
    fields: Seq<(Seq<char>, JsonView)>,
    name: Seq<char>,
    from: int,
)
    requires
        0 <= from <= fields.len(),
    ensures
        from <= JsonView::field_position(fields, name, from) <= fields.len(),
        JsonView::field_position(fields, name, from) < fields.len() ==> fields[
            JsonView::field_position(fields, name, from)
        ].0 == name,
    decreases fields.len() - from,
{
    if from < fields.len() && fields[from].0 != name {
        lemma_field_position_named(fields, name, from + 1);
    }
}

/// An object with exactly the expected fields, all of them with different names,
/// has no field besides: every field of it is one of the expected ones.
pub proof fn law_exact_fields_admit_no_other(
    fields: Seq<(Seq<char>, JsonView)>,
    names: Seq<Seq<char>>,
    at: int,
)
    requires
        names.no_duplicates(),
        JsonView::Object(fields).has_exact_fields(names),
        0 <= at < fields.len(),
    ensures
        names.contains(fields[at].0),
{
    let value = JsonView::Object(fields);
    let place = |i: int| JsonView::field_position(fields, names[i], 0);
    assert forall|i: int| 0 <= i < names.len() implies 0 <= #[trigger] place(i) < fields.len()
        && fields[place(i)].0 == names[i] by {
        assert(value.field(names[i]) is Some);
        lemma_field_position_named(fields, names[i], 0);
    }
    let places = Seq::new(names.len(), place);
    assert(places.no_duplicates()) by {
        assert forall|i: int, j: int|
            0 <= i < places.len() && 0 <= j < places.len() && i != j implies places[i]
            != places[j] by {
            assert(fields[place(i)].0 == names[i]);
            assert(fields[place(j)].0 == names[j]);
        }
    }
    let all = vstd::set_lib::set_int_range(0, fields.len() as int);
    vstd::set_lib::lemma_int_range(0, fields.len() as int);
    assert(places.to_set().subset_of(all)) by {
        assert forall|p: int| places.to_set().contains(p) implies all.contains(p) by {
            let i = choose|i: int| 0 <= i < places.len() && places[i] == p;
            assert(place(i) == p);
        }
    }
    places.unique_seq_to_set();
    vstd::set_lib::lemma_subset_equality(places.to_set(), all);
    assert(all.contains(at));
    assert(places.to_set().contains(at));
    let i = choose|i: int| 0 <= i < places.len() && places[i] == at;
    assert(fields[place(i)].0 == names[i]);
    assert(names[i] == fields[at].0);
}

/// Whether two numbers are equal. Doubles are equal when their bits are, and the
/// two zeros are equal to each other.
pub open spec fn same_number(left: JsonNumber, right: JsonNumber) -> bool {
    ||| left == right
    ||| left is Double && right is Double && zero_bits(left->Double_0) && zero_bits(
        right->Double_0,
    )
}

/// Whether the bits of a double are those of a zero of either sign.
pub open spec fn zero_bits(bits: u64) -> bool {
    bits == 0 || bits == 0x8000_0000_0000_0000
}

/// Whether two values are equal. The order of an object's fields does not
/// matter.
pub open spec fn same_value(left: JsonView, right: JsonView) -> bool
    decreases left,
{
    match (left, right) {
        (JsonView::Null, JsonView::Null) => true,
        (JsonView::Bool(a), JsonView::Bool(b)) => a == b,
        (JsonView::Number(a), JsonView::Number(b)) => same_number(a, b),
        (JsonView::Text(a), JsonView::Text(b)) => a == b,
        (JsonView::Array(a), JsonView::Array(b)) => {
            &&& a.len() == b.len()
            &&& forall|i: int| 0 <= i < a.len() ==> same_value(#[trigger] a[i], b[i])
        },
        (JsonView::Object(a), JsonView::Object(b)) => {
            &&& a.len() == b.len()
            &&& forall|i: int|
                0 <= i < a.len() ==> (right.field((#[trigger] a[i]).0) matches Some(value)
                    && same_value(a[i].1, value))
        },
        _ => false,
    }
}

/// Whether two optional values are both absent or equal.
pub open spec fn same_optional(left: Option<JsonView>, right: Option<JsonView>) -> bool {
    match (left, right) {
        (Some(left), Some(right)) => same_value(left, right),
        (None, None) => true,
        _ => false,
    }
}

/// Whether two values are equal.
pub fn is_same_value(left: &Json, right: &Json) -> (same: bool)
    ensures
        same == same_value(left@, right@),
    decreases left,
{
    match (left, right) {
        (Json::Null, Json::Null) => true,
        (Json::Bool(a), Json::Bool(b)) => *a == *b,
        (Json::Number(a), Json::Number(b)) => match (*a, *b) {
            (JsonNumber::Double(x), JsonNumber::Double(y)) => x == y || ((x == 0 || x
                == 0x8000_0000_0000_0000) && (y == 0 || y == 0x8000_0000_0000_0000)),
            (x, y) => x == y,
        },
        (Json::Text(a), Json::Text(b)) => text::same_text(a.as_str(), b.as_str()),
        (Json::Array(a), Json::Array(b)) => {
            if a.len() != b.len() {
                return false;
            }
            let ghost av = left@->Array_0;
            let ghost bv = right@->Array_0;
            let mut i: usize = 0;
            while i < a.len()
                invariant
                    *left == Json::Array(*a),
                    *right == Json::Array(*b),
                    left@ == JsonView::Array(av),
                    right@ == JsonView::Array(bv),
                    av.len() == a@.len(),
                    bv.len() == b@.len(),
                    a@.len() == b@.len(),
                    i <= a@.len(),
                    forall|k: int| 0 <= k < i ==> same_value(#[trigger] av[k], bv[k]),
                decreases a@.len() - i,
            {
                assert(av[i as int] == a@[i as int]@);
                assert(bv[i as int] == b@[i as int]@);
                assert(decreases_to!(left => a@[i as int]));
                if !is_same_value(&a[i], &b[i]) {
                    return false;
                }
                i += 1;
            }
            true
        },
        (Json::Object(a), Json::Object(b)) => {
            if a.len() != b.len() {
                return false;
            }
            let ghost av = left@->Object_0;
            let mut i: usize = 0;
            while i < a.len()
                invariant
                    *left == Json::Object(*a),
                    *right == Json::Object(*b),
                    left@ == JsonView::Object(av),
                    right@ is Object,
                    right@->Object_0.len() == b@.len(),
                    av.len() == a@.len(),
                    a@.len() == b@.len(),
                    i <= a@.len(),
                    forall|k: int|
                        0 <= k < i ==> (right@.field((#[trigger] av[k]).0) matches Some(value)
                            && same_value(av[k].1, value)),
                decreases a@.len() - i,
            {
                assert(av[i as int] == (a@[i as int].0@, a@[i as int].1@));
                assert(decreases_to!(left => a@[i as int].1));
                match right.field(a[i].0.as_str()) {
                    Some(value) => {
                        if !is_same_value(&a[i].1, value) {
                            return false;
                        }
                    },
                    None => {
                        return false;
                    },
                }
                i += 1;
            }
            true
        },
        _ => false,
    }
}

/// Whether two optional values are both absent or equal.
pub fn is_same_optional(left: Option<&Json>, right: Option<&Json>) -> (same: bool)
    ensures
        same == same_optional(opt_json(left), opt_json(right)),
{
    match (left, right) {
        (Some(left), Some(right)) => is_same_value(left, right),
        (None, None) => true,
        _ => false,
    }
}

/// The JSON value of the `serde_json` crate.
#[verifier::external_type_specification]
#[verifier::external_body]
pub struct ExValue(serde_json::Value);

/// What `serde_json::from_str` reads from a text: a value, or nothing where the
/// text is no JSON document.
pub uninterp spec fn parsed_json(text: Seq<char>) -> Option<JsonView>;

/// What `serde_json::from_slice` reads from bytes: a value, or nothing where the
/// bytes are no JSON document.
pub uninterp spec fn parsed_json_bytes(bytes: Seq<u8>) -> Option<JsonView>;

/// Reads a `serde_json::Value` out into a value of this crate, variant by
/// variant. Nothing is claimed of it.
#[verifier::external_body]
fn json_from_value(value: Value) -> Json {
    match value {
        Value::Null => Json::Null,
        Value::Bool(value) => Json::Bool(value),
        Value::Number(number) => Json::Number(match (number.as_u64(), number.as_i64()) {
            (Some(value), _) => JsonNumber::Unsigned(value),
            (None, Some(value)) => JsonNumber::Negative(value),
            (None, None) => JsonNumber::Double(number.as_f64().unwrap_or_default().to_bits()),
        }),
        Value::String(value) => Json::Text(value),
        Value::Array(items) => Json::Array(items.into_iter().map(json_from_value).collect()),
        Value::Object(fields) => Json::Object(
            fields.into_iter().map(|field| (field.0, json_from_value(field.1))).collect()),
    }
}

/// Parses a JSON document with `serde_json::from_str`. The result is the value
/// the text stands for, or nothing where that function reports an error; it
/// depends on the text alone.
#[verifier::external_body]
pub(crate) fn parse_json(text: &str) -> (value: Option<Json>)
    ensures
        parsed_json(text@) == (match value {
            Some(value) => Some(value@),
            None => None,
        }),
{
    serde_json::from_str::<serde_json::Value>(text).ok().map(json_from_value)
}

/// Parses a JSON document with `serde_json::from_slice`. The result is the value
/// the bytes stand for, or nothing where that function reports an error; it
/// depends on the bytes alone.
#[verifier::external_body]
pub(crate) fn parse_json_bytes(bytes: &[u8]) -> (value: Option<Json>)
    ensures
        parsed_json_bytes(bytes@) == (match value {
            Some(value) => Some(value@),
            None => None,
        }),
{
    serde_json::from_slice::<serde_json::Value>(bytes).ok().map(json_from_value)
}

/// A named field is there exactly if an object has a field of that name, and it has the
/// value of the first such field. No other value has fields.
pub proof fn law_field_is_the_first_of_its_name(value: JsonView, name: Seq<char>)
    ensures
        !(value is Object) ==> value.field(name) is None,
        value matches JsonView::Object(fields) ==> {
            &&& value.field(name) is None <==> forall|i: int|
                0 <= i < fields.len() ==> (#[trigger] fields[i]).0 != name
            &&& value.field(name) matches Some(found) ==> exists|i: int|
                #![trigger fields[i]]
                0 <= i < fields.len() && fields[i] == (name, found) && forall|j: int|
                    0 <= j < i ==> (#[trigger] fields[j]).0 != name
        },
{
    if let JsonView::Object(fields) = value {
        lemma_field_position_first(fields, name, 0);
        lemma_field_position_named(fields, name, 0);
        let at = JsonView::field_position(fields, name, 0);
        if at < fields.len() {
            assert(fields[at] == (name, value.field(name)->Some_0));
        }
    }
}

proof fn lemma_field_position_first(fields: Seq<(Seq<char>, JsonView)>, name: Seq<char>, from: int)
    requires
        0 <= from <= fields.len(),
    ensures
        forall|j: int|
            from <= j < JsonView::field_position(fields, name, from) ==> (#[trigger] fields[j]).0
                != name,
    decreases fields.len() - from,
{
    if from < fields.len() && fields[from].0 != name {
        lemma_field_position_first(fields, name, from + 1);
    }
}

/// Only a text has characters, only a natural number that fits in 64 bits has a value,
/// only a boolean has a truth, and only an array has items; each is the value's own.
pub proof fn law_a_value_is_read_as_what_it_is(
    chars: Seq<char>,
    number: JsonNumber,
    truth: bool,
    items: Seq<JsonView>,
    fields: Seq<(Seq<char>, JsonView)>,
)
    ensures
        JsonView::Text(chars).text() == Some(chars),
        JsonView::Number(number).natural() == (match number {
            JsonNumber::Unsigned(value) => Some(value),
            JsonNumber::Negative(_) => None,
            JsonNumber::Double(_) => None,
        }),
        JsonView::Bool(truth).boolean() == Some(truth),
        JsonView::Array(items).items() == Some(items),
        forall|value: JsonView| #[trigger] value.text() is Some <==> value is Text,
        forall|value: JsonView| #[trigger] value.boolean() is Some <==> value is Bool,
        forall|value: JsonView| #[trigger] value.items() is Some <==> value is Array,
        forall|value: JsonView| #[trigger] value.natural() is Some ==> value is Number,
        JsonView::Null.text() is None,
        JsonView::Object(fields).text() is None,
{
}

/// The text, the number and the truth of a named field are those of the value that
/// stands in it.
pub proof fn law_named_field_is_read(value: JsonView, name: Seq<char>, chars: Seq<char>, number: u64, truth: bool)
    ensures
        value.text_field(name) == Some(chars) <==> value.field(name) == Some(JsonView::Text(chars)),
        value.natural_field(name) == Some(number) <==> value.field(name) == Some(
            JsonView::Number(JsonNumber::Unsigned(number)),
        ),
        value.boolean_field(name) == Some(truth) <==> value.field(name) == Some(
            JsonView::Bool(truth),
        ),
        value.field(name) is None ==> value.text_field(name) is None && value.natural_field(name) is None
            && value.boolean_field(name) is None,
{
}

/// A value has exactly the named fields if it is an object with as many fields as there
/// are names, and each name is the name of one of them.
pub proof fn law_exact_fields_are_all_there(value: JsonView, names: Seq<Seq<char>>)
    ensures
        value.has_exact_fields(names) <==> (value matches JsonView::Object(fields) && {
            &&& fields.len() == names.len()
            &&& forall|i: int|
                0 <= i < names.len() ==> exists|k: int|
                    0 <= k < fields.len() && (#[trigger] fields[k]).0 == #[trigger] names[i]
        }),
{
    if let JsonView::Object(fields) = value {
        assert forall|i: int| 0 <= i < names.len() implies (value.field(#[trigger] names[i]) is Some
            <==> exists|k: int|
            0 <= k < fields.len() && (#[trigger] fields[k]).0 == names[i]) by {
            law_field_is_the_first_of_its_name(value, names[i]);
        }
    }
}

/// Two values are the same only if they are of one kind. Texts and truths are the same
/// if they are equal, integers likewise, doubles by their bits but for the two zeros,
/// arrays item by item, and objects field by field, whatever the order.
pub proof fn law_same_values_agree(left: JsonView, right: JsonView)
    ensures
        same_value(left, right) ==> {
            &&& left is Null <==> right is Null
            &&& left is Bool <==> right is Bool
            &&& left is Number <==> right is Number
            &&& left is Text <==> right is Text
            &&& left is Array <==> right is Array
            &&& left is Object <==> right is Object
        },
        left is Null && right is Null ==> same_value(left, right),
        left is Bool && right is Bool ==> same_value(left, right) == (left == right),
        left is Text && right is Text ==> same_value(left, right) == (left->Text_0
            == right->Text_0),
        left is Number && right is Number && !(left->Number_0 is Double && right->Number_0 is Double)
            ==> same_value(left, right) == (left == right),
        left is Number && right is Number && left->Number_0 is Double && right->Number_0 is Double
            ==> same_value(left, right) == ({
            let a = left->Number_0->Double_0;
            let b = right->Number_0->Double_0;
            a == b || (a % 0x8000_0000_0000_0000 == 0 && b % 0x8000_0000_0000_0000 == 0)
        }),
        left is Array && right is Array ==> same_value(left, right) == (left->Array_0.len()
            == right->Array_0.len() && forall|i: int|
            0 <= i < left->Array_0.len() ==> same_value(
                #[trigger] left->Array_0[i],
                right->Array_0[i],
            )),
        left is Object && right is Object && same_value(left, right) ==> left->Object_0.len()
            == right->Object_0.len() && forall|i: int|
            0 <= i < left->Object_0.len() ==> right.field((#[trigger] left->Object_0[i]).0) is Some
                && same_value(
                left->Object_0[i].1,
                right.field(left->Object_0[i].0)->Some_0,
            ),
{
}

/// A value whose objects each have different names in them is the same as itself.
pub proof fn law_a_value_is_the_same_as_itself(value: JsonView)
    requires
        names_differ(value),
    ensures
        same_value(value, value),
    decreases value,
{
    match value {
        JsonView::Array(items) => {
            assert forall|i: int| 0 <= i < items.len() implies same_value(
                #[trigger] items[i],
                items[i],
            ) by {
                law_a_value_is_the_same_as_itself(items[i]);
            }
        },
        JsonView::Object(fields) => {
            assert forall|i: int| 0 <= i < fields.len() implies (value.field(
                (#[trigger] fields[i]).0,
            ) matches Some(found) && same_value(fields[i].1, found)) by {
                law_field_is_the_first_of_its_name(value, fields[i].0);
                lemma_field_position_named(fields, fields[i].0, 0);
                lemma_field_position_first(fields, fields[i].0, 0);
                law_a_value_is_the_same_as_itself(fields[i].1);
            }
        },
        _ => {},
    }
}

/// Whether the fields of each object in a value have different names.
pub open spec fn names_differ(value: JsonView) -> bool
    decreases value,
{
    match value {
        JsonView::Array(items) => forall|i: int|
            0 <= i < items.len() ==> names_differ(#[trigger] items[i]),
        JsonView::Object(fields) => {
            &&& forall|i: int| 0 <= i < fields.len() ==> names_differ((#[trigger] fields[i]).1)
            &&& forall|i: int, j: int|
                0 <= i < j < fields.len() ==> (#[trigger] fields[i]).0 != (#[trigger] fields[j]).0
        },
        _ => true,
    }
}

/// Every integer is a finite number, and a double is unless its eleven exponent bits are
/// all set; what is no number is none. A finite number is not below zero exactly if it
/// has no sign, or is the negative zero.
pub proof fn law_finite_numbers(natural: u64, negative: i64, bits: u64)
    ensures
        JsonView::Number(JsonNumber::Unsigned(natural)).finite_number(),
        JsonView::Number(JsonNumber::Negative(negative)).finite_number(),
        JsonView::Number(JsonNumber::Double(bits)).finite_number() == ((bits >> 52) & 0x7ff
            != 0x7ff),
        JsonView::Number(JsonNumber::Unsigned(natural)).finite_non_negative_number(),
        JsonView::Number(JsonNumber::Negative(negative)).finite_non_negative_number() == (negative
            >= 0),
        JsonView::Number(JsonNumber::Double(bits)).finite_non_negative_number() == ((bits >> 52)
            & 0x7ff != 0x7ff && (bits >> 63 == 0 || bits == 0x8000_0000_0000_0000)),
        forall|value: JsonView| #[trigger] value.finite_number() ==> value is Number,
        forall|value: JsonView| #[trigger]
            value.finite_non_negative_number() ==> value.finite_number(),
{
    assert((bits / 0x0010_0000_0000_0000) % 0x800 == (bits >> 52) & 0x7ff) by (bit_vector);
    assert(bits <= 0x8000_0000_0000_0000 <==> (bits >> 63 == 0 || bits == 0x8000_0000_0000_0000))
        by (bit_vector);
}

/// What an array or an object says is what each of its parts says, in their order.
pub proof fn law_every_part_is_seen(items: Vec<Json>, fields: Vec<(String, Json)>, at: int)
    ensures
        json_view(Json::Array(items)) is Array,
        json_view(Json::Array(items))->Array_0.len() == items@.len(),
        0 <= at < items@.len() ==> json_view(Json::Array(items))->Array_0[at] == json_view(
            items@[at],
        ),
        json_view(Json::Object(fields)) is Object,
        json_view(Json::Object(fields))->Object_0.len() == fields@.len(),
        0 <= at < fields@.len() ==> json_view(Json::Object(fields))->Object_0[at] == (
            fields@[at].0@,
            json_view(fields@[at].1),
        ),
        forall|value: String| #[trigger] json_view(Json::Text(value)) == JsonView::Text(value@),
        forall|value: JsonNumber| #[trigger]
            json_view(Json::Number(value)) == JsonView::Number(value),
        forall|value: bool| #[trigger] json_view(Json::Bool(value)) == JsonView::Bool(value),
        json_view(Json::Null) == JsonView::Null,
{
}

} // verus!
