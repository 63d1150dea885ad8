//! The dynamic metadata of an allowed request: a structured value in the
//! shape of a protobuf `Struct`, built from the key and its list.

use vstd::prelude::*;
use crate::api_key::{limits, texts, ApiKey, ApiKeyView, ModelLimit};
use crate::decimal::{decimal, decimal_string, signed_decimal, signed_decimal_string};
use crate::error::Error;
use crate::json::{JsonField, JsonNumber, JsonValue, JsonView};
use crate::text::text_eq;

verus! {

/// The largest magnitude up to which every integer is exactly a double:
/// two to the power of 53.
pub const MAX_EXACT: u64 = 9_007_199_254_740_992;

/// A number of a structured value: an integer that is exactly a double, or
/// a double given by its IEEE 754 bit pattern.
#[derive(Clone, Copy, Debug, PartialEq, Eq, Structural)]
pub enum Number {
    Int(i64),
    Float(u64),
}

/// One named field of a structure.
#[derive(Debug, PartialEq, Eq)]
pub struct Field {
    pub name: String,
    pub value: Value,
}

/// A structured value: null, a number, a string, a boolean, a structure of
/// named fields, or a list.
#[derive(Debug, PartialEq, Eq)]
pub enum Value {
    Null,
    Number(Number),
    String(String),
    Bool(bool),
    Struct(Vec<Field>),
    List(Vec<Value>),
}

/// A structure of named fields: the root of the dynamic metadata.
#[derive(Debug, PartialEq, Eq)]
pub struct Struct {
    pub fields: Vec<Field>,
}

/// The mathematical content of a [`Value`].
pub enum ValueView {
    Null,
    Number(Number),
    String(Seq<char>),
    Bool(bool),
    Struct(Seq<(Seq<char>, ValueView)>),
    List(Seq<ValueView>),
}

/// What a structured value holds.
pub open spec fn value_view(v: Value) -> ValueView
    decreases v,
{
    match v {
        Value::Null => ValueView::Null,
        Value::Number(n) => ValueView::Number(n),
        Value::String(s) => ValueView::String(s@),
        Value::Bool(b) => ValueView::Bool(b),
        Value::Struct(fields) => ValueView::Struct(
            Seq::new(
                fields.len() as nat,
                |i: int|
                    if 0 <= i < fields.len() {
                        (fields[i].name@, value_view(fields[i].value))
                    } else {
                        (Seq::empty(), ValueView::Null)
                    },
            ),
        ),
        Value::List(items) => ValueView::List(
            Seq::new(
                items.len() as nat,
                |i: int|
                    if 0 <= i < items.len() {
                        value_view(items[i])
                    } else {
                        ValueView::Null
                    },
            ),
        ),
    }
}

impl View for Value {
    type V = ValueView;

    open spec fn view(&self) -> ValueView {
        value_view(*self)
    }
}

impl View for Field {
    type V = (Seq<char>, ValueView);

    open spec fn view(&self) -> (Seq<char>, ValueView) {
        (self.name@, self.value@)
    }
}

/// The fields that a sequence of fields holds.
pub open spec fn fields_view(v: Seq<Field>) -> Seq<(Seq<char>, ValueView)> {
    v.map_values(|f: Field| f@)
}

/// The values that a sequence of values holds.
pub open spec fn values_view(v: Seq<Value>) -> Seq<ValueView> {
    v.map_values(|x: Value| x@)
}

impl View for Struct {
    type V = Seq<(Seq<char>, ValueView)>;

    open spec fn view(&self) -> Seq<(Seq<char>, ValueView)> {
        fields_view(self.fields@)
    }
}

/// A structure holds its fields in their order.
pub proof fn lemma_struct_view(fields: Vec<Field>)
    ensures
        Value::Struct(fields)@ == ValueView::Struct(fields_view(fields@)),
{
    assert(Value::Struct(fields)@->Struct_0 =~= fields_view(fields@));
}

/// A list holds its values in their order.
pub proof fn lemma_list_view(items: Vec<Value>)
    ensures
        Value::List(items)@ == ValueView::List(values_view(items@)),
{
    assert(Value::List(items)@->List_0 =~= values_view(items@));
}

/// The structured value of an unsigned count: a number up to two to the
/// power of 53, beyond that its decimal digits as a string.
pub open spec fn count_value(n: u64) -> ValueView {
    if n <= MAX_EXACT {
        ValueView::Number(Number::Int(n as i64))
    } else {
        ValueView::String(decimal(n as nat))
    }
}

/// The structured value of a signed integer: a number where its magnitude
/// is at most two to the power of 53, else its decimal form as a string.
pub open spec fn integer_value(n: i64) -> ValueView {
    if -(MAX_EXACT as int) <= n <= MAX_EXACT as int {
        ValueView::Number(Number::Int(n))
    } else {
        ValueView::String(signed_decimal(n as int))
    }
}

/// The structured value of a JSON number. A double keeps its bits.
pub open spec fn number_value(n: JsonNumber) -> ValueView {
    match n {
        JsonNumber::PosInt(u) => count_value(u),
        JsonNumber::NegInt(i) => integer_value(i),
        JsonNumber::Float(bits) => ValueView::Number(Number::Float(bits)),
    }
}

/// The structured value of a JSON value: the same shape, with arrays as
/// lists, objects as structures, and numbers as [`number_value`] gives them.
pub open spec fn proto_of(j: JsonView) -> ValueView
    decreases j,
{
    match j {
        JsonView::Null => ValueView::Null,
        JsonView::Bool(b) => ValueView::Bool(b),
        JsonView::Number(n) => number_value(n),
        JsonView::String(s) => ValueView::String(s),
        JsonView::Array(items) => ValueView::List(
            Seq::new(
                items.len(),
                |i: int|
                    if 0 <= i < items.len() {
                        proto_of(items[i])
                    } else {
                        ValueView::Null
                    },
            ),
        ),
        JsonView::Object(fields) => ValueView::Struct(
            Seq::new(
                fields.len(),
                |i: int|
                    if 0 <= i < fields.len() {
                        (fields[i].0, proto_of(fields[i].1))
                    } else {
                        (Seq::empty(), ValueView::Null)
                    },
            ),
        ),
    }
}

/// The structured value of an unsigned count.
pub fn count_to_value(n: u64) -> (r: Value)
    ensures
        r@ == count_value(n),
{
    if n <= MAX_EXACT {
        Value::Number(Number::Int(n as i64))
    } else {
        Value::String(decimal_string(n))
    }
}

/// The structured value of a JSON number.
pub fn number_to_value(n: &JsonNumber) -> (r: Value)
    ensures
        r@ == number_value(*n),
{
    match n {
        JsonNumber::PosInt(u) => count_to_value(*u),
        JsonNumber::NegInt(i) => {
            if -9_007_199_254_740_992 <= *i && *i <= 9_007_199_254_740_992 {
                Value::Number(Number::Int(*i))
            } else {
                Value::String(signed_decimal_string(*i))
            }
        },
        JsonNumber::Float(bits) => Value::Number(Number::Float(*bits)),
    }
}

/// The structured value of a JSON value.
pub fn json_to_value(json_val: &JsonValue) -> (r: Value)
    ensures
        r@ == proto_of(json_val@),
    decreases json_val,
{
    match json_val {
        JsonValue::Null => Value::Null,
        JsonValue::Bool(b) => Value::Bool(*b),
        JsonValue::Number(n) => number_to_value(n),
        JsonValue::String(s) => Value::String(s.clone()),
        JsonValue::Array(items) => {
            let mut out: Vec<Value> = Vec::new();
            let mut i: usize = 0;
            while i < items.len()
                invariant
                    *json_val == JsonValue::Array(*items),
                    i <= items.len(),
                    out.len() == i,
                    forall|k: int| 0 <= k < i ==> (#[trigger] out[k])@ == proto_of(items[k]@),
                decreases items.len() - i,
            {
                proof {
                    assert(decreases_to!(json_val => json_val->Array_0));
                    assert(decreases_to!(json_val->Array_0 => json_val->Array_0[i as int]));
                }
                let item = json_to_value(&items[i]);
                out.push(item);
                i += 1;
            }
            let r = Value::List(out);
            proof {
                let a = r@->List_0;
                let b = proto_of(json_val@)->List_0;
                assert(json_val@->Array_0.len() == items.len());
                assert forall|k: int| 0 <= k < a.len() implies a[k] == b[k] by {
                    assert(out[k]@ == proto_of(items[k]@));
                    assert(json_val@->Array_0[k] == items[k]@);
                }
                assert(a =~= b);
            }
            r
        },
        JsonValue::Object(fields) => {
            let mut out: Vec<Field> = Vec::new();
            let mut i: usize = 0;
            while i < fields.len()
                invariant
                    *json_val == JsonValue::Object(*fields),
                    i <= fields.len(),
                    out.len() == i,
                    forall|k: int|
                        0 <= k < i ==> (#[trigger] out[k])@ == (
                            fields[k].name@,
                            proto_of(fields[k].value@),
                        ),
                decreases fields.len() - i,
            {
                proof {
                    assert(decreases_to!(json_val => json_val->Object_0));
                    assert(decreases_to!(json_val->Object_0 => json_val->Object_0[i as int]));
                }
                let value = json_to_value(&fields[i].value);
                out.push(Field { name: fields[i].name.clone(), value });
                i += 1;
            }
            let r = Value::Struct(out);
            proof {
                let a = r@->Struct_0;
                let b = proto_of(json_val@)->Struct_0;
                assert(json_val@->Object_0.len() == fields.len());
                assert forall|k: int| 0 <= k < a.len() implies a[k] == b[k] by {
                    assert(out[k]@ == (fields[k].name@, proto_of(fields[k].value@)));
                    assert(json_val@->Object_0[k] == (fields[k].name@, fields[k].value@));
                }
                assert(a =~= b);
            }
            r
        },
    }
}

/// The structured value of a JSON value.
pub fn json_value_to_prost_value(json_val: JsonValue) -> (r: Value)
    ensures
        r@ == proto_of(json_val@),
{
    json_to_value(&json_val)
}

/// The fields that the members of a JSON object become, one for one.
pub open spec fn struct_of(members: Seq<(Seq<char>, JsonView)>) -> Seq<(Seq<char>, ValueView)> {
    members.map_values(|m: (Seq<char>, JsonView)| (m.0, proto_of(m.1)))
}

/// The members that a sequence of JSON members holds.
pub open spec fn members_view(v: Seq<JsonField>) -> Seq<(Seq<char>, JsonView)> {
    v.map_values(|f: JsonField| f@)
}

/// The structure of a JSON object: each member as a field.
pub fn json_map_to_prost_struct(json_map: &Vec<JsonField>) -> (r: Struct)
    ensures
        r@ == struct_of(members_view(json_map@)),
{
    let mut out: Vec<Field> = Vec::new();
    let mut i: usize = 0;
    while i < json_map.len()
        invariant
            i <= json_map.len(),
            out.len() == i,
            forall|k: int|
                0 <= k < i ==> (#[trigger] out[k])@ == (
                    json_map[k].name@,
                    proto_of(json_map[k].value@),
                ),
        decreases json_map.len() - i,
    {
        let value = json_to_value(&json_map[i].value);
        out.push(Field { name: json_map[i].name.clone(), value });
        i += 1;
    }
    let r = Struct { fields: out };
    assert(r@ =~= struct_of(members_view(json_map@)));
    r
}

/// The names of the fields that the service itself sets. Metadata of the
/// key's owner cannot take their place.
pub open spec fn is_reserved(name: Seq<char>) -> bool {
    name == "user_id"@ || name == "api_key_id"@ || name == "api_key_name"@ || name
        == "allowed_models"@ || name == "tokens_per_model"@ || name == "rate_limit_requests"@
        || name == "rate_limit_window_seconds"@
}

/// The members of the owner's metadata that become fields: all but those
/// with a reserved name.
pub open spec fn not_reserved() -> spec_fn((Seq<char>, JsonView)) -> bool {
    |m: (Seq<char>, JsonView)| !is_reserved(m.0)
}

/// The fields that the service sets, from the key and its list. The name
/// of a key is its id.
pub open spec fn built_in_fields(key: ApiKeyView) -> Seq<(Seq<char>, ValueView)> {
    seq![
        ("user_id"@, ValueView::String(key.user_id)),
        ("api_key_id"@, ValueView::String(key.id)),
        ("api_key_name"@, ValueView::String(key.id)),
        (
            "allowed_models"@,
            ValueView::List(key.acl.allowed_models.map_values(|m: Seq<char>| ValueView::String(m))),
        ),
        (
            "tokens_per_model"@,
            ValueView::Struct(
                key.acl.tokens_per_model.map_values(|e: (Seq<char>, u64)| (e.0, count_value(e.1))),
            ),
        ),
        ("rate_limit_requests"@, ValueView::Number(Number::Int(key.acl.rate_limit.requests as i64))),
        (
            "rate_limit_window_seconds"@,
            ValueView::Number(Number::Int(key.acl.rate_limit.window_seconds as i64)),
        ),
    ]
}

/// The fields that come from the owner's metadata: where it is a JSON
/// object, its members without those of a reserved name, in their order;
/// none otherwise.
pub open spec fn custom_fields(metadata: Option<JsonView>) -> Seq<(Seq<char>, ValueView)> {
    match metadata {
        Some(JsonView::Object(members)) => struct_of(members.filter(not_reserved())),
        _ => Seq::empty(),
    }
}

/// The dynamic metadata of a key: the fields that the service sets,
/// followed by the owner's own.
pub open spec fn dynamic_metadata(key: ApiKeyView) -> Seq<(Seq<char>, ValueView)> {
    built_in_fields(key) + custom_fields(key.metadata)
}

/// Whether `name` is the name of a field that the service sets.
pub fn reserved_name(name: &str) -> (r: bool)
    ensures
        r == is_reserved(name@),
{
    text_eq(name, "user_id") || text_eq(name, "api_key_id") || text_eq(name, "api_key_name")
        || text_eq(name, "allowed_models") || text_eq(name, "tokens_per_model") || text_eq(
        name,
        "rate_limit_requests",
    ) || text_eq(name, "rate_limit_window_seconds")
}

/// The list of the allowed models.
fn models_value(models: &Vec<String>) -> (r: Value)
    ensures
        r@ == ValueView::List(texts(models@).map_values(|m: Seq<char>| ValueView::String(m))),
{
    let mut out: Vec<Value> = Vec::new();
    let mut i: usize = 0;
    while i < models.len()
        invariant
            i <= models.len(),
            out.len() == i,
            forall|k: int| 0 <= k < i ==> (#[trigger] out[k])@ == ValueView::String(models[k]@),
        decreases models.len() - i,
    {
        out.push(Value::String(models[i].clone()));
        i += 1;
    }
    proof {
        lemma_list_view(out);
        assert(values_view(out@) =~= texts(models@).map_values(
            |m: Seq<char>| ValueView::String(m),
        ));
    }
    Value::List(out)
}

/// The structure of the token budgets.
fn budgets_value(budgets: &Vec<ModelLimit>) -> (r: Value)
    ensures
        r@ == ValueView::Struct(
            limits(budgets@).map_values(|e: (Seq<char>, u64)| (e.0, count_value(e.1))),
        ),
{
    let mut out: Vec<Field> = Vec::new();
    let mut i: usize = 0;
    while i < budgets.len()
        invariant
            i <= budgets.len(),
            out.len() == i,
            forall|k: int|
                0 <= k < i ==> (#[trigger] out[k])@ == (
                    budgets[k].model@,
                    count_value(budgets[k].tokens),
                ),
        decreases budgets.len() - i,
    {
        out.push(
            Field { name: budgets[i].model.clone(), value: count_to_value(budgets[i].tokens) },
        );
        i += 1;
    }
    proof {
        lemma_struct_view(out);
        assert(fields_view(out@) =~= limits(budgets@).map_values(
            |e: (Seq<char>, u64)| (e.0, count_value(e.1)),
        ));
    }
    Value::Struct(out)
}

/// Appends to `out` the fields that come from the owner's metadata.
fn push_custom_fields(out: &mut Vec<Field>, members: &Vec<JsonField>)
    ensures
        fields_view(final(out)@) == fields_view(old(out)@) + struct_of(
            members_view(members@).filter(not_reserved()),
        ),
{
    let ghost all = members_view(members@);
    let ghost p = not_reserved();
    let mut i: usize = 0;
    proof {
        reveal(Seq::filter);
        assert(all.subrange(0, 0) =~= Seq::empty());
        assert(fields_view(out@) =~= fields_view(old(out)@) + struct_of(
            all.subrange(0, 0).filter(p),
        ));
    }
    while i < members.len()
        invariant
            i <= members.len(),
            all == members_view(members@),
            p == not_reserved(),
            fields_view(out@) == fields_view(old(out)@) + struct_of(
                all.subrange(0, i as int).filter(p),
            ),
        decreases members.len() - i,
    {
        let member = &members[i];
        proof {
            assert(all[i as int] == member@);
            assert(all.subrange(0, i + 1) =~= all.subrange(0, i as int).push(all[i as int]));
            all.subrange(0, i as int).lemma_filter_push(all[i as int], p);
        }
        if !reserved_name(member.name.as_str()) {
            let ghost before = fields_view(out@);
            let value = json_to_value(&member.value);
            out.push(Field { name: member.name.clone(), value });
            proof {
                let picked = all.subrange(0, i as int).filter(p);
                assert(fields_view(out@) =~= before.push((member.name@, proto_of(member.value@))));
                assert(struct_of(picked.push(all[i as int])) =~= struct_of(picked).push(
                    (member.name@, proto_of(member.value@)),
                ));
                assert(fields_view(out@) =~= fields_view(old(out)@) + struct_of(
                    picked.push(all[i as int]),
                ));
            }
        }
        i += 1;
    }
    assert(all.subrange(0, all.len() as int) =~= all);
}

/// The dynamic metadata of a key. The fields that the service sets come
/// first and cannot be shadowed: a member of the owner's metadata with a
/// reserved name is left out.
pub fn api_key_to_dynamic_metadata(api_key: ApiKey) -> (r: Result<Struct, Error>)
    ensures
        r.is_ok(),
        r.unwrap()@ == dynamic_metadata(api_key@),
{
    let mut fields: Vec<Field> = Vec::new();
    fields.push(Field { name: "user_id".to_owned(), value: Value::String(api_key.user_id.clone()) });
    fields.push(Field { name: "api_key_id".to_owned(), value: Value::String(api_key.id.clone()) });
    fields.push(Field { name: "api_key_name".to_owned(), value: Value::String(api_key.id.clone()) });
    fields.push(
        Field {
            name: "allowed_models".to_owned(),
            value: models_value(&api_key.acl.allowed_models),
        },
    );
    fields.push(
        Field {
            name: "tokens_per_model".to_owned(),
            value: budgets_value(&api_key.acl.tokens_per_model),
        },
    );
    fields.push(
        Field {
            name: "rate_limit_requests".to_owned(),
            value: Value::Number(Number::Int(api_key.acl.rate_limit.requests as i64)),
        },
    );
    fields.push(
        Field {
            name: "rate_limit_window_seconds".to_owned(),
            value: Value::Number(Number::Int(api_key.acl.rate_limit.window_seconds as i64)),
        },
    );
    assert(fields_view(fields@) =~= built_in_fields(api_key@));
    match &api_key.metadata {
        Some(JsonValue::Object(members)) => {
            assert(api_key@.metadata == Some(JsonView::Object(members_view(members@)))) by {
                assert(api_key.metadata.unwrap()@->Object_0 =~= members_view(members@));
            }
            push_custom_fields(&mut fields, members);
        },
        _ => {
            assert(fields_view(fields@) + Seq::empty() =~= fields_view(fields@));
        },
    }
    Ok(Struct { fields })
}

/// The fields with the name `name`.
pub open spec fn field_named(name: Seq<char>) -> spec_fn((Seq<char>, ValueView)) -> bool {
    |f: (Seq<char>, ValueView)| f.0 == name
}

/// The value of the first field named `name`.
pub open spec fn field_value(fields: Seq<(Seq<char>, ValueView)>, name: Seq<char>) -> Option<
    ValueView,
> {
    match crate::store::first_index(fields, field_named(name)) {
        Some(i) => Some(fields[i].1),
        None => None,
    }
}

impl Struct {
    /// The value of the first field named `name`, if there is one.
    pub fn get(&self, name: &str) -> (r: Option<&Value>)
        ensures
            match r {
                Some(v) => field_value(self@, name@) == Some(v@),
                None => field_value(self@, name@).is_none(),
            },
    {
        let ghost p = field_named(name@);
        let mut i: usize = 0;
        while i < self.fields.len()
            invariant
                i <= self.fields.len(),
                p == field_named(name@),
                forall|k: int| 0 <= k < i ==> !p(#[trigger] self@[k]),
            decreases self.fields.len() - i,
        {
            assert(self@[i as int] == self.fields[i as int]@);
            if text_eq(self.fields[i].name.as_str(), name) {
                proof {
                    assert(p(self@[i as int]));
                    crate::store::lemma_first_index(self@, p);
                }
                return Some(&self.fields[i].value);
            }
            i += 1;
        }
        proof {
            crate::store::lemma_first_index(self@, p);
        }
        None
    }
}

} // verus!
