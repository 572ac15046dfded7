use vstd::prelude::*;

verus! {

broadcast use vstd::std_specs::vec::group_vec_axioms;

/// The mathematical model of a JSON value: strings are character sequences,
/// arrays are sequences, objects are sequences of key/value pairs.
pub enum JsonModel {
    Null,
    Bool(bool),
    Num(int),
    Str(Seq<char>),
    Arr(Seq<JsonModel>),
    Obj(Seq<(Seq<char>, JsonModel)>),
}

/// One key/value pair of a JSON object.
#[derive(Debug)]
pub struct JsonField {
    pub key: String,
    pub value: JsonValue,
}

/// The library's JSON value: the payload of a document, the value carried by
/// a comparison operator, and the values of a patch mapping. Numbers are
/// integral; an object is an ordered list of key/value pairs.
#[derive(Debug)]
pub enum JsonValue {
    Null,
    Bool(bool),
    Num(i64),
    Str(String),
    Arr(Vec<JsonValue>),
    Obj(Vec<JsonField>),
}

/// The model of a JSON value.
pub open spec fn json_view(v: JsonValue) -> JsonModel
    decreases v,
{
    match v {
        JsonValue::Null => JsonModel::Null,
        JsonValue::Bool(b) => JsonModel::Bool(b),
        JsonValue::Num(n) => JsonModel::Num(n as int),
        JsonValue::Str(s) => JsonModel::Str(s@),
        JsonValue::Arr(items) => JsonModel::Arr(json_views(items@)),
        JsonValue::Obj(fields) => JsonModel::Obj(json_field_views(fields@)),
    }
}

/// The models of a sequence of JSON values, in order.
pub open spec fn json_views(items: Seq<JsonValue>) -> Seq<JsonModel>
    decreases items,
{
    if items.len() == 0 {
        Seq::empty()
    } else {
        json_views(items.drop_last()).push(json_view(items.last()))
    }
}

/// The models of a sequence of object fields, in order.
pub open spec fn json_field_views(fields: Seq<JsonField>) -> Seq<(Seq<char>, JsonModel)>
    decreases fields,
{
    if fields.len() == 0 {
        Seq::empty()
    } else {
        json_field_views(fields.drop_last()).push(
            (fields.last().key@, json_view(fields.last().value)),
        )
    }
}

/// `json_views` maps the model of each element, preserving length and order.
pub broadcast proof fn lemma_json_views(items: Seq<JsonValue>)
    ensures
        (#[trigger] json_views(items)).len() == items.len(),
        forall|j: int| 0 <= j < items.len() ==> json_views(items)[j] == json_view(items[j]),
    decreases items,
{
    if items.len() > 0 {
        lemma_json_views(items.drop_last());
    }
}

/// `json_field_views` maps the model of each field, preserving length and order.
pub broadcast proof fn lemma_json_field_views(fields: Seq<JsonField>)
    ensures
        (#[trigger] json_field_views(fields)).len() == fields.len(),
        forall|j: int| 0 <= j < fields.len() ==> json_field_views(fields)[j] == (
            fields[j].key@,
            json_view(fields[j].value),
        ),
    decreases fields,
{
    if fields.len() > 0 {
        lemma_json_field_views(fields.drop_last());
    }
}

/// The model of a value has the same top-level variant as the value.
pub broadcast proof fn lemma_json_view_variant(v: JsonValue)
    ensures
        (#[trigger] json_view(v)) is Str <==> v is Str,
        json_view(v) is Num <==> v is Num,
        json_view(v) is Arr <==> v is Arr,
        json_view(v) is Obj <==> v is Obj,
        json_view(v) is Bool <==> v is Bool,
        json_view(v) is Null <==> v is Null,
{
    match v {
        JsonValue::Null => {},
        JsonValue::Bool(_) => {},
        JsonValue::Num(_) => {},
        JsonValue::Str(_) => {},
        JsonValue::Arr(_) => {},
        JsonValue::Obj(_) => {},
    }
}

impl View for JsonValue {
    type V = JsonModel;

    open spec fn view(&self) -> JsonModel {
        json_view(*self)
    }
}

/// The mathematical model of one bind value.
pub enum BindModel {
    Str(Seq<char>),
    Int(int),
    Json(JsonModel),
    StrArr(Seq<Seq<char>>),
    IntArr(Seq<int>),
    NumArr(Seq<int>),
}

/// A typed value bound to one SQL placeholder. The statement-execution
/// boundary receives these in placeholder order; they are never interpolated
/// into SQL text.
#[derive(Debug)]
pub enum BindValue {
    /// A text parameter.
    Str(String),
    /// A 64-bit integer parameter (native timestamp columns).
    Int(i64),
    /// A JSON parameter (comparisons against the payload column).
    Json(JsonValue),
    /// A text-array parameter.
    StrArr(Vec<String>),
    /// An integer-array parameter (native timestamp columns).
    IntArr(Vec<i64>),
    /// A numeric-array parameter, bound against a float-typed cast.
    NumArr(Vec<i64>),
}

impl View for BindValue {
    type V = BindModel;

    open spec fn view(&self) -> BindModel {
        match self {
            BindValue::Str(s) => BindModel::Str(s@),
            BindValue::Int(n) => BindModel::Int(*n as int),
            BindValue::Json(v) => BindModel::Json(json_view(*v)),
            BindValue::StrArr(items) => BindModel::StrArr(
                Seq::new(items@.len(), |i: int| items@[i]@),
            ),
            BindValue::IntArr(items) => BindModel::IntArr(
                Seq::new(items@.len(), |i: int| items@[i] as int),
            ),
            BindValue::NumArr(items) => BindModel::NumArr(
                Seq::new(items@.len(), |i: int| items@[i] as int),
            ),
        }
    }
}

/// The models of a sequence of bind values, in order.
pub open spec fn binds_view(s: Seq<BindValue>) -> Seq<BindModel> {
    Seq::new(s.len(), |i: int| s[i]@)
}

impl JsonValue {
    /// A deep copy of the value.
    #[verifier::loop_isolation(false)]
    pub fn deep_clone(&self) -> (r: JsonValue)
        ensures
            r@ == self@,
        decreases self,
    {
        broadcast use lemma_json_views, lemma_json_field_views;

        match self {
            JsonValue::Null => JsonValue::Null,
            JsonValue::Bool(b) => JsonValue::Bool(*b),
            JsonValue::Num(n) => JsonValue::Num(*n),
            JsonValue::Str(s) => JsonValue::Str(s.clone()),
            JsonValue::Arr(items) => {
                let mut out: Vec<JsonValue> = Vec::new();
                let mut i: usize = 0;
                while i < items.len()
                    invariant
                        0 <= i <= items.len(),
                        out@.len() == i,
                        forall|j: int| 0 <= j < i ==> #[trigger] out@[j]@ == items@[j]@,
                    decreases items.len() - i,
                {
                    proof {
                        assert(decreases_to!(*self => items@[i as int]));
                    }
                    out.push(items[i].deep_clone());
                    i = i + 1;
                }
                let r = JsonValue::Arr(out);
                proof {
                    lemma_json_views(out@);
                    lemma_json_views(items@);
                    assert forall|j: int| 0 <= j < items@.len() implies json_views(out@)[j]
                        == json_views(items@)[j] by {
                        assert(out@[j]@ == items@[j]@);
                    }
                    assert(json_views(out@) =~= json_views(items@));
                }
                r
            },
            JsonValue::Obj(fields) => {
                let mut out: Vec<JsonField> = Vec::new();
                let mut i: usize = 0;
                while i < fields.len()
                    invariant
                        0 <= i <= fields.len(),
                        out@.len() == i,
                        forall|j: int| 0 <= j < i ==> #[trigger] out@[j].key@ == fields@[j].key@
                            && out@[j].value@ == fields@[j].value@,
                    decreases fields.len() - i,
                {
                    proof {
                        assert(decreases_to!(*self => fields@[i as int].value));
                    }
                    let f = JsonField {
                        key: fields[i].key.clone(),
                        value: fields[i].value.deep_clone(),
                    };
                    out.push(f);
                    i = i + 1;
                }
                let r = JsonValue::Obj(out);
                proof {
                    lemma_json_field_views(out@);
                    lemma_json_field_views(fields@);
                    assert forall|j: int| 0 <= j < fields@.len() implies json_field_views(out@)[j]
                        == json_field_views(fields@)[j] by {
                        assert(out@[j].key@ == fields@[j].key@);
                        assert(out@[j].value@ == fields@[j].value@);
                    }
                    assert(json_field_views(out@) =~= json_field_views(fields@));
                }
                r
            },
        }
    }
}

} // verus!
