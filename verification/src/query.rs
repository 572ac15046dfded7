use vstd::prelude::*;

use crate::json::{binds_view, BindModel, BindValue, JsonModel, JsonValue};
use crate::params::{cond_view, cond_views, lemma_cond_views, CondModel, Condition};
use crate::strutil::{contains_sub, dec_str, push_char, str_contains, str_eq, strs_view, u64_to_string};
use crate::Error;

verus! {

broadcast use vstd::std_specs::vec::group_vec_axioms;

/// A field or sort name is usable only if it contains none of the four
/// forbidden characters. Field names are interpolated into SQL text (values
/// never are), so this check is the injection defense.
pub open spec fn valid_name(s: Seq<char>) -> bool {
    forall|i: int|
        0 <= i < s.len() ==> s[i] != '\'' && s[i] != '(' && s[i] != ')' && s[i] != ';'
}

/// The JSON path segments of a field name: splitting on `.` and joining the
/// segments with `,` is character-wise replacement.
pub open spec fn path_chars(f: Seq<char>) -> Seq<char> {
    Seq::new(f.len(), |i: int| if f[i] == '.' { ',' } else { f[i] })
}

/// The SQL text addressing field `f` inside the JSON payload column: the raw
/// extraction preserves the JSON type, the text extraction casts to text.
pub open spec fn field_key_model(f: Seq<char>, text: bool) -> Seq<char> {
    "data#>"@ + (if text {
        ">"@
    } else {
        Seq::<char>::empty()
    }) + "'{"@ + path_chars(f) + "}'"@
}

/// The text of placeholder number `n`.
pub open spec fn placeholder(n: int) -> Seq<char> {
    "$"@ + dec_str(n)
}

/// The text of a scalar comparison against placeholder `n`.
pub open spec fn cmp_sql_model(lhs: Seq<char>, op: Seq<char>, n: int) -> Seq<char> {
    lhs + " "@ + op + " "@ + placeholder(n)
}

/// The text of an array-membership test against placeholder `n`.
pub open spec fn any_sql_model(lhs: Seq<char>, n: int) -> Seq<char> {
    lhs + " = ANY("@ + placeholder(n) + ")"@
}

/// What a scalar comparison compiles to, starting at placeholder `s0`: the
/// reserved `_id` field binds its text value natively, the reserved timestamp
/// fields bind integers natively, every other field compares the raw JSON
/// extraction against a JSON binding. A value that is neither a string nor a
/// number fails. One placeholder is consumed and one value bound.
pub open spec fn normal_cmp_model(f: Seq<char>, op: Seq<char>, v: JsonModel, s0: int) -> Option<
    (Seq<char>, Seq<BindModel>),
> {
    if s0 + 1 > u32::MAX as int {
        None
    } else {
        match v {
            JsonModel::Str(sv) => if f == "_id"@ {
                Some((cmp_sql_model(f, op, s0), seq![BindModel::Str(sv)]))
            } else {
                Some((cmp_sql_model(field_key_model(f, false), op, s0), seq![BindModel::Json(v)]))
            },
            JsonModel::Num(n) => if f == "_created_at"@ || f == "_updated_at"@ {
                Some((cmp_sql_model(f, op, s0), seq![BindModel::Int(n)]))
            } else {
                Some((cmp_sql_model(field_key_model(f, false), op, s0), seq![BindModel::Json(v)]))
            },
            _ => None,
        }
    }
}

/// What a regular-expression match compiles to: the text extraction matched
/// against a bound pattern string. Any non-string pattern fails.
pub open spec fn regex_cmp_model(f: Seq<char>, op: Seq<char>, v: JsonModel, s0: int) -> Option<
    (Seq<char>, Seq<BindModel>),
> {
    if s0 + 1 > u32::MAX as int {
        None
    } else {
        match v {
            JsonModel::Str(sv) => Some(
                (cmp_sql_model(field_key_model(f, true), op, s0), seq![BindModel::Str(sv)]),
            ),
            _ => None,
        }
    }
}

/// Every element of `items` is a string.
pub open spec fn all_strs(items: Seq<JsonModel>) -> bool {
    forall|i: int| 0 <= i < items.len() ==> items[i] is Str
}

/// The strings of a homogeneous string array.
pub open spec fn str_items(items: Seq<JsonModel>) -> Seq<Seq<char>> {
    Seq::new(items.len(), |i: int| items[i]->Str_0)
}

/// Every element of `items` is a number.
pub open spec fn all_nums(items: Seq<JsonModel>) -> bool {
    forall|i: int| 0 <= i < items.len() ==> items[i] is Num
}

/// The numbers of a homogeneous numeric array.
pub open spec fn num_items(items: Seq<JsonModel>) -> Seq<int> {
    Seq::new(items.len(), |i: int| items[i]->Num_0)
}

/// What an array-membership test compiles to, starting at placeholder `s0`.
/// An empty array is an always-false predicate that consumes no placeholder
/// and binds nothing. The reserved `_id` field takes a string array, the
/// reserved timestamp fields an integer array; for any other field the first
/// element picks the homogeneous element type (number or string), and a
/// mismatched or unusable element fails. A non-array value fails.
pub open spec fn array_cmp_model(f: Seq<char>, v: JsonModel, s0: int) -> Option<
    (Seq<char>, Seq<BindModel>),
> {
    match v {
        JsonModel::Arr(items) => {
            if items.len() == 0 {
                Some(("FALSE"@, Seq::<BindModel>::empty()))
            } else if s0 + 1 > u32::MAX as int {
                None
            } else if f == "_id"@ {
                if all_strs(items) {
                    Some((any_sql_model(f, s0), seq![BindModel::StrArr(str_items(items))]))
                } else {
                    None
                }
            } else if f == "_created_at"@ || f == "_updated_at"@ {
                if all_nums(items) {
                    Some((any_sql_model(f, s0), seq![BindModel::IntArr(num_items(items))]))
                } else {
                    None
                }
            } else {
                match items[0] {
                    JsonModel::Num(_) => if all_nums(items) {
                        Some(
                            (
                                any_sql_model("("@ + field_key_model(f, false) + ")::FLOAT8"@, s0),
                                seq![BindModel::NumArr(num_items(items))],
                            ),
                        )
                    } else {
                        None
                    },
                    JsonModel::Str(_) => if all_strs(items) {
                        Some(
                            (
                                any_sql_model(field_key_model(f, true), s0),
                                seq![BindModel::StrArr(str_items(items))],
                            ),
                        )
                    } else {
                        None
                    },
                    _ => None,
                }
            }
        },
        _ => None,
    }
}

/// What a filter expression compiles to, starting at placeholder `s0`:
/// `None` when the expression is rejected, otherwise the SQL fragment and the
/// bound values, in placeholder order. Placeholder numbers are contiguous
/// from `s0`; the counter afterwards is `s0` plus the number of bound values.
pub open spec fn compile_model(c: CondModel, s0: int) -> Option<(Seq<char>, Seq<BindModel>)>
    decreases c,
{
    match c {
        CondModel::And(cs) => match compile_list_model(cs, s0, " AND "@) {
            Some((s, b)) => Some((("("@ + s + ")"@), b)),
            None => None,
        },
        CondModel::Or(cs) => match compile_list_model(cs, s0, " OR "@) {
            Some((s, b)) => Some((("("@ + s + ")"@), b)),
            None => None,
        },
        CondModel::Not(inner) => match compile_model(*inner, s0) {
            Some((s, b)) => Some((("(NOT ("@ + s + "))"@), b)),
            None => None,
        },
        CondModel::Regex(f, v) => if !valid_name(f) {
            None
        } else {
            regex_cmp_model(f, "~"@, v, s0)
        },
        CondModel::Regexi(f, v) => if !valid_name(f) {
            None
        } else {
            regex_cmp_model(f, "~*"@, v, s0)
        },
        CondModel::Eq(f, v) => if !valid_name(f) {
            None
        } else {
            normal_cmp_model(f, "="@, v, s0)
        },
        CondModel::Ne(f, v) => if !valid_name(f) {
            None
        } else {
            normal_cmp_model(f, "!="@, v, s0)
        },
        CondModel::Gt(f, v) => if !valid_name(f) {
            None
        } else {
            normal_cmp_model(f, ">"@, v, s0)
        },
        CondModel::Lt(f, v) => if !valid_name(f) {
            None
        } else {
            normal_cmp_model(f, "<"@, v, s0)
        },
        CondModel::Gte(f, v) => if !valid_name(f) {
            None
        } else {
            normal_cmp_model(f, ">="@, v, s0)
        },
        CondModel::Lte(f, v) => if !valid_name(f) {
            None
        } else {
            normal_cmp_model(f, "<="@, v, s0)
        },
        CondModel::In(f, v) => if !valid_name(f) {
            None
        } else {
            array_cmp_model(f, v, s0)
        },
        CondModel::Nin(f, v) => if !valid_name(f) {
            None
        } else {
            match array_cmp_model(f, v, s0) {
                Some((s, b)) => Some((("(NOT ("@ + s + "))"@), b)),
                None => None,
            }
        },
    }
}

/// What a list of child expressions compiles to: each child in turn from
/// placeholder `s0` onwards, the fragments joined by `sep`, the bound values
/// concatenated. The list fails as soon as any child fails.
pub open spec fn compile_list_model(cs: Seq<CondModel>, s0: int, sep: Seq<char>) -> Option<
    (Seq<char>, Seq<BindModel>),
> decreases cs,
{
    if cs.len() == 0 {
        Some((Seq::<char>::empty(), Seq::<BindModel>::empty()))
    } else {
        match compile_list_model(cs.drop_last(), s0, sep) {
            None => None,
            Some((s1, b1)) => match compile_model(cs.last(), s0 + b1.len()) {
                None => None,
                Some((s2, b2)) => Some(
                    (
                        if cs.len() == 1 {
                            s2
                        } else {
                            s1 + sep + s2
                        },
                        b1 + b2,
                    ),
                ),
            },
        }
    }
}

/// What every compilation step guarantees: on success the returned fragment,
/// the values appended to the binding list and the counter's advance are the
/// ones the model names — the counter moves by exactly the number of values
/// bound; on failure the model rejects the input and the error is a
/// validation error.
pub open spec fn compile_step_ok(
    m: Option<(Seq<char>, Seq<BindModel>)>,
    r: Result<String, Error>,
    b0: Seq<BindValue>,
    b1: Seq<BindValue>,
    s0: u32,
    s1: u32,
) -> bool {
    match r {
        Ok(s) => m matches Some(p) && s@ == p.0 && binds_view(b1) == binds_view(b0) + p.1 && s1
            == s0 + p.1.len(),
        Err(e) => m is None && e is Validation,
    }
}

/// Rejects any name containing a quote, a parenthesis or a semicolon.
pub fn check_invalid_chars(input: &str) -> (r: Result<(), Error>)
    ensures
        r is Ok <==> valid_name(input@),
        r is Err ==> r->Err_0 is Validation,
{
    let n = input.unicode_len();
    let mut i: usize = 0;
    while i < n
        invariant
            n == input@.len(),
            0 <= i <= n,
            forall|j: int|
                0 <= j < i ==> input@[j] != '\'' && input@[j] != '(' && input@[j] != ')'
                    && input@[j] != ';',
        decreases n - i,
    {
        let c = input.get_char(i);
        if c == '\'' || c == '(' || c == ')' || c == ';' {
            return Err(Error::Validation(String::from_str("Invalid characters in input")));
        }
        i = i + 1;
    }
    Ok(())
}

/// The raw JSON extraction of a field.
fn field_to_key(field: &str) -> (r: String)
    ensures
        r@ == field_key_model(field@, false),
{
    _field_to_key(field, false)
}

/// The text JSON extraction of a field.
fn field_to_key_t(field: &str) -> (r: String)
    ensures
        r@ == field_key_model(field@, true),
{
    _field_to_key(field, true)
}

/// Builds the JSON path extraction for a field, raw or text.
#[verifier::loop_isolation(false)]
fn _field_to_key(field: &str, text: bool) -> (r: String)
    ensures
        r@ == field_key_model(field@, text),
{
    let mut s = String::from_str("data#>");
    if text {
        s.append(">");
    }
    s.append("'{");
    let ghost head: Seq<char> = s@;
    let n = field.unicode_len();
    let mut i: usize = 0;
    while i < n
        invariant
            n == field@.len(),
            0 <= i <= n,
            s@ == head + path_chars(field@).subrange(0, i as int),
        decreases n - i,
    {
        let c = field.get_char(i);
        if c == '.' {
            push_char(&mut s, ',');
        } else {
            push_char(&mut s, c);
        }
        proof {
            assert(s@ =~= head + path_chars(field@).subrange(0, i + 1));
        }
        i = i + 1;
    }
    s.append("}'");
    proof {
        assert(path_chars(field@).subrange(0, field@.len() as int) =~= path_chars(field@));
        assert(s@ =~= field_key_model(field@, text));
    }
    s
}

/// Builds `<lhs> <op> $<n>`.
fn cmp_sql(lhs: String, op: &str, n: u32) -> (r: String)
    ensures
        r@ == cmp_sql_model(lhs@, op@, n as int),
{
    let mut s = lhs;
    s.append(" ");
    s.append(op);
    s.append(" ");
    s.append("$");
    let num = u64_to_string(n as u64);
    s.append(num.as_str());
    proof {
        assert(s@ =~= cmp_sql_model(lhs@, op@, n as int));
    }
    s
}

/// Builds `<lhs> = ANY($<n>)`.
fn any_sql(lhs: String, n: u32) -> (r: String)
    ensures
        r@ == any_sql_model(lhs@, n as int),
{
    let mut s = lhs;
    s.append(" = ANY(");
    s.append("$");
    let num = u64_to_string(n as u64);
    s.append(num.as_str());
    s.append(")");
    proof {
        assert(s@ =~= any_sql_model(lhs@, n as int));
    }
    s
}

/// Compiles one scalar comparison: allocates the next placeholder, appends
/// exactly one bind value, and returns the SQL fragment, as
/// `normal_cmp_model` states. Rejected values leave an unspecified counter
/// and binding list behind; the caller abandons the whole compilation.
pub fn normal_comparison(
    seq: &mut u32,
    bindings: &mut Vec<BindValue>,
    field: &str,
    op: &str,
    value: &JsonValue,
) -> (r: Result<String, Error>)
    ensures
        compile_step_ok(
            normal_cmp_model(field@, op@, value@, *old(seq) as int),
            r,
            old(bindings)@,
            final(bindings)@,
            *old(seq),
            *final(seq),
        ),
{
    if *seq == u32::MAX {
        return Err(Error::Validation(String::from_str("too many placeholders")));
    }
    let s = *seq;
    *seq = *seq + 1;
    match value {
        JsonValue::Str(v) => {
            if str_eq(field, "_id") {
                bindings.push(BindValue::Str(v.clone()));
                let r = cmp_sql(String::from_str(field), op, s);
                proof {
                    assert(binds_view(bindings@) =~= binds_view(old(bindings)@) + seq![
                        BindModel::Str(v@),
                    ]);
                }
                Ok(r)
            } else {
                bindings.push(BindValue::Json(value.deep_clone()));
                let r = cmp_sql(field_to_key(field), op, s);
                proof {
                    assert(binds_view(bindings@) =~= binds_view(old(bindings)@) + seq![
                        BindModel::Json(value@),
                    ]);
                }
                Ok(r)
            }
        },
        JsonValue::Num(v) => {
            if str_eq(field, "_created_at") || str_eq(field, "_updated_at") {
                bindings.push(BindValue::Int(*v));
                let r = cmp_sql(String::from_str(field), op, s);
                proof {
                    assert(binds_view(bindings@) =~= binds_view(old(bindings)@) + seq![
                        BindModel::Int(*v as int),
                    ]);
                }
                Ok(r)
            } else {
                bindings.push(BindValue::Json(value.deep_clone()));
                let r = cmp_sql(field_to_key(field), op, s);
                proof {
                    assert(binds_view(bindings@) =~= binds_view(old(bindings)@) + seq![
                        BindModel::Json(value@),
                    ]);
                }
                Ok(r)
            }
        },
        _ => {
            let mut msg = String::from_str("Invalid value for op ");
            msg.append(op);
            Err(Error::Validation(msg))
        },
    }
}

/// Compiles one regular-expression match: allocates the next placeholder,
/// appends the pattern string as its bind value, and returns the SQL
/// fragment, as `regex_cmp_model` states.
fn regex_comparison(
    seq: &mut u32,
    bindings: &mut Vec<BindValue>,
    field: &str,
    op: &str,
    value: &JsonValue,
    op_name: &str,
) -> (r: Result<String, Error>)
    ensures
        compile_step_ok(
            regex_cmp_model(field@, op@, value@, *old(seq) as int),
            r,
            old(bindings)@,
            final(bindings)@,
            *old(seq),
            *final(seq),
        ),
{
    if *seq == u32::MAX {
        return Err(Error::Validation(String::from_str("too many placeholders")));
    }
    let s = *seq;
    *seq = *seq + 1;
    match value {
        JsonValue::Str(v) => {
            bindings.push(BindValue::Str(v.clone()));
            let r = cmp_sql(field_to_key_t(field), op, s);
            proof {
                assert(binds_view(bindings@) =~= binds_view(old(bindings)@) + seq![
                    BindModel::Str(v@),
                ]);
            }
            Ok(r)
        },
        _ => {
            let mut msg = String::from_str("Invalid value for ");
            msg.append(op_name);
            Err(Error::Validation(msg))
        },
    }
}

/// Compiles one array-membership test: an empty array becomes the constant
/// `FALSE` predicate without touching the counter or the binding list;
/// otherwise one placeholder is allocated and the whole array bound as a
/// single homogeneous array value, as `array_cmp_model` states.
#[verifier::loop_isolation(false)]
pub fn array_comparison(
    seq: &mut u32,
    bindings: &mut Vec<BindValue>,
    field: &str,
    value: &JsonValue,
) -> (r: Result<String, Error>)
    ensures
        compile_step_ok(
            array_cmp_model(field@, value@, *old(seq) as int),
            r,
            old(bindings)@,
            final(bindings)@,
            *old(seq),
            *final(seq),
        ),
{
    broadcast use crate::json::lemma_json_views, crate::json::lemma_json_view_variant;

    match value {
        JsonValue::Arr(arr) => {
            let ghost items = crate::json::json_views(arr@);
            proof {
                crate::json::lemma_json_views(arr@);
            }
            if arr.len() == 0 {
                proof {
                    assert(binds_view(bindings@) =~= binds_view(old(bindings)@)
                        + Seq::<BindModel>::empty());
                }
                return Ok(String::from_str("FALSE"));
            }
            if *seq == u32::MAX {
                return Err(Error::Validation(String::from_str("too many placeholders")));
            }
            let s = *seq;
            *seq = *seq + 1;
            if str_eq(field, "_id") {
                let mut strs: Vec<String> = Vec::new();
                let mut i: usize = 0;
                while i < arr.len()
                    invariant
                        0 <= i <= arr.len(),
                        strs@.len() == i,
                        forall|j: int|
                            0 <= j < i ==> (#[trigger] items[j]) is Str && strs@[j]@
                                == items[j]->Str_0,
                    decreases arr.len() - i,
                {
                    match &arr[i] {
                        JsonValue::Str(sv) => {
                            strs.push(sv.clone());
                        },
                        _ => {
                            proof {
                                crate::json::lemma_json_view_variant(arr@[i as int]);
                                assert(items[i as int] == crate::json::json_view(
                                    arr@[i as int],
                                ));
                                assert(!(items[i as int] is Str));
                            }
                            let mut msg = String::from_str("Invalid value for field ");
                            msg.append(field);
                            return Err(Error::Validation(msg));
                        },
                    }
                    i = i + 1;
                }
                proof {
                    assert(all_strs(items));
                    assert(Seq::new(strs@.len(), |j: int| strs@[j]@) =~= str_items(items));
                }
                bindings.push(BindValue::StrArr(strs));
                proof {
                    assert(binds_view(bindings@) =~= binds_view(old(bindings)@) + seq![
                        BindModel::StrArr(str_items(items)),
                    ]);
                }
                Ok(any_sql(String::from_str(field), s))
            } else if str_eq(field, "_created_at") || str_eq(field, "_updated_at") {
                let mut nums: Vec<i64> = Vec::new();
                let mut i: usize = 0;
                while i < arr.len()
                    invariant
                        0 <= i <= arr.len(),
                        nums@.len() == i,
                        forall|j: int|
                            0 <= j < i ==> (#[trigger] items[j]) is Num && nums@[j] as int
                                == items[j]->Num_0,
                    decreases arr.len() - i,
                {
                    match &arr[i] {
                        JsonValue::Num(n) => {
                            nums.push(*n);
                        },
                        _ => {
                            proof {
                                crate::json::lemma_json_view_variant(arr@[i as int]);
                                assert(items[i as int] == crate::json::json_view(
                                    arr@[i as int],
                                ));
                                assert(!(items[i as int] is Num));
                            }
                            let mut msg = String::from_str("Invalid value for field ");
                            msg.append(field);
                            return Err(Error::Validation(msg));
                        },
                    }
                    i = i + 1;
                }
                proof {
                    assert(all_nums(items));
                    assert(Seq::new(nums@.len(), |j: int| nums@[j] as int) =~= num_items(items));
                }
                bindings.push(BindValue::IntArr(nums));
                proof {
                    assert(binds_view(bindings@) =~= binds_view(old(bindings)@) + seq![
                        BindModel::IntArr(num_items(items)),
                    ]);
                }
                Ok(any_sql(String::from_str(field), s))
            } else {
                let first_is_num = match &arr[0] {
                    JsonValue::Num(_) => true,
                    JsonValue::Str(_) => false,
                    _ => {
                        return Err(Error::Validation(String::from_str("Invalid value for op IN")));
                    },
                };
                if first_is_num {
                    let mut nums: Vec<i64> = Vec::new();
                    let mut i: usize = 0;
                    while i < arr.len()
                        invariant
                            0 <= i <= arr.len(),
                            nums@.len() == i,
                            forall|j: int|
                                0 <= j < i ==> (#[trigger] items[j]) is Num && nums@[j] as int
                                    == items[j]->Num_0,
                        decreases arr.len() - i,
                    {
                        match &arr[i] {
                            JsonValue::Num(n) => {
                                nums.push(*n);
                            },
                            _ => {
                                proof {
                                    crate::json::lemma_json_view_variant(arr@[i as int]);
                                    assert(items[i as int] == crate::json::json_view(
                                        arr@[i as int],
                                    ));
                                    assert(!(items[i as int] is Num));
                                }
                                let mut msg = String::from_str("Invalid value for field ");
                                msg.append(field);
                                return Err(Error::Validation(msg));
                            },
                        }
                        i = i + 1;
                    }
                    proof {
                        assert(all_nums(items));
                        assert(Seq::new(nums@.len(), |j: int| nums@[j] as int) =~= num_items(
                            items,
                        ));
                    }
                    bindings.push(BindValue::NumArr(nums));
                    let mut lhs = String::from_str("(");
                    let key = field_to_key(field);
                    lhs.append(key.as_str());
                    lhs.append(")::FLOAT8");
                    proof {
                        assert(lhs@ =~= "("@ + field_key_model(field@, false) + ")::FLOAT8"@);
                        assert(binds_view(bindings@) =~= binds_view(old(bindings)@) + seq![
                            BindModel::NumArr(num_items(items)),
                        ]);
                    }
                    Ok(any_sql(lhs, s))
                } else {
                    let mut strs: Vec<String> = Vec::new();
                    let mut i: usize = 0;
                    while i < arr.len()
                        invariant
                            0 <= i <= arr.len(),
                            strs@.len() == i,
                            forall|j: int|
                                0 <= j < i ==> (#[trigger] items[j]) is Str && strs@[j]@
                                    == items[j]->Str_0,
                        decreases arr.len() - i,
                    {
                        match &arr[i] {
                            JsonValue::Str(sv) => {
                                strs.push(sv.clone());
                            },
                            _ => {
                                proof {
                                    crate::json::lemma_json_view_variant(arr@[i as int]);
                                    assert(items[i as int] == crate::json::json_view(
                                        arr@[i as int],
                                    ));
                                    assert(!(items[i as int] is Str));
                                }
                                let mut msg = String::from_str("Invalid value for field ");
                                msg.append(field);
                                return Err(Error::Validation(msg));
                            },
                        }
                        i = i + 1;
                    }
                    proof {
                        assert(all_strs(items));
                        assert(Seq::new(strs@.len(), |j: int| strs@[j]@) =~= str_items(items));
                    }
                    bindings.push(BindValue::StrArr(strs));
                    proof {
                        assert(binds_view(bindings@) =~= binds_view(old(bindings)@) + seq![
                            BindModel::StrArr(str_items(items)),
                        ]);
                    }
                    Ok(any_sql(field_to_key_t(field), s))
                }
            }
        },
        _ => Err(Error::Validation(String::from_str("Invalid value for op IN"))),
    }
}

/// A list whose prefix compiles but whose next child is rejected is rejected
/// as a whole.
proof fn lemma_compile_list_fail(cs: Seq<CondModel>, s0: int, sep: Seq<char>, i: int)
    requires
        0 <= i < cs.len(),
        compile_list_model(cs.subrange(0, i), s0, sep) matches Some(p) && compile_model(
            cs[i],
            s0 + p.1.len(),
        ) is None,
    ensures
        compile_list_model(cs, s0, sep) is None,
    decreases cs.len(),
{
    if i == cs.len() - 1 {
        assert(cs.subrange(0, i) =~= cs.drop_last());
    } else {
        let pre = cs.drop_last();
        assert(pre.subrange(0, i) =~= cs.subrange(0, i));
        assert(pre[i] == cs[i]);
        lemma_compile_list_fail(pre, s0, sep, i);
    }
}

/// Compiles the children of a boolean combinator in order, joining their
/// fragments with `AND` or `OR` and threading the placeholder counter.
#[verifier::loop_isolation(false)]
fn compile_children(
    conds: &Vec<Condition>,
    bindings: &mut Vec<BindValue>,
    seq: &mut u32,
    and_sep: bool,
) -> (r: Result<String, Error>)
    ensures
        compile_step_ok(
            compile_list_model(
                cond_views(conds@),
                *old(seq) as int,
                if and_sep {
                    " AND "@
                } else {
                    " OR "@
                },
            ),
            r,
            old(bindings)@,
            final(bindings)@,
            *old(seq),
            *final(seq),
        ),
    decreases conds,
{
    broadcast use lemma_cond_views;

    let ghost cs = cond_views(conds@);
    let ghost s_entry = *seq;
    let ghost b_entry = bindings@;
    let sep_str: &str = if and_sep {
        " AND "
    } else {
        " OR "
    };
    let mut out = String::new();
    let mut i: usize = 0;
    while i < conds.len()
        invariant
            0 <= i <= conds.len(),
            compile_list_model(cs.subrange(0, i as int), s_entry as int, sep_str@) matches Some(p)
                && out@ == p.0 && binds_view(bindings@) == binds_view(b_entry) + p.1 && *seq
                == s_entry + p.1.len(),
        decreases conds.len() - i,
    {
        if i > 0 {
            out.append(sep_str);
        }
        proof {
            assert(decreases_to!(*conds => conds@[i as int]));
        }
        let ghost s_before = *seq;
        let ghost b_before = bindings@;
        let ghost out_before = out@;
        match cond_to_sql(&conds[i], bindings, seq) {
            Ok(part) => {
                out.append(part.as_str());
                proof {
                    let pre = cs.subrange(0, i as int);
                    let cur = cs.subrange(0, i + 1);
                    assert(cur.drop_last() =~= pre);
                    assert(cur.last() == cs[i as int]);
                    assert(cs[i as int] == cond_view(conds@[i as int]));
                    let p0 = compile_list_model(pre, s_entry as int, sep_str@)->Some_0;
                    let p1 = compile_model(cs[i as int], s_entry + p0.1.len())->Some_0;
                    assert(compile_list_model(cur, s_entry as int, sep_str@) matches Some(q)
                        && q.1 == p0.1 + p1.1 && q.0 == (if cur.len() == 1 {
                        p1.0
                    } else {
                        p0.0 + sep_str@ + p1.0
                    }));
                    assert(out@ =~= (if cur.len() == 1 {
                        p1.0
                    } else {
                        p0.0 + sep_str@ + p1.0
                    }));
                    assert(binds_view(bindings@) =~= binds_view(b_entry) + (p0.1 + p1.1));
                }
            },
            Err(e) => {
                proof {
                    lemma_compile_list_fail(cs, s_entry as int, sep_str@, i as int);
                }
                return Err(e);
            },
        }
        i = i + 1;
    }
    proof {
        assert(cs.subrange(0, conds@.len() as int) =~= cs);
    }
    Ok(out)
}

/// Compiles a filter expression into a SQL fragment, appending its bind
/// values to `bindings` and advancing the placeholder counter `seq` by
/// exactly one for each value appended, exactly as `compile_model` states.
/// Rejection reports a validation error and aborts the whole compilation.
pub fn cond_to_sql(cond: &Condition, bindings: &mut Vec<BindValue>, seq: &mut u32) -> (r: Result<
    String,
    Error,
>)
    ensures
        compile_step_ok(
            compile_model(cond@, *old(seq) as int),
            r,
            old(bindings)@,
            final(bindings)@,
            *old(seq),
            *final(seq),
        ),
    decreases cond,
{
    match cond {
        Condition::And(conds) => {
            proof {
                assert(decreases_to!(*cond => *conds));
            }
            match compile_children(conds, bindings, seq, true) {
                Ok(inner) => {
                    let mut out = String::from_str("(");
                    out.append(inner.as_str());
                    out.append(")");
                    proof {
                        assert(out@ =~= "("@ + inner@ + ")"@);
                    }
                    Ok(out)
                },
                Err(e) => Err(e),
            }
        },
        Condition::Or(conds) => {
            proof {
                assert(decreases_to!(*cond => *conds));
            }
            match compile_children(conds, bindings, seq, false) {
                Ok(inner) => {
                    let mut out = String::from_str("(");
                    out.append(inner.as_str());
                    out.append(")");
                    proof {
                        assert(out@ =~= "("@ + inner@ + ")"@);
                    }
                    Ok(out)
                },
                Err(e) => Err(e),
            }
        },
        Condition::Not(inner) => {
            match cond_to_sql(&*inner, bindings, seq) {
                Ok(part) => {
                    let mut out = String::from_str("(NOT (");
                    out.append(part.as_str());
                    out.append("))");
                    proof {
                        assert(out@ =~= "(NOT ("@ + part@ + "))"@);
                    }
                    Ok(out)
                },
                Err(e) => Err(e),
            }
        },
        Condition::Regex(field, value) => {
            match check_invalid_chars(field.as_str()) {
                Err(e) => Err(e),
                Ok(_) => regex_comparison(seq, bindings, field.as_str(), "~", value, "Regex"),
            }
        },
        Condition::Regexi(field, value) => {
            match check_invalid_chars(field.as_str()) {
                Err(e) => Err(e),
                Ok(_) => regex_comparison(seq, bindings, field.as_str(), "~*", value, "Regexi"),
            }
        },
        Condition::Eq(field, value) => {
            match check_invalid_chars(field.as_str()) {
                Err(e) => Err(e),
                Ok(_) => normal_comparison(seq, bindings, field.as_str(), "=", value),
            }
        },
        Condition::Ne(field, value) => {
            match check_invalid_chars(field.as_str()) {
                Err(e) => Err(e),
                Ok(_) => normal_comparison(seq, bindings, field.as_str(), "!=", value),
            }
        },
        Condition::Gt(field, value) => {
            match check_invalid_chars(field.as_str()) {
                Err(e) => Err(e),
                Ok(_) => normal_comparison(seq, bindings, field.as_str(), ">", value),
            }
        },
        Condition::Lt(field, value) => {
            match check_invalid_chars(field.as_str()) {
                Err(e) => Err(e),
                Ok(_) => normal_comparison(seq, bindings, field.as_str(), "<", value),
            }
        },
        Condition::Gte(field, value) => {
            match check_invalid_chars(field.as_str()) {
                Err(e) => Err(e),
                Ok(_) => normal_comparison(seq, bindings, field.as_str(), ">=", value),
            }
        },
        Condition::Lte(field, value) => {
            match check_invalid_chars(field.as_str()) {
                Err(e) => Err(e),
                Ok(_) => normal_comparison(seq, bindings, field.as_str(), "<=", value),
            }
        },
        Condition::In(field, value) => {
            match check_invalid_chars(field.as_str()) {
                Err(e) => Err(e),
                Ok(_) => array_comparison(seq, bindings, field.as_str(), value),
            }
        },
        Condition::Nin(field, value) => {
            match check_invalid_chars(field.as_str()) {
                Err(e) => Err(e),
                Ok(_) => {
                    match array_comparison(seq, bindings, field.as_str(), value) {
                        Ok(part) => {
                            let mut out = String::from_str("(NOT (");
                            out.append(part.as_str());
                            out.append("))");
                            proof {
                                assert(out@ =~= "(NOT ("@ + part@ + "))"@);
                            }
                            Ok(out)
                        },
                        Err(e) => Err(e),
                    }
                },
            }
        },
    }
}

/// The sort mini-language's delimiters: each field name is introduced by a
/// direction sign.
pub open spec fn is_sort_delim(c: char) -> bool {
    c == '+' || c == '-'
}

/// Splitting a sort specification on its delimiters, keeping empty pieces:
/// one piece before the first delimiter, one between each pair, one after the
/// last.
pub open spec fn split_tokens(s: Seq<char>) -> Seq<Seq<char>>
    decreases s.len(),
{
    if s.len() == 0 {
        seq![Seq::<char>::empty()]
    } else {
        let prev = split_tokens(s.drop_last());
        if is_sort_delim(s.last()) {
            prev.push(Seq::empty())
        } else {
            prev.update(prev.len() - 1, prev.last().push(s.last()))
        }
    }
}

/// The non-empty pieces of a split, in order.
pub open spec fn nonempty_of(ts: Seq<Seq<char>>) -> Seq<Seq<char>>
    decreases ts,
{
    if ts.len() == 0 {
        Seq::empty()
    } else {
        nonempty_of(ts.drop_last()) + (if ts.last().len() > 0 {
            seq![ts.last()]
        } else {
            Seq::<Seq<char>>::empty()
        })
    }
}

/// The field names of a sort specification, in source order.
pub open spec fn sort_fields(s: Seq<char>) -> Seq<Seq<char>> {
    nonempty_of(split_tokens(s))
}

/// One ORDER BY clause: the text extraction of the field and its direction.
/// A field is ascending exactly when `+` immediately followed by the field
/// name occurs somewhere in the whole specification.
pub open spec fn sort_clause_model(t: Seq<char>, full: Seq<char>) -> Seq<char> {
    field_key_model(t, true) + " "@ + (if contains_sub(full, "+"@ + t) {
        "ASC"@
    } else {
        "DESC"@
    })
}

/// The ORDER BY clauses of the given fields, joined by commas, in order.
pub open spec fn sort_clauses_model(ts: Seq<Seq<char>>, full: Seq<char>) -> Seq<char>
    decreases ts,
{
    if ts.len() == 0 {
        Seq::empty()
    } else if ts.len() == 1 {
        sort_clause_model(ts[0], full)
    } else {
        sort_clauses_model(ts.drop_last(), full) + ", "@ + sort_clause_model(ts.last(), full)
    }
}

/// What a sort specification compiles to: `None` when it holds a forbidden
/// character; the fixed default `_id ASC` when it names no field; otherwise
/// one clause per field in source order.
pub open spec fn sort_model(s: Seq<char>) -> Option<Seq<char>> {
    if !valid_name(s) {
        None
    } else if sort_fields(s).len() == 0 {
        Some("_id ASC"@)
    } else {
        Some(sort_clauses_model(sort_fields(s), s))
    }
}

/// Compiles a sort specification into an ORDER BY fragment, exactly as
/// `sort_model` states.
#[verifier::loop_isolation(false)]
pub fn sort_to_sql(sort_expr: &str) -> (r: Result<String, Error>)
    ensures
        r matches Ok(s) ==> sort_model(sort_expr@) == Some(s@),
        r is Ok <==> sort_model(sort_expr@) is Some,
        r matches Err(e) ==> e is Validation,
{
    broadcast use crate::strutil::lemma_strs_view_push;

    match check_invalid_chars(sort_expr) {
        Err(e) => {
            return Err(e);
        },
        Ok(_) => {},
    }
    let n = sort_expr.unicode_len();
    let mut done: Vec<String> = Vec::new();
    let mut cur = String::new();
    let mut i: usize = 0;
    while i < n
        invariant
            0 <= i <= n,
            n == sort_expr@.len(),
            strs_view(done@).push(cur@) == split_tokens(sort_expr@.subrange(0, i as int)),
        decreases n - i,
    {
        let ghost prefix = sort_expr@.subrange(0, i as int);
        let ghost prefix1 = sort_expr@.subrange(0, i + 1);
        proof {
            assert(prefix1.drop_last() =~= prefix);
            assert(prefix1.last() == sort_expr@[i as int]);
        }
        let c = sort_expr.get_char(i);
        if c == '+' || c == '-' {
            done.push(cur);
            cur = String::new();
            proof {
                assert(strs_view(done@).push(cur@) =~= split_tokens(prefix1));
            }
        } else {
            push_char(&mut cur, c);
            proof {
                let prev = split_tokens(prefix);
                assert(split_tokens(prefix1) == prev.update(prev.len() - 1, prev.last().push(
                    sort_expr@[i as int],
                )));
                assert(strs_view(done@).push(cur@) =~= split_tokens(prefix1));
            }
        }
        i = i + 1;
    }
    done.push(cur);
    proof {
        assert(sort_expr@.subrange(0, n as int) =~= sort_expr@);
        assert(strs_view(done@) == split_tokens(sort_expr@));
    }
    let mut toks: Vec<String> = Vec::new();
    let mut j: usize = 0;
    while j < done.len()
        invariant
            0 <= j <= done.len(),
            strs_view(toks@) == nonempty_of(strs_view(done@).subrange(0, j as int)),
        decreases done.len() - j,
    {
        let ghost pre = strs_view(done@).subrange(0, j as int);
        let ghost pre1 = strs_view(done@).subrange(0, j + 1);
        proof {
            assert(pre1.drop_last() =~= pre);
            assert(pre1.last() == done@[j as int]@);
        }
        if !done[j].as_str().is_empty() {
            let t = done[j].clone();
            toks.push(t);
            proof {
                assert(strs_view(toks@) =~= nonempty_of(pre1));
            }
        } else {
            proof {
                assert(strs_view(toks@) =~= nonempty_of(pre1));
            }
        }
        j = j + 1;
    }
    proof {
        assert(strs_view(done@).subrange(0, done@.len() as int) =~= strs_view(done@));
        assert(strs_view(toks@) == sort_fields(sort_expr@));
    }
    if toks.len() == 0 {
        return Ok(String::from_str("_id ASC"));
    }
    let ghost ts = strs_view(toks@);
    let mut out = String::new();
    let mut k: usize = 0;
    while k < toks.len()
        invariant
            0 <= k <= toks.len(),
            out@ == sort_clauses_model(ts.subrange(0, k as int), sort_expr@),
        decreases toks.len() - k,
    {
        let ghost pre = ts.subrange(0, k as int);
        let ghost pre1 = ts.subrange(0, k + 1);
        proof {
            assert(pre1.drop_last() =~= pre);
            assert(pre1.last() == toks@[k as int]@);
        }
        if k > 0 {
            out.append(", ");
        }
        let key = field_to_key_t(toks[k].as_str());
        out.append(key.as_str());
        out.append(" ");
        let mut plus = String::from_str("+");
        plus.append(toks[k].as_str());
        proof {
            assert(plus@ == "+"@ + toks@[k as int]@);
        }
        if str_contains(sort_expr, plus.as_str()) {
            out.append("ASC");
        } else {
            out.append("DESC");
        }
        proof {
            assert(out@ =~= sort_clauses_model(pre1, sort_expr@));
        }
        k = k + 1;
    }
    proof {
        assert(ts.subrange(0, toks@.len() as int) =~= ts);
    }
    Ok(out)
}

/// The field of a comparison, regex or membership test; the boolean
/// combinators carry none.
pub open spec fn leaf_field(c: CondModel) -> Option<Seq<char>> {
    match c {
        CondModel::And(_) => None,
        CondModel::Or(_) => None,
        CondModel::Not(_) => None,
        CondModel::Regex(f, _) => Some(f),
        CondModel::Regexi(f, _) => Some(f),
        CondModel::Eq(f, _) => Some(f),
        CondModel::Ne(f, _) => Some(f),
        CondModel::Gt(f, _) => Some(f),
        CondModel::Lt(f, _) => Some(f),
        CondModel::Gte(f, _) => Some(f),
        CondModel::Lte(f, _) => Some(f),
        CondModel::In(f, _) => Some(f),
        CondModel::Nin(f, _) => Some(f),
    }
}

/// Compilation is a pure function of the filter and the starting counter:
/// two compilations of the same filter from independently reset counters
/// yield identical SQL text and identical binding sequences. `cond_to_sql`
/// returns exactly this model's output, so two runs agree.
pub proof fn lemma_compile_deterministic(
    c: CondModel,
    s0: int,
    r1: Option<(Seq<char>, Seq<BindModel>)>,
    r2: Option<(Seq<char>, Seq<BindModel>)>,
)
    requires
        r1 == compile_model(c, s0),
        r2 == compile_model(c, s0),
    ensures
        r1 == r2,
{
}

/// A membership test over an empty array compiles to the constant-false
/// predicate, consuming no placeholder and binding nothing, for every field
/// free of forbidden characters and every counter value.
pub proof fn lemma_in_empty_always_false(f: Seq<char>, s0: int)
    requires
        valid_name(f),
    ensures
        compile_model(CondModel::In(f, JsonModel::Arr(Seq::empty())), s0) == Some(
            ("FALSE"@, Seq::<BindModel>::empty()),
        ),
{
}

/// The negated membership test over an empty array compiles to the negation
/// of that predicate — an always-true fragment — likewise consuming nothing.
pub proof fn lemma_nin_empty_always_true(f: Seq<char>, s0: int)
    requires
        valid_name(f),
    ensures
        compile_model(CondModel::Nin(f, JsonModel::Arr(Seq::empty())), s0) == Some(
            ("(NOT (FALSE))"@, Seq::<BindModel>::empty()),
        ),
{
    reveal_strlit("(NOT (");
    reveal_strlit("FALSE");
    reveal_strlit("))");
    reveal_strlit("(NOT (FALSE))");
    assert("(NOT ("@ + "FALSE"@ + "))"@ =~= "(NOT (FALSE))"@);
}

/// Field validation guards every comparison: a filter whose field contains a
/// quote, a parenthesis or a semicolon is rejected outright, whatever the
/// operator, the value or the counter.
pub proof fn lemma_forbidden_field_rejected(c: CondModel, s0: int)
    requires
        leaf_field(c) matches Some(f) && !valid_name(f),
    ensures
        compile_model(c, s0) is None,
{
}

/// Sort validation rejects the same forbidden characters: a sort
/// specification containing one never compiles.
pub proof fn lemma_forbidden_sort_rejected(s: Seq<char>)
    requires
        !valid_name(s),
    ensures
        sort_model(s) is None,
{
}

/// The placeholder/binding balance: however a list of children compiles,
/// every child's bindings are appended in order and the continuation counter
/// of each child is the start plus the bindings already appended — so
/// placeholder numbers are contiguous across the whole list.
pub proof fn lemma_list_binds_concat(cs: Seq<CondModel>, s0: int, sep: Seq<char>)
    requires
        cs.len() > 0,
        compile_list_model(cs, s0, sep) is Some,
    ensures
        compile_list_model(cs.drop_last(), s0, sep) matches Some(p) && compile_model(
            cs.last(),
            s0 + p.1.len(),
        ) matches Some(q) && compile_list_model(cs, s0, sep)->Some_0.1 == p.1 + q.1,
{
}

} // verus!
