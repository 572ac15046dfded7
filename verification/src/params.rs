use vstd::prelude::*;

use crate::json::{json_view, JsonField, JsonModel, JsonValue};

verus! {

/// The mathematical model of a filter expression.
pub enum CondModel {
    And(Seq<CondModel>),
    Or(Seq<CondModel>),
    Not(Box<CondModel>),
    Regex(Seq<char>, JsonModel),
    Regexi(Seq<char>, JsonModel),
    Eq(Seq<char>, JsonModel),
    Ne(Seq<char>, JsonModel),
    Gt(Seq<char>, JsonModel),
    Lt(Seq<char>, JsonModel),
    Gte(Seq<char>, JsonModel),
    Lte(Seq<char>, JsonModel),
    In(Seq<char>, JsonModel),
    Nin(Seq<char>, JsonModel),
}

/// A filter expression: an immutable tagged tree of boolean combinators over
/// field comparisons. Compilation turns one of these into a SQL fragment plus
/// an ordered list of typed bind values.
#[derive(Debug)]
pub enum Condition {
    And(Vec<Condition>),
    Or(Vec<Condition>),
    Not(Box<Condition>),
    Regex(String, JsonValue),
    Regexi(String, JsonValue),
    Eq(String, JsonValue),
    Ne(String, JsonValue),
    Gt(String, JsonValue),
    Lt(String, JsonValue),
    Gte(String, JsonValue),
    Lte(String, JsonValue),
    In(String, JsonValue),
    Nin(String, JsonValue),
}

/// The model of a filter expression.
pub open spec fn cond_view(c: Condition) -> CondModel
    decreases c,
{
    match c {
        Condition::And(cs) => CondModel::And(cond_views(cs@)),
        Condition::Or(cs) => CondModel::Or(cond_views(cs@)),
        Condition::Not(inner) => CondModel::Not(Box::new(cond_view(*inner))),
        Condition::Regex(f, v) => CondModel::Regex(f@, json_view(v)),
        Condition::Regexi(f, v) => CondModel::Regexi(f@, json_view(v)),
        Condition::Eq(f, v) => CondModel::Eq(f@, json_view(v)),
        Condition::Ne(f, v) => CondModel::Ne(f@, json_view(v)),
        Condition::Gt(f, v) => CondModel::Gt(f@, json_view(v)),
        Condition::Lt(f, v) => CondModel::Lt(f@, json_view(v)),
        Condition::Gte(f, v) => CondModel::Gte(f@, json_view(v)),
        Condition::Lte(f, v) => CondModel::Lte(f@, json_view(v)),
        Condition::In(f, v) => CondModel::In(f@, json_view(v)),
        Condition::Nin(f, v) => CondModel::Nin(f@, json_view(v)),
    }
}

/// The models of a sequence of filter expressions, in order.
pub open spec fn cond_views(cs: Seq<Condition>) -> Seq<CondModel>
    decreases cs,
{
    if cs.len() == 0 {
        Seq::empty()
    } else {
        cond_views(cs.drop_last()).push(cond_view(cs.last()))
    }
}

/// `cond_views` maps the model of each element, preserving length and order.
pub broadcast proof fn lemma_cond_views(cs: Seq<Condition>)
    ensures
        (#[trigger] cond_views(cs)).len() == cs.len(),
        forall|j: int| 0 <= j < cs.len() ==> cond_views(cs)[j] == cond_view(cs[j]),
    decreases cs,
{
    if cs.len() > 0 {
        lemma_cond_views(cs.drop_last());
    }
}

impl View for Condition {
    type V = CondModel;

    open spec fn view(&self) -> CondModel {
        cond_view(*self)
    }
}

/// Selects the rows to mutate and gives, per top-level field name, the new
/// value to set inside the stored payload (a shallow merge).
#[derive(Debug)]
pub struct PatchParams {
    pub filter: Condition,
    pub patch: Vec<JsonField>,
}

/// Selects the rows to remove. A filter is mandatory: there is no
/// unconditional delete-all.
#[derive(Debug)]
pub struct DeleteParams {
    pub filter: Condition,
}

} // verus!
