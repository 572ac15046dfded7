use vstd::prelude::*;

use crate::doc::Doc;
use crate::json::{binds_view, BindModel, BindValue, json_field_views, JsonModel};
use crate::pagination::{Pagination, PaginationParams, DEFAULT_LIMIT, DEFAULT_PAGE};
use crate::params::{cond_view, CondModel, Condition, DeleteParams, PatchParams};
use crate::query::{compile_model, sort_model, cond_to_sql, sort_to_sql};
use crate::response::{DeleteResult, PaginationResult, UpdateResult, UpsertResult};
use crate::strutil::{dec_str, u64_to_string};
use crate::Error;

verus! {

broadcast use vstd::std_specs::vec::group_vec_axioms;

/// The idempotent schema statement for one document table: a text primary
/// key, a required JSON payload column, and two millisecond timestamps
/// defaulted server-side to the current time. Creation only; never drops or
/// alters existing structure.
pub open spec fn init_sql_model(db: Seq<char>, table: Seq<char>) -> Seq<char> {
    "CREATE TABLE IF NOT EXISTS "@ + db + "."@ + table
        + " (_id VARCHAR(24) PRIMARY KEY, data JSONB NOT NULL, _created_at BIGINT DEFAULT (EXTRACT(EPOCH FROM NOW()) * 1000)::BIGINT, _updated_at BIGINT DEFAULT (EXTRACT(EPOCH FROM NOW()) * 1000)::BIGINT)"@
}

/// Builds the schema statement for `db.table`.
pub fn init_sql(db_name: &str, table_name: &str) -> (r: String)
    ensures
        r@ == init_sql_model(db_name@, table_name@),
{
    let mut s = String::from_str("CREATE TABLE IF NOT EXISTS ");
    s.append(db_name);
    s.append(".");
    s.append(table_name);
    s.append(
        " (_id VARCHAR(24) PRIMARY KEY, data JSONB NOT NULL, _created_at BIGINT DEFAULT (EXTRACT(EPOCH FROM NOW()) * 1000)::BIGINT, _updated_at BIGINT DEFAULT (EXTRACT(EPOCH FROM NOW()) * 1000)::BIGINT)",
    );
    proof {
        assert(s@ =~= init_sql_model(db_name@, table_name@));
    }
    s
}

/// The single-row lookup statement: the id is always a bound parameter,
/// never interpolated.
pub open spec fn select_by_id_sql_model(db: Seq<char>, table: Seq<char>) -> Seq<char> {
    "SELECT * FROM "@ + db + "."@ + table + " WHERE _id = $"@ + dec_str(1)
}

/// Builds the by-id lookup for `db.table`: the statement and its one text
/// binding.
pub fn select_by_id_query(db_name: &str, table_name: &str, id: &str) -> (r: (
    String,
    Vec<BindValue>,
))
    ensures
        r.0@ == select_by_id_sql_model(db_name@, table_name@),
        binds_view(r.1@) == seq![BindModel::Str(id@)],
{
    let mut s = String::from_str("SELECT * FROM ");
    s.append(db_name);
    s.append(".");
    s.append(table_name);
    s.append(" WHERE _id = $");
    let num = u64_to_string(1);
    s.append(num.as_str());
    let mut binds: Vec<BindValue> = Vec::new();
    binds.push(BindValue::Str(String::from_str(id)));
    proof {
        assert(s@ =~= select_by_id_sql_model(db_name@, table_name@));
        assert(binds_view(binds@) =~= seq![BindModel::Str(id@)]);
    }
    (s, binds)
}

/// Reduces the rows of a by-id lookup: zero rows is the not-found error, and
/// one or more rows yields the first. An absent id is an error; nothing else
/// here is.
pub fn select_result(rows: Vec<Doc>) -> (r: Result<Doc, Error>)
    ensures
        r is Err <==> rows@.len() == 0,
        r is Err ==> r->Err_0 is NotFound,
        rows@.len() > 0 ==> (r matches Ok(d) && d == rows@[0]),
{
    let mut rows = rows;
    if rows.len() == 0 {
        Err(Error::NotFound)
    } else {
        Ok(rows.remove(0))
    }
}

/// The page actually served for a requested page: the default when absent,
/// clamped to at least one.
pub open spec fn clamp_page(p: Option<u32>) -> u32 {
    match p {
        Some(v) => if v < 1 {
            1u32
        } else {
            v
        },
        None => DEFAULT_PAGE,
    }
}

/// The page size actually served: the default when absent, clamped to at
/// least one.
pub open spec fn clamp_limit(l: Option<u32>) -> u32 {
    match l {
        Some(v) => if v < 1 {
            1u32
        } else {
            v
        },
        None => DEFAULT_LIMIT,
    }
}

/// The model of an optional filter.
pub open spec fn opt_cond_view(f: Option<Condition>) -> Option<CondModel> {
    match f {
        None => None,
        Some(c) => Some(cond_view(c)),
    }
}

/// The WHERE fragment of an optional filter, compiled from placeholder 1: no
/// filter is the empty fragment with no bindings; a filter that compiles is
/// prefixed with the keyword; a rejected filter rejects the request.
pub open spec fn where_clause_model(f: Option<CondModel>) -> Option<(Seq<char>, Seq<BindModel>)> {
    match f {
        None => Some((Seq::<char>::empty(), Seq::<BindModel>::empty())),
        Some(c) => match compile_model(c, 1) {
            None => None,
            Some((s, b)) => Some(("WHERE "@ + s, b)),
        },
    }
}

/// The ORDER BY fragment of an optional sort specification: the default `_id
/// ASC` when absent.
pub open spec fn order_clause_model(sort: Option<Seq<char>>) -> Option<Seq<char>> {
    match sort {
        None => Some("_id ASC"@),
        Some(s) => sort_model(s),
    }
}

/// The page-data statement.
pub open spec fn select_page_sql_model(
    db: Seq<char>,
    table: Seq<char>,
    where_sql: Seq<char>,
    order: Seq<char>,
    limit: int,
    offset: int,
) -> Seq<char> {
    "SELECT * FROM "@ + db + "."@ + table + " "@ + where_sql + " ORDER BY "@ + order + " LIMIT "@
        + dec_str(limit) + " OFFSET "@ + dec_str(offset)
}

/// The row-count statement over the same filter.
pub open spec fn count_sql_model(db: Seq<char>, table: Seq<char>, where_sql: Seq<char>) -> Seq<
    char,
> {
    "SELECT COUNT(*) FROM "@ + db + "."@ + table + " "@ + where_sql
}

/// The two statements of a page request, sharing one compiled filter and one
/// binding list, plus the page and limit actually served.
pub struct PaginateQuery {
    pub count_sql: String,
    pub select_sql: String,
    pub bindings: Vec<BindValue>,
    pub page: u32,
    pub limit: u32,
}

/// Builds the two statements of a page request: clamps page and limit,
/// compiles the filter once into a WHERE fragment and bindings shared by the
/// count and the data statement, compiles the sort, and computes `offset =
/// (page - 1) * limit`. A rejected filter or sort rejects the request before
/// any statement is issued.
pub fn build_paginate(db_name: &str, table_name: &str, params: &PaginationParams) -> (r: Result<
    PaginateQuery,
    Error,
>)
    ensures
        ({
            let page = clamp_page(params.page);
            let limit = clamp_limit(params.limit);
            let offset = (page - 1) * limit as int;
            let wm = where_clause_model(opt_cond_view(params.filter));
            let om = order_clause_model(
                match &params.sort {
                    None => None,
                    Some(s) => Some(s@),
                },
            );
            match r {
                Ok(q) => wm matches Some(w) && om matches Some(o) && q.count_sql@
                    == count_sql_model(db_name@, table_name@, w.0) && q.select_sql@
                    == select_page_sql_model(
                    db_name@,
                    table_name@,
                    w.0,
                    o,
                    limit as int,
                    offset,
                ) && binds_view(q.bindings@) == w.1 && q.page == page && q.limit == limit,
                Err(e) => (wm is None || om is None) && e is Validation,
            }
        }),
{
    let page: u32 = match params.page {
        Some(p) => if p < 1 {
            1
        } else {
            p
        },
        None => DEFAULT_PAGE,
    };
    let limit: u32 = match params.limit {
        Some(l) => if l < 1 {
            1
        } else {
            l
        },
        None => DEFAULT_LIMIT,
    };
    proof {
        assert((page as u64 - 1) * (limit as u64) <= (0xFFFF_FFFFu64 * 0xFFFF_FFFFu64))
            by (nonlinear_arith)
            requires
                1 <= page <= u32::MAX,
                limit <= u32::MAX,
        ;
    }
    let offset: u64 = (page as u64 - 1) * (limit as u64);
    let mut seq_n: u32 = 1;
    let mut bindings: Vec<BindValue> = Vec::new();
    let where_sql: String = match &params.filter {
        Some(filter) => {
            match cond_to_sql(filter, &mut bindings, &mut seq_n) {
                Ok(sql) => {
                    let mut w = String::from_str("WHERE ");
                    w.append(sql.as_str());
                    w
                },
                Err(e) => {
                    return Err(e);
                },
            }
        },
        None => String::new(),
    };
    let order_sql: String = match &params.sort {
        Some(sort_expr) => match sort_to_sql(sort_expr.as_str()) {
            Ok(s) => s,
            Err(e) => {
                return Err(e);
            },
        },
        None => String::from_str("_id ASC"),
    };
    let mut select_sql = String::from_str("SELECT * FROM ");
    select_sql.append(db_name);
    select_sql.append(".");
    select_sql.append(table_name);
    select_sql.append(" ");
    select_sql.append(where_sql.as_str());
    select_sql.append(" ORDER BY ");
    select_sql.append(order_sql.as_str());
    select_sql.append(" LIMIT ");
    let l = u64_to_string(limit as u64);
    select_sql.append(l.as_str());
    select_sql.append(" OFFSET ");
    let o = u64_to_string(offset);
    select_sql.append(o.as_str());
    let mut count_sql = String::from_str("SELECT COUNT(*) FROM ");
    count_sql.append(db_name);
    count_sql.append(".");
    count_sql.append(table_name);
    count_sql.append(" ");
    count_sql.append(where_sql.as_str());
    proof {
        let wm = where_clause_model(opt_cond_view(params.filter))->Some_0;
        let om = order_clause_model(
            match &params.sort {
                None => None,
                Some(s) => Some(s@),
            },
        )->Some_0;
        assert(where_sql@ =~= wm.0);
        assert(select_sql@ =~= select_page_sql_model(
            db_name@,
            table_name@,
            wm.0,
            om,
            limit as int,
            (page - 1) * limit as int,
        ));
        assert(count_sql@ =~= count_sql_model(db_name@, table_name@, wm.0));
        assert(binds_view(bindings@) =~= wm.1);
    }
    Ok(PaginateQuery { count_sql, select_sql, bindings, page, limit })
}

/// Whether the data statement of a page request is issued at all: only when
/// the count came back positive. A zero count answers the request with an
/// empty page and no second statement.
pub fn should_fetch_items(total_count: u32) -> (r: bool)
    ensures
        r <==> total_count > 0,
{
    total_count > 0
}

/// The pagination law: how many pages a total of `a` rows fills at `b` per
/// page, rounding up.
pub open spec fn ceil_div(a: int, b: int) -> int {
    (a + b - 1) / b
}

/// Assembles a page of items with its metadata. The page count is the
/// ceiling of `total_count / limit`, and it is zero exactly when the total
/// is zero.
pub fn paginate_result(total_count: u32, page: u32, limit: u32, items: Vec<Doc>) -> (r:
    PaginationResult)
    requires
        limit >= 1,
    ensures
        r.pagination.total_count == total_count,
        r.pagination.current_page == page,
        r.pagination.items_per_page == limit,
        r.pagination.total_pages == ceil_div(total_count as int, limit as int),
        r.pagination.total_pages == 0 <==> total_count == 0,
        r.items == items,
{
    let extra: u32 = if total_count % limit > 0 {
        1
    } else {
        0
    };
    proof {
        assert(total_count / limit + extra <= u32::MAX && total_count / limit + extra == ceil_div(
            total_count as int,
            limit as int,
        ) && (total_count / limit + extra == 0 <==> total_count == 0)) by (nonlinear_arith)
            requires
                limit >= 1,
                total_count <= u32::MAX,
                extra == (if total_count % limit > 0 {
                    1u32
                } else {
                    0u32
                }),
        ;
    }
    let total_pages = total_count / limit + extra;
    PaginationResult {
        items,
        pagination: Pagination { total_count, total_pages, current_page: page, items_per_page: limit },
    }
}

/// The VALUES tuples of a multi-row insert: one `($odd, $even)` pair per
/// row, comma-separated, placeholders numbered from 1.
pub open spec fn values_list_model(n: int) -> Seq<char>
    decreases n,
{
    if n <= 0 {
        Seq::<char>::empty()
    } else if n == 1 {
        "($"@ + dec_str(1) + ", $"@ + dec_str(2) + ")"@
    } else {
        values_list_model(n - 1) + ", "@ + "($"@ + dec_str(2 * (n - 1) + 1) + ", $"@ + dec_str(
            2 * (n - 1) + 2,
        ) + ")"@
    }
}

/// The single upsert statement for `n` documents: a multi-row insert whose
/// conflict clause replaces the payload wholesale and refreshes the update
/// time, reporting per row whether it was a fresh insert.
pub open spec fn upsert_sql_model(db: Seq<char>, table: Seq<char>, n: int) -> Seq<char> {
    "INSERT INTO "@ + db + "."@ + table + " (_id, data) VALUES "@ + values_list_model(n)
        + " ON CONFLICT (_id) DO UPDATE SET data = EXCLUDED.data, _updated_at = (EXTRACT(EPOCH FROM NOW()) * 1000)::BIGINT RETURNING (xmax = 0) AS inserted;"@
}

/// The bindings of an upsert: per document, its id then its payload.
pub open spec fn upsert_binds_model(docs: Seq<Doc>) -> Seq<BindModel>
    decreases docs,
{
    if docs.len() == 0 {
        Seq::<BindModel>::empty()
    } else {
        upsert_binds_model(docs.drop_last()) + seq![
            BindModel::Str(docs.last()._id@),
            BindModel::Json(docs.last().data@),
        ]
    }
}

/// Builds the one statement of a bulk upsert, or nothing for an empty batch:
/// an empty input issues no statement at all. Each document contributes one
/// VALUES tuple and two bindings, id first; the whole batch succeeds or
/// fails as this single statement.
#[verifier::loop_isolation(false)]
pub fn build_upsert(db_name: &str, table_name: &str, items: &Vec<Doc>) -> (r: Option<(
    String,
    Vec<BindValue>,
)>)
    requires
        items@.len() * 2 + 2 <= u64::MAX,
    ensures
        r is None <==> items@.len() == 0,
        r matches Some(q) ==> q.0@ == upsert_sql_model(db_name@, table_name@, items@.len() as int)
            && binds_view(q.1@) == upsert_binds_model(items@),
{
    if items.len() == 0 {
        return None;
    }
    let mut values = String::new();
    let mut args: Vec<BindValue> = Vec::new();
    let mut i: usize = 0;
    while i < items.len()
        invariant
            0 <= i <= items.len(),
            values@ == values_list_model(i as int),
            binds_view(args@) == upsert_binds_model(items@.subrange(0, i as int)),
        decreases items.len() - i,
    {
        if i > 0 {
            values.append(", ");
        }
        values.append("($");
        let a = u64_to_string((i as u64) * 2 + 1);
        values.append(a.as_str());
        values.append(", $");
        let b = u64_to_string((i as u64) * 2 + 2);
        values.append(b.as_str());
        values.append(")");
        args.push(BindValue::Str(items[i]._id.clone()));
        args.push(BindValue::Json(items[i].data.deep_clone()));
        proof {
            let pre = items@.subrange(0, i as int);
            let cur = items@.subrange(0, i + 1);
            assert(cur.drop_last() =~= pre);
            assert(cur.last() == items@[i as int]);
            assert(values@ =~= values_list_model(i + 1));
            assert(binds_view(args@) =~= upsert_binds_model(cur));
        }
        i = i + 1;
    }
    let mut sql = String::from_str("INSERT INTO ");
    sql.append(db_name);
    sql.append(".");
    sql.append(table_name);
    sql.append(" (_id, data) VALUES ");
    sql.append(values.as_str());
    sql.append(
        " ON CONFLICT (_id) DO UPDATE SET data = EXCLUDED.data, _updated_at = (EXTRACT(EPOCH FROM NOW()) * 1000)::BIGINT RETURNING (xmax = 0) AS inserted;",
    );
    proof {
        assert(items@.subrange(0, items@.len() as int) =~= items@);
        assert(sql@ =~= upsert_sql_model(db_name@, table_name@, items@.len() as int));
    }
    Some((sql, args))
}

/// How many of the flags are set.
pub open spec fn count_true(flags: Seq<bool>) -> int
    decreases flags,
{
    if flags.len() == 0 {
        0
    } else {
        count_true(flags.drop_last()) + if flags.last() {
            1int
        } else {
            0
        }
    }
}

/// Tallies the per-row was-inserted markers of an upsert: every set flag is
/// a created row, every cleared flag an updated one, and together they
/// account for every affected row.
#[verifier::loop_isolation(false)]
pub fn upsert_counts(flags: &Vec<bool>) -> (r: UpsertResult)
    requires
        flags@.len() <= u32::MAX,
    ensures
        r.created_count == count_true(flags@),
        r.updated_count == flags@.len() - count_true(flags@),
{
    let mut created: u32 = 0;
    let mut i: usize = 0;
    while i < flags.len()
        invariant
            0 <= i <= flags.len(),
            0 <= created <= i,
            created == count_true(flags@.subrange(0, i as int)),
        decreases flags.len() - i,
    {
        proof {
            let pre = flags@.subrange(0, i as int);
            let cur = flags@.subrange(0, i + 1);
            assert(cur.drop_last() =~= pre);
            assert(cur.last() == flags@[i as int]);
        }
        if flags[i] {
            created = created + 1;
        }
        i = i + 1;
    }
    proof {
        assert(flags@.subrange(0, flags@.len() as int) =~= flags@);
    }
    UpsertResult {
        created_count: created,
        updated_count: (flags.len() as u32) - created,
    }
}

/// The payload rewrite of a patch with `k` keys: a chain of JSON set-at-path
/// calls over the stored payload, one per key in key order, each creating
/// the path if absent and overwriting it otherwise. Key `j` (from zero)
/// consumes placeholders `2j+1` (the path) and `2j+2` (the value).
pub open spec fn jsonb_expr_model(k: int) -> Seq<char>
    decreases k,
{
    if k <= 0 {
        "data"@
    } else {
        "jsonb_set("@ + jsonb_expr_model(k - 1) + ", $"@ + dec_str(2 * (k - 1) + 1) + ", $"@
            + dec_str(2 * (k - 1) + 2) + ", true)"@
    }
}

/// The bindings of the patch keys: per key, its path (a one-element text
/// array) then its value, in key order — all before any filter binding.
pub open spec fn patch_binds_model(fields: Seq<(Seq<char>, JsonModel)>) -> Seq<BindModel>
    decreases fields,
{
    if fields.len() == 0 {
        Seq::<BindModel>::empty()
    } else {
        patch_binds_model(fields.drop_last()) + seq![
            BindModel::StrArr(seq![fields.last().0]),
            BindModel::Json(fields.last().1),
        ]
    }
}

/// The single statement of a patch: the rewritten payload, a refreshed
/// update time, and the compiled filter deciding which rows are touched.
pub open spec fn update_sql_model(
    db: Seq<char>,
    table: Seq<char>,
    npatch: int,
    where_sql: Seq<char>,
) -> Seq<char> {
    "UPDATE "@ + db + "."@ + table + " SET data = "@ + jsonb_expr_model(npatch)
        + ", _updated_at = EXTRACT(EPOCH FROM NOW()) * 1000 WHERE "@ + where_sql
        + " RETURNING _id;"@
}

/// Builds the one statement of a patch. Patch-value placeholders come before
/// filter placeholders: each key takes two in key order, then the filter is
/// compiled continuing the same numbering. A rejected filter rejects the
/// whole request.
#[verifier::loop_isolation(false)]
pub fn build_update(db_name: &str, table_name: &str, params: &PatchParams) -> (r: Result<(
    String,
    Vec<BindValue>,
), Error>)
    requires
        params.patch@.len() * 2 + 1 <= u32::MAX,
    ensures
        ({
            let np = params.patch@.len() as int;
            let m = compile_model(params.filter@, 2 * np + 1);
            match r {
                Ok(q) => m matches Some(p) && q.0@ == update_sql_model(
                    db_name@,
                    table_name@,
                    np,
                    p.0,
                ) && binds_view(q.1@) == patch_binds_model(json_field_views(params.patch@)) + p.1,
                Err(e) => m is None && e is Validation,
            }
        }),
{
    broadcast use crate::json::lemma_json_field_views;

    let mut jsonb_expr = String::from_str("data");
    let mut args: Vec<BindValue> = Vec::new();
    let mut k: usize = 0;
    while k < params.patch.len()
        invariant
            0 <= k <= params.patch@.len(),
            args@.len() == 2 * k,
            jsonb_expr@ == jsonb_expr_model(k as int),
            binds_view(args@) == patch_binds_model(
                json_field_views(params.patch@.subrange(0, k as int)),
            ),
        decreases params.patch@.len() - k,
    {
        let mut e2 = String::from_str("jsonb_set(");
        e2.append(jsonb_expr.as_str());
        e2.append(", $");
        let a = u64_to_string((k as u64) * 2 + 1);
        e2.append(a.as_str());
        e2.append(", $");
        let b = u64_to_string((k as u64) * 2 + 2);
        e2.append(b.as_str());
        e2.append(", true)");
        jsonb_expr = e2;
        let mut path: Vec<String> = Vec::new();
        path.push(params.patch[k].key.clone());
        proof {
            assert(Seq::new(path@.len(), |i: int| path@[i]@) =~= seq![
                params.patch@[k as int].key@,
            ]);
        }
        args.push(BindValue::StrArr(path));
        args.push(BindValue::Json(params.patch[k].value.deep_clone()));
        proof {
            let pre = json_field_views(params.patch@.subrange(0, k as int));
            let cur = json_field_views(params.patch@.subrange(0, k + 1));
            crate::json::lemma_json_field_views(params.patch@.subrange(0, k as int));
            crate::json::lemma_json_field_views(params.patch@.subrange(0, k + 1));
            assert(cur.drop_last() =~= pre);
            assert(cur.last() == (
                params.patch@[k as int].key@,
                crate::json::json_view(params.patch@[k as int].value),
            ));
            assert(patch_binds_model(cur) == patch_binds_model(pre) + seq![
                BindModel::StrArr(seq![params.patch@[k as int].key@]),
                BindModel::Json(crate::json::json_view(params.patch@[k as int].value)),
            ]);
            assert(jsonb_expr@ =~= jsonb_expr_model(k + 1));
            assert(binds_view(args@) =~= patch_binds_model(cur));
        }
        k = k + 1;
    }
    proof {
        assert(params.patch@.subrange(0, params.patch@.len() as int) =~= params.patch@);
    }
    let mut seq_n: u32 = (params.patch.len() as u32) * 2 + 1;
    let where_sql = match cond_to_sql(&params.filter, &mut args, &mut seq_n) {
        Ok(s) => s,
        Err(e) => {
            return Err(e);
        },
    };
    let mut sql = String::from_str("UPDATE ");
    sql.append(db_name);
    sql.append(".");
    sql.append(table_name);
    sql.append(" SET data = ");
    sql.append(jsonb_expr.as_str());
    sql.append(", _updated_at = EXTRACT(EPOCH FROM NOW()) * 1000 WHERE ");
    sql.append(where_sql.as_str());
    sql.append(" RETURNING _id;");
    proof {
        let np = params.patch@.len() as int;
        let p = compile_model(params.filter@, 2 * np + 1)->Some_0;
        assert(sql@ =~= update_sql_model(db_name@, table_name@, np, p.0));
        assert(binds_view(args@) =~= patch_binds_model(json_field_views(params.patch@)) + p.1);
    }
    Ok((sql, args))
}

/// How many rows a patch matched, from the ids the statement returned. A
/// zero count is a result, not an error.
pub fn finish_update(matched_rows: usize) -> (r: UpdateResult)
    requires
        matched_rows <= u32::MAX,
    ensures
        r.updated_count == matched_rows,
{
    UpdateResult { updated_count: matched_rows as u32 }
}

/// The single statement of a delete: the compiled filter decides which rows
/// go; there is no unconditional delete-all.
pub open spec fn delete_sql_model(db: Seq<char>, table: Seq<char>, where_sql: Seq<char>) -> Seq<
    char,
> {
    "DELETE FROM "@ + db + "."@ + table + " WHERE "@ + where_sql + " RETURNING _id;"@
}

/// Builds the one statement of a delete, compiling the mandatory filter from
/// placeholder 1. A rejected filter rejects the whole request.
pub fn build_delete(db_name: &str, table_name: &str, params: &DeleteParams) -> (r: Result<(
    String,
    Vec<BindValue>,
), Error>)
    ensures
        ({
            let m = compile_model(params.filter@, 1);
            match r {
                Ok(q) => m matches Some(p) && q.0@ == delete_sql_model(
                    db_name@,
                    table_name@,
                    p.0,
                ) && binds_view(q.1@) == p.1,
                Err(e) => m is None && e is Validation,
            }
        }),
{
    let mut seq_n: u32 = 1;
    let mut bindings: Vec<BindValue> = Vec::new();
    let where_sql = match cond_to_sql(&params.filter, &mut bindings, &mut seq_n) {
        Ok(s) => s,
        Err(e) => {
            return Err(e);
        },
    };
    let mut sql = String::from_str("DELETE FROM ");
    sql.append(db_name);
    sql.append(".");
    sql.append(table_name);
    sql.append(" WHERE ");
    sql.append(where_sql.as_str());
    sql.append(" RETURNING _id;");
    proof {
        let p = compile_model(params.filter@, 1)->Some_0;
        assert(sql@ =~= delete_sql_model(db_name@, table_name@, p.0));
        assert(binds_view(bindings@) =~= p.1);
    }
    Ok((sql, bindings))
}

/// How many rows a delete removed, from the ids the statement returned. A
/// filter matching nothing yields zero, not an error.
pub fn finish_delete(deleted_rows: usize) -> (r: DeleteResult)
    requires
        deleted_rows <= u32::MAX,
    ensures
        r.deleted_count == deleted_rows,
{
    DeleteResult { deleted_count: deleted_rows as u32 }
}

} // verus!
