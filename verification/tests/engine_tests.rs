use rest_model::doc::Doc;
use rest_model::engine::{
    build_delete, build_paginate, build_update, build_upsert, finish_delete, finish_update,
    init_sql, paginate_result, select_by_id_query, select_result, should_fetch_items,
    upsert_counts,
};
use rest_model::json::{BindValue, JsonField, JsonValue};
use rest_model::pagination::PaginationParams;
use rest_model::params::{Condition, DeleteParams, PatchParams};
use rest_model::Error;

#[test]
fn test_init_sql() {
    assert_eq!(
        init_sql("mydb.public", "users"),
        "CREATE TABLE IF NOT EXISTS mydb.public.users (_id VARCHAR(24) PRIMARY KEY, data JSONB NOT NULL, _created_at BIGINT DEFAULT (EXTRACT(EPOCH FROM NOW()) * 1000)::BIGINT, _updated_at BIGINT DEFAULT (EXTRACT(EPOCH FROM NOW()) * 1000)::BIGINT)"
    );
}

#[test]
fn test_select_by_id_query() {
    let (sql, binds) = select_by_id_query("mydb.public", "users", "67c707bc698b8e529f994670");
    assert_eq!(sql, "SELECT * FROM mydb.public.users WHERE _id = $1");
    assert_eq!(binds.len(), 1);
    assert!(matches!(&binds[0], BindValue::Str(s) if s == "67c707bc698b8e529f994670"));
}

#[test]
fn test_select_result_absent_id_is_not_found() {
    let r = select_result(vec![]);
    assert!(matches!(r, Err(Error::NotFound)));
}

#[test]
fn test_select_result_returns_first_row() {
    let doc = Doc {
        _id: "a".to_string(),
        data: JsonValue::Num(1),
        _created_at: 5,
        _updated_at: 6,
    };
    let r = select_result(vec![doc]).unwrap();
    assert_eq!(r._id, "a");
    assert_eq!(r._created_at, 5);
    assert_eq!(r._updated_at, 6);
}

#[test]
fn test_build_paginate_defaults() {
    let params = PaginationParams {
        page: None,
        limit: None,
        sort: None,
        filter: None,
        custom: None,
    };
    let q = build_paginate("mydb.public", "users", &params).unwrap();
    assert_eq!(q.page, 1);
    assert_eq!(q.limit, 10);
    assert_eq!(q.count_sql, "SELECT COUNT(*) FROM mydb.public.users ");
    assert_eq!(
        q.select_sql,
        "SELECT * FROM mydb.public.users  ORDER BY _id ASC LIMIT 10 OFFSET 0"
    );
    assert_eq!(q.bindings.len(), 0);
}

#[test]
fn test_build_paginate_with_filter_and_sort() {
    let params = PaginationParams {
        page: Some(2),
        limit: Some(3),
        sort: Some("+age".to_string()),
        filter: Some(Condition::Eq(
            "name".to_string(),
            JsonValue::Str("Tom".to_string()),
        )),
        custom: None,
    };
    let q = build_paginate("mydb.public", "users", &params).unwrap();
    assert_eq!(q.page, 2);
    assert_eq!(q.limit, 3);
    assert_eq!(
        q.count_sql,
        "SELECT COUNT(*) FROM mydb.public.users WHERE data#>'{name}' = $1"
    );
    assert_eq!(
        q.select_sql,
        "SELECT * FROM mydb.public.users WHERE data#>'{name}' = $1 ORDER BY data#>>'{age}' ASC LIMIT 3 OFFSET 3"
    );
    assert_eq!(q.bindings.len(), 1);
}

#[test]
fn test_build_paginate_clamps_and_rejects() {
    let params = PaginationParams {
        page: Some(0),
        limit: Some(0),
        sort: None,
        filter: None,
        custom: None,
    };
    let q = build_paginate("d", "t", &params).unwrap();
    assert_eq!(q.page, 1);
    assert_eq!(q.limit, 1);

    let params = PaginationParams {
        page: None,
        limit: None,
        sort: Some("+bad;sort".to_string()),
        filter: None,
        custom: None,
    };
    assert!(matches!(
        build_paginate("d", "t", &params),
        Err(Error::Validation(_))
    ));
}

#[test]
fn test_pagination_arithmetic() {
    let r = paginate_result(25, 1, 10, vec![]);
    assert_eq!(r.pagination.total_pages, 3);
    assert_eq!(r.pagination.total_count, 25);
    assert_eq!(r.pagination.current_page, 1);
    assert_eq!(r.pagination.items_per_page, 10);

    let r = paginate_result(0, 1, 10, vec![]);
    assert_eq!(r.pagination.total_pages, 0);
    assert!(!should_fetch_items(0));
    assert!(should_fetch_items(1));

    let r = paginate_result(30, 2, 10, vec![]);
    assert_eq!(r.pagination.total_pages, 3);
    let r = paginate_result(1, 1, 10, vec![]);
    assert_eq!(r.pagination.total_pages, 1);
}

#[test]
fn test_build_upsert_empty_issues_nothing() {
    assert!(build_upsert("d", "t", &vec![]).is_none());
}

#[test]
fn test_build_upsert_statement() {
    let docs = vec![
        Doc {
            _id: "id1".to_string(),
            data: JsonValue::Num(1),
            _created_at: 0,
            _updated_at: 0,
        },
        Doc {
            _id: "id2".to_string(),
            data: JsonValue::Num(2),
            _created_at: 0,
            _updated_at: 0,
        },
    ];
    let (sql, args) = build_upsert("mydb.public", "users", &docs).unwrap();
    assert_eq!(
        sql,
        "INSERT INTO mydb.public.users (_id, data) VALUES ($1, $2), ($3, $4) ON CONFLICT (_id) DO UPDATE SET data = EXCLUDED.data, _updated_at = (EXTRACT(EPOCH FROM NOW()) * 1000)::BIGINT RETURNING (xmax = 0) AS inserted;"
    );
    assert_eq!(args.len(), 4);
    assert!(matches!(&args[0], BindValue::Str(s) if s == "id1"));
    assert!(matches!(&args[1], BindValue::Json(JsonValue::Num(1))));
    assert!(matches!(&args[2], BindValue::Str(s) if s == "id2"));
    assert!(matches!(&args[3], BindValue::Json(JsonValue::Num(2))));
}

#[test]
fn test_upsert_counts() {
    let r = upsert_counts(&vec![true, true, true, true]);
    assert_eq!(r.created_count, 4);
    assert_eq!(r.updated_count, 0);

    let r = upsert_counts(&vec![false, false, false, false]);
    assert_eq!(r.created_count, 0);
    assert_eq!(r.updated_count, 4);

    let r = upsert_counts(&vec![true, false, true]);
    assert_eq!(r.created_count, 2);
    assert_eq!(r.updated_count, 1);

    let r = upsert_counts(&vec![]);
    assert_eq!(r.created_count, 0);
    assert_eq!(r.updated_count, 0);
}

#[test]
fn test_build_update_statement() {
    let params = PatchParams {
        filter: Condition::Eq("name".to_string(), JsonValue::Str("Spike".to_string())),
        patch: vec![
            JsonField {
                key: "age".to_string(),
                value: JsonValue::Num(9),
            },
            JsonField {
                key: "info".to_string(),
                value: JsonValue::Null,
            },
        ],
    };
    let (sql, args) = build_update("mydb.public", "users", &params).unwrap();
    assert_eq!(
        sql,
        "UPDATE mydb.public.users SET data = jsonb_set(jsonb_set(data, $1, $2, true), $3, $4, true), _updated_at = EXTRACT(EPOCH FROM NOW()) * 1000 WHERE data#>'{name}' = $5 RETURNING _id;"
    );
    assert_eq!(args.len(), 5);
    assert!(matches!(&args[0], BindValue::StrArr(v) if v.as_slice() == ["age".to_string()]));
    assert!(matches!(&args[1], BindValue::Json(JsonValue::Num(9))));
    assert!(matches!(&args[2], BindValue::StrArr(v) if v.as_slice() == ["info".to_string()]));
    assert!(matches!(&args[3], BindValue::Json(JsonValue::Null)));
    assert!(matches!(&args[4], BindValue::Json(JsonValue::Str(s)) if s == "Spike"));
    assert_eq!(finish_update(0).updated_count, 0);
}

#[test]
fn test_build_delete_statement() {
    let params = DeleteParams {
        filter: Condition::Eq("age".to_string(), JsonValue::Num(8)),
    };
    let (sql, binds) = build_delete("mydb.public", "users", &params).unwrap();
    assert_eq!(
        sql,
        "DELETE FROM mydb.public.users WHERE data#>'{age}' = $1 RETURNING _id;"
    );
    assert_eq!(binds.len(), 1);

    let bad = DeleteParams {
        filter: Condition::Eq("age'; DROP TABLE users".to_string(), JsonValue::Num(8)),
    };
    assert!(matches!(
        build_delete("mydb.public", "users", &bad),
        Err(Error::Validation(_))
    ));
}

#[test]
fn test_delete_matching_nothing_is_zero_not_error() {
    assert_eq!(finish_delete(0).deleted_count, 0);
    assert_eq!(finish_delete(3).deleted_count, 3);
}

#[test]
fn test_doc_new_timestamps_agree() {
    let d = Doc::new("abc".to_string(), JsonValue::Bool(true));
    assert_eq!(d._id, "abc");
    assert!(matches!(d.data, JsonValue::Bool(true)));
    assert_eq!(d._created_at, d._updated_at);
}

#[test]
fn test_deep_clone_equals_original() {
    let v = JsonValue::Obj(vec![
        JsonField {
            key: "a".to_string(),
            value: JsonValue::Arr(vec![JsonValue::Num(1), JsonValue::Str("x".to_string())]),
        },
        JsonField {
            key: "b".to_string(),
            value: JsonValue::Null,
        },
    ]);
    let c = v.deep_clone();
    match (&v, &c) {
        (JsonValue::Obj(a), JsonValue::Obj(b)) => {
            assert_eq!(a.len(), b.len());
            assert_eq!(a[0].key, b[0].key);
            assert_eq!(a[1].key, b[1].key);
            assert!(matches!(&b[0].value, JsonValue::Arr(items) if items.len() == 2));
            assert!(matches!(&b[1].value, JsonValue::Null));
        }
        _ => panic!("expected objects"),
    }
}

#[test]
fn test_error_message() {
    assert_eq!(Error::NotFound.message(), "Document not found");
    assert_eq!(
        Error::Validation("Invalid characters in input".to_string()).message(),
        "Invalid characters in input"
    );
}
