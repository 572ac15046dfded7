use rest_model::json::{BindValue, JsonValue};
use rest_model::params::Condition;
use rest_model::query::{array_comparison, check_invalid_chars, cond_to_sql, normal_comparison, sort_to_sql};

#[test]
fn test_sort_to_sql() {
    assert_eq!(sort_to_sql("+name").unwrap(), "data#>>'{name}' ASC");
    assert_eq!(sort_to_sql("-age").unwrap(), "data#>>'{age}' DESC");
    assert_eq!(
        sort_to_sql("+name-age").unwrap(),
        "data#>>'{name}' ASC, data#>>'{age}' DESC"
    );
    assert_eq!(sort_to_sql("").unwrap(), "_id ASC");
}

#[test]
fn test_normal_comparison() {
    let mut seq = 1;
    let mut bindings: Vec<BindValue> = Vec::new();

    let sql = normal_comparison(
        &mut seq,
        &mut bindings,
        "_id",
        "=",
        &JsonValue::Str("123".to_string()),
    )
    .unwrap();
    assert_eq!(sql, "_id = $1");
    assert_eq!(bindings.len(), 1);

    let sql = normal_comparison(
        &mut seq,
        &mut bindings,
        "_created_at",
        ">",
        &JsonValue::Num(123456),
    )
    .unwrap();
    assert_eq!(sql, "_created_at > $2");
    assert_eq!(bindings.len(), 2);

    let sql = normal_comparison(&mut seq, &mut bindings, "age", "<", &JsonValue::Num(30)).unwrap();
    assert_eq!(sql, "data#>'{age}' < $3");
    assert_eq!(bindings.len(), 3);
}

#[test]
fn test_array_comparison() {
    let mut seq = 1;
    let mut bindings: Vec<BindValue> = Vec::new();

    let ids = JsonValue::Arr(vec![
        JsonValue::Str("a1".to_string()),
        JsonValue::Str("b2".to_string()),
        JsonValue::Str("c3".to_string()),
    ]);
    let sql = array_comparison(&mut seq, &mut bindings, "_id", &ids).unwrap();
    assert_eq!(sql, "_id = ANY($1)");
    assert_eq!(bindings.len(), 1);

    let ages = JsonValue::Arr(vec![
        JsonValue::Num(20),
        JsonValue::Num(25),
        JsonValue::Num(30),
    ]);
    let sql = array_comparison(&mut seq, &mut bindings, "age", &ages).unwrap();
    assert!(sql.contains("ANY($2)"));
    assert_eq!(bindings.len(), 2);
}

#[test]
fn test_cond_to_sql() {
    let mut seq = 1;
    let mut bindings: Vec<BindValue> = Vec::new();

    let cond = Condition::Eq("_id".to_string(), JsonValue::Str("123".to_string()));
    let sql = cond_to_sql(&cond, &mut bindings, &mut seq).unwrap();
    assert_eq!(sql, "_id = $1");
    assert_eq!(bindings.len(), 1);

    let cond = Condition::In(
        "age".to_string(),
        JsonValue::Arr(vec![
            JsonValue::Num(25),
            JsonValue::Num(30),
            JsonValue::Num(35),
        ]),
    );
    let sql = cond_to_sql(&cond, &mut bindings, &mut seq).unwrap();
    assert!(sql.contains("ANY($2)"));
    assert_eq!(bindings.len(), 2);

    let cond = Condition::And(vec![
        Condition::Gt("score".to_string(), JsonValue::Num(80)),
        Condition::Lt("score".to_string(), JsonValue::Num(100)),
    ]);
    let sql = cond_to_sql(&cond, &mut bindings, &mut seq).unwrap();
    assert_eq!(&sql, "(data#>'{score}' > $3 AND data#>'{score}' < $4)");
    assert_eq!(bindings.len(), 4);
}

#[test]
fn test_regex_conditions() {
    let mut seq = 1;
    let mut bindings: Vec<BindValue> = Vec::new();

    let cond = Condition::Regex("name".to_string(), JsonValue::Str("^J.*".to_string()));
    let sql = cond_to_sql(&cond, &mut bindings, &mut seq).unwrap();
    assert_eq!(sql, "data#>>'{name}' ~ $1");
    assert_eq!(bindings.len(), 1);

    let cond = Condition::Regexi("name".to_string(), JsonValue::Str("^J.*".to_string()));
    let sql = cond_to_sql(&cond, &mut bindings, &mut seq).unwrap();
    assert_eq!(sql, "data#>>'{name}' ~* $2");
    assert_eq!(bindings.len(), 2);
}

#[test]
fn test_invalid_chars() {
    assert!(check_invalid_chars("valid_field").is_ok());
    assert!(check_invalid_chars("invalid'field").is_err());
    assert!(check_invalid_chars("invalid(field)").is_err());
}

#[test]
fn test_invalid_field_rejects_whole_condition() {
    let mut seq = 1;
    let mut bindings: Vec<BindValue> = Vec::new();
    for field in ["bad'field", "bad(field", "bad)field", "bad;field"] {
        let cond = Condition::Eq(field.to_string(), JsonValue::Str("x".to_string()));
        let r = cond_to_sql(&cond, &mut bindings, &mut seq);
        assert!(matches!(r, Err(rest_model::Error::Validation(_))));
    }
    let sort = sort_to_sql("+bad;field");
    assert!(matches!(sort, Err(rest_model::Error::Validation(_))));
}

#[test]
fn test_empty_array_membership() {
    let mut seq = 1;
    let mut bindings: Vec<BindValue> = Vec::new();

    let cond = Condition::In("tags".to_string(), JsonValue::Arr(vec![]));
    let sql = cond_to_sql(&cond, &mut bindings, &mut seq).unwrap();
    assert_eq!(sql, "FALSE");
    assert_eq!(seq, 1);
    assert_eq!(bindings.len(), 0);

    let cond = Condition::Nin("tags".to_string(), JsonValue::Arr(vec![]));
    let sql = cond_to_sql(&cond, &mut bindings, &mut seq).unwrap();
    assert_eq!(sql, "(NOT (FALSE))");
    assert_eq!(seq, 1);
    assert_eq!(bindings.len(), 0);
}

#[test]
fn test_compile_is_deterministic() {
    let cond = Condition::Or(vec![
        Condition::Regexi("name".to_string(), JsonValue::Str("^a".to_string())),
        Condition::Nin(
            "age".to_string(),
            JsonValue::Arr(vec![JsonValue::Num(1), JsonValue::Num(2)]),
        ),
    ]);
    let mut seq1 = 1;
    let mut binds1: Vec<BindValue> = Vec::new();
    let sql1 = cond_to_sql(&cond, &mut binds1, &mut seq1).unwrap();
    let mut seq2 = 1;
    let mut binds2: Vec<BindValue> = Vec::new();
    let sql2 = cond_to_sql(&cond, &mut binds2, &mut seq2).unwrap();
    assert_eq!(sql1, sql2);
    assert_eq!(seq1, seq2);
    assert_eq!(binds1.len(), binds2.len());
}

#[test]
fn test_placeholders_match_bindings() {
    let cond = Condition::And(vec![
        Condition::Eq("a".to_string(), JsonValue::Num(1)),
        Condition::Not(Box::new(Condition::In(
            "b".to_string(),
            JsonValue::Arr(vec![JsonValue::Str("x".to_string())]),
        ))),
        Condition::In("c".to_string(), JsonValue::Arr(vec![])),
        Condition::Regex("d".to_string(), JsonValue::Str("^d".to_string())),
    ]);
    let mut seq = 5;
    let mut bindings: Vec<BindValue> = Vec::new();
    let sql = cond_to_sql(&cond, &mut bindings, &mut seq).unwrap();
    assert_eq!(seq as usize, 5 + bindings.len());
    assert!(sql.contains("$5"));
    assert!(sql.contains("$6"));
    assert!(sql.contains("$7"));
    assert!(!sql.contains("$8"));
}

#[test]
fn test_value_type_mismatches_rejected() {
    let mut seq = 1;
    let mut bindings: Vec<BindValue> = Vec::new();

    let cond = Condition::Eq("age".to_string(), JsonValue::Bool(true));
    assert!(cond_to_sql(&cond, &mut bindings, &mut seq).is_err());

    let cond = Condition::Regex("name".to_string(), JsonValue::Num(3));
    assert!(cond_to_sql(&cond, &mut bindings, &mut seq).is_err());

    let cond = Condition::In("age".to_string(), JsonValue::Str("not-an-array".to_string()));
    assert!(cond_to_sql(&cond, &mut bindings, &mut seq).is_err());

    let mixed = Condition::In(
        "age".to_string(),
        JsonValue::Arr(vec![JsonValue::Num(1), JsonValue::Str("two".to_string())]),
    );
    assert!(cond_to_sql(&mixed, &mut bindings, &mut seq).is_err());

    let bad_id = Condition::In(
        "_id".to_string(),
        JsonValue::Arr(vec![JsonValue::Num(1)]),
    );
    assert!(cond_to_sql(&bad_id, &mut bindings, &mut seq).is_err());
}

#[test]
fn test_dotted_fields_and_string_arrays() {
    let mut seq = 1;
    let mut bindings: Vec<BindValue> = Vec::new();

    let cond = Condition::Eq("info.city".to_string(), JsonValue::Str("Oslo".to_string()));
    let sql = cond_to_sql(&cond, &mut bindings, &mut seq).unwrap();
    assert_eq!(sql, "data#>'{info,city}' = $1");
    assert!(matches!(&bindings[0], BindValue::Json(JsonValue::Str(s)) if s == "Oslo"));

    let cond = Condition::In(
        "name".to_string(),
        JsonValue::Arr(vec![
            JsonValue::Str("Tom".to_string()),
            JsonValue::Str("Jerry".to_string()),
        ]),
    );
    let sql = cond_to_sql(&cond, &mut bindings, &mut seq).unwrap();
    assert_eq!(sql, "data#>>'{name}' = ANY($2)");
    assert!(
        matches!(&bindings[1], BindValue::StrArr(v) if v.len() == 2 && v[0] == "Tom" && v[1] == "Jerry")
    );

    let cond = Condition::In(
        "age".to_string(),
        JsonValue::Arr(vec![JsonValue::Num(20), JsonValue::Num(25)]),
    );
    let sql = cond_to_sql(&cond, &mut bindings, &mut seq).unwrap();
    assert_eq!(sql, "(data#>'{age}')::FLOAT8 = ANY($3)");
    assert!(matches!(&bindings[2], BindValue::NumArr(v) if v.as_slice() == [20, 25]));
}
