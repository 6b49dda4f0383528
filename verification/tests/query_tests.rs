use feedscan::json::JsonValue;
use feedscan::query::{
    after_execute, cell_json, first_step, is_select_query, returned_rows, row_json, rows_response,
    sql_param, stage_failure, update_response, AfterExecute, DbStage, DbStep, ParamSource,
    SqlCell, SqlParam,
};

fn num(t: &str) -> JsonValue {
    JsonValue::Number(t.to_string())
}

#[test]
fn queries_are_recognised_after_trimming_and_upper_casing() {
    assert!(is_select_query("  select * from feeds"));
    assert!(is_select_query("SELECT 1"));
    assert!(is_select_query("selection"));
    assert!(!is_select_query("UPDATE feeds SET x = 1"));
    assert!(!is_select_query(""));
    assert_eq!(first_step("\nSeLeCt 1"), DbStep::Query);
    assert_eq!(first_step("INSERT INTO t VALUES (1)"), DbStep::Execute);
}

#[test]
fn returned_rows_error_is_recognised() {
    assert!(returned_rows("Execute returned results - did you mean to call query?"));
    assert!(!returned_rows("no such table: x"));
}

#[test]
fn parameters_are_bound_by_kind() {
    assert_eq!(sql_param(ParamSource::Null), SqlParam::Null);
    assert_eq!(sql_param(ParamSource::Bool(true)), SqlParam::Integer(1));
    assert_eq!(sql_param(ParamSource::Bool(false)), SqlParam::Integer(0));
    assert_eq!(
        sql_param(ParamSource::Number { integer: Some(5), has_float: true, text: "5".into() }),
        SqlParam::Integer(5)
    );
    assert_eq!(
        sql_param(ParamSource::Number { integer: None, has_float: true, text: "1.5".into() }),
        SqlParam::Real
    );
    assert_eq!(
        sql_param(ParamSource::Number { integer: None, has_float: false, text: "1e999".into() }),
        SqlParam::Text("1e999".into())
    );
    assert_eq!(sql_param(ParamSource::Str("s".into())), SqlParam::Text("s".into()));
    assert_eq!(sql_param(ParamSource::Compound("[1,2]".into())), SqlParam::Text("[1,2]".into()));
}

#[test]
fn cells_become_json() {
    assert_eq!(cell_json(SqlCell::Null), JsonValue::Null);
    assert_eq!(cell_json(SqlCell::Integer(-5)), num("-5"));
    assert_eq!(cell_json(SqlCell::Integer(i64::MIN)), num("-9223372036854775808"));
    assert_eq!(cell_json(SqlCell::Integer(1234567890)), num("1234567890"));
    assert_eq!(cell_json(SqlCell::Real("1.5".into())), num("1.5"));
    assert_eq!(cell_json(SqlCell::Text("t".into())), JsonValue::Str("t".into()));
    assert_eq!(cell_json(SqlCell::Blob), JsonValue::Str("BLOB".into()));
}

#[test]
fn rows_and_answers() {
    let row = row_json(vec![("a".to_string(), SqlCell::Null), ("b".to_string(), SqlCell::Integer(3))]);
    assert_eq!(
        row,
        JsonValue::Object(vec![("a".to_string(), JsonValue::Null), ("b".to_string(), num("3"))])
    );
    assert_eq!(
        rows_response(vec![]),
        JsonValue::Object(vec![
            ("success".to_string(), JsonValue::Bool(true)),
            ("data".to_string(), JsonValue::Array(vec![])),
        ])
    );
    assert_eq!(
        update_response(-1, 2),
        JsonValue::Object(vec![
            ("success".to_string(), JsonValue::Bool(true)),
            (
                "data".to_string(),
                JsonValue::Object(vec![
                    ("lastInsertRowid".to_string(), num("-1")),
                    ("changes".to_string(), num("2")),
                ])
            ),
        ])
    );
}

#[test]
fn what_follows_an_update() {
    assert_eq!(after_execute(Ok((4, 1))), AfterExecute::Done(update_response(4, 1)));
    assert_eq!(after_execute(Err("Execute returned results".to_string())), AfterExecute::QueryAgain);
    assert_eq!(
        after_execute(Err("no such table: x".to_string())),
        AfterExecute::Failed("执行失败: no such table: x".to_string())
    );
}

#[test]
fn stage_failures() {
    assert_eq!(stage_failure(DbStage::Connect, "x"), "数据库连接失败: x");
    assert_eq!(stage_failure(DbStage::Prepare, "x"), "SQL 准备失败: x");
    assert_eq!(stage_failure(DbStage::Run, "x"), "查询执行失败: x");
    assert_eq!(stage_failure(DbStage::Row, "x"), "行解析失败: x");
}
